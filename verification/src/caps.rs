//! Mathematical models of the two injected capabilities: a text-read
//! capability (per-process pseudo-filesystem records) and a command-run
//! capability (spawning a shell and capturing its standard output).
//!
//! A capability is an arbitrary caller-supplied function, so nothing forces
//! two calls on the same argument to agree.  The contracts of the detection
//! functions are therefore conditional: *if* every outcome the capability
//! can produce agrees with a fixed table (a `Map` from argument text to
//! outcome), then the detection result is exactly what the specification
//! computes from that table.

use vstd::prelude::*;

use crate::errors::Failure;
use crate::errors::FailureModel;

verus! {

/// A model of a read capability: what text (or failure) each path holds.
pub type ReadMap = Map<Seq<char>, Result<Seq<char>, FailureModel>>;

/// A model of a run capability: what output bytes (or failure) each command
/// name produces.
pub type RunMap = Map<Seq<char>, Result<Seq<u8>, FailureModel>>;

/// One read outcome agrees with the table `rd` at path `p`.
pub open spec fn read_consistent(rd: ReadMap, p: Seq<char>, ret: Result<String, Failure>) -> bool {
    &&& rd.contains_key(p)
    &&& match (ret, rd[p]) {
        (Result::Ok(s), Result::Ok(t)) => s@ == t,
        (Result::Err(f), Result::Err(fm)) => f@ == fm,
        _ => false,
    }
}

/// Every outcome the read capability can produce agrees with the table `rd`.
pub open spec fn read_behaves<R: Fn(&str) -> Result<String, Failure>>(
    read: R,
    rd: ReadMap,
) -> bool {
    forall|p: &str, ret: Result<String, Failure>|
        #[trigger] call_ensures(read, (p,), ret) ==> read_consistent(rd, p@, ret)
}

/// One run outcome agrees with the table `rn` at command name `n`.
pub open spec fn run_consistent(rn: RunMap, n: Seq<char>, ret: Result<Vec<u8>, Failure>) -> bool {
    &&& rn.contains_key(n)
    &&& match (ret, rn[n]) {
        (Result::Ok(b), Result::Ok(t)) => b@ == t,
        (Result::Err(f), Result::Err(fm)) => f@ == fm,
        _ => false,
    }
}

/// The optional text agrees with the modelled optional text.
pub open spec fn opt_string_matches(r: Option<String>, m: Option<Seq<char>>) -> bool {
    match (r, m) {
        (Option::Some(s), Option::Some(t)) => s@ == t,
        (Option::None, Option::None) => true,
        _ => false,
    }
}

/// The exec outcome agrees with the modelled outcome, message included.
pub open spec fn opt_result_matches(
    r: Result<Option<String>, Failure>,
    m: Result<Option<Seq<char>>, FailureModel>,
) -> bool {
    match (r, m) {
        (Result::Ok(o), Result::Ok(mo)) => opt_string_matches(o, mo),
        (Result::Err(f), Result::Err(fm)) => f@ == fm,
        _ => false,
    }
}

/// Every outcome the run capability can produce agrees with the table `rn`.
pub open spec fn run_behaves<X: FnOnce(&str, &[String]) -> Result<Vec<u8>, Failure>>(
    run: X,
    rn: RunMap,
) -> bool {
    forall|n: &str, a: &[String], ret: Result<Vec<u8>, Failure>|
        #[trigger] call_ensures(run, (n, a), ret) ==> run_consistent(rn, n@, ret)
}

} // verus!
