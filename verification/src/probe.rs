//! Probing a shell for its version: running the shell with its descriptor's
//! argument list, decoding the captured output as UTF-8 text, and extracting
//! the first substring that matches the descriptor's version pattern.

use vstd::prelude::*;
use vstd::utf8::decode_utf8;
use vstd::utf8::valid_utf8;

use crate::caps::RunMap;
use crate::caps::opt_result_matches;
use crate::caps::opt_string_matches;
use crate::caps::run_behaves;
use crate::catalog::classify;
use crate::catalog::is_catalog_name;
use crate::catalog::semver_pattern;
use crate::catalog::spec_invocation;
use crate::catalog::spec_pattern;
use crate::errors::ErrKind;
use crate::errors::Failure;
use crate::errors::FailureModel;

verus! {

/// The leftmost substring of the text that the pattern matches, or nothing
/// when the pattern does not compile or does not match.  The result is a
/// pure function of the pattern and the text alone.
pub uninterp spec fn regex_first_match(pattern: Seq<char>, text: Seq<char>) -> Option<Seq<char>>;

/// Relies on regex::Regex::new, regex::Regex::find and regex::Match::as_str:
/// `find` returns the leftmost match of the compiled pattern in the text,
/// deterministically from the pattern and the text alone; `as_str` is the
/// matched substring.  A pattern that does not compile yields no match.
#[verifier::external_body]
fn regex_find_first(pattern: &str, text: &str) -> (r: Option<String>)
    ensures
        opt_string_matches(r, regex_first_match(pattern@, text@)),
{
    match regex::Regex::new(pattern) {
        Ok(re) => re.find(text).map(|m| m.as_str().to_string()),
        Err(_) => None,
    }
}

/// Relies on String::from_utf8: it succeeds exactly on valid UTF-8 byte
/// sequences and then returns the text those bytes encode.
#[verifier::external_body]
fn utf8_to_string(bytes: Vec<u8>) -> (r: Option<String>)
    ensures
        (r matches Some(s) ==> valid_utf8(bytes@) && s@ == decode_utf8(bytes@)),
        r is None ==> !valid_utf8(bytes@),
{
    String::from_utf8(bytes).ok()
}

/// The argument list a version probe of `n` uses: the catalog's for a
/// catalog name, the common version flag for any other.
pub open spec fn probe_invocation(n: Seq<char>) -> Option<Seq<Seq<char>>> {
    if is_catalog_name(n) {
        spec_invocation(n)
    } else {
        Option::Some(seq!["--version"@])
    }
}

/// The version pattern a probe of `n` applies.
pub open spec fn probe_pattern(n: Seq<char>) -> Seq<char> {
    if is_catalog_name(n) {
        spec_pattern(n)
    } else {
        semver_pattern()
    }
}

/// What a version probe of `n` yields through a run table.
pub open spec fn probe_at(rn: RunMap, n: Seq<char>) -> Result<Option<Seq<char>>, FailureModel> {
    if probe_invocation(n) is None {
        Result::Ok(Option::None)
    } else {
        match rn[n] {
            Result::Err(fm) => Result::Err(fm),
            Result::Ok(bytes) => if !valid_utf8(bytes) {
                Result::Err(FailureModel { kind: ErrKind::InvalidData, message: "non utf8 bytes"@ })
            } else {
                Result::Ok(regex_first_match(probe_pattern(n), decode_utf8(bytes)))
            },
        }
    }
}

/// Probes the shell named `name` for its version through the run
/// capability: runs it with its descriptor's argument list, decodes the
/// captured output as text (`InvalidData` when the bytes are not valid
/// UTF-8), and extracts the first substring matching the descriptor's
/// version pattern.  A shell whose descriptor declares no version
/// invocation yields no version without the capability ever being invoked;
/// a run failure is propagated unchanged.  A name outside the catalog is
/// probed with the common version flag and the dotted-version pattern.
pub fn shell_version_with<X: FnOnce(&str, &[String]) -> Result<Vec<u8>, Failure>>(
    name: &str,
    run: X,
) -> (r: Result<Option<String>, Failure>)
    requires
        forall|n: &str, a: &[String]| #[trigger] call_requires(run, (n, a)),
    ensures
        forall|rn: RunMap| #[trigger] run_behaves(run, rn) ==> opt_result_matches(r, probe_at(rn, name@)),
        probe_invocation(name@) is None ==> (r matches Ok(v) && v is None),
{
    let (args, pattern): (Vec<String>, String) = match classify(name) {
        Option::Some(d) => {
            match d.invocation {
                Option::None => {
                    return Result::Ok(Option::None);
                },
                Option::Some(a) => (a, d.pattern),
            }
        },
        Option::None => {
            let mut a: Vec<String> = Vec::new();
            a.push("--version".to_owned());
            proof {
                assert(a.deep_view() =~= seq!["--version"@]);
            }
            (a, "[0-9]+\\.[0-9]+(?:\\.[0-9]+)?".to_owned())
        },
    };
    proof {
        assert(probe_invocation(name@) matches Some(i) && i == args.deep_view());
        assert(pattern@ == probe_pattern(name@));
    }
    let ret = run(name, args.as_slice());
    match ret {
        Result::Err(f) => {
            let r = Result::Err(f);
            proof {
                assert forall|rn: RunMap| #[trigger]
                    run_behaves(run, rn) implies opt_result_matches(r, probe_at(rn, name@)) by {}
            }
            r
        },
        Result::Ok(bytes) => {
            match utf8_to_string(bytes) {
                Option::None => {
                    let r = Result::Err(Failure::invalid_data("non utf8 bytes"));
                    proof {
                        assert forall|rn: RunMap| #[trigger]
                            run_behaves(run, rn) implies opt_result_matches(
                            r,
                            probe_at(rn, name@),
                        ) by {}
                    }
                    r
                },
                Option::Some(text) => {
                    let found = regex_find_first(pattern.as_str(), text.as_str());
                    let r = Result::Ok(found);
                    proof {
                        assert forall|rn: RunMap| #[trigger]
                            run_behaves(run, rn) implies opt_result_matches(
                            r,
                            probe_at(rn, name@),
                        ) by {}
                    }
                    r
                },
            }
        },
    }
}

} // verus!
