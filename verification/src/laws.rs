//! Laws of the ancestry walk and of version extraction, proved against the
//! specification-level walk that [`crate::detect::Shell::detect_with`] is
//! pinned to.

use vstd::prelude::*;

use crate::caps::ReadMap;
use crate::caps::RunMap;
use crate::caps::opt_string_matches;
use crate::catalog::is_catalog_name;
use crate::detect::HOP_CEILING;
use crate::detect::comm_path;
use crate::detect::spec_walk;
use crate::detect::status_path;
use crate::errors::ErrKind;
use crate::errors::FailureModel;
use crate::parse::ppid_of_text;
use crate::probe::probe_at;
use crate::probe::regex_first_match;
use crate::strutil::strip_newline;

verus! {

/// The read table links the processes of `chain` into an ancestry chain:
/// every process is above the root, its command-name record holds a text
/// that strips to the matching entry of `names`, and, except for the last,
/// its status record names the next process of the chain as its parent.
pub open spec fn chain_linked(rd: ReadMap, chain: Seq<u32>, names: Seq<Seq<char>>) -> bool {
    &&& chain.len() == names.len()
    &&& forall|i: int| 0 <= i < chain.len() ==> #[trigger] chain[i] > 1
    &&& forall|i: int|
        0 <= i < chain.len() ==> ((#[trigger] rd[comm_path(chain[i])]) matches Ok(t)
            && strip_newline(t) == names[i])
    &&& forall|i: int|
        0 <= i < chain.len() - 1 ==> ((#[trigger] rd[status_path(chain[i])]) matches Ok(st)
            && ppid_of_text(st) == Result::<u32, FailureModel>::Ok(chain[i + 1]))
}

/// Walking a chain in which only the outermost ancestor's command name is a
/// recognized shell, within the hop ceiling, stops at exactly that shell
/// and yields its name together with its probed version; the walk never
/// passes a closer recognized ancestor, so the first (closest) match wins.
pub proof fn lemma_walk_finds_outer_shell(
    rd: ReadMap,
    rn: RunMap,
    chain: Seq<u32>,
    names: Seq<Seq<char>>,
    hops: u32,
)
    requires
        chain_linked(rd, chain, names),
        1 <= chain.len(),
        chain.len() + hops <= HOP_CEILING,
        forall|i: int| 0 <= i < chain.len() - 1 ==> !is_catalog_name(#[trigger] names[i]),
        is_catalog_name(names.last()),
    ensures
        spec_walk(rd, rn, chain[0], hops) == (match probe_at(rn, names.last()) {
            Result::Ok(v) => Result::<(Seq<char>, Option<Seq<char>>), FailureModel>::Ok(
                (names.last(), v),
            ),
            Result::Err(fm) => Result::<(Seq<char>, Option<Seq<char>>), FailureModel>::Err(fm),
        }),
    decreases chain.len(),
{
    assert(chain[0] > 1);
    assert(rd[comm_path(chain[0])] matches Ok(t) && strip_newline(t) == names[0]);
    if chain.len() == 1 {
        assert(names.last() == names[0]);
    } else {
        assert(!is_catalog_name(names[0]));
        assert(rd[status_path(chain[0])] matches Ok(st) && ppid_of_text(st) == Result::<
            u32,
            FailureModel,
        >::Ok(chain[1]));
        let chain2 = chain.drop_first();
        let names2 = names.drop_first();
        assert forall|i: int| 0 <= i < chain2.len() implies #[trigger] chain2[i] > 1 by {
            assert(chain[i + 1] > 1);
        }
        assert forall|i: int|
            0 <= i < chain2.len() implies ((#[trigger] rd[comm_path(chain2[i])]) matches Ok(t)
            && strip_newline(t) == names2[i]) by {
            assert(rd[comm_path(chain[i + 1])] matches Ok(t) && strip_newline(t) == names[i + 1]);
        }
        assert forall|i: int|
            0 <= i < chain2.len() - 1 implies ((#[trigger] rd[status_path(chain2[i])]) matches Ok(
            st,
        ) && ppid_of_text(st) == Result::<u32, FailureModel>::Ok(chain2[i + 1])) by {
            assert(rd[status_path(chain[i + 1])] matches Ok(st) && ppid_of_text(st) == Result::<
                u32,
                FailureModel,
            >::Ok(chain[i + 2]));
        }
        assert forall|i: int|
            0 <= i < chain2.len() - 1 implies !is_catalog_name(#[trigger] names2[i]) by {
            assert(!is_catalog_name(names[i + 1]));
        }
        assert(names2.last() == names.last());
        lemma_walk_finds_outer_shell(rd, rn, chain2, names2, (hops + 1) as u32);
        assert(chain2[0] == chain[1]);
    }
}

/// A walk that exhausts the chain — the root process is reached, or the
/// hop ceiling is spent — without any command name matching the catalog
/// fails with `NotFound`.
pub proof fn lemma_walk_exhausted_not_found(
    rd: ReadMap,
    rn: RunMap,
    chain: Seq<u32>,
    names: Seq<Seq<char>>,
    hops: u32,
)
    requires
        1 <= chain.len(),
        names.len() == chain.len() - 1,
        chain.len() - 1 + hops <= HOP_CEILING,
        chain.last() <= 1 || chain.len() - 1 + hops == HOP_CEILING,
        forall|i: int| 0 <= i < chain.len() - 1 ==> #[trigger] chain[i] > 1,
        forall|i: int|
            0 <= i < chain.len() - 1 ==> ((#[trigger] rd[comm_path(chain[i])]) matches Ok(t)
                && strip_newline(t) == names[i]),
        forall|i: int| 0 <= i < chain.len() - 1 ==> !is_catalog_name(#[trigger] names[i]),
        forall|i: int|
            0 <= i < chain.len() - 1 ==> ((#[trigger] rd[status_path(chain[i])]) matches Ok(st)
                && ppid_of_text(st) == Result::<u32, FailureModel>::Ok(chain[i + 1])),
    ensures
        spec_walk(rd, rn, chain[0], hops) == Result::<
            (Seq<char>, Option<Seq<char>>),
            FailureModel,
        >::Err(FailureModel { kind: ErrKind::NotFound, message: "shell not found"@ }),
    decreases chain.len(),
{
    if chain.len() == 1 {
        assert(chain[0] == chain.last());
        assert(!(chain[0] > 1 && hops < HOP_CEILING));
    } else {
        assert(chain[0] > 1);
        assert(hops < HOP_CEILING);
        assert(rd[comm_path(chain[0])] matches Ok(t) && strip_newline(t) == names[0]);
        assert(!is_catalog_name(names[0]));
        assert(rd[status_path(chain[0])] matches Ok(st) && ppid_of_text(st) == Result::<
            u32,
            FailureModel,
        >::Ok(chain[1]));
        let chain2 = chain.drop_first();
        let names2 = names.drop_first();
        assert forall|i: int| 0 <= i < chain2.len() - 1 implies #[trigger] chain2[i] > 1 by {
            assert(chain[i + 1] > 1);
        }
        assert forall|i: int|
            0 <= i < chain2.len() - 1 implies ((#[trigger] rd[comm_path(chain2[i])]) matches Ok(t)
            && strip_newline(t) == names2[i]) by {
            assert(rd[comm_path(chain[i + 1])] matches Ok(t) && strip_newline(t) == names[i + 1]);
        }
        assert forall|i: int|
            0 <= i < chain2.len() - 1 implies !is_catalog_name(#[trigger] names2[i]) by {
            assert(!is_catalog_name(names[i + 1]));
        }
        assert forall|i: int|
            0 <= i < chain2.len() - 1 implies ((#[trigger] rd[status_path(chain2[i])]) matches Ok(
            st,
        ) && ppid_of_text(st) == Result::<u32, FailureModel>::Ok(chain2[i + 1])) by {
            assert(rd[status_path(chain[i + 1])] matches Ok(st) && ppid_of_text(st) == Result::<
                u32,
                FailureModel,
            >::Ok(chain[i + 2]));
        }
        assert(chain2.last() == chain.last());
        lemma_walk_exhausted_not_found(rd, rn, chain2, names2, (hops + 1) as u32);
        assert(chain2[0] == chain[1]);
    }
}

/// Version extraction is idempotent on its pattern: two extraction
/// outcomes pinned to the same pattern and the same captured text are the
/// same optional string.
pub proof fn lemma_version_extraction_idempotent(
    pattern: Seq<char>,
    text: Seq<char>,
    r1: Option<String>,
    r2: Option<String>,
)
    requires
        opt_string_matches(r1, regex_first_match(pattern, text)),
        opt_string_matches(r2, regex_first_match(pattern, text)),
    ensures
        (match (r1, r2) {
            (Option::Some(a), Option::Some(b)) => a@ == b@,
            (Option::None, Option::None) => true,
            _ => false,
        }),
{
}

} // verus!
