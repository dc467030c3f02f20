//! The ancestry walk: starting from the calling process's parent, read each
//! ancestor's command name, match it against the catalog, and on the first
//! match probe that shell for its version.  The walk stops at the root
//! process or after a fixed hop ceiling, whichever comes first.

use vstd::prelude::*;
use vstd::string::StringExecFns;

use crate::caps::ReadMap;
use crate::caps::RunMap;
use crate::caps::opt_string_matches;
use crate::caps::read_behaves;
use crate::caps::run_behaves;
use crate::catalog::is_catalog_name;
use crate::catalog::shell_name_of;
use crate::errors::ErrKind;
use crate::errors::Failure;
use crate::errors::FailureModel;
use crate::parse::ppid_from_text;
use crate::parse::ppid_of_text;
use crate::probe::probe_at;
use crate::probe::shell_version_with;
use crate::strutil::dec_digits;
use crate::strutil::strip_newline;
use crate::strutil::u32_digits;

verus! {

/// The ceiling on the number of hops the ancestry walk takes.
pub const HOP_CEILING: u32 = 32;

/// The path of the calling process's own status record.
pub open spec fn self_status_path() -> Seq<char> {
    "/proc/self/status"@
}

/// The path of the command-name record of process `pid`.
pub open spec fn comm_path(pid: u32) -> Seq<char> {
    "/proc/"@ + dec_digits(pid as nat) + "/comm"@
}

/// The path of the status record of process `pid`.
pub open spec fn status_path(pid: u32) -> Seq<char> {
    "/proc/"@ + dec_digits(pid as nat) + "/status"@
}

fn comm_path_string(pid: u32) -> (s: String)
    ensures
        s@ == comm_path(pid),
{
    let digits = u32_digits(pid);
    let mut s = "/proc/".to_owned();
    s.append(digits.as_str());
    s.append("/comm");
    s
}

fn status_path_string(pid: u32) -> (s: String)
    ensures
        s@ == status_path(pid),
{
    let digits = u32_digits(pid);
    let mut s = "/proc/".to_owned();
    s.append(digits.as_str());
    s.append("/status");
    s
}

/// What the walk yields from candidate `pid` at hop count `hops`, through a
/// read table and a run table: the name of the closest ancestor recognized
/// as a shell together with its probed version, or the failure that ends
/// the walk.
pub open spec fn spec_walk(rd: ReadMap, rn: RunMap, pid: u32, hops: u32) -> Result<
    (Seq<char>, Option<Seq<char>>),
    FailureModel,
>
    decreases HOP_CEILING - hops,
{
    if !(pid > 1 && hops < HOP_CEILING) {
        Result::Err(FailureModel { kind: ErrKind::NotFound, message: "shell not found"@ })
    } else {
        match rd[comm_path(pid)] {
            Result::Err(fm) => Result::Err(fm),
            Result::Ok(text) => {
                let nm = strip_newline(text);
                if is_catalog_name(nm) {
                    match probe_at(rn, nm) {
                        Result::Err(fm) => Result::Err(fm),
                        Result::Ok(v) => Result::Ok((nm, v)),
                    }
                } else {
                    match rd[status_path(pid)] {
                        Result::Err(fm) => Result::Err(fm),
                        Result::Ok(st) => match ppid_of_text(st) {
                            Result::Err(fm) => Result::Err(fm),
                            Result::Ok(next) => spec_walk(rd, rn, next, (hops + 1) as u32),
                        },
                    }
                }
            },
        }
    }
}

/// What a whole detection yields through a read table and a run table.
pub open spec fn spec_detect(rd: ReadMap, rn: RunMap) -> Result<
    (Seq<char>, Option<Seq<char>>),
    FailureModel,
> {
    match rd[self_status_path()] {
        Result::Err(fm) => Result::Err(fm),
        Result::Ok(st) => match ppid_of_text(st) {
            Result::Err(fm) => Result::Err(fm),
            Result::Ok(pid) => spec_walk(rd, rn, pid, 0),
        },
    }
}

/// The mathematical value of a [`Shell`]: its name and its optional version.
pub ghost struct ShellModel {
    pub name: Seq<char>,
    pub version: Option<Seq<char>>,
}

/// A detected shell: its command name and, when one could be extracted, its
/// version string.  An absent version is a valid successful outcome, never
/// a failure.
#[derive(Debug)]
pub struct Shell {
    name: String,
    version: Option<String>,
}

impl View for Shell {
    type V = ShellModel;

    closed spec fn view(&self) -> ShellModel {
        ShellModel {
            name: self.name@,
            version: match self.version {
                Option::Some(v) => Option::Some(v@),
                Option::None => Option::None,
            },
        }
    }
}

/// The exec detection outcome agrees with the modelled outcome.
pub open spec fn detect_matches(
    r: Result<Shell, Failure>,
    m: Result<(Seq<char>, Option<Seq<char>>), FailureModel>,
) -> bool {
    match (r, m) {
        (Result::Ok(sh), Result::Ok(p)) => sh@.name == p.0 && (match (sh@.version, p.1) {
            (Option::Some(v), Option::Some(mv)) => v == mv,
            (Option::None, Option::None) => true,
            _ => false,
        }),
        (Result::Err(f), Result::Err(fm)) => f@ == fm,
        _ => false,
    }
}

impl Shell {
    /// The fixed list of recognized shell names, in catalog order.  The
    /// order is exposed for introspection only and never affects matching.
    pub fn supported_shells() -> (r: Vec<&'static str>)
        ensures
            r@.len() == crate::catalog::catalog_names().len(),
            forall|i: int|
                0 <= i < r@.len() ==> (#[trigger] r@[i])@ == crate::catalog::catalog_names()[i],
    {
        crate::catalog::supported_shells()
    }

    /// The command name of the detected shell.
    pub fn name(&self) -> (r: &str)
        ensures
            r@ == self@.name,
    {
        self.name.as_str()
    }

    /// The version of the detected shell, when one could be extracted.
    pub fn version(&self) -> (r: Option<String>)
        ensures
            opt_string_matches(r, self@.version),
    {
        match &self.version {
            Option::Some(v) => Option::Some(v.clone()),
            Option::None => Option::None,
        }
    }

    /// Detects the closest shell ancestor of the calling process through
    /// the two injected capabilities: resolves the calling process's parent
    /// from the self status record, then walks the parent chain, matching
    /// each candidate's command name against the catalog, for at most
    /// [`HOP_CEILING`] hops or until the root process; the first recognized
    /// ancestor is probed for its version.  Every read, parse or probe
    /// failure aborts the detection with that failure; exhausting the walk
    /// yields `NotFound`.
    pub fn detect_with<R, X>(read: R, run: X) -> (r: Result<Shell, Failure>) where
        R: Fn(&str) -> Result<String, Failure>,
        X: FnOnce(&str, &[String]) -> Result<Vec<u8>, Failure>,

        requires
            forall|p: &str| #[trigger] call_requires(read, (p,)),
            forall|n: &str, a: &[String]| #[trigger] call_requires(run, (n, a)),
        ensures
            forall|rd: ReadMap, rn: RunMap|
                #![trigger read_behaves(read, rd), run_behaves(run, rn)]
                read_behaves(read, rd) && run_behaves(run, rn) ==> detect_matches(
                    r,
                    spec_detect(rd, rn),
                ),
    {
        let sp: &str = "/proc/self/status";
        let ret0 = read(sp);
        let st = match ret0 {
            Result::Ok(t) => t,
            Result::Err(f) => {
                let r = Result::Err(f);
                proof {
                    assert forall|rd: ReadMap, rn: RunMap|
                        read_behaves(read, rd) && run_behaves(run, rn) implies detect_matches(
                        r,
                        spec_detect(rd, rn),
                    ) by {}
                }
                return r;
            },
        };
        let pres = ppid_from_text(st.as_str());
        let mut pid: u32 = match pres {
            Result::Ok(p) => p,
            Result::Err(f) => {
                let r = Result::Err(f);
                proof {
                    assert forall|rd: ReadMap, rn: RunMap|
                        read_behaves(read, rd) && run_behaves(run, rn) implies detect_matches(
                        r,
                        spec_detect(rd, rn),
                    ) by {
                        assert(call_ensures(read, (sp,), Result::<String, Failure>::Ok(st)));
                    }
                }
                return r;
            },
        };
        let mut hops: u32 = 0;
        proof {
            assert forall|rd: ReadMap, rn: RunMap|
                #![trigger read_behaves(read, rd), run_behaves(run, rn)]
                read_behaves(read, rd) && run_behaves(run, rn) implies spec_detect(rd, rn)
                == spec_walk(rd, rn, pid, hops) by {
                assert(call_ensures(read, (sp,), Result::<String, Failure>::Ok(st)));
            }
        }
        while pid > 1 && hops < HOP_CEILING
            invariant
                hops <= HOP_CEILING,
                forall|p: &str| #[trigger] call_requires(read, (p,)),
                forall|n: &str, a: &[String]| #[trigger] call_requires(run, (n, a)),
                forall|rd: ReadMap, rn: RunMap|
                    #![trigger read_behaves(read, rd), run_behaves(run, rn)]
                    read_behaves(read, rd) && run_behaves(run, rn) ==> spec_detect(rd, rn)
                        == spec_walk(rd, rn, pid, hops),
            decreases HOP_CEILING - hops,
        {
            let path = comm_path_string(pid);
            let ps = path.as_str();
            let retc = read(ps);
            let text = match retc {
                Result::Ok(t) => t,
                Result::Err(f) => {
                    let r = Result::Err(f);
                    proof {
                        assert forall|rd: ReadMap, rn: RunMap|
                            read_behaves(read, rd) && run_behaves(run, rn) implies detect_matches(
                            r,
                            spec_detect(rd, rn),
                        ) by {}
                    }
                    return r;
                },
            };
            proof {
                assert(call_ensures(read, (ps,), Result::<String, Failure>::Ok(text)));
            }
            let nm_opt = shell_name_of(text.as_str());
            match nm_opt {
                Option::Some(nm) => {
                    let vres = shell_version_with(nm.as_str(), run);
                    match vres {
                        Result::Ok(version) => {
                            let sh = Shell { name: nm, version };
                            let r = Result::Ok(sh);
                            proof {
                                assert forall|rd: ReadMap, rn: RunMap|
                                    read_behaves(read, rd) && run_behaves(
                                    run,
                                    rn,
                                ) implies detect_matches(r, spec_detect(rd, rn)) by {}
                            }
                            return r;
                        },
                        Result::Err(f) => {
                            let r = Result::Err(f);
                            proof {
                                assert forall|rd: ReadMap, rn: RunMap|
                                    read_behaves(read, rd) && run_behaves(
                                    run,
                                    rn,
                                ) implies detect_matches(r, spec_detect(rd, rn)) by {}
                            }
                            return r;
                        },
                    }
                },
                Option::None => {
                    let ghost old_pid = pid;
                    let ghost old_hops = hops;
                    let spath = status_path_string(pid);
                    let ss = spath.as_str();
                    let rets = read(ss);
                    let stext = match rets {
                        Result::Ok(t) => t,
                        Result::Err(f) => {
                            let r = Result::Err(f);
                            proof {
                                assert forall|rd: ReadMap, rn: RunMap|
                                    read_behaves(read, rd) && run_behaves(
                                    run,
                                    rn,
                                ) implies detect_matches(r, spec_detect(rd, rn)) by {}
                            }
                            return r;
                        },
                    };
                    let pres2 = ppid_from_text(stext.as_str());
                    pid = match pres2 {
                        Result::Ok(p) => p,
                        Result::Err(f) => {
                            let r = Result::Err(f);
                            proof {
                                assert forall|rd: ReadMap, rn: RunMap|
                                    read_behaves(read, rd) && run_behaves(
                                    run,
                                    rn,
                                ) implies detect_matches(r, spec_detect(rd, rn)) by {
                                    assert(call_ensures(
                                        read,
                                        (ss,),
                                        Result::<String, Failure>::Ok(stext),
                                    ));
                                }
                            }
                            return r;
                        },
                    };
                    hops = hops + 1;
                    proof {
                        assert forall|rd: ReadMap, rn: RunMap|
                            #![trigger read_behaves(read, rd), run_behaves(run, rn)]
                            read_behaves(read, rd) && run_behaves(run, rn) implies spec_detect(
                            rd,
                            rn,
                        ) == spec_walk(rd, rn, pid, hops) by {
                            assert(call_ensures(read, (ss,), Result::<String, Failure>::Ok(stext)));
                            assert(spec_walk(rd, rn, old_pid, old_hops) == spec_walk(
                                rd,
                                rn,
                                pid,
                                hops,
                            ));
                        }
                    }
                },
            }
        }
        let r = Result::Err(Failure::not_found("shell not found"));
        proof {
            assert forall|rd: ReadMap, rn: RunMap|
                read_behaves(read, rd) && run_behaves(run, rn) implies detect_matches(
                r,
                spec_detect(rd, rn),
            ) by {}
        }
        r
    }
}

} // verus!
