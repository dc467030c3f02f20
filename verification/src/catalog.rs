//! The static catalog of recognized shells and the descriptor that tells,
//! for each of them, how to probe its version.
//!
//! Matching is exact, case-sensitive membership against the raw command
//! name (with one trailing line terminator stripped); a program named
//! `bash-completion-helper` never matches `bash`.

use vstd::prelude::*;

use crate::caps::ReadMap;
use crate::caps::opt_string_matches;
use crate::caps::read_behaves;
use crate::errors::Failure;
use crate::errors::FailureModel;
use crate::strutil::str_eq;
use crate::strutil::strip_newline;
use crate::strutil::strip_newline_str;

verus! {

/// The names of the recognized shells, in catalog order.
pub open spec fn catalog_names() -> Seq<Seq<char>> {
    seq![
        "bash"@,
        "zsh"@,
        "sh"@,
        "tcsh"@,
        "csh"@,
        "ksh"@,
        "mksh"@,
        "fish"@,
        "dash"@,
        "nu"@,
        "elvish"@,
        "xonsh"@,
        "pwsh"@,
    ]
}

/// Whether the text is the name of a recognized shell.
pub open spec fn is_catalog_name(n: Seq<char>) -> bool {
    catalog_names().contains(n)
}

/// The pattern of a dotted semantic version, `major.minor[.patch]`.
pub open spec fn semver_pattern() -> Seq<char> {
    "[0-9]+\\.[0-9]+(?:\\.[0-9]+)?"@
}

/// The pattern of a release tag, the letter `R` followed by digits.
pub open spec fn release_tag_pattern() -> Seq<char> {
    "R[0-9]+"@
}

/// The argument list with which a catalog shell reports its version, or
/// nothing for the one shell with no reliable self-report mechanism.
pub open spec fn spec_invocation(n: Seq<char>) -> Option<Seq<Seq<char>>> {
    if n == "dash"@ {
        Option::None
    } else if n == "mksh"@ {
        Option::Some(seq!["-c"@, "echo $KSH_VERSION"@])
    } else {
        Option::Some(seq!["--version"@])
    }
}

/// The version pattern of a catalog shell.
pub open spec fn spec_pattern(n: Seq<char>) -> Seq<char> {
    if n == "mksh"@ {
        release_tag_pattern()
    } else {
        semver_pattern()
    }
}

/// The mathematical value of a [`Descriptor`].
pub ghost struct DescriptorModel {
    pub name: Seq<char>,
    pub invocation: Option<Seq<Seq<char>>>,
    pub pattern: Seq<char>,
}

/// The descriptor the catalog holds for a recognized shell name.
pub open spec fn spec_descriptor(n: Seq<char>) -> DescriptorModel {
    DescriptorModel { name: n, invocation: spec_invocation(n), pattern: spec_pattern(n) }
}

/// One catalog entry: a shell's name, the argument list with which it
/// reports its version (absent when it has no reliable self-report
/// mechanism), and the pattern that extracts the version from the output.
pub struct Descriptor {
    pub name: String,
    pub invocation: Option<Vec<String>>,
    pub pattern: String,
}

impl View for Descriptor {
    type V = DescriptorModel;

    open spec fn view(&self) -> DescriptorModel {
        DescriptorModel {
            name: self.name@,
            invocation: match self.invocation {
                Option::Some(v) => Option::Some(v.deep_view()),
                Option::None => Option::None,
            },
            pattern: self.pattern@,
        }
    }
}

/// The fixed list of recognized shell names, in catalog order.
pub fn supported_shells() -> (r: Vec<&'static str>)
    ensures
        r@.len() == catalog_names().len(),
        forall|i: int| 0 <= i < r@.len() ==> (#[trigger] r@[i])@ == catalog_names()[i],
{
    let mut v: Vec<&'static str> = Vec::new();
    v.push("bash");
    v.push("zsh");
    v.push("sh");
    v.push("tcsh");
    v.push("csh");
    v.push("ksh");
    v.push("mksh");
    v.push("fish");
    v.push("dash");
    v.push("nu");
    v.push("elvish");
    v.push("xonsh");
    v.push("pwsh");
    v
}

/// Whether the name is a recognized shell name.
pub fn is_supported(name: &str) -> (b: bool)
    ensures
        b == is_catalog_name(name@),
{
    let shells = supported_shells();
    let n = shells.len();
    let mut i: usize = 0;
    while i < n
        invariant
            n == shells@.len(),
            n == catalog_names().len(),
            0 <= i <= n,
            forall|j: int| 0 <= j < shells@.len() ==> (#[trigger] shells@[j])@ == catalog_names()[j],
            forall|j: int| 0 <= j < i ==> #[trigger] catalog_names()[j] != name@,
        decreases n - i,
    {
        if str_eq(name, shells[i]) {
            proof {
                assert(catalog_names()[i as int] == name@);
            }
            return true;
        }
        i += 1;
    }
    proof {
        assert forall|j: int| 0 <= j < catalog_names().len() implies #[trigger] catalog_names()[j]
            != name@ by {}
        assert(!is_catalog_name(name@));
    }
    false
}

/// Returns the descriptor whose name exactly equals `name`, or nothing when
/// no catalog entry matches.
pub fn classify(name: &str) -> (r: Option<Descriptor>)
    ensures
        r is Some <==> is_catalog_name(name@),
        (r matches Some(d) ==> d@ == spec_descriptor(name@)),
{
    if !is_supported(name) {
        return Option::None;
    }
    let invocation: Option<Vec<String>> = if str_eq(name, "dash") {
        Option::None
    } else if str_eq(name, "mksh") {
        let mut args: Vec<String> = Vec::new();
        args.push("-c".to_owned());
        args.push("echo $KSH_VERSION".to_owned());
        proof {
            assert(args.deep_view() =~= seq!["-c"@, "echo $KSH_VERSION"@]);
        }
        Option::Some(args)
    } else {
        let mut args: Vec<String> = Vec::new();
        args.push("--version".to_owned());
        proof {
            assert(args.deep_view() =~= seq!["--version"@]);
        }
        Option::Some(args)
    };
    let pattern: String = if str_eq(name, "mksh") {
        "R[0-9]+".to_owned()
    } else {
        "[0-9]+\\.[0-9]+(?:\\.[0-9]+)?".to_owned()
    };
    let d = Descriptor { name: name.to_owned(), invocation, pattern };
    Option::Some(d)
}

/// The catalog name the command-name text stands for: the text with one
/// trailing line terminator stripped, when that is a recognized shell name.
pub open spec fn shell_lookup(text: Seq<char>) -> Option<Seq<char>> {
    if is_catalog_name(strip_newline(text)) {
        Option::Some(strip_newline(text))
    } else {
        Option::None
    }
}

/// Matches command-name text against the catalog.
pub(crate) fn shell_name_of(text: &str) -> (r: Option<String>)
    ensures
        opt_string_matches(r, shell_lookup(text@)),
{
    let trimmed = strip_newline_str(text);
    if is_supported(trimmed) {
        Option::Some(trimmed.to_owned())
    } else {
        Option::None
    }
}

/// What command-name matching yields through a read table at the given path.
pub open spec fn shell_at(rd: ReadMap, p: Seq<char>) -> Result<Option<Seq<char>>, FailureModel> {
    match rd[p] {
        Result::Err(fm) => Result::Err(fm),
        Result::Ok(t) => Result::Ok(shell_lookup(t)),
    }
}

/// The exec outcome agrees with the modelled outcome.
pub open spec fn shell_result_matches(
    r: Result<Option<String>, Failure>,
    m: Result<Option<Seq<char>>, FailureModel>,
) -> bool {
    match (r, m) {
        (Result::Ok(o), Result::Ok(mo)) => opt_string_matches(o, mo),
        (Result::Err(f), Result::Err(fm)) => f@ == fm,
        _ => false,
    }
}

/// Reads the command-name text at `path` through the read capability and
/// matches it against the catalog; a read failure is propagated unchanged.
pub fn shell_from_pid_with<R: Fn(&str) -> Result<String, Failure>>(path: &str, read: R) -> (r:
    Result<Option<String>, Failure>)
    requires
        forall|p: &str| #[trigger] call_requires(read, (p,)),
    ensures
        forall|rd: ReadMap| #[trigger]
            read_behaves(read, rd) ==> shell_result_matches(r, shell_at(rd, path@)),
{
    let ret = read(path);
    match ret {
        Result::Ok(text) => {
            let nm = shell_name_of(text.as_str());
            let r = Result::Ok(nm);
            proof {
                assert forall|rd: ReadMap| #[trigger]
                    read_behaves(read, rd) implies shell_result_matches(
                    r,
                    shell_at(rd, path@),
                ) by {
                    assert(call_ensures(read, (path,), Result::Ok(text)));
                }
            }
            r
        },
        Result::Err(f) => {
            let r = Result::Err(f);
            proof {
                assert forall|rd: ReadMap| #[trigger]
                    read_behaves(read, rd) implies shell_result_matches(
                    r,
                    shell_at(rd, path@),
                ) by {
                    assert(call_ensures(read, (path,), ret));
                }
            }
            r
        },
    }
}

} // verus!
