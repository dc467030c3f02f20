//! Reading the parent process identifier out of per-process status text.
//!
//! The status text is a sequence of `'\n'`-separated lines.  The parent
//! identifier stands on the first line that begins with the label `PPid:`;
//! the remainder of that line, with surrounding whitespace trimmed, must be
//! a decimal unsigned integer that fits in 32 bits.

use vstd::prelude::*;
use vstd::string::StrSliceExecFns;

use crate::caps::ReadMap;
use crate::caps::read_behaves;
use crate::errors::ErrKind;
use crate::errors::Failure;
use crate::errors::FailureModel;

verus! {

/// Whitespace accepted around the parent-id token.
pub open spec fn is_space(c: char) -> bool {
    c == ' ' || c == '\t' || c == '\r' || c == '\n'
}

/// A decimal digit.
pub open spec fn is_dec_digit(c: char) -> bool {
    48 <= c as u32 <= 57
}

/// The numeric value of a decimal digit character.
pub open spec fn digit_of(c: char) -> nat {
    (c as u32 - 48) as nat
}

/// Every character of the text is a decimal digit.
pub open spec fn all_dec_digits(s: Seq<char>) -> bool {
    forall|i: int| 0 <= i < s.len() ==> is_dec_digit(#[trigger] s[i])
}

/// The value of a digit sequence read in base ten, most significant first.
pub open spec fn digits_val(s: Seq<char>) -> nat
    decreases s.len(),
{
    if s.len() == 0 {
        0
    } else {
        digits_val(s.drop_last()) * 10 + digit_of(s.last())
    }
}

/// The token value, if the token is a non-empty digit string whose value
/// fits in 32 bits.
pub open spec fn parse_u32(s: Seq<char>) -> Option<u32> {
    if s.len() > 0 && all_dec_digits(s) && digits_val(s) <= u32::MAX {
        Option::Some(digits_val(s) as u32)
    } else {
        Option::None
    }
}

/// The text with leading whitespace removed.
pub open spec fn trim_front(s: Seq<char>) -> Seq<char>
    decreases s.len(),
{
    if s.len() > 0 && is_space(s.first()) {
        trim_front(s.drop_first())
    } else {
        s
    }
}

/// The text with trailing whitespace removed.
pub open spec fn trim_back(s: Seq<char>) -> Seq<char>
    decreases s.len(),
{
    if s.len() > 0 && is_space(s.last()) {
        trim_back(s.drop_last())
    } else {
        s
    }
}

/// The text with whitespace removed from both ends.
pub open spec fn trim_spaces(s: Seq<char>) -> Seq<char> {
    trim_back(trim_front(s))
}

/// The label that introduces the parent-id line.
pub open spec fn ppid_label() -> Seq<char> {
    seq!['P', 'P', 'i', 'd', ':']
}

/// The position of the first `'\n'`, or the length if there is none.
pub open spec fn first_nl(s: Seq<char>) -> int
    decreases s.len(),
{
    if s.len() == 0 {
        0
    } else if s.first() == '\n' {
        0
    } else {
        1 + first_nl(s.drop_first())
    }
}

proof fn lemma_first_nl_props(s: Seq<char>)
    ensures
        0 <= first_nl(s) <= s.len(),
        first_nl(s) == s.len() || s[first_nl(s)] == '\n',
        forall|j: int| 0 <= j < first_nl(s) ==> s[j] != '\n',
    decreases s.len(),
{
    if s.len() == 0 {
    } else if s.first() == '\n' {
    } else {
        lemma_first_nl_props(s.drop_first());
        assert forall|j: int| 0 <= j < first_nl(s) implies s[j] != '\n' by {
            if j > 0 {
                assert(s.drop_first()[j - 1] != '\n');
            }
        }
    }
}

proof fn lemma_first_nl_unique(s: Seq<char>, e: int)
    requires
        0 <= e <= s.len(),
        forall|j: int| 0 <= j < e ==> s[j] != '\n',
        e == s.len() || s[e] == '\n',
    ensures
        first_nl(s) == e,
    decreases s.len(),
{
    if s.len() == 0 {
    } else if s.first() == '\n' {
        assert(e == 0);
    } else {
        assert(e >= 1);
        let t = s.drop_first();
        assert forall|j: int| 0 <= j < e - 1 implies t[j] != '\n' by {
            assert(s[j + 1] != '\n');
        }
        assert(e - 1 == t.len() || t[e - 1] == '\n');
        lemma_first_nl_unique(t, e - 1);
    }
}

/// The remainder, after the label, of the first line that begins with the
/// label `PPid:`, or nothing when no line does.
pub open spec fn ppid_payload(s: Seq<char>) -> Option<Seq<char>>
    decreases s.len(),
    via ppid_payload_decreases
{
    let e = first_nl(s);
    let line = s.take(e);
    if line.len() >= 5 && line.take(5) == ppid_label() {
        Option::Some(line.skip(5))
    } else if e == s.len() {
        Option::None
    } else {
        ppid_payload(s.skip(e + 1))
    }
}

#[via_fn]
proof fn ppid_payload_decreases(s: Seq<char>) {
    lemma_first_nl_props(s);
}

/// What parent-id reading yields on the given status text.
pub open spec fn ppid_of_text(s: Seq<char>) -> Result<u32, FailureModel> {
    match ppid_payload(s) {
        Option::None => Result::Err(
            FailureModel { kind: ErrKind::NotFound, message: "PPid not found"@ },
        ),
        Option::Some(p) => match parse_u32(trim_spaces(p)) {
            Option::None => Result::Err(
                FailureModel { kind: ErrKind::InvalidData, message: "PPid parse failed"@ },
            ),
            Option::Some(v) => Result::Ok(v),
        },
    }
}

/// What parent-id reading yields through a read table at the given path.
pub open spec fn ppid_at(rd: ReadMap, p: Seq<char>) -> Result<u32, FailureModel> {
    match rd[p] {
        Result::Err(fm) => Result::Err(fm),
        Result::Ok(t) => ppid_of_text(t),
    }
}

/// The exec result agrees with the modelled result, message included.
pub open spec fn u32_result_matches(r: Result<u32, Failure>, m: Result<u32, FailureModel>) -> bool {
    match (r, m) {
        (Result::Ok(x), Result::Ok(v)) => x == v,
        (Result::Err(f), Result::Err(fm)) => f@ == fm,
        _ => false,
    }
}

/// The characters of a text, as a vector.
pub fn str_to_chars(s: &str) -> (v: Vec<char>)
    ensures
        v@ == s@,
{
    let n = s.unicode_len();
    let mut v: Vec<char> = Vec::new();
    let mut i: usize = 0;
    while i < n
        invariant
            n == s@.len(),
            0 <= i <= n,
            v@ =~= s@.take(i as int),
        decreases n - i,
    {
        v.push(s.get_char(i));
        i += 1;
    }
    proof {
        assert(v@ =~= s@);
    }
    v
}

proof fn lemma_trim_front_scan(s: Seq<char>, k: int)
    requires
        0 <= k <= s.len(),
        forall|j: int| 0 <= j < k ==> is_space(#[trigger] s[j]),
        k == s.len() || !is_space(s[k]),
    ensures
        trim_front(s) == s.skip(k),
    decreases k,
{
    if k == 0 {
        assert(s.skip(0) =~= s);
    } else {
        assert(is_space(s.first()));
        let t = s.drop_first();
        assert forall|j: int| 0 <= j < k - 1 implies is_space(#[trigger] t[j]) by {
            assert(is_space(s[j + 1]));
        }
        assert(k - 1 == t.len() || !is_space(t[k - 1]));
        lemma_trim_front_scan(t, k - 1);
        assert(t.skip(k - 1) =~= s.skip(k));
    }
}

proof fn lemma_trim_back_scan(s: Seq<char>, k: int)
    requires
        0 <= k <= s.len(),
        forall|j: int| k <= j < s.len() ==> is_space(#[trigger] s[j]),
        k == 0 || !is_space(s[k - 1]),
    ensures
        trim_back(s) == s.take(k),
    decreases s.len() - k,
{
    if k == s.len() {
        if s.len() > 0 && is_space(s.last()) {
            assert(false);
        }
        assert(s.take(k) =~= s);
    } else {
        assert(is_space(s.last()));
        let t = s.drop_last();
        lemma_trim_back_scan(t, k);
        assert(t.take(k) =~= s.take(k));
    }
}

proof fn lemma_digits_val_prefix(s: Seq<char>, k: int)
    requires
        0 <= k <= s.len(),
    ensures
        digits_val(s.take(k)) <= digits_val(s),
    decreases s.len() - k,
{
    if k == s.len() {
        assert(s.take(k) =~= s);
    } else {
        let t = s.drop_last();
        assert(t.take(k) =~= s.take(k));
        lemma_digits_val_prefix(t, k);
        assert(digits_val(t) * 10 + digit_of(s.last()) >= digits_val(t));
    }
}

/// Whether the character is whitespace accepted around the parent-id token.
fn is_space_char(c: char) -> (r: bool)
    ensures
        r == is_space(c),
{
    c == ' ' || c == '\t' || c == '\r' || c == '\n'
}

/// Parses the token standing in `chars[lo..hi]`, after trimming whitespace
/// from both ends, as a 32-bit unsigned decimal integer.
fn parse_token(chars: &Vec<char>, lo: usize, hi: usize) -> (r: Result<u32, Failure>)
    requires
        lo <= hi <= chars@.len(),
    ensures
        (match parse_u32(trim_spaces(chars@.subrange(lo as int, hi as int))) {
            Option::Some(v) => r matches Ok(x) && x == v,
            Option::None => r matches Err(f) && f@ == (FailureModel {
                kind: ErrKind::InvalidData,
                message: "PPid parse failed"@,
            }),
        }),
{
    let ghost sub = chars@.subrange(lo as int, hi as int);
    let mut a: usize = lo;
    while a < hi && is_space_char(chars[a])
        invariant
            lo <= a <= hi <= chars@.len(),
            forall|j: int| lo <= j < a ==> is_space(#[trigger] chars@[j]),
        decreases hi - a,
    {
        a += 1;
    }
    let mut b: usize = hi;
    while b > a && is_space_char(chars[b - 1])
        invariant
            a <= b <= hi <= chars@.len(),
            forall|j: int| b <= j < hi ==> is_space(#[trigger] chars@[j]),
        decreases b - a,
    {
        b -= 1;
    }
    proof {
        let front = sub.skip(a - lo);
        assert forall|j: int| 0 <= j < a - lo implies is_space(#[trigger] sub[j]) by {
            assert(is_space(chars@[lo + j]));
        }
        assert(a - lo == sub.len() || !is_space(sub[a - lo]));
        lemma_trim_front_scan(sub, a - lo);
        assert(front =~= chars@.subrange(a as int, hi as int));
        let mid = chars@.subrange(a as int, hi as int);
        assert forall|j: int| b - a <= j < mid.len() implies is_space(#[trigger] mid[j]) by {
            assert(is_space(chars@[a + j]));
        }
        assert(b - a == 0 || !is_space(mid[b - a - 1]));
        lemma_trim_back_scan(mid, b - a);
        assert(mid.take(b - a) =~= chars@.subrange(a as int, b as int));
        assert(trim_spaces(sub) == chars@.subrange(a as int, b as int));
    }
    let ghost token = chars@.subrange(a as int, b as int);
    if a == b {
        return Result::Err(Failure::invalid_data("PPid parse failed"));
    }
    let mut val: u64 = 0;
    let mut i: usize = a;
    while i < b
        invariant
            lo <= a <= i <= b <= chars@.len(),
            a < b,
            token == chars@.subrange(a as int, b as int),
            trim_spaces(chars@.subrange(lo as int, hi as int)) == token,
            all_dec_digits(token.take(i - a)),
            val == digits_val(token.take(i - a)),
            val <= u32::MAX,
        decreases b - i,
    {
        let c = chars[i];
        let cu = c as u32;
        if cu < 48 || cu > 57 {
            proof {
                assert(!is_dec_digit(token[i - a]));
                assert(!all_dec_digits(token));
            }
            return Result::Err(Failure::invalid_data("PPid parse failed"));
        }
        let d = (cu - 48) as u64;
        val = val * 10 + d;
        proof {
            let t1 = token.take(i - a + 1);
            assert(t1.drop_last() =~= token.take(i - a));
            assert(t1.last() == token[i - a]);
            assert(val == digits_val(t1));
            assert(all_dec_digits(t1));
        }
        i += 1;
        if val > 0xFFFF_FFFF {
            proof {
                lemma_digits_val_prefix(token, i - a);
                assert(digits_val(token) >= digits_val(token.take(i - a)));
                assert(parse_u32(token) is None);
            }
            return Result::Err(Failure::invalid_data("PPid parse failed"));
        }
    }
    proof {
        assert(token.take(b - a) =~= token);
        assert(parse_u32(token) == Option::Some(val as u32));
    }
    Result::Ok(val as u32)
}

/// Reads the parent process identifier out of status text: the value of the
/// first `PPid:` line, `NotFound` when no such line exists, `InvalidData`
/// when its token is not a decimal unsigned 32-bit integer.
pub fn ppid_from_text(text: &str) -> (r: Result<u32, Failure>)
    ensures
        u32_result_matches(r, ppid_of_text(text@)),
{
    let chars = str_to_chars(text);
    let n = chars.len();
    let mut start: usize = 0;
    proof {
        assert(text@.skip(0) =~= text@);
    }
    loop
        invariant
            chars@ == text@,
            n == chars@.len(),
            0 <= start <= n,
            ppid_payload(text@) == ppid_payload(text@.skip(start as int)),
        decreases n - start,
    {
        let ghost sub = text@.skip(start as int);
        let mut e: usize = start;
        while e < n && chars[e] != '\n'
            invariant
                chars@ == text@,
                n == chars@.len(),
                start <= e <= n,
                forall|j: int| start <= j < e ==> chars@[j] != '\n',
            decreases n - e,
        {
            e += 1;
        }
        proof {
            assert forall|j: int| 0 <= j < e - start implies sub[j] != '\n' by {
                assert(chars@[start + j] != '\n');
            }
            assert(e - start == sub.len() || sub[e - start] == '\n');
            lemma_first_nl_unique(sub, e - start);
        }
        let ghost line = sub.take(e - start);
        let has_label = e - start >= 5 && chars[start] == 'P' && chars[start + 1] == 'P'
            && chars[start + 2] == 'i' && chars[start + 3] == 'd' && chars[start + 4] == ':';
        if has_label {
            proof {
                assert(line.take(5) =~= ppid_label());
                assert(ppid_payload(sub) == Option::Some(line.skip(5)));
                assert(line.skip(5) =~= text@.subrange(start + 5, e as int));
            }
            let r = parse_token(&chars, start + 5, e);
            proof {
                assert(ppid_payload(text@) == Option::Some(text@.subrange(start + 5, e as int)));
            }
            return r;
        }
        proof {
            if line.len() >= 5 && line.take(5) == ppid_label() {
                assert(line[0] == 'P' && line[1] == 'P' && line[2] == 'i' && line[3] == 'd'
                    && line[4] == ':') by {
                    assert(line.take(5)[0] == 'P');
                    assert(line.take(5)[1] == 'P');
                    assert(line.take(5)[2] == 'i');
                    assert(line.take(5)[3] == 'd');
                    assert(line.take(5)[4] == ':');
                }
                assert(chars@[start as int] == 'P');
                assert(chars@[start + 1] == 'P');
                assert(chars@[start + 2] == 'i');
                assert(chars@[start + 3] == 'd');
                assert(chars@[start + 4] == ':');
                assert(false);
            }
        }
        if e == n {
            proof {
                assert(ppid_payload(sub) is None);
            }
            return Result::Err(Failure::not_found("PPid not found"));
        }
        proof {
            assert(ppid_payload(sub) == ppid_payload(sub.skip(e - start + 1)));
            assert(sub.skip(e - start + 1) =~= text@.skip(e + 1));
        }
        start = e + 1;
    }
}

/// Reads the status text at `path` through the read capability and extracts
/// the parent process identifier from it; a read failure is propagated
/// unchanged.
pub fn ppid_from_path_with<R: Fn(&str) -> Result<String, Failure>>(path: &str, read: R) -> (r:
    Result<u32, Failure>)
    requires
        forall|p: &str| #[trigger] call_requires(read, (p,)),
    ensures
        forall|rd: ReadMap| #[trigger]
            read_behaves(read, rd) ==> u32_result_matches(r, ppid_at(rd, path@)),
{
    let ret = read(path);
    match ret {
        Result::Ok(text) => {
            let r = ppid_from_text(text.as_str());
            proof {
                assert forall|rd: ReadMap| #[trigger]
                    read_behaves(read, rd) implies u32_result_matches(r, ppid_at(rd, path@)) by {
                    assert(call_ensures(read, (path,), Result::Ok(text)));
                }
            }
            r
        },
        Result::Err(f) => {
            let r = Result::Err(f);
            proof {
                assert forall|rd: ReadMap| #[trigger]
                    read_behaves(read, rd) implies u32_result_matches(r, ppid_at(rd, path@)) by {
                    assert(call_ensures(read, (path,), ret));
                }
            }
            r
        },
    }
}

} // verus!
