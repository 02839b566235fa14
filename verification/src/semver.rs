//! The format of a semantic version, stated over sequences of characters.
//!
//! A semantic version is a version core `MAJOR.MINOR.PATCH`, optionally
//! followed by `-` and a pre-release, and optionally followed by `+` and
//! build metadata. Pre-release and build metadata are lists of identifiers
//! separated by dots.

use vstd::prelude::*;
use vstd::std_specs::iter::IteratorSpec;

verus! {

/// An ASCII digit.
pub open spec fn is_digit(c: char) -> bool {
    '0' <= c && c <= '9'
}

/// A character that may stand in an identifier: an ASCII digit, an ASCII
/// letter or a hyphen.
pub open spec fn is_identifier_char(c: char) -> bool {
    is_digit(c) || ('a' <= c && c <= 'z') || ('A' <= c && c <= 'Z') || c == '-'
}

/// A character of a version core: a digit or a dot.
pub open spec fn is_core_char(c: char) -> bool {
    is_digit(c) || c == '.'
}

/// Every character of `s` is an ASCII digit.
pub open spec fn all_digits(s: Seq<char>) -> bool {
    forall|k: int| 0 <= k < s.len() ==> is_digit(#[trigger] s[k])
}

/// A numeric identifier: one or more digits, with no leading zero unless the
/// identifier is `0` itself.
pub open spec fn is_numeric_identifier(s: Seq<char>) -> bool {
    &&& s.len() > 0
    &&& all_digits(s)
    &&& (s.len() > 1 ==> s[0] != '0')
}

/// An identifier of build metadata: one or more identifier characters.
pub open spec fn is_build_identifier(s: Seq<char>) -> bool {
    &&& s.len() > 0
    &&& forall|k: int| 0 <= k < s.len() ==> is_identifier_char(#[trigger] s[k])
}

/// An identifier of a pre-release: one or more identifier characters, and
/// where all of them are digits, a numeric identifier.
pub open spec fn is_prerelease_identifier(s: Seq<char>) -> bool {
    &&& is_build_identifier(s)
    &&& (all_digits(s) ==> is_numeric_identifier(s))
}

/// `s[i..j]` is one of the pieces into which the dots of `s` cut it: it holds
/// no dot, and on either side it ends at a dot or at an end of `s`.
pub open spec fn is_segment(s: Seq<char>, i: int, j: int) -> bool {
    &&& 0 <= i <= j <= s.len()
    &&& (i == 0 || s[i - 1] == '.')
    &&& (j == s.len() || s[j] == '.')
    &&& forall|k: int| i <= k < j ==> #[trigger] s[k] != '.'
}

/// `s` splits at the dots at `i` and `j` into three numeric identifiers.
pub open spec fn splits_as_version_core(s: Seq<char>, i: int, j: int) -> bool {
    &&& 0 < i < j < s.len()
    &&& s[i] == '.'
    &&& s[j] == '.'
    &&& is_numeric_identifier(s.subrange(0, i))
    &&& is_numeric_identifier(s.subrange(i + 1, j))
    &&& is_numeric_identifier(s.subrange(j + 1, s.len() as int))
}

/// A version core: three numeric identifiers separated by two dots.
pub open spec fn is_version_core(s: Seq<char>) -> bool {
    exists|i: int, j: int| #[trigger] splits_as_version_core(s, i, j)
}

/// An identifier of a pre-release where `numeric_rule` holds, of build
/// metadata where it does not.
pub open spec fn is_identifier(s: Seq<char>, numeric_rule: bool) -> bool {
    if numeric_rule {
        is_prerelease_identifier(s)
    } else {
        is_build_identifier(s)
    }
}

/// A list of identifiers separated by dots: every piece between the dots of
/// `s` is an identifier. The empty sequence is no such list, since its one
/// piece is empty.
pub open spec fn is_identifier_list(s: Seq<char>, numeric_rule: bool) -> bool {
    forall|i: int, j: int| #[trigger]
        is_segment(s, i, j) ==> is_identifier(s.subrange(i, j), numeric_rule)
}

/// A pre-release: a list of pre-release identifiers separated by dots.
pub open spec fn is_prerelease(s: Seq<char>) -> bool {
    is_identifier_list(s, true)
}

/// Build metadata: a list of build identifiers separated by dots.
pub open spec fn is_build(s: Seq<char>) -> bool {
    is_identifier_list(s, false)
}

/// `s` splits at `core_end` and `pre_end` into a version core, an optional
/// pre-release behind a hyphen, and optional build metadata behind a plus.
pub open spec fn splits_as_semver(s: Seq<char>, core_end: int, pre_end: int) -> bool {
    &&& 0 <= core_end <= pre_end <= s.len()
    &&& is_version_core(s.subrange(0, core_end))
    &&& (core_end == pre_end || (s[core_end] == '-' && is_prerelease(
        s.subrange(core_end + 1, pre_end),
    )))
    &&& (pre_end == s.len() || (s[pre_end] == '+' && is_build(
        s.subrange(pre_end + 1, s.len() as int),
    )))
}

/// `s` has the format of a semantic version.
pub open spec fn is_semver(s: Seq<char>) -> bool {
    exists|core_end: int, pre_end: int| #[trigger] splits_as_semver(s, core_end, pre_end)
}

/// A version core holds digits and dots only.
pub proof fn lemma_version_core_chars(s: Seq<char>)
    requires
        is_version_core(s),
    ensures
        forall|k: int| 0 <= k < s.len() ==> is_core_char(#[trigger] s[k]),
{
    let (i, j) = choose|i: int, j: int| #[trigger] splits_as_version_core(s, i, j);
    assert forall|k: int| 0 <= k < s.len() implies is_core_char(#[trigger] s[k]) by {
        if k < i {
            assert(s[k] == s.subrange(0, i)[k]);
        } else if i < k < j {
            assert(s[k] == s.subrange(i + 1, j)[k - i - 1]);
        } else if j < k {
            assert(s[k] == s.subrange(j + 1, s.len() as int)[k - j - 1]);
        }
    }
}

/// Where the piece between dots that holds position `k` begins.
proof fn lemma_segment_start(s: Seq<char>, k: int) -> (i: int)
    requires
        0 <= k < s.len(),
        s[k] != '.',
    ensures
        0 <= i <= k,
        i == 0 || s[i - 1] == '.',
        forall|m: int| i <= m <= k ==> #[trigger] s[m] != '.',
    decreases k,
{
    if k == 0 || s[k - 1] == '.' {
        k
    } else {
        lemma_segment_start(s, k - 1)
    }
}

/// Where the piece between dots that holds position `k` ends.
proof fn lemma_segment_end(s: Seq<char>, k: int) -> (j: int)
    requires
        0 <= k < s.len(),
        s[k] != '.',
    ensures
        k < j <= s.len(),
        j == s.len() || s[j] == '.',
        forall|m: int| k <= m < j ==> #[trigger] s[m] != '.',
    decreases s.len() - k,
{
    if k + 1 == s.len() || s[k + 1] == '.' {
        k + 1
    } else {
        lemma_segment_end(s, k + 1)
    }
}

/// A list of identifiers holds identifier characters and dots only.
pub proof fn lemma_identifier_list_chars(s: Seq<char>, numeric_rule: bool)
    requires
        is_identifier_list(s, numeric_rule),
    ensures
        forall|k: int| 0 <= k < s.len() ==> #[trigger] s[k] == '.' || is_identifier_char(s[k]),
{
    assert forall|k: int| 0 <= k < s.len() implies #[trigger] s[k] == '.' || is_identifier_char(
        s[k],
    ) by {
        if s[k] != '.' {
            let i = lemma_segment_start(s, k);
            let j = lemma_segment_end(s, k);
            assert(is_segment(s, i, j));
            assert(is_build_identifier(s.subrange(i, j)));
            assert(s[k] == s.subrange(i, j)[k - i]);
        }
    }
}

/// The characters of `s`, one element for each.
fn to_chars(s: &str) -> (chars: Vec<char>)
    ensures
        chars@ == s@,
{
    broadcast use {vstd::string::axiom_spec_iter, vstd::string::next_postcondition};

    let mut rest = s.chars();
    let mut chars: Vec<char> = Vec::new();
    loop
        invariant
            rest.obeys_prophetic_iter_laws(),
            rest.decrease() is Some,
            chars@ + rest.remaining() =~= s@,
        decreases rest.decrease()->0,
    {
        match rest.next() {
            Some(c) => {
                chars.push(c);
            },
            None => {
                return chars;
            },
        }
    }
}

/// Whether `c` is an ASCII digit.
fn char_is_digit(c: char) -> (b: bool)
    ensures
        b == is_digit(c),
{
    '0' <= c && c <= '9'
}

/// Whether `c` may stand in an identifier.
fn char_is_identifier_char(c: char) -> (b: bool)
    ensures
        b == is_identifier_char(c),
{
    char_is_digit(c) || ('a' <= c && c <= 'z') || ('A' <= c && c <= 'Z') || c == '-'
}

/// Whether `chars[lo..hi]` is a numeric identifier.
fn check_numeric_identifier(chars: &Vec<char>, lo: usize, hi: usize) -> (b: bool)
    requires
        lo <= hi <= chars.len(),
    ensures
        b == is_numeric_identifier(chars@.subrange(lo as int, hi as int)),
{
    let ghost piece = chars@.subrange(lo as int, hi as int);
    if lo == hi {
        return false;
    }
    if hi - lo > 1 && chars[lo] == '0' {
        assert(piece[0] == '0');
        return false;
    }
    let mut k: usize = lo;
    while k < hi
        invariant
            lo <= k <= hi <= chars.len(),
            piece == chars@.subrange(lo as int, hi as int),
            forall|m: int| 0 <= m < k - lo ==> is_digit(#[trigger] piece[m]),
        decreases hi - k,
    {
        if !char_is_digit(chars[k]) {
            assert(!is_digit(piece[k - lo]));
            return false;
        }
        k += 1;
    }
    assert(piece[0] == chars@[lo as int]);
    true
}

/// Whether `chars[lo..hi]` is an identifier of the kind that `numeric_rule`
/// selects.
fn check_identifier(chars: &Vec<char>, lo: usize, hi: usize, numeric_rule: bool) -> (b: bool)
    requires
        lo <= hi <= chars.len(),
    ensures
        b == is_identifier(chars@.subrange(lo as int, hi as int), numeric_rule),
{
    let ghost piece = chars@.subrange(lo as int, hi as int);
    if lo == hi {
        return false;
    }
    let mut digits_only: bool = true;
    let mut k: usize = lo;
    while k < hi
        invariant
            lo <= k <= hi <= chars.len(),
            piece == chars@.subrange(lo as int, hi as int),
            forall|m: int| 0 <= m < k - lo ==> is_identifier_char(#[trigger] piece[m]),
            digits_only == (forall|m: int| 0 <= m < k - lo ==> is_digit(#[trigger] piece[m])),
        decreases hi - k,
    {
        let c: char = chars[k];
        assert(c == piece[k - lo]);
        if !char_is_identifier_char(c) {
            return false;
        }
        if !char_is_digit(c) {
            digits_only = false;
        }
        k += 1;
    }
    assert(is_build_identifier(piece));
    assert(digits_only == all_digits(piece));
    assert(piece[0] == chars@[lo as int]);
    !(numeric_rule && digits_only && hi - lo > 1 && chars[lo] == '0')
}

/// The first index in `lo..hi` at which `chars` holds `wanted`, or `hi` where
/// there is none.
fn find_char(chars: &Vec<char>, lo: usize, hi: usize, wanted: char) -> (k: usize)
    requires
        lo <= hi <= chars.len(),
    ensures
        lo <= k <= hi,
        k < hi ==> chars@[k as int] == wanted,
        forall|m: int| lo <= m < k ==> #[trigger] chars@[m] != wanted,
{
    let mut k: usize = lo;
    while k < hi && chars[k] != wanted
        invariant
            lo <= k <= hi <= chars.len(),
            forall|m: int| lo <= m < k ==> #[trigger] chars@[m] != wanted,
        decreases hi - k,
    {
        k += 1;
    }
    k
}

/// Whether `chars[lo..hi]` is a list of identifiers of the kind that
/// `numeric_rule` selects, separated by dots.
fn check_identifier_list(chars: &Vec<char>, lo: usize, hi: usize, numeric_rule: bool) -> (b:
    bool)
    requires
        lo <= hi <= chars.len(),
    ensures
        b == is_identifier_list(chars@.subrange(lo as int, hi as int), numeric_rule),
{
    let ghost list = chars@.subrange(lo as int, hi as int);
    let mut start: usize = lo;
    loop
        invariant
            lo <= start <= hi <= chars.len(),
            list == chars@.subrange(lo as int, hi as int),
            start == lo || chars@[start - 1] == '.',
            forall|i: int, j: int|
                i < start - lo && #[trigger] is_segment(list, i, j) ==> is_identifier(
                    list.subrange(i, j),
                    numeric_rule,
                ),
        decreases hi - start,
    {
        let end: usize = find_char(chars, start, hi, '.');
        proof {
            assert forall|k: int| start - lo <= k < end - lo implies #[trigger] list[k] != '.' by {
                assert(list[k] == chars@[lo + k]);
            }
            assert(is_segment(list, start - lo, end - lo));
            assert(list.subrange(start - lo, end - lo) =~= chars@.subrange(
                start as int,
                end as int,
            ));
        }
        if !check_identifier(chars, start, end, numeric_rule) {
            return false;
        }
        proof {
            assert forall|i: int, j: int|
                i < end + 1 - lo && #[trigger] is_segment(list, i, j) implies is_identifier(
                list.subrange(i, j),
                numeric_rule,
            ) by {
                if i > start - lo {
                    assert(list[i - 1] == '.');
                } else if i == start - lo {
                    if j < end - lo {
                        assert(list[j] == '.');
                    } else if j > end - lo {
                        assert(list[end - lo] != '.');
                    }
                }
            }
        }
        if end == hi {
            return true;
        }
        start = end + 1;
    }
}

/// Whether `chars[..hi]` is a version core.
fn check_version_core(chars: &Vec<char>, hi: usize) -> (b: bool)
    requires
        hi <= chars.len(),
    ensures
        b == is_version_core(chars@.subrange(0, hi as int)),
{
    let ghost core = chars@.subrange(0, hi as int);
    let first: usize = find_char(chars, 0, hi, '.');
    let second: usize = if first < hi {
        find_char(chars, first + 1, hi, '.')
    } else {
        hi
    };
    proof {
        assert forall|i: int, j: int| #[trigger]
            splits_as_version_core(core, i, j) implies i == first && j == second by {
            let major = core.subrange(0, i);
            let minor = core.subrange(i + 1, j);
            assert(core[i] == chars@[i]);
            assert(core[j] == chars@[j]);
            if first < i {
                assert(is_digit(major[first as int]));
            }
            if first < hi && first + 1 <= second < j {
                assert(is_digit(minor[second - first - 1]));
            }
        }
    }
    if second >= hi {
        return false;
    }
    proof {
        assert(core.subrange(0, first as int) =~= chars@.subrange(0, first as int));
        assert(core.subrange(first + 1, second as int) =~= chars@.subrange(
            first + 1,
            second as int,
        ));
        assert(core.subrange(second + 1, core.len() as int) =~= chars@.subrange(
            second + 1,
            hi as int,
        ));
        assert(core[first as int] == '.');
        assert(core[second as int] == '.');
    }
    let b = check_numeric_identifier(chars, 0, first) && check_numeric_identifier(
        chars,
        first + 1,
        second,
    ) && check_numeric_identifier(chars, second + 1, hi);
    proof {
        if b {
            assert(splits_as_version_core(core, first as int, second as int));
        }
    }
    b
}

/// Whether `s` has the format of a semantic version.
pub fn is_semantic_version(s: &str) -> (b: bool)
    ensures
        b == is_semver(s@),
{
    let chars: Vec<char> = to_chars(s);
    let n: usize = chars.len();
    let mut core_end: usize = 0;
    while core_end < n && (char_is_digit(chars[core_end]) || chars[core_end] == '.')
        invariant
            core_end <= n == chars.len(),
            forall|m: int| 0 <= m < core_end ==> is_core_char(#[trigger] chars@[m]),
        decreases n - core_end,
    {
        core_end += 1;
    }
    let pre_end: usize = if core_end < n && chars[core_end] == '-' {
        find_char(&chars, core_end + 1, n, '+')
    } else {
        core_end
    };
    proof {
        assert forall|ce: int, pe: int| #[trigger]
            splits_as_semver(chars@, ce, pe) implies ce == core_end && pe == pre_end by {
            let core = chars@.subrange(0, ce);
            lemma_version_core_chars(core);
            if core_end < ce {
                assert(is_core_char(core[core_end as int]));
            }
            if ce < core_end {
                assert(is_core_char(chars@[ce]));
            }
            if ce < pe {
                let pre = chars@.subrange(ce + 1, pe);
                lemma_identifier_list_chars(pre, true);
                if pre_end < pe {
                    assert(pre[pre_end - ce - 1] == '+');
                }
            }
        }
    }
    if !check_version_core(&chars, core_end) {
        return false;
    }
    if pre_end > core_end && !check_identifier_list(&chars, core_end + 1, pre_end, true) {
        return false;
    }
    if pre_end == n {
        assert(splits_as_semver(chars@, core_end as int, pre_end as int));
        return true;
    }
    if chars[pre_end] != '+' {
        return false;
    }
    let b = check_identifier_list(&chars, pre_end + 1, n, false);
    proof {
        if b {
            assert(splits_as_semver(chars@, core_end as int, pre_end as int));
        }
    }
    b
}

} // verus!
