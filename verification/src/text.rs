//! Text: comparison, blank characters and trimming.

use vstd::prelude::*;
use vstd::string::*;

verus! {

/// Equality of two string slices, as `str`'s `PartialEq::eq` decides it:
/// `true` exactly when both hold the same characters.
#[verifier::external_body]
pub(crate) fn text_eq(a: &str, b: &str) -> (same: bool)
    ensures
        same == (a@ == b@),
{
    a.eq(b)
}

/// The characters that count as blank: those with the Unicode property
/// `White_Space`.
pub open spec fn is_blank(c: char) -> bool {
    ||| '\u{9}' <= c <= '\u{d}'
    ||| c == ' '
    ||| c == '\u{85}'
    ||| c == '\u{a0}'
    ||| c == '\u{1680}'
    ||| '\u{2000}' <= c <= '\u{200a}'
    ||| c == '\u{2028}'
    ||| c == '\u{2029}'
    ||| c == '\u{202f}'
    ||| c == '\u{205f}'
    ||| c == '\u{3000}'
}

/// Whether `c` counts as blank.
pub fn blank(c: char) -> (is: bool)
    ensures
        is == is_blank(c),
{
    ('\u{9}' <= c && c <= '\u{d}') || c == ' ' || c == '\u{85}' || c == '\u{a0}' || c == '\u{1680}'
        || ('\u{2000}' <= c && c <= '\u{200a}') || c == '\u{2028}' || c == '\u{2029}' || c
        == '\u{202f}' || c == '\u{205f}' || c == '\u{3000}'
}

/// `s` without the blanks at its start and at its end.
pub open spec fn trimmed(s: Seq<char>) -> Seq<char>
    decreases s.len(),
{
    if s.len() > 0 && is_blank(s[0]) {
        trimmed(s.drop_first())
    } else if s.len() > 0 && is_blank(s.last()) {
        trimmed(s.drop_last())
    } else {
        s
    }
}

/// The part of `s` between its leading and its trailing blanks is `s`
/// trimmed.
proof fn lemma_trimmed_is_subrange(s: Seq<char>, from: int, to: int)
    requires
        0 <= from <= to <= s.len(),
        forall|i: int| 0 <= i < from ==> is_blank(#[trigger] s[i]),
        forall|i: int| to <= i < s.len() ==> is_blank(#[trigger] s[i]),
        from < to ==> !is_blank(s[from]) && !is_blank(s[to - 1]),
    ensures
        trimmed(s) == s.subrange(from, to),
    decreases s.len(),
{
    if s.len() == 0 {
        assert(s.subrange(from, to) =~= s);
    } else if is_blank(s[0]) {
        let rest = s.drop_first();
        if from == 0 {
            assert(to == 0);
            assert forall|i: int| 0 <= i < rest.len() implies is_blank(#[trigger] rest[i]) by {
                assert(rest[i] == s[i + 1]);
            }
            lemma_trimmed_is_subrange(rest, 0, 0);
            assert(rest.subrange(0, 0) =~= s.subrange(0, 0));
        } else {
            assert forall|i: int| 0 <= i < from - 1 implies is_blank(#[trigger] rest[i]) by {
                assert(rest[i] == s[i + 1]);
            }
            assert forall|i: int| to - 1 <= i < rest.len() implies is_blank(#[trigger] rest[i]) by {
                assert(rest[i] == s[i + 1]);
            }
            if from < to {
                assert(rest[from - 1] == s[from]);
                assert(rest[to - 2] == s[to - 1]);
            }
            lemma_trimmed_is_subrange(rest, from - 1, to - 1);
            assert(rest.subrange(from - 1, to - 1) =~= s.subrange(from, to));
        }
    } else if is_blank(s.last()) {
        let rest = s.drop_last();
        assert(from == 0);
        assert(to < s.len());
        assert forall|i: int| to <= i < rest.len() implies is_blank(#[trigger] rest[i]) by {
            assert(rest[i] == s[i]);
        }
        if from < to {
            assert(rest[from] == s[from]);
            assert(rest[to - 1] == s[to - 1]);
        }
        lemma_trimmed_is_subrange(rest, from, to);
        assert(rest.subrange(from, to) =~= s.subrange(from, to));
    } else {
        assert(from == 0);
        assert(to == s.len());
        assert(s.subrange(from, to) =~= s);
    }
}

/// `s` without the blanks at its start and at its end.
pub fn trim(s: &str) -> (t: &str)
    ensures
        t@ == trimmed(s@),
{
    let n = s.unicode_len();
    let mut from: usize = 0;
    while from < n && blank(s.get_char(from))
        invariant
            from <= n,
            n == s@.len(),
            forall|i: int| 0 <= i < from ==> is_blank(#[trigger] s@[i]),
        decreases n - from,
    {
        from += 1;
    }
    let mut to: usize = n;
    while to > from && blank(s.get_char(to - 1))
        invariant
            from <= to <= n,
            n == s@.len(),
            forall|i: int| to <= i < n ==> is_blank(#[trigger] s@[i]),
        decreases to,
    {
        to -= 1;
    }
    proof {
        lemma_trimmed_is_subrange(s@, from as int, to as int);
    }
    s.substring_char(from, to)
}

/// What follows the character `mark` at the start of `s`, where `s` starts
/// with it.
pub open spec fn after_mark(s: Seq<char>, mark: char) -> Option<Seq<char>> {
    if s.len() > 0 && s[0] == mark {
        Some(s.subrange(1, s.len() as int))
    } else {
        None
    }
}

/// What follows the character `mark` at the start of `s`, or `None` where
/// `s` does not start with it.
pub fn strip_mark(s: &str, mark: char) -> (rest: Option<&str>)
    ensures
        rest.deep_view() == after_mark(s@, mark),
{
    let n = s.unicode_len();
    if n > 0 && s.get_char(0) == mark {
        Some(s.substring_char(1, n))
    } else {
        None
    }
}

/// `s` in lower case, as `str::to_lowercase` gives it.
pub uninterp spec fn lowercase(s: Seq<char>) -> Seq<char>;

/// `s` in lower case, by `str::to_lowercase`: each character is replaced
/// by its lower-case form under the rules of Unicode, which depend on
/// nothing but the text.
#[verifier::external_body]
pub(crate) fn to_lowercase(s: &str) -> (lower: String)
    ensures
        lower@ == lowercase(s@),
{
    s.to_lowercase()
}

} // verus!
