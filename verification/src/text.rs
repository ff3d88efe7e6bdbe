//! Characters of a string and whitespace trimming.
//!
//! Text is modelled as `Seq<char>`. Trimming is defined by counting the
//! whitespace at either end; the executable `trim` returns exactly that
//! subrange of its argument.

use vstd::prelude::*;
use vstd::std_specs::iter::IteratorSpec;

verus! {

/// Whether `c` is whitespace: a character that Unicode classes as
/// `White_Space`. The line terminators `'\n'` and `'\r'` are among them.
pub open spec fn is_whitespace(c: char) -> bool {
    ||| '\u{0009}' <= c <= '\u{000D}'
    ||| c == ' '
    ||| c == '\u{0085}'
    ||| c == '\u{00A0}'
    ||| c == '\u{1680}'
    ||| '\u{2000}' <= c <= '\u{200A}'
    ||| c == '\u{2028}'
    ||| c == '\u{2029}'
    ||| c == '\u{202F}'
    ||| c == '\u{205F}'
    ||| c == '\u{3000}'
}

/// How many whitespace characters `s` starts with.
pub open spec fn leading_whitespace(s: Seq<char>) -> nat
    decreases s.len(),
{
    if s.len() > 0 && is_whitespace(s.first()) {
        1 + leading_whitespace(s.drop_first())
    } else {
        0
    }
}

/// How many whitespace characters `s` ends with.
pub open spec fn trailing_whitespace(s: Seq<char>) -> nat
    decreases s.len(),
{
    if s.len() > 0 && is_whitespace(s.last()) {
        1 + trailing_whitespace(s.drop_last())
    } else {
        0
    }
}

/// `s` without its leading and trailing whitespace.
pub open spec fn trimmed(s: Seq<char>) -> Seq<char> {
    let rest = s.skip(leading_whitespace(s) as int);
    rest.take(rest.len() - trailing_whitespace(rest))
}

/// The leading whitespace of `s` is its first `k` characters when those are
/// all whitespace and the one after them, if any, is not.
pub proof fn lemma_leading_whitespace(s: Seq<char>, k: int)
    requires
        0 <= k <= s.len(),
        forall|i: int| 0 <= i < k ==> is_whitespace(#[trigger] s[i]),
        k < s.len() ==> !is_whitespace(s[k]),
    ensures
        leading_whitespace(s) == k,
    decreases k,
{
    if k > 0 {
        let rest = s.drop_first();
        assert forall|i: int| 0 <= i < k - 1 implies is_whitespace(#[trigger] rest[i]) by {
            assert(rest[i] == s[i + 1]);
        }
        lemma_leading_whitespace(rest, k - 1);
    }
}

/// The trailing whitespace of `s` is its last `k` characters when those are
/// all whitespace and the one before them, if any, is not.
pub proof fn lemma_trailing_whitespace(s: Seq<char>, k: int)
    requires
        0 <= k <= s.len(),
        forall|i: int| s.len() - k <= i < s.len() ==> is_whitespace(#[trigger] s[i]),
        k < s.len() ==> !is_whitespace(s[s.len() - k - 1]),
    ensures
        trailing_whitespace(s) == k,
    decreases k,
{
    if k > 0 {
        let rest = s.drop_last();
        assert forall|i: int| rest.len() - (k - 1) <= i < rest.len() implies is_whitespace(
            #[trigger] rest[i],
        ) by {
            assert(rest[i] == s[i]);
        }
        lemma_trailing_whitespace(rest, k - 1);
    }
}

/// The leading whitespace of `s` is a run of whitespace that stops at the
/// first character that is none, or at the end of `s`.
pub proof fn lemma_leading_run(s: Seq<char>)
    ensures
        leading_whitespace(s) <= s.len(),
        forall|i: int| 0 <= i < leading_whitespace(s) ==> is_whitespace(#[trigger] s[i]),
        leading_whitespace(s) < s.len() ==> !is_whitespace(s[leading_whitespace(s) as int]),
    decreases s.len(),
{
    if s.len() > 0 && is_whitespace(s.first()) {
        let rest = s.drop_first();
        lemma_leading_run(rest);
        assert forall|i: int| 0 <= i < leading_whitespace(s) implies is_whitespace(
            #[trigger] s[i],
        ) by {
            if i > 0 {
                assert(s[i] == rest[i - 1]);
            }
        }
        if leading_whitespace(s) < s.len() {
            assert(s[leading_whitespace(s) as int] == rest[leading_whitespace(rest) as int]);
        }
    }
}

/// The trailing whitespace of `s` is a run of whitespace that starts after
/// the last character that is none, or at the start of `s`.
pub proof fn lemma_trailing_run(s: Seq<char>)
    ensures
        trailing_whitespace(s) <= s.len(),
        forall|i: int|
            s.len() - trailing_whitespace(s) <= i < s.len() ==> is_whitespace(#[trigger] s[i]),
        trailing_whitespace(s) < s.len() ==> !is_whitespace(
            s[s.len() - trailing_whitespace(s) - 1],
        ),
    decreases s.len(),
{
    if s.len() > 0 && is_whitespace(s.last()) {
        let rest = s.drop_last();
        lemma_trailing_run(rest);
        assert forall|i: int|
            s.len() - trailing_whitespace(s) <= i < s.len() implies is_whitespace(
            #[trigger] s[i],
        ) by {
            if i < s.len() - 1 {
                assert(s[i] == rest[i]);
            }
        }
        if trailing_whitespace(s) < s.len() {
            assert(s[s.len() - trailing_whitespace(s) - 1] == rest[rest.len()
                - trailing_whitespace(rest) - 1]);
        }
    }
}

/// Trimmed text neither starts nor ends with whitespace.
pub proof fn lemma_trimmed_ends(s: Seq<char>)
    ensures
        trimmed(s).len() > 0 ==> !is_whitespace(trimmed(s).first()) && !is_whitespace(
            trimmed(s).last(),
        ),
{
    let rest = s.skip(leading_whitespace(s) as int);
    lemma_leading_run(s);
    lemma_trailing_run(rest);
}

/// Text that neither starts nor ends with whitespace is its own trimming.
pub proof fn lemma_trimmed_unpadded(s: Seq<char>)
    requires
        s.len() > 0 ==> !is_whitespace(s.first()) && !is_whitespace(s.last()),
    ensures
        trimmed(s) == s,
{
    lemma_leading_whitespace(s, 0);
    assert(s.skip(0) == s);
    lemma_trailing_whitespace(s, 0);
    assert(s.take(s.len() as int) == s);
}

/// Whitespace put before and after a text does not change its trimming.
pub proof fn lemma_trimmed_padding(before: Seq<char>, s: Seq<char>, after: Seq<char>)
    requires
        forall|i: int| 0 <= i < before.len() ==> is_whitespace(#[trigger] before[i]),
        forall|i: int| 0 <= i < after.len() ==> is_whitespace(#[trigger] after[i]),
    ensures
        trimmed(before + s + after) == trimmed(s),
{
    let padded = before + s + after;
    let lead: int = leading_whitespace(s) as int;
    let rest = s.skip(lead);
    let trail: int = trailing_whitespace(rest) as int;
    lemma_leading_run(s);
    lemma_trailing_run(rest);
    if lead == s.len() {
        lemma_leading_whitespace(padded, padded.len() as int);
        assert(trimmed(padded) =~= trimmed(s));
    } else {
        assert(padded[before.len() + lead] == s[lead]);
        lemma_leading_whitespace(padded, before.len() + lead);
        let padded_rest = padded.skip(before.len() + lead);
        assert(padded_rest =~= rest + after);
        assert(rest[0] == s[lead]);
        assert(trail < rest.len());
        assert(padded_rest[padded_rest.len() - (after.len() + trail) - 1] == rest[rest.len()
            - trail - 1]);
        assert forall|i: int|
            padded_rest.len() - (after.len() + trail) <= i
                < padded_rest.len() implies is_whitespace(#[trigger] padded_rest[i]) by {
            if i < rest.len() {
                assert(padded_rest[i] == rest[i]);
            } else {
                assert(padded_rest[i] == after[i - rest.len()]);
            }
        }
        lemma_trailing_whitespace(padded_rest, after.len() + trail);
        assert(trimmed(padded) =~= trimmed(s));
    }
}

/// Whether `c` is whitespace.
pub fn is_space(c: char) -> (b: bool)
    ensures
        b == is_whitespace(c),
{
    ('\u{0009}' <= c && c <= '\u{000D}') || c == ' ' || c == '\u{0085}' || c == '\u{00A0}' || c
        == '\u{1680}' || ('\u{2000}' <= c && c <= '\u{200A}') || c == '\u{2028}' || c == '\u{2029}'
        || c == '\u{202F}' || c == '\u{205F}' || c == '\u{3000}'
}

/// The characters of `s`, in order.
pub fn chars_of(s: &str) -> (v: Vec<char>)
    ensures
        v@ == s@,
{
    let mut v: Vec<char> = Vec::new();
    let mut it = s.chars();
    loop
        invariant
            it.obeys_prophetic_iter_laws(),
            it.decrease() is Some,
            v@ + it.remaining() == s@,
        ensures
            v@ == s@,
        decreases it.decrease()->0,
    {
        match it.next() {
            Some(c) => {
                v.push(c);
            },
            None => {
                break;
            },
        }
    }
    v
}

/// The part of `s` between its leading and its trailing whitespace.
pub fn trim(s: &str) -> (t: &str)
    ensures
        t@ == trimmed(s@),
{
    let chars = chars_of(s);
    let mut start: usize = 0;
    while start < chars.len() && is_space(chars[start])
        invariant
            start <= chars.len(),
            forall|i: int| 0 <= i < start ==> is_whitespace(#[trigger] chars@[i]),
        decreases chars.len() - start,
    {
        start += 1;
    }
    let mut end: usize = chars.len();
    while end > start && is_space(chars[end - 1])
        invariant
            start <= end <= chars.len(),
            forall|i: int| end <= i < chars.len() ==> is_whitespace(#[trigger] chars@[i]),
        decreases end - start,
    {
        end -= 1;
    }
    proof {
        let rest = s@.skip(start as int);
        lemma_leading_whitespace(s@, start as int);
        if end > start {
            assert(rest[end - start - 1] == s@[end - 1]);
        }
        assert forall|i: int| rest.len() - (s@.len() - end) <= i < rest.len() implies is_whitespace(
            #[trigger] rest[i],
        ) by {
            assert(rest[i] == s@[i + start]);
        }
        lemma_trailing_whitespace(rest, s@.len() - end);
        assert(rest.take(end - start) == s@.subrange(start as int, end as int));
    }
    s.substring_char(start, end)
}

} // verus!
