//! Character classes and trimming of the input text.

use vstd::prelude::*;
use vstd::string::*;

verus! {

/// Whether Unicode classes `c` as White_Space.
pub open spec fn is_white_space(c: char) -> bool {
    ||| '\u{9}' <= c <= '\u{d}'
    ||| c == ' '
    ||| c == '\u{85}'
    ||| c == '\u{a0}'
    ||| c == '\u{1680}'
    ||| '\u{2000}' <= c <= '\u{200a}'
    ||| c == '\u{2028}'
    ||| c == '\u{2029}'
    ||| c == '\u{202f}'
    ||| c == '\u{205f}'
    ||| c == '\u{3000}'
}

/// `s` without its leading run of white space.
pub open spec fn trim_start(s: Seq<char>) -> Seq<char>
    decreases s.len(),
{
    if s.len() > 0 && is_white_space(s.first()) {
        trim_start(s.drop_first())
    } else {
        s
    }
}

/// `s` without its trailing run of white space.
pub open spec fn trim_end(s: Seq<char>) -> Seq<char>
    decreases s.len(),
{
    if s.len() > 0 && is_white_space(s.last()) {
        trim_end(s.drop_last())
    } else {
        s
    }
}

/// `s` without leading and trailing white space.
pub open spec fn trimmed(s: Seq<char>) -> Seq<char> {
    trim_end(trim_start(s))
}

/// Whether `c` is one of the decimal digits `0` to `9`.
pub open spec fn is_digit(c: char) -> bool {
    '0' <= c <= '9'
}

/// The number that the decimal digit `c` stands for.
pub open spec fn digit_value(c: char) -> int
    recommends
        is_digit(c),
{
    c as int - '0' as int
}

/// Decides whether `c` is a white-space character.
pub fn has_white_space(c: char) -> (b: bool)
    ensures
        b == is_white_space(c),
{
    ('\u{9}' <= c && c <= '\u{d}') || c == ' ' || c == '\u{85}' || c == '\u{a0}' || c
        == '\u{1680}' || ('\u{2000}' <= c && c <= '\u{200a}') || c == '\u{2028}' || c
        == '\u{2029}' || c == '\u{202f}' || c == '\u{205f}' || c == '\u{3000}'
}

/// Trimming at the front removes a prefix that is all white space and stops
/// at the first character that is none.
pub proof fn lemma_trim_start_is_suffix(s: Seq<char>, start: int)
    requires
        0 <= start <= s.len(),
        forall|j: int| 0 <= j < start ==> is_white_space(#[trigger] s[j]),
        start < s.len() ==> !is_white_space(s[start]),
    ensures
        trim_start(s) == s.subrange(start, s.len() as int),
    decreases start,
{
    if start == 0 {
        assert(s.subrange(0, s.len() as int) == s);
    } else {
        let rest = s.drop_first();
        assert forall|j: int| 0 <= j < start - 1 implies is_white_space(#[trigger] rest[j]) by {
            assert(rest[j] == s[j + 1]);
        }
        lemma_trim_start_is_suffix(rest, start - 1);
        assert(rest.subrange(start - 1, rest.len() as int) == s.subrange(start, s.len() as int));
    }
}

/// Trimming at the back removes a suffix that is all white space and stops
/// behind the last character that is none.
pub proof fn lemma_trim_end_is_prefix(s: Seq<char>, end: int)
    requires
        0 <= end <= s.len(),
        forall|j: int| end <= j < s.len() ==> is_white_space(#[trigger] s[j]),
        0 < end ==> !is_white_space(s[end - 1]),
    ensures
        trim_end(s) == s.subrange(0, end),
    decreases s.len() - end,
{
    if end == s.len() {
        assert(s.subrange(0, end) == s);
    } else {
        let rest = s.drop_last();
        lemma_trim_end_is_prefix(rest, end);
        assert(rest.subrange(0, end) == s.subrange(0, end));
    }
}

/// Whether every character of `s` is white space.
pub open spec fn all_white_space(s: Seq<char>) -> bool {
    forall|i: int| 0 <= i < s.len() ==> is_white_space(#[trigger] s[i])
}

/// White space in front of a text is trimmed away.
pub proof fn lemma_trim_start_ignores_padding(left: Seq<char>, s: Seq<char>)
    requires
        all_white_space(left),
    ensures
        trim_start(left + s) == trim_start(s),
    decreases left.len(),
{
    if left.len() == 0 {
        assert(left + s == s);
    } else {
        assert(is_white_space(left[0]));
        assert((left + s).drop_first() == left.drop_first() + s);
        lemma_trim_start_ignores_padding(left.drop_first(), s);
    }
}

/// White space behind a text is trimmed away.
pub proof fn lemma_trim_end_ignores_padding(s: Seq<char>, right: Seq<char>)
    requires
        all_white_space(right),
    ensures
        trim_end(s + right) == trim_end(s),
    decreases right.len(),
{
    if right.len() == 0 {
        assert(s + right == s);
    } else {
        assert(is_white_space(right[right.len() - 1]));
        assert((s + right).drop_last() == s + right.drop_last());
        lemma_trim_end_ignores_padding(s, right.drop_last());
    }
}

/// Trimming the front of a text that is followed by white space leaves that
/// white space in place, unless the text itself is white space only.
pub proof fn lemma_trim_start_keeps_padding(s: Seq<char>, right: Seq<char>)
    requires
        all_white_space(right),
    ensures
        trim_start(s + right) == if trim_start(s).len() == 0 {
            Seq::<char>::empty()
        } else {
            trim_start(s) + right
        },
    decreases s.len(),
{
    if s.len() == 0 {
        lemma_trim_start_ignores_padding(right, s);
        assert(right + s == s + right);
    } else if is_white_space(s.first()) {
        assert((s + right).drop_first() == s.drop_first() + right);
        lemma_trim_start_keeps_padding(s.drop_first(), right);
    }
}

/// Trimming ignores white space on either side of a text.
pub proof fn lemma_trimmed_ignores_padding(left: Seq<char>, core: Seq<char>, right: Seq<char>)
    requires
        all_white_space(left),
        all_white_space(right),
    ensures
        trimmed(left + core + right) == trimmed(core),
{
    assert(left + core + right == left + (core + right));
    lemma_trim_start_ignores_padding(left, core + right);
    lemma_trim_start_keeps_padding(core, right);
    lemma_trim_end_ignores_padding(trim_start(core), right);
}

/// Text that neither starts nor ends with white space is its own trimmed form.
pub proof fn lemma_trimmed_is_identity(s: Seq<char>)
    requires
        s.len() > 0 ==> !is_white_space(s.first()) && !is_white_space(s.last()),
    ensures
        trimmed(s) == s,
{
}

/// Trimming the back of a text stops at the latest behind a character that
/// is no white space.
pub proof fn lemma_trim_end_keeps_front(front: Seq<char>, rest: Seq<char>)
    requires
        front.len() > 0,
        !is_white_space(front.last()),
    ensures
        trim_end(front + rest) == front + trim_end(rest),
    decreases rest.len(),
{
    if rest.len() == 0 {
        assert(front + rest == front);
        assert(front + trim_end(rest) == front);
    } else if is_white_space(rest.last()) {
        assert((front + rest).last() == rest.last());
        assert((front + rest).drop_last() == front + rest.drop_last());
        lemma_trim_end_keeps_front(front, rest.drop_last());
    } else {
        assert((front + rest).last() == rest.last());
    }
}

/// Trimming leaves the front of a text in place if that front neither
/// starts nor ends with white space.
pub proof fn lemma_trimmed_keeps_front(front: Seq<char>, rest: Seq<char>)
    requires
        front.len() > 0,
        !is_white_space(front.first()),
        !is_white_space(front.last()),
    ensures
        trimmed(front + rest) == front + trim_end(rest),
{
    assert((front + rest).first() == front.first());
    lemma_trim_end_keeps_front(front, rest);
}

/// The part of `s` between its first and its last character that is no
/// white space; empty if `s` holds white space only.
pub fn trim(s: &str) -> (r: &str)
    ensures
        r@ == trimmed(s@),
{
    let total = s.unicode_len();
    let mut start: usize = 0;
    let mut end: usize = 0;
    let mut i: usize = 0;
    for c in it: s.chars()
        invariant
            it.seq() == s@,
            total == s@.len(),
            i == it.index(),
            start <= end <= i,
            forall|j: int| 0 <= j < start ==> is_white_space(#[trigger] s@[j]),
            forall|j: int| end <= j < i ==> is_white_space(#[trigger] s@[j]),
            end == 0 ==> start == 0,
            end > 0 ==> !is_white_space(s@[start as int]) && !is_white_space(s@[end - 1]),
    {
        if !has_white_space(c) {
            if end == 0 {
                start = i;
            }
            end = i + 1;
        }
        i = i + 1;
    }
    proof {
        let whole = s@;
        if end == 0 {
            lemma_trim_start_is_suffix(whole, whole.len() as int);
            assert(trim_start(whole).len() == 0);
            assert(whole.subrange(0, 0) == trim_start(whole));
        } else {
            lemma_trim_start_is_suffix(whole, start as int);
            let tail = whole.subrange(start as int, whole.len() as int);
            assert forall|j: int| end - start <= j < tail.len() implies is_white_space(
                #[trigger] tail[j],
            ) by {
                assert(tail[j] == whole[start + j]);
            }
            assert(tail[end - start - 1] == whole[end - 1]);
            lemma_trim_end_is_prefix(tail, end - start);
            assert(tail.subrange(0, end - start) == whole.subrange(start as int, end as int));
        }
    }
    s.substring_char(start, end)
}

} // verus!
