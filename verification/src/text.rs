//! Whitespace trimming of text reported by the system, stated over the
//! Unicode `White_Space` property.
use vstd::prelude::*;

verus! {

/// Whether a character carries the Unicode `White_Space` property, which is
/// what `str::trim` removes (and `char::is_whitespace` tests for): tab, line
/// feed, vertical tab, form feed, carriage return, space, next line,
/// no-break space, ogham space mark, the spaces U+2000 to U+200A, line and
/// paragraph separators, narrow no-break space, medium mathematical space
/// and ideographic space.
pub open spec fn is_white_space(c: char) -> bool {
    let n = c as u32;
    ||| 0x09 <= n <= 0x0d
    ||| n == 0x20
    ||| n == 0x85
    ||| n == 0xa0
    ||| n == 0x1680
    ||| 0x2000 <= n <= 0x200a
    ||| n == 0x2028
    ||| n == 0x2029
    ||| n == 0x202f
    ||| n == 0x205f
    ||| n == 0x3000
}

/// `s` without its leading whitespace.
pub open spec fn trim_start_spec(s: Seq<char>) -> Seq<char>
    decreases s.len(),
{
    if s.len() > 0 && is_white_space(s[0]) {
        trim_start_spec(s.drop_first())
    } else {
        s
    }
}

/// `s` without its trailing whitespace.
pub open spec fn trim_end_spec(s: Seq<char>) -> Seq<char>
    decreases s.len(),
{
    if s.len() > 0 && is_white_space(s.last()) {
        trim_end_spec(s.drop_last())
    } else {
        s
    }
}

/// `s` without leading and trailing whitespace.
pub open spec fn trimmed(s: Seq<char>) -> Seq<char> {
    trim_end_spec(trim_start_spec(s))
}

/// `str::trim`: the slice of `s` with leading and trailing characters of
/// the Unicode `White_Space` property removed, as the std documentation
/// defines it. Trusted: the contract states that definition.
#[verifier::external_body]
pub(crate) fn trim_str(s: &str) -> (r: &str)
    ensures
        r@ == trimmed(s@),
{
    s.trim()
}

/// What trimming leaves: no whitespace at either end, and a contiguous part
/// `s[i..j]` of the original text.
pub proof fn lemma_trimmed_ends(s: Seq<char>) -> (ij: (int, int))
    ensures
        trimmed(s).len() > 0 ==> !is_white_space(trimmed(s)[0]),
        trimmed(s).len() > 0 ==> !is_white_space(trimmed(s).last()),
        0 <= ij.0 <= ij.1 <= s.len(),
        trimmed(s) == s.subrange(ij.0, ij.1),
{
    let i: int = lemma_trim_start_facts(s);
    let j: int = lemma_trim_end_facts(trim_start_spec(s));
    assert(trimmed(s) == s.subrange(i, i + j));
    (i, i + j)
}

proof fn lemma_trim_start_facts(s: Seq<char>) -> (i: int)
    ensures
        trim_start_spec(s).len() > 0 ==> !is_white_space(trim_start_spec(s)[0]),
        0 <= i <= s.len(),
        trim_start_spec(s) == s.subrange(i, s.len() as int),
    decreases s.len(),
{
    if s.len() > 0 && is_white_space(s[0]) {
        let i: int = lemma_trim_start_facts(s.drop_first());
        assert(trim_start_spec(s) == s.subrange(i + 1, s.len() as int));
        i + 1
    } else {
        assert(s == s.subrange(0, s.len() as int));
        0
    }
}

proof fn lemma_trim_end_facts(s: Seq<char>) -> (j: int)
    ensures
        trim_end_spec(s).len() > 0 ==> !is_white_space(trim_end_spec(s).last()),
        0 <= j <= s.len(),
        trim_end_spec(s) == s.subrange(0, j),
    decreases s.len(),
{
    if s.len() > 0 && is_white_space(s.last()) {
        let j: int = lemma_trim_end_facts(s.drop_last());
        assert(trim_end_spec(s) == s.subrange(0, j));
        j
    } else {
        assert(s == s.subrange(0, s.len() as int));
        s.len() as int
    }
}

}
