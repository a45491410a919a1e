//! Text helpers: comparing texts and trimming white space.

use vstd::prelude::*;

verus! {

/// Whether `c` is white space, as `char::is_whitespace` of the standard
/// library answers.
pub uninterp spec fn is_whitespace(c: char) -> bool;

/// Asks `char::is_whitespace` of the standard library. Nothing is claimed of
/// the answer but that it depends on the character alone: which characters
/// count is left to the standard library.
#[verifier::external_body]
fn is_space(c: char) -> (b: bool)
    ensures
        b == is_whitespace(c),
{
    c.is_whitespace()
}

/// `s` without its leading white space.
pub open spec fn trim_start(s: Seq<char>) -> Seq<char>
    decreases s.len(),
{
    if s.len() > 0 && is_whitespace(s[0]) {
        trim_start(s.drop_first())
    } else {
        s
    }
}

/// `s` without its trailing white space.
pub open spec fn trim_end(s: Seq<char>) -> Seq<char>
    decreases s.len(),
{
    if s.len() > 0 && is_whitespace(s.last()) {
        trim_end(s.drop_last())
    } else {
        s
    }
}

/// `s` without leading and trailing white space.
pub open spec fn trimmed(s: Seq<char>) -> Seq<char> {
    trim_end(trim_start(s))
}

/// Whether `s` neither begins nor ends with white space.
pub open spec fn is_trimmed(s: Seq<char>) -> bool {
    s.len() > 0 ==> !is_whitespace(s[0]) && !is_whitespace(s.last())
}

/// What is left of a text after its leading white space begins with none.
pub proof fn lemma_trim_start_clean(s: Seq<char>)
    ensures
        trim_start(s).len() <= s.len(),
        trim_start(s).len() > 0 ==> !is_whitespace(trim_start(s)[0]),
        trim_start(s) == s.skip(s.len() - trim_start(s).len()),
    decreases s.len(),
{
    if s.len() > 0 && is_whitespace(s[0]) {
        lemma_trim_start_clean(s.drop_first());
        let t = trim_start(s);
        assert(s.drop_first().skip(s.drop_first().len() - t.len()) =~= s.skip(s.len() - t.len()));
    } else {
        assert(s.skip(0) =~= s);
    }
}

/// What is left of a text after its trailing white space ends with none, and
/// still begins as the text did.
pub proof fn lemma_trim_end_clean(s: Seq<char>)
    ensures
        trim_end(s).len() <= s.len(),
        trim_end(s).len() > 0 ==> !is_whitespace(trim_end(s).last()),
        trim_end(s) == s.take(trim_end(s).len() as int),
    decreases s.len(),
{
    if s.len() > 0 && is_whitespace(s.last()) {
        lemma_trim_end_clean(s.drop_last());
        let t = trim_end(s);
        assert(s.drop_last().take(t.len() as int) =~= s.take(t.len() as int));
    } else {
        assert(s.take(s.len() as int) =~= s);
    }
}

/// A trimmed text neither begins nor ends with white space, and trimming it
/// again changes nothing.
pub proof fn lemma_trimmed_is_trimmed(s: Seq<char>)
    ensures
        is_trimmed(trimmed(s)),
        trimmed(trimmed(s)) == trimmed(s),
        trimmed(s).len() <= s.len(),
{
    lemma_trim_start_clean(s);
    lemma_trim_end_clean(trim_start(s));
    let t = trimmed(s);
    if t.len() > 0 {
        assert(t[0] == trim_start(s)[0]);
    }
    lemma_untouched_when_trimmed(t);
}

/// Trimming a text that neither begins nor ends with white space leaves it
/// as it is.
pub proof fn lemma_untouched_when_trimmed(s: Seq<char>)
    requires
        is_trimmed(s),
    ensures
        trimmed(s) == s,
{
}

/// Whether two texts hold the same characters.
pub fn same_text(a: &str, b: &str) -> (same: bool)
    ensures
        same == (a@ == b@),
{
    let left: String = String::from_str(a);
    let right: String = String::from_str(b);
    left == right
}

/// Cuts the leading and trailing white space off `s`.
pub fn trim(s: &str) -> (t: &str)
    ensures
        t@ == trimmed(s@),
{
    let n: usize = s.unicode_len();
    let mut i: usize = 0;
    assert(s@.skip(0) =~= s@);
    while i < n
        invariant
            i <= n,
            n == s@.len(),
            trim_start(s@) == trim_start(s@.skip(i as int)),
        ensures
            i == n || !is_whitespace(s@[i as int]),
        decreases n - i,
    {
        if !is_space(s.get_char(i)) {
            break;
        }
        assert(s@.skip(i as int).drop_first() =~= s@.skip(i + 1));
        i += 1;
    }
    let ghost rest = s@.skip(i as int);
    assert(trim_start(s@) == rest);
    let mut j: usize = n;
    assert(rest.take(n - i) =~= rest);
    while j > i
        invariant
            i <= j <= n,
            n == s@.len(),
            rest == s@.skip(i as int),
            trim_end(rest) == trim_end(rest.take(j - i)),
        ensures
            j == i || !is_whitespace(s@[j - 1]),
        decreases j,
    {
        if !is_space(s.get_char(j - 1)) {
            break;
        }
        assert(rest.take(j - i).drop_last() =~= rest.take(j - i - 1));
        j -= 1;
    }
    assert(trim_end(rest.take(j - i)) == rest.take(j - i));
    assert(rest.take(j - i) =~= s@.subrange(i as int, j as int));
    s.substring_char(i, j)
}

} // verus!
