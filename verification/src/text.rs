//! Words and texts: comparison with literals, lower-casing, and the
//! normalisation that act and scene titles go through.

use vstd::prelude::*;
use vstd::std_specs::iter::IteratorSpec;

verus! {

/// What `str::to_lowercase` gives for a text. Unicode case mapping, with its
/// context-dependent rule for a final sigma, is left to std.
pub uninterp spec fn lowercase_of(s: Seq<char>) -> Seq<char>;

/// Whether `char::is_alphabetic` holds of a character (the Unicode
/// `Alphabetic` property).
pub uninterp spec fn alphabetic(c: char) -> bool;

/// Calls `str::to_lowercase`. Claimed: the result is `lowercase_of` the
/// text; nothing more is said of Unicode case mapping.
#[verifier::external_body]
pub(crate) fn to_lowercase(s: &str) -> (r: String)
    ensures
        r@ == lowercase_of(s@),
{
    s.to_lowercase()
}

/// Calls `char::is_alphabetic`. Claimed: the result is `alphabetic` of the
/// character.
#[verifier::external_body]
pub(crate) fn is_alphabetic(c: char) -> (b: bool)
    ensures
        b == alphabetic(c),
{
    c.is_alphabetic()
}

/// The characters of a text, in order, in a vector.
pub(crate) fn chars_of(s: &str) -> (v: Vec<char>)
    ensures
        v@ == s@,
{
    let mut it = s.chars();
    let mut v: Vec<char> = Vec::new();
    loop
        invariant
            v@ + it.remaining() == s@,
            it.decrease() is Some,
        ensures
            v@ == s@,
        decreases it.decrease()->0,
    {
        match it.next() {
            Some(c) => {
                v.push(c);
            },
            None => {
                break;
            },
        }
    }
    v
}

/// Calls `String::from_iter` on characters. Claimed: the string holds the
/// characters, in order.
#[verifier::external_body]
pub(crate) fn string_of(cs: &Vec<char>) -> (r: String)
    ensures
        r@ == cs@,
{
    String::from_iter(cs.iter())
}

/// Whether a text is exactly the given literal.
pub fn is_text(s: &String, lit: &str) -> (b: bool)
    ensures
        b == (s@ == lit@),
{
    let t = lit.to_owned();
    s.eq(&t)
}

/// The letters of a text, in order, with every other character dropped.
pub open spec fn letters_of(s: Seq<char>) -> Seq<char> {
    s.filter(|c: char| alphabetic(c))
}

/// How a word of an act or scene title is normalised: lower-cased, with
/// everything that is not a letter removed.
pub open spec fn title_part(w: Seq<char>) -> Seq<char> {
    letters_of(lowercase_of(w))
}

/// Normalises one word of a title (see `title_part`).
pub fn normalize_title_word(w: &String) -> (r: Vec<char>)
    ensures
        r@ == title_part(w@),
{
    let lower = to_lowercase(w.as_str());
    letters(&lower)
}

/// The letters of a text (see `letters_of`).
pub fn letters(w: &String) -> (r: Vec<char>)
    ensures
        r@ == letters_of(w@),
{
    let cs = chars_of(w.as_str());
    let mut out: Vec<char> = Vec::new();
    let mut i: usize = 0;
    while i < cs.len()
        invariant
            cs@ == w@,
            i <= cs.len(),
            out@ == letters_of(cs@.take(i as int)),
        decreases cs.len() - i,
    {
        let c = cs[i];
        proof {
            assert(cs@.take(i + 1) =~= cs@.take(i as int).push(c));
            cs@.take(i as int).lemma_filter_push(c, |c: char| alphabetic(c));
        }
        if is_alphabetic(c) {
            out.push(c);
        }
        i = i + 1;
    }
    proof {
        assert(cs@.take(cs.len() as int) =~= cs@);
    }
    out
}

/// Whether two character sequences are equal.
pub fn same_chars(a: &Vec<char>, b: &Vec<char>) -> (r: bool)
    ensures
        r == (a@ == b@),
{
    if a.len() != b.len() {
        return false;
    }
    let mut i: usize = 0;
    while i < a.len()
        invariant
            a.len() == b.len(),
            i <= a.len(),
            forall|j: int| 0 <= j < i ==> a@[j] == b@[j],
        decreases a.len() - i,
    {
        if a[i] != b[i] {
            return false;
        }
        i = i + 1;
    }
    proof {
        assert(a@ =~= b@);
    }
    true
}

} // verus!
