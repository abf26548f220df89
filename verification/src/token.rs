//! The tokens a play is written in, and the ways the compiler walks over a
//! run of them.

use vstd::prelude::*;
use crate::text::{letters_of, letters, lowercase_of, to_lowercase, is_text};

verus! {

/// How a group of tokens is delimited.
#[derive(Debug, Clone, Copy, PartialEq, Eq, Structural)]
pub enum Delimiter {
    Parenthesis,
    Brace,
    Bracket,
    Invisible,
}

/// What kind of token a token is; a group holds the tokens inside it.
#[derive(Debug)]
pub enum TokenKind {
    Ident,
    Punct,
    Literal,
    Group(Delimiter, Vec<Token>),
}

/// A token of the play, with the text it prints as and that text
/// lower-cased (which act and scene headings, keywords and titles are read
/// by; `Token::new` fills it in).
#[derive(Debug)]
pub struct Token {
    pub kind: TokenKind,
    pub text: String,
    pub lower: String,
}

impl Token {
    /// A token of the given kind and text, its text lower-cased with
    /// `str::to_lowercase`.
    pub fn new(kind: TokenKind, text: String) -> (t: Token)
        ensures
            t.kind == kind,
            t.text@ == text@,
            t.lower@ == lowercase_of(text@),
    {
        let lower = to_lowercase(text.as_str());
        Token { kind, text, lower }
    }
}

/// Whether a token is an identifier (a word).
pub open spec fn is_word(t: Token) -> bool {
    t.kind is Ident
}

/// The text of the token at `pos`.
pub open spec fn text_at(toks: Seq<Token>, pos: int) -> Seq<char> {
    toks[pos].text@
}

/// How many tokens a run of words starting at `pos` takes up, counting the
/// token that ends it (which is taken too, when there is one).
pub open spec fn run_len(toks: Seq<Token>, pos: nat) -> nat
    decreases toks.len() - pos,
{
    if pos >= toks.len() {
        0
    } else if is_word(toks[pos as int]) {
        1 + run_len(toks, pos + 1)
    } else {
        1
    }
}

/// The words of the run at `pos`, written one after the other.
pub open spec fn run_joined(toks: Seq<Token>, pos: nat) -> Seq<char>
    decreases toks.len() - pos,
{
    if pos >= toks.len() {
        Seq::empty()
    } else if is_word(toks[pos as int]) {
        toks[pos as int].text@ + run_joined(toks, pos + 1)
    } else {
        Seq::empty()
    }
}

/// The words of the run at `pos`, each normalised as a title word (its
/// lower-cased text with everything that is not a letter removed), written
/// one after the other.
pub open spec fn run_title(toks: Seq<Token>, pos: nat) -> Seq<char>
    decreases toks.len() - pos,
{
    if pos >= toks.len() {
        Seq::empty()
    } else if is_word(toks[pos as int]) {
        letters_of(toks[pos as int].lower@) + run_title(toks, pos + 1)
    } else {
        Seq::empty()
    }
}

/// Whether one of the words of the run at `pos` is `w`.
pub open spec fn run_mentions(toks: Seq<Token>, pos: nat, w: Seq<char>) -> bool
    decreases toks.len() - pos,
{
    if pos >= toks.len() {
        false
    } else if is_word(toks[pos as int]) {
        toks[pos as int].text@ == w || run_mentions(toks, pos + 1, w)
    } else {
        false
    }
}

/// The position after taking one token, when there is one.
pub open spec fn step_over(len: nat, pos: nat) -> nat {
    if pos < len {
        pos + 1
    } else {
        pos
    }
}

/// Whether the token at `i` is a word.
pub fn token_is_word(toks: &Vec<Token>, i: usize) -> (b: bool)
    requires
        i < toks.len(),
    ensures
        b == is_word(toks@[i as int]),
{
    match toks[i].kind {
        TokenKind::Ident => true,
        _ => false,
    }
}

/// Takes the run of words at `pos`, and the token that ends it.
pub fn skip_run(toks: &Vec<Token>, pos: usize) -> (r: usize)
    requires
        pos <= toks.len(),
    ensures
        r == pos + run_len(toks@, pos as nat),
        r <= toks.len(),
{
    let mut i = pos;
    while i < toks.len() && token_is_word(toks, i)
        invariant
            pos <= i <= toks.len(),
            pos + run_len(toks@, pos as nat) == i + run_len(toks@, i as nat),
        decreases toks.len() - i,
    {
        i = i + 1;
    }
    if i < toks.len() {
        i + 1
    } else {
        i
    }
}

/// Takes the run of words at `pos` and writes its words one after the other.
pub fn join_run(toks: &Vec<Token>, pos: usize) -> (r: (String, usize))
    requires
        pos <= toks.len(),
    ensures
        r.0@ == run_joined(toks@, pos as nat),
        r.1 == pos + run_len(toks@, pos as nat),
        r.1 <= toks.len(),
{
    let mut acc = String::new();
    let mut i = pos;
    while i < toks.len() && token_is_word(toks, i)
        invariant
            pos <= i <= toks.len(),
            pos + run_len(toks@, pos as nat) == i + run_len(toks@, i as nat),
            acc@ + run_joined(toks@, i as nat) == run_joined(toks@, pos as nat),
        decreases toks.len() - i,
    {
        let ghost before = acc@;
        acc.append(toks[i].text.as_str());
        proof {
            assert(acc@ + run_joined(toks@, (i + 1) as nat) =~= before + run_joined(toks@, i as nat));
        }
        i = i + 1;
    }
    proof {
        assert(acc@ =~= acc@ + run_joined(toks@, i as nat));
    }
    if i < toks.len() {
        (acc, i + 1)
    } else {
        (acc, i)
    }
}

/// Takes the run of words at `pos` and writes its words, each normalised as
/// a title word, one after the other.
pub fn title_run(toks: &Vec<Token>, pos: usize) -> (r: (Vec<char>, usize))
    requires
        pos <= toks.len(),
    ensures
        r.0@ == run_title(toks@, pos as nat),
        r.1 == pos + run_len(toks@, pos as nat),
        r.1 <= toks.len(),
{
    let mut acc: Vec<char> = Vec::new();
    let mut i = pos;
    while i < toks.len() && token_is_word(toks, i)
        invariant
            pos <= i <= toks.len(),
            pos + run_len(toks@, pos as nat) == i + run_len(toks@, i as nat),
            acc@ + run_title(toks@, i as nat) == run_title(toks@, pos as nat),
        decreases toks.len() - i,
    {
        let ghost before = acc@;
        let mut part = letters(&toks[i].lower);
        acc.append(&mut part);
        proof {
            assert(acc@ + run_title(toks@, (i + 1) as nat) =~= before + run_title(toks@, i as nat));
        }
        i = i + 1;
    }
    proof {
        assert(acc@ =~= acc@ + run_title(toks@, i as nat));
    }
    if i < toks.len() {
        (acc, i + 1)
    } else {
        (acc, i)
    }
}

/// Takes the run of words at `pos` and tells whether one of them is `w`.
pub fn run_has_word(toks: &Vec<Token>, pos: usize, w: &str) -> (r: (bool, usize))
    requires
        pos <= toks.len(),
    ensures
        r.0 == run_mentions(toks@, pos as nat, w@),
        r.1 == pos + run_len(toks@, pos as nat),
        r.1 <= toks.len(),
{
    let mut found = false;
    let mut i = pos;
    while i < toks.len() && token_is_word(toks, i)
        invariant
            pos <= i <= toks.len(),
            pos + run_len(toks@, pos as nat) == i + run_len(toks@, i as nat),
            run_mentions(toks@, pos as nat, w@) == (found || run_mentions(toks@, i as nat, w@)),
        decreases toks.len() - i,
    {
        if is_text(&toks[i].text, w) {
            found = true;
        }
        i = i + 1;
    }
    if i < toks.len() {
        (found, i + 1)
    } else {
        (found, i)
    }
}

} // verus!
