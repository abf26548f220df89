//! The word lists a play is read with, and how they are read from text.

use vstd::prelude::*;
use crate::text::{chars_of, string_of};

verus! {

/// The texts of a sequence of strings.
pub open spec fn texts(v: Seq<String>) -> Seq<Seq<char>> {
    v.map_values(|x: String| x@)
}

/// Whether `w` is one of the words of a list.
pub open spec fn listed(list: Seq<String>, w: Seq<char>) -> bool {
    exists|i: int| 0 <= i < list.len() && #[trigger] list[i]@ == w
}

/// Being listed is being among the texts of the list.
pub proof fn lemma_listed_texts(list: Seq<String>, w: Seq<char>)
    ensures
        listed(list, w) == texts(list).contains(w),
{
    if listed(list, w) {
        let i = choose|i: int| 0 <= i < list.len() && #[trigger] list[i]@ == w;
        assert(texts(list)[i] == w);
    }
    if texts(list).contains(w) {
        let i = choose|i: int| 0 <= i < texts(list).len() && texts(list)[i] == w;
        assert(list[i]@ == w);
    }
}

/// Whether `w` is one of the words of a list.
pub fn is_listed(list: &Vec<String>, w: &String) -> (b: bool)
    ensures
        b == listed(list@, w@),
{
    let mut i: usize = 0;
    while i < list.len()
        invariant
            i <= list.len(),
            forall|j: int| 0 <= j < i ==> list@[j]@ != w@,
        decreases list.len() - i,
    {
        if list[i].eq(w) {
            return true;
        }
        i = i + 1;
    }
    false
}

/// The word lists of the language: the names of the characters, the nouns
/// (with the negative ones among them listed again apart), and the
/// comparatives that mean "more" and "less".
pub struct Lexicon {
    pub characters: Vec<String>,
    pub nouns: Vec<String>,
    pub negative_nouns: Vec<String>,
    pub positive_comparatives: Vec<String>,
    pub negative_comparatives: Vec<String>,
}

impl Lexicon {
    pub open spec fn is_character(&self, w: Seq<char>) -> bool {
        listed(self.characters@, w)
    }

    pub open spec fn is_noun(&self, w: Seq<char>) -> bool {
        listed(self.nouns@, w)
    }

    pub open spec fn is_negative_noun(&self, w: Seq<char>) -> bool {
        listed(self.negative_nouns@, w)
    }

    pub open spec fn is_positive_comparative(&self, w: Seq<char>) -> bool {
        listed(self.positive_comparatives@, w)
    }

    pub open spec fn is_negative_comparative(&self, w: Seq<char>) -> bool {
        listed(self.negative_comparatives@, w)
    }

    /// Builds the lexicon from the texts of the five word lists, one word
    /// to a line.
    pub fn from_wordlists(
        characters: &str,
        nouns: &str,
        negative_nouns: &str,
        positive_comparatives: &str,
        negative_comparatives: &str,
    ) -> (lex: Lexicon)
        ensures
            texts(lex.characters@) == lines_of(characters@),
            texts(lex.nouns@) == lines_of(nouns@),
            texts(lex.negative_nouns@) == lines_of(negative_nouns@),
            texts(lex.positive_comparatives@) == lines_of(positive_comparatives@),
            texts(lex.negative_comparatives@) == lines_of(negative_comparatives@),
    {
        Lexicon {
            characters: text_lines(characters),
            nouns: text_lines(nouns),
            negative_nouns: text_lines(negative_nouns),
            positive_comparatives: text_lines(positive_comparatives),
            negative_comparatives: text_lines(negative_comparatives),
        }
    }
}

/// A line without the carriage return that ends it, if one does.
pub open spec fn without_cr(line: Seq<char>) -> Seq<char> {
    if line.len() > 0 && line.last() == '\r' {
        line.drop_last()
    } else {
        line
    }
}

/// The lines of `s`, given that `cur` has been read of the current line.
pub open spec fn lines_from(s: Seq<char>, cur: Seq<char>) -> Seq<Seq<char>>
    decreases s.len(),
{
    if s.len() == 0 {
        if cur.len() == 0 {
            Seq::empty()
        } else {
            seq![cur]
        }
    } else if s[0] == '\n' {
        seq![without_cr(cur)] + lines_from(s.drop_first(), Seq::empty())
    } else {
        lines_from(s.drop_first(), cur.push(s[0]))
    }
}

/// The lines of a text, as `str::lines` gives them: split after each line
/// feed, which is dropped together with a carriage return just before it;
/// a last line without a line feed is kept as it is, and no empty line
/// follows a final line feed.
pub open spec fn lines_of(s: Seq<char>) -> Seq<Seq<char>> {
    lines_from(s, Seq::empty())
}

/// The lines of a text (see `lines_of`).
pub fn text_lines(s: &str) -> (r: Vec<String>)
    ensures
        texts(r@) == lines_of(s@),
{
    let cs = chars_of(s);
    let mut out: Vec<String> = Vec::new();
    let mut cur: Vec<char> = Vec::new();
    let mut i: usize = 0;
    proof {
        assert(cs@.skip(0) =~= cs@);
        assert(texts(out@) + lines_of(s@) =~= lines_of(s@));
    }
    while i < cs.len()
        invariant
            cs@ == s@,
            i <= cs.len(),
            texts(out@) + lines_from(cs@.skip(i as int), cur@) == lines_of(s@),
        decreases cs.len() - i,
    {
        let c = cs[i];
        proof {
            assert(cs@.skip(i as int).drop_first() =~= cs@.skip(i + 1));
            assert(cs@.skip(i as int)[0] == c);
        }
        if c == '\n' {
            let ghost line = cur@;
            if cur.len() > 0 && cur[cur.len() - 1] == '\r' {
                cur.pop();
            }
            proof {
                assert(cur@ =~= without_cr(line));
            }
            let piece = string_of(&cur);
            let ghost before = texts(out@);
            out.push(piece);
            proof {
                assert(texts(out@) =~= before.push(without_cr(line)));
                assert(texts(out@) + lines_from(cs@.skip(i + 1), Seq::empty()) =~= before + (seq![
                    without_cr(line),
                ] + lines_from(cs@.skip(i + 1), Seq::empty())));
            }
            cur = Vec::new();
        } else {
            cur.push(c);
        }
        i = i + 1;
    }
    if cur.len() > 0 {
        let piece = string_of(&cur);
        let ghost before = texts(out@);
        out.push(piece);
        proof {
            assert(texts(out@) =~= before.push(cur@));
            assert(before + lines_from(cs@.skip(cs.len() as int), cur@) =~= before.push(cur@));
        }
    } else {
        proof {
            assert(texts(out@) + lines_from(cs@.skip(cs.len() as int), cur@) =~= texts(out@));
        }
    }
    out
}

/// The pieces of `s` between spaces, given that `cur` has been read of the
/// current piece.
pub open spec fn pieces_from(s: Seq<char>, cur: Seq<char>) -> Seq<Seq<char>>
    decreases s.len(),
{
    if s.len() == 0 {
        seq![cur]
    } else if s[0] == ' ' {
        seq![cur] + pieces_from(s.drop_first(), Seq::empty())
    } else {
        pieces_from(s.drop_first(), cur.push(s[0]))
    }
}

/// The pieces of a text between single spaces, as `str::split(' ')` gives
/// them: empty pieces included, and one piece for a text without a space.
pub open spec fn space_pieces(s: Seq<char>) -> Seq<Seq<char>> {
    pieces_from(s, Seq::empty())
}

/// The pieces of a line between single spaces (see `space_pieces`).
pub fn split_spaces(s: &str) -> (r: Vec<String>)
    ensures
        texts(r@) == space_pieces(s@),
{
    let cs = chars_of(s);
    let mut out: Vec<String> = Vec::new();
    let mut cur: Vec<char> = Vec::new();
    let mut i: usize = 0;
    proof {
        assert(cs@.skip(0) =~= cs@);
        assert(texts(out@) + space_pieces(s@) =~= space_pieces(s@));
    }
    while i < cs.len()
        invariant
            cs@ == s@,
            i <= cs.len(),
            texts(out@) + pieces_from(cs@.skip(i as int), cur@) == space_pieces(s@),
        decreases cs.len() - i,
    {
        let c = cs[i];
        proof {
            assert(cs@.skip(i as int).drop_first() =~= cs@.skip(i + 1));
            assert(cs@.skip(i as int)[0] == c);
        }
        if c == ' ' {
            let piece = string_of(&cur);
            let ghost before = texts(out@);
            out.push(piece);
            proof {
                assert(texts(out@) =~= before.push(cur@));
                assert(texts(out@) + pieces_from(cs@.skip(i + 1), Seq::empty()) =~= before + (seq![
                    cur@,
                ] + pieces_from(cs@.skip(i + 1), Seq::empty())));
            }
            cur = Vec::new();
        } else {
            cur.push(c);
        }
        i = i + 1;
    }
    let piece = string_of(&cur);
    let ghost before = texts(out@);
    out.push(piece);
    proof {
        assert(texts(out@) =~= before.push(cur@));
        assert(before + pieces_from(cs@.skip(cs.len() as int), cur@) =~= before.push(cur@));
    }
    out
}

/// The words of a sequence of lines, each line split at single spaces.
pub open spec fn words_of_lines(lines: Seq<Seq<char>>) -> Seq<Seq<char>>
    decreases lines.len(),
{
    if lines.len() == 0 {
        Seq::empty()
    } else {
        words_of_lines(lines.drop_last()) + space_pieces(lines.last())
    }
}

/// The words of the lines of a word list, each line split at single spaces.
pub fn wordlist_words(lines: &Vec<String>) -> (r: Vec<String>)
    ensures
        texts(r@) == words_of_lines(texts(lines@)),
{
    let mut out: Vec<String> = Vec::new();
    let mut i: usize = 0;
    while i < lines.len()
        invariant
            i <= lines.len(),
            texts(out@) == words_of_lines(texts(lines@).take(i as int)),
        decreases lines.len() - i,
    {
        let mut pieces = split_spaces(lines[i].as_str());
        let ghost before = texts(out@);
        let ghost added = texts(pieces@);
        out.append(&mut pieces);
        proof {
            assert(texts(out@) =~= before + added);
            let t = texts(lines@).take(i + 1);
            assert(t.drop_last() =~= texts(lines@).take(i as int));
            assert(t.last() == lines@[i as int]@);
        }
        i = i + 1;
    }
    proof {
        assert(texts(lines@).take(lines.len() as int) =~= texts(lines@));
    }
    out
}

} // verus!
