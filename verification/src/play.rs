//! A whole play: the cast that opens it, then its acts, read line by line,
//! with the stage directions in brackets that bring characters on and off.

use vstd::prelude::*;
use crate::text::is_text;
use crate::token::{Token, TokenKind, Delimiter, is_word, run_len, run_joined, token_is_word,
    join_run, skip_run};
use crate::lexicon::{Lexicon, is_listed, texts};
use crate::program::{Program, SpecProgram, CompileError};
use crate::state::{SpecState, SpecAct, State, Act, initial_state, stage_enter, stage_leave,
    titles_view};
use crate::statement::{line_step, read_line, lemma_line_advances};
use crate::laws::{law_direction_keeps_stage_a_set, law_line_keeps_stage};

verus! {

/// What is left of the play from `pos` on, as a measure.
pub open spec fn remaining(len: nat, pos: nat) -> nat {
    if pos < len {
        (len - pos) as nat
    } else {
        0
    }
}

/// The cast, read from `pos`, `names` having been read: each entry is a
/// name (a run of words, joined) followed by a description (another run);
/// the cast ends at the first word whose lower-cased text is "act", which is left
/// to be read. Gives the names and the position of that word.
pub open spec fn cast_from(toks: Seq<Token>, pos: nat, names: Seq<Seq<char>>) -> Result<
    (Seq<Seq<char>>, nat),
    CompileError,
>
    decreases remaining(toks.len(), pos),
{
    if pos >= toks.len() {
        Err(CompileError::UnexpectedEnd)
    } else if !is_word(toks[pos as int]) {
        Err(CompileError::ExpectedCharacter)
    } else if toks[pos as int].lower@ == "act"@ {
        Ok((names, pos))
    } else {
        let p1 = pos + run_len(toks, pos);
        let p2 = p1 + run_len(toks, p1);
        cast_from(toks, p2, names.push(run_joined(toks, pos)))
    }
}

/// The characters named in a stage direction and what becomes of them,
/// read from the `i`-th token inside the brackets, `name` having been read
/// of the current name: a token that is a character's name adds to it;
/// any other token ends it, and the character it names enters ("Enter") or
/// leaves ("Exeunt"); "Exit" can name only one. Gives the stage and the
/// name read last.
pub open spec fn cast_walk(
    inner: Seq<Token>,
    i: nat,
    lex: Lexicon,
    kind: Seq<char>,
    stage: Seq<Seq<char>>,
    name: Seq<char>,
) -> Result<(Seq<Seq<char>>, Seq<char>), CompileError>
    decreases inner.len() - i,
{
    if i >= inner.len() {
        Ok((stage, name))
    } else if is_word(inner[i as int]) && lex.is_character(inner[i as int].text@) {
        cast_walk(inner, i + 1, lex, kind, stage, name + inner[i as int].text@)
    } else if kind == "Enter"@ {
        cast_walk(inner, i + 1, lex, kind, stage_enter(stage, name), Seq::empty())
    } else if kind == "Exeunt"@ {
        cast_walk(inner, i + 1, lex, kind, stage_leave(stage, name), Seq::empty())
    } else {
        Err(CompileError::ExitOfSeveral)
    }
}

/// A stage direction: tokens in brackets, the first of which says what
/// happens. "Enter" brings the characters named on stage, "Exit" takes the
/// one named off, "Exeunt" takes those named off, or everybody when it
/// names nobody; any other direction changes nothing.
pub open spec fn direction_step(d: Delimiter, inner: Seq<Token>, lex: Lexicon, st: SpecState) -> Result<
    SpecState,
    CompileError,
> {
    if !(d is Bracket) {
        Err(CompileError::NotBrackets)
    } else if inner.len() == 0 {
        Err(CompileError::EmptyStageDirection)
    } else {
        let kind = inner[0].text@;
        if kind != "Enter"@ && kind != "Exit"@ && kind != "Exeunt"@ {
            Ok(st)
        } else if inner.len() == 1 {
            if kind == "Exeunt"@ {
                Ok(SpecState { stage: Seq::empty(), ..st })
            } else {
                Err(CompileError::NobodyNamed)
            }
        } else {
            match cast_walk(inner, 1, lex, kind, st.stage, Seq::empty()) {
                Err(e) => Err(e),
                Ok((stage, name)) => Ok(
                    SpecState {
                        stage: if kind == "Enter"@ {
                            stage_enter(stage, name)
                        } else {
                            stage_leave(stage, name)
                        },
                        ..st
                    },
                ),
            }
        }
    }
}

/// The acts of the play, read from `pos` in state `st`, jumps by title being
/// looked up among `titles`: a word begins a line (see `line_step`), a group
/// is a stage direction, and any other token is passed over. Gives the state
/// at the end of the play.
pub open spec fn play_from(
    toks: Seq<Token>,
    pos: nat,
    lex: Lexicon,
    titles: Option<Seq<SpecAct>>,
    st: SpecState,
) -> Result<SpecState, CompileError>
    decreases remaining(toks.len(), pos),
{
    if pos >= toks.len() {
        Ok(st)
    } else {
        match toks[pos as int].kind {
            TokenKind::Ident => {
                proof {
                    lemma_line_advances(
                        toks,
                        pos + 1,
                        lex,
                        titles,
                        toks[pos as int].text@,
                        toks[pos as int].lower@,
                        st,
                    );
                }
                match line_step(toks, pos + 1, lex, titles, toks[pos as int].text@, toks[pos as int].lower@, st) {
                    Ok((s2, p)) => play_from(toks, p, lex, titles, s2),
                    Err(e) => Err(e),
                }
            },
            TokenKind::Group(d, inner) => match direction_step(d, inner@, lex, st) {
                Ok(s2) => play_from(toks, pos + 1, lex, titles, s2),
                Err(e) => Err(e),
            },
            _ => play_from(toks, pos + 1, lex, titles, st),
        }
    }
}

/// The acts of a whole play with the titles of their scenes, in play order,
/// as a first reading of the acts from `pos` learns them (jumps by title not
/// being looked up yet).
pub open spec fn play_titles(toks: Seq<Token>, pos: nat, lex: Lexicon) -> Result<
    Seq<SpecAct>,
    CompileError,
> {
    match play_from(toks, pos, lex, None, initial_state()) {
        Err(e) => Err(e),
        Ok(st) => Ok(st.acts),
    }
}

/// What a play compiles to: the cast is read, then the acts, twice: first to
/// learn the titles of all its acts and scenes, then to compile it, each jump
/// by title going to the first act or scene of the whole play, in play order,
/// with that title. The program declares the cast's names and holds the
/// scenes read, of which there must be one at least.
pub open spec fn compile_spec(toks: Seq<Token>, lex: Lexicon) -> Result<SpecProgram, CompileError> {
    match cast_from(toks, 0, Seq::empty()) {
        Err(e) => Err(e),
        Ok((names, p)) => match play_titles(toks, p, lex) {
            Err(e) => Err(e),
            Ok(acts) => match play_from(toks, p, lex, Some(acts), initial_state()) {
                Err(e) => Err(e),
                Ok(st) => if st.scenes.len() == 0 {
                    Err(CompileError::NoScenes)
                } else {
                    Ok(SpecProgram { characters: names, scenes: st.scenes })
                },
            },
        },
    }
}

/// Reads the cast (see `cast_from`); gives the names and the position of
/// the first act.
pub fn read_cast(toks: &Vec<Token>) -> (r: Result<(Vec<String>, usize), CompileError>)
    ensures
        match r {
            Ok((names, p)) => p <= toks.len() && cast_from(toks@, 0, Seq::empty()) == Ok::<
                (Seq<Seq<char>>, nat),
                CompileError,
            >((texts(names@), p as nat)),
            Err(e) => cast_from(toks@, 0, Seq::empty()) == Err::<(Seq<Seq<char>>, nat), CompileError>(
                e,
            ),
        },
{
    let mut names: Vec<String> = Vec::new();
    let mut pos: usize = 0;
    proof {
        assert(texts(names@) =~= Seq::<Seq<char>>::empty());
    }
    loop
        invariant
            pos <= toks.len(),
            cast_from(toks@, 0, Seq::empty()) == cast_from(toks@, pos as nat, texts(names@)),
        decreases toks.len() - pos,
    {
        if pos >= toks.len() {
            return Err(CompileError::UnexpectedEnd);
        }
        if !token_is_word(toks, pos) {
            return Err(CompileError::ExpectedCharacter);
        }
        if is_text(&toks[pos].lower, "act") {
            return Ok((names, pos));
        }
        let (name, p1) = join_run(toks, pos);
        let p2 = skip_run(toks, p1);
        let ghost before = texts(names@);
        names.push(name);
        proof {
            assert(texts(names@) =~= before.push(run_joined(toks@, pos as nat)));
        }
        pos = p2;
    }
}

fn direction_kind_is(inner: &Vec<Token>, lit: &str) -> (b: bool)
    requires
        inner.len() > 0,
    ensures
        b == (inner@[0].text@ == lit@),
{
    is_text(&inner[0].text, lit)
}

/// Applies a stage direction to the state (see `direction_step`).
pub fn apply_direction(d: &Delimiter, inner: &Vec<Token>, lex: &Lexicon, st: &mut State) -> (r:
    Result<(), CompileError>)
    ensures
        match r {
            Ok(()) => direction_step(*d, inner@, *lex, old(st)@) == Ok::<SpecState, CompileError>(
                final(st)@,
            ),
            Err(e) => direction_step(*d, inner@, *lex, old(st)@) == Err::<SpecState, CompileError>(
                e,
            ),
        },
        old(st)@.stage.no_duplicates() ==> final(st)@.stage.no_duplicates(),
{
    proof {
        if old(st)@.stage.no_duplicates() {
            law_direction_keeps_stage_a_set(*d, inner@, *lex, old(st)@);
        }
    }
    match d {
        Delimiter::Bracket => {},
        _ => {
            return Err(CompileError::NotBrackets);
        },
    }
    if inner.len() == 0 {
        return Err(CompileError::EmptyStageDirection);
    }
    let enter = direction_kind_is(inner, "Enter");
    let exit = direction_kind_is(inner, "Exit");
    let exeunt = direction_kind_is(inner, "Exeunt");
    if !enter && !exit && !exeunt {
        return Ok(());
    }
    if inner.len() == 1 {
        if exeunt {
            st.stage = Vec::new();
            proof {
                assert(texts(st.stage@) =~= Seq::<Seq<char>>::empty());
            }
            return Ok(());
        }
        return Err(CompileError::NobodyNamed);
    }
    let ghost kind = inner@[0].text@;
    let mut name = String::new();
    let mut i: usize = 1;
    while i < inner.len()
        invariant
            1 <= i <= inner.len(),
            kind == inner@[0].text@,
            enter == (kind == "Enter"@),
            exeunt == (kind == "Exeunt"@),
            exit == (kind == "Exit"@),
            enter || exit || exeunt,
            *d is Bracket,
            inner.len() > 1,
            (SpecState { stage: old(st)@.stage, ..st@ }) == old(st)@,
            old(st)@.stage.no_duplicates() ==> st@.stage.no_duplicates(),
            cast_walk(inner@, 1, *lex, kind, old(st)@.stage, Seq::empty()) == cast_walk(
                inner@,
                i as nat,
                *lex,
                kind,
                st@.stage,
                name@,
            ),
        decreases inner.len() - i,
    {
        let is_name = token_is_word(inner, i) && is_listed(&lex.characters, &inner[i].text);
        if is_name {
            name.append(inner[i].text.as_str());
        } else if enter {
            st.enter(&name);
            name = String::new();
        } else if exeunt {
            st.leave(&name);
            name = String::new();
        } else {
            proof {
                assert(cast_walk(inner@, i as nat, *lex, kind, st@.stage, name@) == Err::<
                    (Seq<Seq<char>>, Seq<char>),
                    CompileError,
                >(CompileError::ExitOfSeveral));
                assert(inner.len() != 1);
            }
            return Err(CompileError::ExitOfSeveral);
        }
        i = i + 1;
    }
    if enter {
        st.enter(&name);
    } else {
        st.leave(&name);
    }
    Ok(())
}

/// Reads the acts of the play from `pos` (see `play_from`), jumps by title
/// being looked up among `titles`.
pub fn read_acts(
    toks: &Vec<Token>,
    pos: usize,
    lex: &Lexicon,
    titles: &Option<Vec<Act>>,
    st: &mut State,
) -> (r: Result<(), CompileError>)
    requires
        pos <= toks.len(),
    ensures
        match r {
            Ok(()) => play_from(toks@, pos as nat, *lex, titles_view(*titles), old(st)@) == Ok::<
                SpecState,
                CompileError,
            >(final(st)@),
            Err(e) => play_from(toks@, pos as nat, *lex, titles_view(*titles), old(st)@) == Err::<
                SpecState,
                CompileError,
            >(e),
        },
        r is Ok && old(st)@.stage.no_duplicates() ==> final(st)@.stage.no_duplicates(),
{
    let mut p = pos;
    while p < toks.len()
        invariant
            pos <= p <= toks.len(),
            play_from(toks@, pos as nat, *lex, titles_view(*titles), old(st)@) == play_from(
                toks@,
                p as nat,
                *lex,
                titles_view(*titles),
                st@,
            ),
            old(st)@.stage.no_duplicates() ==> st@.stage.no_duplicates(),
        decreases toks.len() - p,
    {
        match &toks[p].kind {
            TokenKind::Ident => {
                let q = match read_line(toks, p + 1, lex, titles, &toks[p].text, &toks[p].lower, st) {
                    Ok(q) => q,
                    Err(e) => {
                        return Err(e);
                    },
                };
                p = q;
            },
            TokenKind::Group(d, inner) => {
                match apply_direction(d, inner, lex, st) {
                    Ok(()) => {},
                    Err(e) => {
                        return Err(e);
                    },
                }
                p = p + 1;
            },
            _ => {
                p = p + 1;
            },
        }
    }
    Ok(())
}

/// Compiles a play (see `compile_spec`) read with the given word lists.
pub fn compile_play(toks: &Vec<Token>, lex: &Lexicon) -> (r: Result<Program, CompileError>)
    ensures
        match r {
            Ok(prog) => compile_spec(toks@, *lex) == Ok::<SpecProgram, CompileError>(prog@),
            Err(e) => compile_spec(toks@, *lex) == Err::<SpecProgram, CompileError>(e),
        },
{
    let (names, p) = match read_cast(toks) {
        Ok(x) => x,
        Err(e) => {
            return Err(e);
        },
    };
    let mut first_reading = State::new();
    match read_acts(toks, p, lex, &None, &mut first_reading) {
        Ok(()) => {},
        Err(e) => {
            return Err(e);
        },
    }
    let titles = Some(first_reading.acts);
    let mut st = State::new();
    match read_acts(toks, p, lex, &titles, &mut st) {
        Ok(()) => {},
        Err(e) => {
            return Err(e);
        },
    }
    if st.scenes.len() == 0 {
        return Err(CompileError::NoScenes);
    }
    Ok(Program { characters: names, scenes: st.scenes })
}

} // verus!
