//! The outline of a play: its cast and its acts and scenes, without the
//! lines spoken in them. Act and scene headings are read in any case, stage
//! directions must be in brackets, and every scene compiles to an empty one.

use vstd::prelude::*;
use crate::text::is_text;
use crate::token::{Token, TokenKind, run_len, skip_run};
use crate::program::{Program, SpecProgram, CompileError};
use crate::state::{SpecState, State, initial_state};
use crate::statement::{act_step, scene_step, act_line, scene_line, lemma_act_advances,
    lemma_scene_advances, step_if, and_then, step_agrees};
use crate::play::{remaining, cast_from, read_cast};

verus! {

/// A heading of the outline, begun by `first` (lower-cased): "act" begins an
/// act, "scene" a scene; any other word changes nothing.
pub open spec fn heading_step(toks: Seq<Token>, pos: nat, first: Seq<char>, st: SpecState) -> Result<
    (SpecState, nat),
    CompileError,
> {
    and_then(
        step_if(first == "act"@, act_step(toks, pos, st), st, pos),
        |s: SpecState, p: nat| step_if(first == "scene"@, scene_step(toks, p, s), s, p),
    )
}

/// The acts of the outline, read from `pos` in state `st`: a word may be a
/// heading (see `heading_step`), a group must be in brackets and not empty,
/// and any other token is passed over.
pub open spec fn outline_from(toks: Seq<Token>, pos: nat, st: SpecState) -> Result<
    SpecState,
    CompileError,
>
    decreases remaining(toks.len(), pos),
{
    if pos >= toks.len() {
        Ok(st)
    } else {
        match toks[pos as int].kind {
            TokenKind::Ident => {
                let first = toks[pos as int].lower@;
                proof {
                    lemma_act_advances(toks, pos + 1, st);
                    if let Ok((s1, p1)) = step_if(first == "act"@, act_step(toks, pos + 1, st), st, pos + 1) {
                        lemma_scene_advances(toks, p1, s1);
                    }
                }
                match heading_step(toks, pos + 1, first, st) {
                    Ok((s2, p)) => outline_from(toks, p, s2),
                    Err(e) => Err(e),
                }
            },
            TokenKind::Group(d, inner) => {
                if !(d is Bracket) {
                    Err(CompileError::NotBrackets)
                } else if inner@.len() == 0 {
                    Err(CompileError::EmptyStageDirection)
                } else {
                    outline_from(toks, pos + 1, st)
                }
            },
            _ => outline_from(toks, pos + 1, st),
        }
    }
}

/// What the outline of a play compiles to: the cast's names, and the scenes
/// read (every one empty), of which there must be one at least.
pub open spec fn outline_spec(toks: Seq<Token>) -> Result<SpecProgram, CompileError> {
    match cast_from(toks, 0, Seq::empty()) {
        Err(e) => Err(e),
        Ok((names, p)) => match outline_from(toks, p, initial_state()) {
            Err(e) => Err(e),
            Ok(st) => if st.scenes.len() == 0 {
                Err(CompileError::NoScenes)
            } else {
                Ok(SpecProgram { characters: names, scenes: st.scenes })
            },
        },
    }
}

fn read_heading(toks: &Vec<Token>, pos: usize, first: &String, st: &mut State) -> (r: Result<
    usize,
    CompileError,
>)
    requires
        pos <= toks.len(),
    ensures
        step_agrees(r, heading_step(toks@, pos as nat, first@, old(st)@), final(st)@),
        r matches Ok(p) ==> pos <= p <= toks.len(),
{
    let mut p = pos;
    if is_text(first, "act") {
        match act_line(toks, p, st) {
            Ok(q) => p = q,
            Err(e) => {
                return Err(e);
            },
        }
    }
    if is_text(first, "scene") {
        match scene_line(toks, p, st) {
            Ok(q) => p = q,
            Err(e) => {
                return Err(e);
            },
        }
    }
    Ok(p)
}

/// Reads the acts of the outline from `pos` (see `outline_from`).
pub fn read_outline(toks: &Vec<Token>, pos: usize, st: &mut State) -> (r: Result<(), CompileError>)
    requires
        pos <= toks.len(),
    ensures
        match r {
            Ok(()) => outline_from(toks@, pos as nat, old(st)@) == Ok::<SpecState, CompileError>(
                final(st)@,
            ),
            Err(e) => outline_from(toks@, pos as nat, old(st)@) == Err::<SpecState, CompileError>(
                e,
            ),
        },
{
    let mut p = pos;
    while p < toks.len()
        invariant
            pos <= p <= toks.len(),
            outline_from(toks@, pos as nat, old(st)@) == outline_from(toks@, p as nat, st@),
        decreases toks.len() - p,
    {
        match &toks[p].kind {
            TokenKind::Ident => {
                let first = &toks[p].lower;
                let q = match read_heading(toks, p + 1, first, st) {
                    Ok(q) => q,
                    Err(e) => {
                        return Err(e);
                    },
                };
                p = q;
            },
            TokenKind::Group(d, inner) => {
                match d {
                    crate::token::Delimiter::Bracket => {},
                    _ => {
                        return Err(CompileError::NotBrackets);
                    },
                }
                if inner.len() == 0 {
                    return Err(CompileError::EmptyStageDirection);
                }
                p = p + 1;
            },
            _ => {
                p = p + 1;
            },
        }
    }
    Ok(())
}

/// Compiles the outline of a play (see `outline_spec`).
pub fn compile_outline(toks: &Vec<Token>) -> (r: Result<Program, CompileError>)
    ensures
        match r {
            Ok(prog) => outline_spec(toks@) == Ok::<SpecProgram, CompileError>(prog@),
            Err(e) => outline_spec(toks@) == Err::<SpecProgram, CompileError>(e),
        },
{
    let (names, p) = match read_cast(toks) {
        Ok(x) => x,
        Err(e) => {
            return Err(e);
        },
    };
    let mut st = State::new();
    match read_outline(toks, p, &mut st) {
        Ok(()) => {},
        Err(e) => {
            return Err(e);
        },
    }
    if st.scenes.len() == 0 {
        return Err(CompileError::NoScenes);
    }
    Ok(Program { characters: names, scenes: st.scenes })
}

/// The value of a constant noun phrase in an outline, where no value is
/// worked out: the words from `pos` on, and the token that ends them, are
/// passed over, and the value is 1 whatever they say. Gives the value and the
/// position after them.
pub fn outline_constant_value(toks: &Vec<Token>, pos: usize) -> (r: (isize, usize))
    requires
        pos <= toks.len(),
    ensures
        r.0 == 1,
        r.1 == pos + run_len(toks@, pos as nat),
{
    let total: isize = 1;
    let p = skip_run(toks, pos);
    (total, p)
}

} // verus!
