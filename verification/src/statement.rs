//! The lines of a scene: each is read from the word it begins with, and
//! changes the compiler's state (acts, scenes, who speaks) or adds a
//! statement to the scene being read.

use vstd::prelude::*;
use crate::text::is_text;
use crate::token::{Token, TokenKind, run_len, run_title, run_joined, run_mentions, step_over,
    skip_run, join_run, title_run, run_has_word};
use crate::lexicon::{Lexicon, is_listed};
use crate::roman::{roman_value, decode_roman_numeral};
use crate::expression::{eval_spec, evaluate_expression};
use crate::program::{Statement, SpecStatement, SpecScene, Scene, Relation, CompileError,
    scenes_view, statements_view};
use crate::state::{SpecState, SpecAct, State, Act, spoken_to, add_statement, with_statement,
    jump_target, find_jump_target, acts_view, char_views, titles_view};

verus! {

/// Whether an executable step agrees with a specified one: the same error,
/// or the same state reached at the same position.
pub open spec fn step_agrees(
    r: Result<usize, CompileError>,
    s: Result<(SpecState, nat), CompileError>,
    after: SpecState,
) -> bool {
    match r {
        Ok(p) => s == Ok::<(SpecState, nat), CompileError>((after, p as nat)),
        Err(e) => s == Err::<(SpecState, nat), CompileError>(e),
    }
}

/// Forms of "to be".
pub open spec fn is_be(w: Seq<char>) -> bool {
    w == "am"@ || w == "are"@ || w == "art"@ || w == "be"@ || w == "is"@
}

/// Words that open an assignment to the character spoken to.
pub open spec fn is_second_person(w: Seq<char>) -> bool {
    w == "thee"@ || w == "thou"@ || w == "you"@
}

/// "Act ...": the act's number (a run of words) is skipped and its title
/// (the next run) read; a new act begins, whose scenes are numbered anew.
#[verifier::opaque]
pub open spec fn act_step(toks: Seq<Token>, pos: nat, st: SpecState) -> Result<
    (SpecState, nat),
    CompileError,
> {
    let p1 = pos + run_len(toks, pos);
    let title = run_title(toks, p1);
    let p2 = p1 + run_len(toks, p1);
    if st.act_num >= u32::MAX {
        Err(CompileError::CounterOverflow)
    } else {
        Ok(
            (
                SpecState {
                    acts: st.acts.push(SpecAct { name: title, scenes: Seq::empty() }),
                    act_num: st.act_num + 1,
                    scene_num: 0,
                    ..st
                },
                p2,
            ),
        )
    }
}

/// "Scene ...": the scene's number is skipped and its title read; the title
/// is added to the current act, and a new, empty scene begins.
#[verifier::opaque]
pub open spec fn scene_step(toks: Seq<Token>, pos: nat, st: SpecState) -> Result<
    (SpecState, nat),
    CompileError,
> {
    let p1 = pos + run_len(toks, pos);
    let title = run_title(toks, p1);
    let p2 = p1 + run_len(toks, p1);
    if st.acts.len() == 0 {
        Err(CompileError::NoAct)
    } else if st.scene_num >= u32::MAX {
        Err(CompileError::CounterOverflow)
    } else {
        let last = st.acts.last();
        Ok(
            (
                SpecState {
                    acts: st.acts.update(
                        st.acts.len() - 1,
                        SpecAct { name: last.name, scenes: last.scenes.push(title) },
                    ),
                    scene_num: st.scene_num + 1,
                    scenes: st.scenes.push(
                        SpecScene { act: st.act_num, number: st.scene_num + 1, body: Seq::empty() },
                    ),
                    ..st
                },
                p2,
            ),
        )
    }
}

/// A character's name (with the words that follow it, up to punctuation):
/// that character, who must be on stage, speaks from now on.
#[verifier::opaque]
pub open spec fn speaker_step(toks: Seq<Token>, pos: nat, first: Seq<char>, st: SpecState) -> Result<
    (SpecState, nat),
    CompileError,
> {
    let name = first + run_joined(toks, pos);
    if !st.stage.contains(name) {
        Err(CompileError::CharacterNotOnStage)
    } else {
        Ok((SpecState { current: name, ..st }, pos + run_len(toks, pos)))
    }
}

/// Where the value of an assignment begins: a form of "to be", "as
/// <adjective> as", and an article are each taken where they come.
pub open spec fn assignment_value_at(toks: Seq<Token>, pos: nat) -> Result<nat, CompileError> {
    if pos >= toks.len() {
        Err(CompileError::UnexpectedEnd)
    } else {
        let p1 = if is_be(toks[pos as int].text@) {
            pos + 1
        } else {
            pos
        };
        if p1 >= toks.len() {
            Err(CompileError::UnexpectedEnd)
        } else {
            let after_as: Result<nat, CompileError> = if toks[p1 as int].text@ == "as"@ {
                let q = step_over(toks.len(), p1 + 1);
                if q >= toks.len() {
                    Err(CompileError::UnexpectedEnd)
                } else if toks[q as int].text@ != "as"@ {
                    Err(CompileError::WrongConnective)
                } else {
                    Ok(q + 1)
                }
            } else {
                Ok(p1)
            };
            match after_as {
                Err(e) => Err(e),
                Ok(p2) => {
                    if p2 >= toks.len() {
                        Err(CompileError::UnexpectedEnd)
                    } else if toks[p2 as int].text@ == "a"@ || toks[p2 as int].text@ == "an"@ {
                        Ok(p2 + 1)
                    } else {
                        Ok(p2)
                    }
                },
            }
        }
    }
}

/// "You are as ... as a ...": the character spoken to is assigned the
/// expression that follows (see `assignment_value_at`).
#[verifier::opaque]
pub open spec fn assign_step(toks: Seq<Token>, pos: nat, lex: Lexicon, st: SpecState) -> Result<
    (SpecState, nat),
    CompileError,
> {
    match assignment_value_at(toks, pos) {
        Err(e) => Err(e),
        Ok(p3) => match spoken_to(st) {
            Err(e) => Err(e),
            Ok(other) => match eval_spec(toks, p3, lex, st.current, other) {
                Err(e) => Err(e),
                Ok((e, c)) => match add_statement(
                    st,
                    SpecStatement::Assign { target: other, value: e },
                ) {
                    Err(x) => Err(x),
                    Ok(s2) => Ok((s2, p3 + c)),
                },
            },
        },
    }
}

/// "Open your heart" prints the value of the character spoken to as a
/// number, "Open your mind" reads a character into it (any "Open" line that
/// mentions "mind"), "Speak your mind" prints it as a character, "Listen to
/// your heart" reads a number into it.
#[verifier::opaque]
pub open spec fn io_step(toks: Seq<Token>, pos: nat, first: Seq<char>, st: SpecState) -> Result<
    (SpecState, nat),
    CompileError,
> {
    let mind = run_mentions(toks, pos, "mind"@);
    let p = pos + run_len(toks, pos);
    match spoken_to(st) {
        Err(e) => Err(e),
        Ok(other) => {
            let s = if first == "Open"@ {
                if mind {
                    SpecStatement::ReadCharacter(other)
                } else {
                    SpecStatement::PrintNumber(other)
                }
            } else if first == "Speak"@ {
                SpecStatement::PrintCharacter(other)
            } else {
                SpecStatement::ReadNumber(other)
            };
            match add_statement(st, s) {
                Err(e) => Err(e),
                Ok(s2) => Ok((s2, p)),
            }
        },
    }
}

/// "If so," / "If not,": the condition for the next jump is the outcome of
/// the last comparison, or its negation; punctuation must follow.
#[verifier::opaque]
pub open spec fn condition_step(toks: Seq<Token>, pos: nat, st: SpecState) -> Result<
    (SpecState, nat),
    CompileError,
> {
    if st.scenes.len() == 0 {
        Err(CompileError::NoScene)
    } else if pos >= toks.len() {
        Err(CompileError::UnexpectedEnd)
    } else if toks[pos as int].text@ != "so"@ && toks[pos as int].text@ != "not"@ {
        Err(CompileError::BadCondition)
    } else if pos + 1 >= toks.len() {
        Err(CompileError::UnexpectedEnd)
    } else if !(toks[pos + 1 as int].kind is Punct) {
        Err(CompileError::ConditionWithoutPunctuation)
    } else {
        Ok(
            (
                with_statement(
                    st,
                    SpecStatement::Decide { negate: toks[pos as int].text@ == "not"@ },
                ),
                pos + 2,
            ),
        )
    }
}

/// The relation a question asks about, read at `q` (the word after the
/// first expression), and the position after it: "as <adjective> as" asks
/// for equality, a negative comparative (with the word after it, "than")
/// for less, a positive one for greater.
pub open spec fn relation_at(toks: Seq<Token>, q: nat, lex: Lexicon) -> Result<
    (Relation, nat),
    CompileError,
> {
    if q >= toks.len() {
        Err(CompileError::UnexpectedEnd)
    } else {
        let w = toks[q as int].text@;
        if w == "as"@ {
            let r = step_over(toks.len(), q + 1);
            if r >= toks.len() {
                Err(CompileError::UnexpectedEnd)
            } else if toks[r as int].text@ != "as"@ {
                Err(CompileError::WrongConnective)
            } else {
                Ok((Relation::Equal, r + 1))
            }
        } else if lex.is_negative_comparative(w) {
            Ok((Relation::Less, step_over(toks.len(), q + 1)))
        } else if lex.is_positive_comparative(w) {
            Ok((Relation::Greater, step_over(toks.len(), q + 1)))
        } else {
            Err(CompileError::InvalidComparison)
        }
    }
}

/// "Am I better than you?": an expression, a relation, and another
/// expression are compared; the outcome is kept for the next condition.
#[verifier::opaque]
pub open spec fn compare_step(toks: Seq<Token>, pos: nat, lex: Lexicon, st: SpecState) -> Result<
    (SpecState, nat),
    CompileError,
> {
    match spoken_to(st) {
        Err(e) => Err(e),
        Ok(other) => match eval_spec(toks, pos, lex, st.current, other) {
            Err(e) => Err(e),
            Ok((lhs, c1)) => match relation_at(toks, pos + c1, lex) {
                Err(e) => Err(e),
                Ok((rel, s)) => match eval_spec(toks, s, lex, st.current, other) {
                    Err(e) => Err(e),
                    Ok((rhs, c2)) => match add_statement(
                        st,
                        SpecStatement::Compare { lhs: lhs, relation: rel, rhs: rhs },
                    ) {
                        Err(e) => Err(e),
                        Ok(s2) => Ok((s2, s + c2)),
                    },
                },
            },
        },
    }
}

/// "Let us proceed to scene III." / "We shall return to act II." / "Let us
/// return to <title>.": three words are skipped; then either "scene" or
/// "act" (by the lower-cased text) and a roman numeral (and one more token), or a title.
/// The jump goes to the scene of that number in the current act, to the
/// first scene of the act of that number, or to the scene the title gives
/// among `titles`, the acts of the whole play with the titles of their
/// scenes (see `jump_target`); a title none of them has is an error. Where
/// the titles are not known yet (`None`, while the play is first read to
/// learn them), a jump by title is kept as a jump to act 0, scene 0.
#[verifier::opaque]
pub open spec fn jump_step(toks: Seq<Token>, pos: nat, titles: Option<Seq<SpecAct>>, st: SpecState) -> Result<
    (SpecState, nat),
    CompileError,
> {
    let p = step_over(toks.len(), step_over(toks.len(), step_over(toks.len(), pos)));
    if st.scenes.len() == 0 {
        Err(CompileError::NoScene)
    } else if p >= toks.len() {
        Err(CompileError::UnexpectedEnd)
    } else {
        let w = toks[p as int].lower@;
        if w == "scene"@ || w == "act"@ {
            let r = p + 1;
            if r >= toks.len() {
                Err(CompileError::UnexpectedEnd)
            } else {
                let v = roman_value(toks[r as int].text@);
                if v > u32::MAX {
                    Err(CompileError::NumeralTooLarge)
                } else {
                    let s = if w == "scene"@ {
                        SpecStatement::Jump { act: st.act_num, scene: v }
                    } else {
                        SpecStatement::Jump { act: v, scene: 1 }
                    };
                    Ok((with_statement(st, s), step_over(toks.len(), r + 1)))
                }
            }
        } else {
            let title = run_title(toks, p);
            let q = p + run_len(toks, p);
            match titles {
                None => Ok((with_statement(st, SpecStatement::Jump { act: 0, scene: 0 }), q)),
                Some(acts) => match jump_target(acts, title, 0) {
                    None => Err(CompileError::UnknownJumpTarget),
                    Some((a, sc)) => Ok(
                        (with_statement(st, SpecStatement::Jump { act: a, scene: sc }), q),
                    ),
                },
            }
        }
    }
}

/// "Remember ..." pushes the expression that follows on the stack of the
/// character spoken to; "Recall ..." pops it back (the rest of the line does
/// not matter).
#[verifier::opaque]
pub open spec fn stack_step(toks: Seq<Token>, pos: nat, lex: Lexicon, first: Seq<char>, st: SpecState) -> Result<
    (SpecState, nat),
    CompileError,
> {
    match spoken_to(st) {
        Err(e) => Err(e),
        Ok(other) => {
            if st.scenes.len() == 0 {
                Err(CompileError::NoScene)
            } else if first == "Recall"@ {
                Ok((with_statement(st, SpecStatement::Pop(other)), pos + run_len(toks, pos)))
            } else {
                match eval_spec(toks, pos, lex, st.current, other) {
                    Err(e) => Err(e),
                    Ok((e, c)) => Ok(
                        (with_statement(st, SpecStatement::Push { stack: other, value: e }), pos + c),
                    ),
                }
            }
        },
    }
}

/// Goes on with `k` when a step succeeded.
pub open spec fn and_then(
    r: Result<(SpecState, nat), CompileError>,
    k: spec_fn(SpecState, nat) -> Result<(SpecState, nat), CompileError>,
) -> Result<(SpecState, nat), CompileError> {
    match r {
        Ok((s, p)) => k(s, p),
        Err(e) => Err(e),
    }
}

/// A step taken only where `cond` holds; otherwise nothing changes.
pub open spec fn step_if(
    cond: bool,
    r: Result<(SpecState, nat), CompileError>,
    st: SpecState,
    pos: nat,
) -> Result<(SpecState, nat), CompileError> {
    if cond {
        r
    } else {
        Ok((st, pos))
    }
}

/// The steps of a line begun by `first`, from the ninth on: "Remember" or
/// "Recall".
#[verifier::opaque]
pub open spec fn steps_from_9(toks: Seq<Token>, pos: nat, lex: Lexicon, first: Seq<char>, st: SpecState) -> Result<
    (SpecState, nat),
    CompileError,
> {
    step_if(first == "Remember"@ || first == "Recall"@, stack_step(toks, pos, lex, first, st), st, pos)
}

/// From the eighth step on: "let" or "we" (the lower-cased `lower`) begin a jump.
#[verifier::opaque]
pub open spec fn steps_from_8(
    toks: Seq<Token>,
    pos: nat,
    lex: Lexicon,
    titles: Option<Seq<SpecAct>>,
    first: Seq<char>,
    lower: Seq<char>,
    st: SpecState,
) -> Result<
    (SpecState, nat),
    CompileError,
> {
    and_then(
        step_if(lower == "let"@ || lower == "we"@, jump_step(toks, pos, titles, st), st, pos),
        |s: SpecState, p: nat| steps_from_9(toks, p, lex, first, s),
    )
}

/// From the seventh step on: a form of "to be" (`lower`) begins a
/// question.
#[verifier::opaque]
pub open spec fn steps_from_7(
    toks: Seq<Token>,
    pos: nat,
    lex: Lexicon,
    titles: Option<Seq<SpecAct>>,
    first: Seq<char>,
    lower: Seq<char>,
    st: SpecState,
) -> Result<
    (SpecState, nat),
    CompileError,
> {
    and_then(
        step_if(is_be(lower), compare_step(toks, pos, lex, st), st, pos),
        |s: SpecState, p: nat| steps_from_8(toks, p, lex, titles, first, lower, s),
    )
}

/// From the sixth step on: "If" begins a condition.
#[verifier::opaque]
pub open spec fn steps_from_6(
    toks: Seq<Token>,
    pos: nat,
    lex: Lexicon,
    titles: Option<Seq<SpecAct>>,
    first: Seq<char>,
    lower: Seq<char>,
    st: SpecState,
) -> Result<
    (SpecState, nat),
    CompileError,
> {
    and_then(
        step_if(first == "If"@, condition_step(toks, pos, st), st, pos),
        |s: SpecState, p: nat| steps_from_7(toks, p, lex, titles, first, lower, s),
    )
}

/// From the fifth step on: "Open", "Speak" and "Listen" begin input and
/// output.
#[verifier::opaque]
pub open spec fn steps_from_5(
    toks: Seq<Token>,
    pos: nat,
    lex: Lexicon,
    titles: Option<Seq<SpecAct>>,
    first: Seq<char>,
    lower: Seq<char>,
    st: SpecState,
) -> Result<
    (SpecState, nat),
    CompileError,
> {
    and_then(
        step_if(
            first == "Open"@ || first == "Speak"@ || first == "Listen"@,
            io_step(toks, pos, first, st),
            st,
            pos,
        ),
        |s: SpecState, p: nat| steps_from_6(toks, p, lex, titles, first, lower, s),
    )
}

/// From the fourth step on: "thee", "thou", "you" (`lower`) begin an
/// assignment.
#[verifier::opaque]
pub open spec fn steps_from_4(
    toks: Seq<Token>,
    pos: nat,
    lex: Lexicon,
    titles: Option<Seq<SpecAct>>,
    first: Seq<char>,
    lower: Seq<char>,
    st: SpecState,
) -> Result<
    (SpecState, nat),
    CompileError,
> {
    and_then(
        step_if(is_second_person(lower), assign_step(toks, pos, lex, st), st, pos),
        |s: SpecState, p: nat| steps_from_5(toks, p, lex, titles, first, lower, s),
    )
}

/// From the third step on: a character's name makes that character speak.
#[verifier::opaque]
pub open spec fn steps_from_3(
    toks: Seq<Token>,
    pos: nat,
    lex: Lexicon,
    titles: Option<Seq<SpecAct>>,
    first: Seq<char>,
    lower: Seq<char>,
    st: SpecState,
) -> Result<
    (SpecState, nat),
    CompileError,
> {
    and_then(
        step_if(lex.is_character(first), speaker_step(toks, pos, first, st), st, pos),
        |s: SpecState, p: nat| steps_from_4(toks, p, lex, titles, first, lower, s),
    )
}

/// From the second step on: "Scene" begins a scene.
#[verifier::opaque]
pub open spec fn steps_from_2(
    toks: Seq<Token>,
    pos: nat,
    lex: Lexicon,
    titles: Option<Seq<SpecAct>>,
    first: Seq<char>,
    lower: Seq<char>,
    st: SpecState,
) -> Result<
    (SpecState, nat),
    CompileError,
> {
    and_then(
        step_if(first == "Scene"@, scene_step(toks, pos, st), st, pos),
        |s: SpecState, p: nat| steps_from_3(toks, p, lex, titles, first, lower, s),
    )
}

/// A line begun by the word `first`, whose lower-cased text is `lower`,
/// read from `pos` (the token after it): each of the steps whose word it is
/// is taken, in turn: "Act", "Scene", a character's name, "thee"/"thou"/"you"
/// (by `lower`), "Open"/"Speak"/"Listen", "If", a form of "to be" (by
/// `lower`), "let"/"we" (by `lower`), "Remember"/"Recall".
#[verifier::opaque]
pub open spec fn line_step(
    toks: Seq<Token>,
    pos: nat,
    lex: Lexicon,
    titles: Option<Seq<SpecAct>>,
    first: Seq<char>,
    lower: Seq<char>,
    st: SpecState,
) -> Result<
    (SpecState, nat),
    CompileError,
> {
    and_then(
        step_if(first == "Act"@, act_step(toks, pos, st), st, pos),
        |s: SpecState, p: nat| steps_from_2(toks, p, lex, titles, first, lower, s),
    )
}

} // verus!

verus! {

pub fn act_line(toks: &Vec<Token>, pos: usize, st: &mut State) -> (r: Result<usize, CompileError>)
    requires
        pos <= toks.len(),
    ensures
        step_agrees(r, act_step(toks@, pos as nat, old(st)@), final(st)@),
        r matches Ok(p) ==> pos <= p <= toks.len(),
{
    reveal(act_step);
    let p1 = skip_run(toks, pos);
    let (title, p2) = title_run(toks, p1);
    if st.act_num >= u32::MAX {
        return Err(CompileError::CounterOverflow);
    }
    let ghost tv = title@;
    st.acts.push(Act { name: title, scenes: Vec::new() });
    st.act_num = st.act_num + 1;
    st.scene_num = 0;
    proof {
        assert(char_views(Seq::<Vec<char>>::empty()) =~= Seq::<Seq<char>>::empty());
        assert(acts_view(st.acts@) =~= acts_view(old(st).acts@).push(
            SpecAct { name: tv, scenes: Seq::empty() },
        ));
    }
    Ok(p2)
}

pub fn scene_line(toks: &Vec<Token>, pos: usize, st: &mut State) -> (r: Result<usize, CompileError>)
    requires
        pos <= toks.len(),
    ensures
        step_agrees(r, scene_step(toks@, pos as nat, old(st)@), final(st)@),
        r matches Ok(p) ==> pos <= p <= toks.len(),
{
    reveal(scene_step);
    let p1 = skip_run(toks, pos);
    let (title, p2) = title_run(toks, p1);
    if st.acts.len() == 0 {
        return Err(CompileError::NoAct);
    }
    if st.scene_num >= u32::MAX {
        return Err(CompileError::CounterOverflow);
    }
    let ghost tv = title@;
    let mut last = st.acts.pop().unwrap();
    let ghost before = last@;
    last.scenes.push(title);
    proof {
        assert(char_views(last.scenes@) =~= before.scenes.push(tv));
    }
    st.acts.push(last);
    proof {
        assert(acts_view(st.acts@) =~= acts_view(old(st).acts@).update(
            old(st).acts.len() - 1,
            SpecAct { name: before.name, scenes: before.scenes.push(tv) },
        ));
    }
    st.scene_num = st.scene_num + 1;
    let sc = Scene { act: st.act_num, number: st.scene_num, body: Vec::new() };
    proof {
        assert(statements_view(sc.body@) =~= Seq::<SpecStatement>::empty());
    }
    st.scenes.push(sc);
    proof {
        assert(scenes_view(st.scenes@) =~= scenes_view(old(st).scenes@).push(
            SpecScene {
                act: old(st).act_num as nat,
                number: (old(st).scene_num + 1) as nat,
                body: Seq::empty(),
            },
        ));
    }
    Ok(p2)
}

fn speaker_line(toks: &Vec<Token>, pos: usize, first: &String, st: &mut State) -> (r: Result<
    usize,
    CompileError,
>)
    requires
        pos <= toks.len(),
    ensures
        step_agrees(r, speaker_step(toks@, pos as nat, first@, old(st)@), final(st)@),
        r matches Ok(p) ==> pos <= p <= toks.len(),
{
    reveal(speaker_step);
    let mut name = first.clone();
    let (rest, p) = join_run(toks, pos);
    name.append(rest.as_str());
    proof {
        crate::lexicon::lemma_listed_texts(st.stage@, name@);
    }
    if !is_listed(&st.stage, &name) {
        return Err(CompileError::CharacterNotOnStage);
    }
    st.current = name;
    Ok(p)
}

fn assignment_value_pos(toks: &Vec<Token>, pos: usize) -> (r: Result<usize, CompileError>)
    requires
        pos <= toks.len(),
    ensures
        match r {
            Ok(p) => pos <= p <= toks.len() && assignment_value_at(toks@, pos as nat) == Ok::<
                nat,
                CompileError,
            >(p as nat),
            Err(e) => assignment_value_at(toks@, pos as nat) == Err::<nat, CompileError>(e),
        },
{
    if pos >= toks.len() {
        return Err(CompileError::UnexpectedEnd);
    }
    let w = &toks[pos].text;
    let p1 = if is_text(w, "am") || is_text(w, "are") || is_text(w, "art") || is_text(w, "be")
        || is_text(w, "is") {
        pos + 1
    } else {
        pos
    };
    if p1 >= toks.len() {
        return Err(CompileError::UnexpectedEnd);
    }
    let p2 = if is_text(&toks[p1].text, "as") {
        let q = if p1 + 1 < toks.len() {
            p1 + 2
        } else {
            p1 + 1
        };
        if q >= toks.len() {
            return Err(CompileError::UnexpectedEnd);
        }
        if !is_text(&toks[q].text, "as") {
            return Err(CompileError::WrongConnective);
        }
        q + 1
    } else {
        p1
    };
    if p2 >= toks.len() {
        return Err(CompileError::UnexpectedEnd);
    }
    if is_text(&toks[p2].text, "a") || is_text(&toks[p2].text, "an") {
        Ok(p2 + 1)
    } else {
        Ok(p2)
    }
}

fn assign_line(toks: &Vec<Token>, pos: usize, lex: &Lexicon, st: &mut State) -> (r: Result<
    usize,
    CompileError,
>)
    requires
        pos <= toks.len(),
    ensures
        step_agrees(r, assign_step(toks@, pos as nat, *lex, old(st)@), final(st)@),
        r matches Ok(p) ==> pos <= p <= toks.len(),
{
    reveal(assign_step);
    let p3 = match assignment_value_pos(toks, pos) {
        Ok(p) => p,
        Err(e) => {
            return Err(e);
        },
    };
    let other = match st.spoken_to() {
        Ok(o) => o,
        Err(e) => {
            return Err(e);
        },
    };
    let (e, p) = match evaluate_expression(toks, p3, lex, &st.current, &other) {
        Ok(x) => x,
        Err(e) => {
            return Err(e);
        },
    };
    match st.add_statement(Statement::Assign { target: other, value: e }) {
        Ok(()) => Ok(p),
        Err(e) => Err(e),
    }
}

fn io_line(toks: &Vec<Token>, pos: usize, first: &String, st: &mut State) -> (r: Result<
    usize,
    CompileError,
>)
    requires
        pos <= toks.len(),
    ensures
        step_agrees(r, io_step(toks@, pos as nat, first@, old(st)@), final(st)@),
        r matches Ok(p) ==> pos <= p <= toks.len(),
{
    reveal(io_step);
    let (mind, p) = run_has_word(toks, pos, "mind");
    let other = match st.spoken_to() {
        Ok(o) => o,
        Err(e) => {
            return Err(e);
        },
    };
    let s = if is_text(first, "Open") {
        if mind {
            Statement::ReadCharacter(other)
        } else {
            Statement::PrintNumber(other)
        }
    } else if is_text(first, "Speak") {
        Statement::PrintCharacter(other)
    } else {
        Statement::ReadNumber(other)
    };
    match st.add_statement(s) {
        Ok(()) => Ok(p),
        Err(e) => Err(e),
    }
}

fn condition_line(toks: &Vec<Token>, pos: usize, st: &mut State) -> (r: Result<usize, CompileError>)
    requires
        pos <= toks.len(),
    ensures
        step_agrees(r, condition_step(toks@, pos as nat, old(st)@), final(st)@),
        r matches Ok(p) ==> pos <= p <= toks.len(),
{
    reveal(condition_step);
    if st.scenes.len() == 0 {
        return Err(CompileError::NoScene);
    }
    if pos >= toks.len() {
        return Err(CompileError::UnexpectedEnd);
    }
    let so = is_text(&toks[pos].text, "so");
    let not = is_text(&toks[pos].text, "not");
    if !so && !not {
        return Err(CompileError::BadCondition);
    }
    if pos + 1 >= toks.len() {
        return Err(CompileError::UnexpectedEnd);
    }
    let punct = match toks[pos + 1].kind {
        TokenKind::Punct => true,
        _ => false,
    };
    if !punct {
        return Err(CompileError::ConditionWithoutPunctuation);
    }
    st.push_statement(Statement::Decide { negate: not });
    Ok(pos + 2)
}

fn relation_exec(toks: &Vec<Token>, q: usize, lex: &Lexicon) -> (r: Result<
    (Relation, usize),
    CompileError,
>)
    requires
        q <= toks.len(),
    ensures
        match r {
            Ok((rel, p)) => q <= p <= toks.len() && relation_at(toks@, q as nat, *lex) == Ok::<
                (Relation, nat),
                CompileError,
            >((rel, p as nat)),
            Err(e) => relation_at(toks@, q as nat, *lex) == Err::<(Relation, nat), CompileError>(e),
        },
{
    if q >= toks.len() {
        return Err(CompileError::UnexpectedEnd);
    }
    let w = &toks[q].text;
    let next = if q + 1 < toks.len() {
        q + 2
    } else {
        q + 1
    };
    if is_text(w, "as") {
        if next >= toks.len() {
            return Err(CompileError::UnexpectedEnd);
        }
        if !is_text(&toks[next].text, "as") {
            return Err(CompileError::WrongConnective);
        }
        Ok((Relation::Equal, next + 1))
    } else if is_listed(&lex.negative_comparatives, w) {
        Ok((Relation::Less, next))
    } else if is_listed(&lex.positive_comparatives, w) {
        Ok((Relation::Greater, next))
    } else {
        Err(CompileError::InvalidComparison)
    }
}

fn compare_line(toks: &Vec<Token>, pos: usize, lex: &Lexicon, st: &mut State) -> (r: Result<
    usize,
    CompileError,
>)
    requires
        pos <= toks.len(),
    ensures
        step_agrees(r, compare_step(toks@, pos as nat, *lex, old(st)@), final(st)@),
        r matches Ok(p) ==> pos <= p <= toks.len(),
{
    reveal(compare_step);
    let other = match st.spoken_to() {
        Ok(o) => o,
        Err(e) => {
            return Err(e);
        },
    };
    let (lhs, q) = match evaluate_expression(toks, pos, lex, &st.current, &other) {
        Ok(x) => x,
        Err(e) => {
            return Err(e);
        },
    };
    let (rel, s) = match relation_exec(toks, q, lex) {
        Ok(x) => x,
        Err(e) => {
            return Err(e);
        },
    };
    let (rhs, p) = match evaluate_expression(toks, s, lex, &st.current, &other) {
        Ok(x) => x,
        Err(e) => {
            return Err(e);
        },
    };
    match st.add_statement(Statement::Compare { lhs: lhs, relation: rel, rhs: rhs }) {
        Ok(()) => Ok(p),
        Err(e) => Err(e),
    }
}

fn jump_line(toks: &Vec<Token>, pos: usize, titles: &Option<Vec<Act>>, st: &mut State) -> (r: Result<
    usize,
    CompileError,
>)
    requires
        pos <= toks.len(),
    ensures
        step_agrees(r, jump_step(toks@, pos as nat, titles_view(*titles), old(st)@), final(st)@),
        r matches Ok(p) ==> pos <= p <= toks.len(),
{
    reveal(jump_step);
    let mut p = pos;
    let mut k: usize = 0;
    while k < 3
        invariant
            k <= 3,
            pos <= p <= toks.len(),
            toks.len() == toks@.len(),
            (if k == 0 {
                p == pos
            } else if k == 1 {
                p as nat == step_over(toks@.len(), pos as nat)
            } else if k == 2 {
                p as nat == step_over(toks@.len(), step_over(toks@.len(), pos as nat))
            } else {
                p as nat == step_over(
                    toks@.len(),
                    step_over(toks@.len(), step_over(toks@.len(), pos as nat)),
                )
            }),
        decreases 3 - k,
    {
        if p < toks.len() {
            p = p + 1;
        }
        k = k + 1;
    }
    if st.scenes.len() == 0 {
        return Err(CompileError::NoScene);
    }
    if p >= toks.len() {
        return Err(CompileError::UnexpectedEnd);
    }
    let lower = &toks[p].lower;
    let is_scene = is_text(lower, "scene");
    if is_scene || is_text(lower, "act") {
        let r = p + 1;
        if r >= toks.len() {
            return Err(CompileError::UnexpectedEnd);
        }
        let v = match decode_roman_numeral(toks[r].text.as_str()) {
            Some(v) => v,
            None => {
                return Err(CompileError::NumeralTooLarge);
            },
        };
        let s = if is_scene {
            Statement::Jump { act: st.act_num as usize, scene: v as usize }
        } else {
            Statement::Jump { act: v as usize, scene: 1 }
        };
        st.push_statement(s);
        if r + 1 < toks.len() {
            Ok(r + 2)
        } else {
            Ok(r + 1)
        }
    } else {
        let (title, q) = title_run(toks, p);
        match titles {
            None => {
                st.push_statement(Statement::Jump { act: 0, scene: 0 });
                Ok(q)
            },
            Some(acts) => match find_jump_target(acts, &title) {
                None => Err(CompileError::UnknownJumpTarget),
                Some((a, sc)) => {
                    st.push_statement(Statement::Jump { act: a, scene: sc });
                    Ok(q)
                },
            },
        }
    }
}

fn stack_line(toks: &Vec<Token>, pos: usize, lex: &Lexicon, first: &String, st: &mut State) -> (r:
    Result<usize, CompileError>)
    requires
        pos <= toks.len(),
    ensures
        step_agrees(r, stack_step(toks@, pos as nat, *lex, first@, old(st)@), final(st)@),
        r matches Ok(p) ==> pos <= p <= toks.len(),
{
    reveal(stack_step);
    let other = match st.spoken_to() {
        Ok(o) => o,
        Err(e) => {
            return Err(e);
        },
    };
    if st.scenes.len() == 0 {
        return Err(CompileError::NoScene);
    }
    if is_text(first, "Recall") {
        let p = skip_run(toks, pos);
        st.push_statement(Statement::Pop(other));
        Ok(p)
    } else {
        let (e, p) = match evaluate_expression(toks, pos, lex, &st.current, &other) {
            Ok(x) => x,
            Err(e) => {
                return Err(e);
            },
        };
        st.push_statement(Statement::Push { stack: other, value: e });
        Ok(p)
    }
}

} // verus!

verus! {

fn line_from_2(
    toks: &Vec<Token>,
    pos: usize,
    lex: &Lexicon,
    titles: &Option<Vec<Act>>,
    first: &String,
    lower: &String,
    st: &mut State,
) -> (r: Result<usize, CompileError>)
    requires
        pos <= toks.len(),
    ensures
        step_agrees(
            r,
            steps_from_2(toks@, pos as nat, *lex, titles_view(*titles), first@, lower@, old(st)@),
            final(st)@,
        ),
        r matches Ok(p) ==> pos <= p <= toks.len(),
{
    proof {
        reveal(steps_from_2);
    }
    let mut p = pos;
    if is_text(first, "Scene") {
        match scene_line(toks, pos, st) {
            Ok(q) => p = q,
            Err(e) => {
                return Err(e);
            },
        }
    }
    line_from_3(toks, p, lex, titles, first, lower, st)
}

fn line_from_3(
    toks: &Vec<Token>,
    pos: usize,
    lex: &Lexicon,
    titles: &Option<Vec<Act>>,
    first: &String,
    lower: &String,
    st: &mut State,
) -> (r: Result<usize, CompileError>)
    requires
        pos <= toks.len(),
    ensures
        step_agrees(
            r,
            steps_from_3(toks@, pos as nat, *lex, titles_view(*titles), first@, lower@, old(st)@),
            final(st)@,
        ),
        r matches Ok(p) ==> pos <= p <= toks.len(),
{
    proof {
        reveal(steps_from_3);
    }
    let mut p = pos;
    if is_listed(&lex.characters, first) {
        match speaker_line(toks, pos, first, st) {
            Ok(q) => p = q,
            Err(e) => {
                return Err(e);
            },
        }
    }
    line_from_4(toks, p, lex, titles, first, lower, st)
}

fn line_from_4(
    toks: &Vec<Token>,
    pos: usize,
    lex: &Lexicon,
    titles: &Option<Vec<Act>>,
    first: &String,
    lower: &String,
    st: &mut State,
) -> (r: Result<usize, CompileError>)
    requires
        pos <= toks.len(),
    ensures
        step_agrees(
            r,
            steps_from_4(toks@, pos as nat, *lex, titles_view(*titles), first@, lower@, old(st)@),
            final(st)@,
        ),
        r matches Ok(p) ==> pos <= p <= toks.len(),
{
    proof {
        reveal(steps_from_4);
    }
    let mut p = pos;
    if is_text(lower, "thee") || is_text(lower, "thou") || is_text(lower, "you") {
        match assign_line(toks, pos, lex, st) {
            Ok(q) => p = q,
            Err(e) => {
                return Err(e);
            },
        }
    }
    line_from_5(toks, p, lex, titles, first, lower, st)
}

fn line_from_5(
    toks: &Vec<Token>,
    pos: usize,
    lex: &Lexicon,
    titles: &Option<Vec<Act>>,
    first: &String,
    lower: &String,
    st: &mut State,
) -> (r: Result<usize, CompileError>)
    requires
        pos <= toks.len(),
    ensures
        step_agrees(
            r,
            steps_from_5(toks@, pos as nat, *lex, titles_view(*titles), first@, lower@, old(st)@),
            final(st)@,
        ),
        r matches Ok(p) ==> pos <= p <= toks.len(),
{
    proof {
        reveal(steps_from_5);
    }
    let mut p = pos;
    if is_text(first, "Open") || is_text(first, "Speak") || is_text(first, "Listen") {
        match io_line(toks, pos, first, st) {
            Ok(q) => p = q,
            Err(e) => {
                return Err(e);
            },
        }
    }
    line_from_6(toks, p, lex, titles, first, lower, st)
}

fn line_from_6(
    toks: &Vec<Token>,
    pos: usize,
    lex: &Lexicon,
    titles: &Option<Vec<Act>>,
    first: &String,
    lower: &String,
    st: &mut State,
) -> (r: Result<usize, CompileError>)
    requires
        pos <= toks.len(),
    ensures
        step_agrees(
            r,
            steps_from_6(toks@, pos as nat, *lex, titles_view(*titles), first@, lower@, old(st)@),
            final(st)@,
        ),
        r matches Ok(p) ==> pos <= p <= toks.len(),
{
    proof {
        reveal(steps_from_6);
    }
    let mut p = pos;
    if is_text(first, "If") {
        match condition_line(toks, pos, st) {
            Ok(q) => p = q,
            Err(e) => {
                return Err(e);
            },
        }
    }
    line_from_7(toks, p, lex, titles, first, lower, st)
}

fn line_from_7(
    toks: &Vec<Token>,
    pos: usize,
    lex: &Lexicon,
    titles: &Option<Vec<Act>>,
    first: &String,
    lower: &String,
    st: &mut State,
) -> (r: Result<usize, CompileError>)
    requires
        pos <= toks.len(),
    ensures
        step_agrees(
            r,
            steps_from_7(toks@, pos as nat, *lex, titles_view(*titles), first@, lower@, old(st)@),
            final(st)@,
        ),
        r matches Ok(p) ==> pos <= p <= toks.len(),
{
    proof {
        reveal(steps_from_7);
    }
    let mut p = pos;
    if is_text(lower, "am") || is_text(lower, "are") || is_text(lower, "art") || is_text(lower, "be")
        || is_text(lower, "is") {
        match compare_line(toks, pos, lex, st) {
            Ok(q) => p = q,
            Err(e) => {
                return Err(e);
            },
        }
    }
    line_from_8(toks, p, lex, titles, first, lower, st)
}

fn line_from_8(
    toks: &Vec<Token>,
    pos: usize,
    lex: &Lexicon,
    titles: &Option<Vec<Act>>,
    first: &String,
    lower: &String,
    st: &mut State,
) -> (r: Result<usize, CompileError>)
    requires
        pos <= toks.len(),
    ensures
        step_agrees(
            r,
            steps_from_8(toks@, pos as nat, *lex, titles_view(*titles), first@, lower@, old(st)@),
            final(st)@,
        ),
        r matches Ok(p) ==> pos <= p <= toks.len(),
{
    proof {
        reveal(steps_from_8);
    }
    let mut p = pos;
    if is_text(lower, "let") || is_text(lower, "we") {
        match jump_line(toks, pos, titles, st) {
            Ok(q) => p = q,
            Err(e) => {
                return Err(e);
            },
        }
    }
    line_from_9(toks, p, lex, first, lower, st)
}

fn line_from_9(
    toks: &Vec<Token>,
    pos: usize,
    lex: &Lexicon,
    first: &String,
    lower: &String,
    st: &mut State,
) -> (r: Result<usize, CompileError>)
    requires
        pos <= toks.len(),
    ensures
        step_agrees(r, steps_from_9(toks@, pos as nat, *lex, first@, old(st)@), final(st)@),
        r matches Ok(p) ==> pos <= p <= toks.len(),
{
    proof {
        reveal(steps_from_9);
    }
    if is_text(first, "Remember") || is_text(first, "Recall") {
        stack_line(toks, pos, lex, first, st)
    } else {
        Ok(pos)
    }
}

/// Reads a line begun by the word `first` from `pos`, the token after it
/// (see `line_step`); gives the position after the line.
pub fn read_line(
    toks: &Vec<Token>,
    pos: usize,
    lex: &Lexicon,
    titles: &Option<Vec<Act>>,
    first: &String,
    lower: &String,
    st: &mut State,
) -> (r: Result<usize, CompileError>)
    requires
        pos <= toks.len(),
    ensures
        step_agrees(
            r,
            line_step(toks@, pos as nat, *lex, titles_view(*titles), first@, lower@, old(st)@),
            final(st)@,
        ),
        r matches Ok(p) ==> pos <= p <= toks.len(),
        r is Ok ==> final(st)@.stage == old(st)@.stage,
{
    proof {
        crate::laws::law_line_keeps_stage(
            toks@,
            pos as nat,
            *lex,
            titles_view(*titles),
            first@,
            lower@,
            old(st)@,
        );
    }
    proof {
        reveal(line_step);
    }
    let mut p = pos;
    if is_text(first, "Act") {
        match act_line(toks, p, st) {
            Ok(q) => p = q,
            Err(e) => {
                return Err(e);
            },
        }
    }
    line_from_2(toks, p, lex, titles, first, lower, st)
}

pub proof fn lemma_act_advances(toks: Seq<Token>, pos: nat, st: SpecState)
    ensures
        act_step(toks, pos, st) matches Ok((_, p)) ==> p >= pos,
{
    reveal(act_step);
}

pub proof fn lemma_scene_advances(toks: Seq<Token>, pos: nat, st: SpecState)
    ensures
        scene_step(toks, pos, st) matches Ok((_, p)) ==> p >= pos,
{
    reveal(scene_step);
}

/// A relation between the state and position before a step and those
/// after it.
pub type StepRelation = spec_fn(SpecState, nat, SpecState, nat) -> bool;

/// Whether a step, where it succeeded, went from `(s, p)` to a state and
/// position related to them by `rel`.
pub open spec fn step_keeps(
    res: Result<(SpecState, nat), CompileError>,
    s: SpecState,
    p: nat,
    rel: StepRelation,
) -> bool {
    match res {
        Ok((s2, p2)) => rel(s, p, s2, p2),
        Err(_) => true,
    }
}

/// Whether `rel` is reflexive and transitive.
pub open spec fn is_preorder(rel: StepRelation) -> bool {
    &&& forall|s: SpecState, p: nat| #[trigger] rel(s, p, s, p)
    &&& forall|a: SpecState, pa: nat, b: SpecState, pb: nat, c: SpecState, pc: nat|
        #[trigger] rel(a, pa, b, pb) && #[trigger] rel(b, pb, c, pc) ==> rel(a, pa, c, pc)
}

/// Whether each of the steps a line begun by `first` may take keeps `rel`,
/// from every state and position.
pub open spec fn steps_keep(
    toks: Seq<Token>,
    lex: Lexicon,
    titles: Option<Seq<SpecAct>>,
    first: Seq<char>,
    rel: StepRelation,
) -> bool {
    &&& forall|s: SpecState, p: nat| step_keeps(#[trigger] act_step(toks, p, s), s, p, rel)
    &&& forall|s: SpecState, p: nat| step_keeps(#[trigger] scene_step(toks, p, s), s, p, rel)
    &&& forall|s: SpecState, p: nat|
        step_keeps(#[trigger] speaker_step(toks, p, first, s), s, p, rel)
    &&& forall|s: SpecState, p: nat| step_keeps(#[trigger] assign_step(toks, p, lex, s), s, p, rel)
    &&& forall|s: SpecState, p: nat| step_keeps(#[trigger] io_step(toks, p, first, s), s, p, rel)
    &&& forall|s: SpecState, p: nat| step_keeps(#[trigger] condition_step(toks, p, s), s, p, rel)
    &&& forall|s: SpecState, p: nat|
        step_keeps(#[trigger] compare_step(toks, p, lex, s), s, p, rel)
    &&& forall|s: SpecState, p: nat|
        step_keeps(#[trigger] jump_step(toks, p, titles, s), s, p, rel)
    &&& forall|s: SpecState, p: nat|
        step_keeps(#[trigger] stack_step(toks, p, lex, first, s), s, p, rel)
}

proof fn lemma_step_if_keeps(
    cond: bool,
    res: Result<(SpecState, nat), CompileError>,
    s: SpecState,
    p: nat,
    rel: StepRelation,
)
    requires
        is_preorder(rel),
        step_keeps(res, s, p, rel),
    ensures
        step_keeps(step_if(cond, res, s, p), s, p, rel),
{
    assert(rel(s, p, s, p));
}

proof fn lemma_and_then_keeps(
    res: Result<(SpecState, nat), CompileError>,
    k: spec_fn(SpecState, nat) -> Result<(SpecState, nat), CompileError>,
    s: SpecState,
    p: nat,
    rel: StepRelation,
)
    requires
        is_preorder(rel),
        step_keeps(res, s, p, rel),
        res matches Ok((s1, p1)) ==> step_keeps(k(s1, p1), s1, p1, rel),
    ensures
        step_keeps(and_then(res, k), s, p, rel),
{
    if let Ok((s1, p1)) = res {
        if let Ok((s2, p2)) = k(s1, p1) {
            assert(rel(s, p, s1, p1) && rel(s1, p1, s2, p2));
        }
    }
}

/// A line keeps every reflexive and transitive relation that each of its
/// steps keeps: the steps of a line are taken one after the other.
pub proof fn lemma_line_keeps(
    toks: Seq<Token>,
    pos: nat,
    lex: Lexicon,
    titles: Option<Seq<SpecAct>>,
    first: Seq<char>,
    lower: Seq<char>,
    st: SpecState,
    rel: StepRelation,
)
    requires
        is_preorder(rel),
        steps_keep(toks, lex, titles, first, rel),
    ensures
        step_keeps(line_step(toks, pos, lex, titles, first, lower, st), st, pos, rel),
{
    let k9 = |s: SpecState, p: nat| steps_from_9(toks, p, lex, first, s);
    let k8 = |s: SpecState, p: nat| steps_from_8(toks, p, lex, titles, first, lower, s);
    let k7 = |s: SpecState, p: nat| steps_from_7(toks, p, lex, titles, first, lower, s);
    let k6 = |s: SpecState, p: nat| steps_from_6(toks, p, lex, titles, first, lower, s);
    let k5 = |s: SpecState, p: nat| steps_from_5(toks, p, lex, titles, first, lower, s);
    let k4 = |s: SpecState, p: nat| steps_from_4(toks, p, lex, titles, first, lower, s);
    let k3 = |s: SpecState, p: nat| steps_from_3(toks, p, lex, titles, first, lower, s);
    let k2 = |s: SpecState, p: nat| steps_from_2(toks, p, lex, titles, first, lower, s);
    assert forall|s: SpecState, p: nat| step_keeps(#[trigger] k9(s, p), s, p, rel) by {
        reveal(steps_from_9);
        lemma_step_if_keeps(
            first == "Remember"@ || first == "Recall"@,
            stack_step(toks, p, lex, first, s),
            s,
            p,
            rel,
        );
    }
    assert forall|s: SpecState, p: nat| step_keeps(#[trigger] k8(s, p), s, p, rel) by {
        reveal(steps_from_8);
        let r = jump_step(toks, p, titles, s);
        lemma_step_if_keeps(lower == "let"@ || lower == "we"@, r, s, p, rel);
        lemma_and_then_keeps(step_if(lower == "let"@ || lower == "we"@, r, s, p), k9, s, p, rel);
    }
    assert forall|s: SpecState, p: nat| step_keeps(#[trigger] k7(s, p), s, p, rel) by {
        reveal(steps_from_7);
        let r = compare_step(toks, p, lex, s);
        lemma_step_if_keeps(is_be(lower), r, s, p, rel);
        lemma_and_then_keeps(step_if(is_be(lower), r, s, p), k8, s, p, rel);
    }
    assert forall|s: SpecState, p: nat| step_keeps(#[trigger] k6(s, p), s, p, rel) by {
        reveal(steps_from_6);
        let r = condition_step(toks, p, s);
        lemma_step_if_keeps(first == "If"@, r, s, p, rel);
        lemma_and_then_keeps(step_if(first == "If"@, r, s, p), k7, s, p, rel);
    }
    assert forall|s: SpecState, p: nat| step_keeps(#[trigger] k5(s, p), s, p, rel) by {
        reveal(steps_from_5);
        let c = first == "Open"@ || first == "Speak"@ || first == "Listen"@;
        let r = io_step(toks, p, first, s);
        lemma_step_if_keeps(c, r, s, p, rel);
        lemma_and_then_keeps(step_if(c, r, s, p), k6, s, p, rel);
    }
    assert forall|s: SpecState, p: nat| step_keeps(#[trigger] k4(s, p), s, p, rel) by {
        reveal(steps_from_4);
        let r = assign_step(toks, p, lex, s);
        lemma_step_if_keeps(is_second_person(lower), r, s, p, rel);
        lemma_and_then_keeps(step_if(is_second_person(lower), r, s, p), k5, s, p, rel);
    }
    assert forall|s: SpecState, p: nat| step_keeps(#[trigger] k3(s, p), s, p, rel) by {
        reveal(steps_from_3);
        let r = speaker_step(toks, p, first, s);
        lemma_step_if_keeps(lex.is_character(first), r, s, p, rel);
        lemma_and_then_keeps(step_if(lex.is_character(first), r, s, p), k4, s, p, rel);
    }
    assert forall|s: SpecState, p: nat| step_keeps(#[trigger] k2(s, p), s, p, rel) by {
        reveal(steps_from_2);
        let r = scene_step(toks, p, s);
        lemma_step_if_keeps(first == "Scene"@, r, s, p, rel);
        lemma_and_then_keeps(step_if(first == "Scene"@, r, s, p), k3, s, p, rel);
    }
    reveal(line_step);
    let r = act_step(toks, pos, st);
    lemma_step_if_keeps(first == "Act"@, r, st, pos, rel);
    lemma_and_then_keeps(step_if(first == "Act"@, r, st, pos), k2, st, pos, rel);
}

/// A line never goes back: where it is read without error, the position
/// after it is not before the position it was read from.
pub proof fn lemma_line_advances(
    toks: Seq<Token>,
    pos: nat,
    lex: Lexicon,
    titles: Option<Seq<SpecAct>>,
    first: Seq<char>,
    lower: Seq<char>,
    st: SpecState,
)
    ensures
        line_step(toks, pos, lex, titles, first, lower, st) matches Ok((_, p)) ==> p >= pos,
{
    let rel: StepRelation = |s: SpecState, p: nat, s2: SpecState, p2: nat| p2 >= p;
    assert forall|s: SpecState, p: nat| step_keeps(#[trigger] act_step(toks, p, s), s, p, rel) by {
        reveal(act_step);
    }
    assert forall|s: SpecState, p: nat| step_keeps(#[trigger] scene_step(toks, p, s), s, p, rel) by {
        reveal(scene_step);
    }
    assert forall|s: SpecState, p: nat|
        step_keeps(#[trigger] speaker_step(toks, p, first, s), s, p, rel) by {
        reveal(speaker_step);
    }
    assert forall|s: SpecState, p: nat|
        step_keeps(#[trigger] assign_step(toks, p, lex, s), s, p, rel) by {
        reveal(assign_step);
    }
    assert forall|s: SpecState, p: nat| step_keeps(#[trigger] io_step(toks, p, first, s), s, p, rel) by {
        reveal(io_step);
    }
    assert forall|s: SpecState, p: nat|
        step_keeps(#[trigger] condition_step(toks, p, s), s, p, rel) by {
        reveal(condition_step);
    }
    assert forall|s: SpecState, p: nat|
        step_keeps(#[trigger] compare_step(toks, p, lex, s), s, p, rel) by {
        reveal(compare_step);
    }
    assert forall|s: SpecState, p: nat|
        step_keeps(#[trigger] jump_step(toks, p, titles, s), s, p, rel) by {
        reveal(jump_step);
    }
    assert forall|s: SpecState, p: nat|
        step_keeps(#[trigger] stack_step(toks, p, lex, first, s), s, p, rel) by {
        reveal(stack_step);
    }
    lemma_line_keeps(toks, pos, lex, titles, first, lower, st, rel);
}

} // verus!
