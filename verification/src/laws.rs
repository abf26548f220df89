//! What holds of every play the compiler accepts.

use vstd::prelude::*;
use crate::token::{Token, TokenKind, is_word};
use crate::lexicon::Lexicon;
use crate::expression::{constant_scan, eval_spec, is_possessive, is_zero_word,
    is_second_person_reflexive, is_first_person_reflexive, operation_named, connective, is_binary,
    binary, unary, Operation};
use crate::program::{SpecScene, SpecStatement, SpecExpr, CompileError};
use crate::state::{SpecState, SpecAct, initial_state, with_statement, add_statement, stage_enter,
    stage_leave, spoken_to, others_on_stage, lemma_filter_keeps_distinct};
use crate::statement::{line_step, steps_from_2, steps_from_3, steps_from_4, steps_from_5,
    steps_from_6, steps_from_7, steps_from_8, steps_from_9, and_then, is_be, is_second_person, act_step, scene_step, speaker_step, assign_step, io_step,
    condition_step, compare_step, jump_step, stack_step, step_if, assignment_value_at,
    lemma_line_advances, lemma_line_keeps, step_keeps, StepRelation};
use crate::play::{play_from, play_titles, compile_spec, remaining, direction_step, cast_walk};
use crate::outline::{outline_from, outline_spec, heading_step};

verus! {

/// Two to the power `k`.
pub open spec fn power_of_two(k: nat) -> int
    decreases k,
{
    if k == 0 {
        1
    } else {
        2 * power_of_two((k - 1) as nat)
    }
}

proof fn lemma_constant_scan_power(toks: Seq<Token>, pos: nat, lex: Lexicon, k: nat)
    ensures
        constant_scan(toks, pos, lex, power_of_two(k)) matches Ok((v, _)) ==> v == 0 || exists|
            j: nat,
        | v == power_of_two(j) || v == -power_of_two(j),
    decreases toks.len() - pos,
{
    let total = power_of_two(k);
    if pos < toks.len() && is_word(toks[pos as int]) {
        let w = toks[pos as int].text@;
        if crate::expression::is_possessive(w) || w == "a"@ || w == "an"@ {
            lemma_constant_scan_power(toks, pos + 1, lex, k);
        } else if lex.is_noun(w) {
            assert(total == power_of_two(k));
        } else if crate::expression::is_zero_word(w) {
        } else if total * 2 > isize::MAX {
        } else {
            assert(power_of_two(k + 1) == total * 2);
            lemma_constant_scan_power(toks, pos + 1, lex, k + 1);
        }
    } else {
        assert(total == power_of_two(k));
    }
}

/// A constant noun phrase is worth nothing, or a power of two (each adjective
/// doubling it), negated by a negative noun.
pub proof fn law_constant_is_signed_power_of_two(toks: Seq<Token>, pos: nat, lex: Lexicon)
    ensures
        constant_scan(toks, pos, lex, 1) matches Ok((v, _)) ==> v == 0 || exists|j: nat|
            v == power_of_two(j) || v == -power_of_two(j),
{
    assert(power_of_two(0) == 1);
    lemma_constant_scan_power(toks, pos, lex, 0);
}

proof fn lemma_constant_scan_scales(toks: Seq<Token>, pos: nat, lex: Lexicon, t: int)
    requires
        t >= 1,
    ensures
        constant_scan(toks, pos, lex, 2 * t) matches Ok((v, c)) ==> constant_scan(toks, pos, lex, t)
            == Ok::<(int, nat), CompileError>((v / 2, c)) && v % 2 == 0,
        constant_scan(toks, pos, lex, t) matches Ok((u, c)) ==> constant_scan(toks, pos, lex, 2 * t)
            == Ok::<(int, nat), CompileError>((2 * u, c)) || constant_scan(toks, pos, lex, 2 * t)
            == Err::<(int, nat), CompileError>(CompileError::ConstantOverflow),
    decreases toks.len() - pos,
{
    if pos < toks.len() && is_word(toks[pos as int]) {
        let w = toks[pos as int].text@;
        if is_possessive(w) || w == "a"@ || w == "an"@ {
            lemma_constant_scan_scales(toks, pos + 1, lex, t);
        } else if lex.is_noun(w) {
        } else if is_zero_word(w) {
        } else if t * 2 > isize::MAX {
        } else {
            lemma_constant_scan_scales(toks, pos + 1, lex, 2 * t);
        }
    }
}

/// Each adjective of a constant doubles its value: a phrase begun by a word
/// that is no possessive, article, noun or zero word is worth twice the rest
/// of the phrase and takes one token more. It may overflow instead only
/// where two to the power of the tokens it takes exceeds `isize::MAX`.
pub proof fn law_adjective_doubles(toks: Seq<Token>, pos: nat, lex: Lexicon)
    requires
        pos < toks.len(),
        is_word(toks[pos as int]),
        !is_possessive(toks[pos as int].text@),
        toks[pos as int].text@ != "a"@,
        toks[pos as int].text@ != "an"@,
        !lex.is_noun(toks[pos as int].text@),
        !is_zero_word(toks[pos as int].text@),
    ensures
        constant_scan(toks, pos, lex, 1) matches Ok((v, c)) ==> v % 2 == 0 && c >= 1
            && constant_scan(toks, pos + 1, lex, 1) == Ok::<(int, nat), CompileError>(
            (v / 2, (c - 1) as nat),
        ),
        constant_scan(toks, pos + 1, lex, 1) matches Ok((u, c)) ==> constant_scan(toks, pos, lex, 1)
            == Ok::<(int, nat), CompileError>((2 * u, c + 1)) || constant_scan(toks, pos, lex, 1)
            == Err::<(int, nat), CompileError>(CompileError::ConstantOverflow),
        constant_scan(toks, pos + 1, lex, 1) matches Ok((u, c)) ==> power_of_two(c + 1)
            <= isize::MAX ==> constant_scan(toks, pos, lex, 1) == Ok::<(int, nat), CompileError>(
            (2 * u, c + 1),
        ),
{
    lemma_constant_scan_scales(toks, pos + 1, lex, 1);
    if let Ok((u, c)) = constant_scan(toks, pos + 1, lex, 1) {
        if power_of_two(c + 1) <= isize::MAX {
            assert(2 * 1 * power_of_two(c) == power_of_two(c + 1));
            lemma_constant_scan_doubles_within(toks, pos + 1, lex, 1);
        }
    }
}

proof fn lemma_constant_scan_doubles_within(toks: Seq<Token>, pos: nat, lex: Lexicon, t: int)
    requires
        t >= 1,
    ensures
        constant_scan(toks, pos, lex, t) matches Ok((u, c)) ==> 2 * t * power_of_two(c)
            <= isize::MAX ==> constant_scan(toks, pos, lex, 2 * t) == Ok::<(int, nat), CompileError>(
            (2 * u, c),
        ),
    decreases toks.len() - pos,
{
    if pos < toks.len() && is_word(toks[pos as int]) {
        let w = toks[pos as int].text@;
        if let Ok((u, c)) = constant_scan(toks, pos, lex, t) {
            if is_possessive(w) || w == "a"@ || w == "an"@ {
                lemma_constant_scan_doubles_within(toks, pos + 1, lex, t);
                let c1 = (c - 1) as nat;
                lemma_power_of_two_positive(c1);
                assert(2 * t * power_of_two(c1) <= 2 * t * power_of_two(c)) by (nonlinear_arith)
                    requires
                        power_of_two(c) == 2 * power_of_two(c1),
                        power_of_two(c1) >= 1,
                        t >= 1,
                {}
            } else if lex.is_noun(w) {
            } else if is_zero_word(w) {
            } else if t * 2 > isize::MAX {
            } else {
                lemma_constant_scan_doubles_within(toks, pos + 1, lex, 2 * t);
                let c1 = (c - 1) as nat;
                lemma_power_of_two_positive(c1);
                assert(2 * (2 * t) * power_of_two(c1) == 2 * t * power_of_two(c)) by (nonlinear_arith)
                    requires
                        power_of_two(c) == 2 * power_of_two(c1),
                {}
                assert(2 * t * 2 <= 2 * t * power_of_two(c)) by (nonlinear_arith)
                    requires
                        power_of_two(c) == 2 * power_of_two(c1),
                        power_of_two(c1) >= 1,
                        t >= 1,
                {}
            }
        }
    }
}

/// How many of the words from `pos` up to `end` double a constant: those
/// that are neither possessives nor articles.
pub open spec fn doubling_words(toks: Seq<Token>, pos: nat, end: nat) -> nat
    decreases end - pos,
{
    if pos >= end {
        0
    } else if is_possessive(toks[pos as int].text@) || toks[pos as int].text@ == "a"@
        || toks[pos as int].text@ == "an"@ {
        doubling_words(toks, pos + 1, end)
    } else {
        1 + doubling_words(toks, pos + 1, end)
    }
}

proof fn lemma_zero_after_words(toks: Seq<Token>, pos: nat, z: nat, lex: Lexicon, t: int)
    requires
        pos <= z < toks.len(),
        t >= 1,
        forall|i: int|
            pos <= i < z ==> is_word(#[trigger] toks[i]) && !lex.is_noun(toks[i].text@)
                && !is_zero_word(toks[i].text@),
        is_word(toks[z as int]),
        is_zero_word(toks[z as int].text@),
        !lex.is_noun(toks[z as int].text@),
        t * power_of_two(doubling_words(toks, pos, z)) <= isize::MAX,
    ensures
        constant_scan(toks, pos, lex, t) == Ok::<(int, nat), CompileError>((0, (z - pos + 1) as nat)),
    decreases z - pos,
{
    if pos == z {
        lemma_zero_word_is_no_other(toks[z as int].text@);
    } else {
        let w = toks[pos as int].text@;
        assert(is_word(toks[pos as int]));
        if is_possessive(w) || w == "a"@ || w == "an"@ {
            lemma_zero_after_words(toks, pos + 1, z, lex, t);
        } else {
            let k = doubling_words(toks, pos + 1, z);
            let pk = power_of_two(k);
            assert(pk >= 1) by {
                lemma_power_of_two_positive(k);
            }
            assert(t * power_of_two(k + 1) == (2 * t) * pk) by (nonlinear_arith)
                requires
                    power_of_two(k + 1) == 2 * pk,
            {}
            assert(t * 2 <= (2 * t) * pk) by (nonlinear_arith)
                requires
                    t >= 1,
                    pk >= 1,
            {}
            lemma_zero_after_words(toks, pos + 1, z, lex, 2 * t);
        }
    }
}

proof fn lemma_zero_word_is_no_other(w: Seq<char>)
    requires
        is_zero_word(w),
    ensures
        !is_possessive(w),
        w != "a"@,
        w != "an"@,
{
    reveal_strlit("zero");
    reveal_strlit("nothing");
    reveal_strlit("thine");
    reveal_strlit("thy");
    reveal_strlit("your");
    reveal_strlit("my");
    reveal_strlit("mine");
    reveal_strlit("his");
    reveal_strlit("her");
    reveal_strlit("a");
    reveal_strlit("an");
    assert("zero"@[0] != "thine"@[0] && "zero"@[0] != "thy"@[0] && "zero"@[0] != "your"@[0]);
    assert("zero"@[0] != "my"@[0] && "zero"@[0] != "mine"@[0] && "zero"@[0] != "his"@[0]);
    assert("zero"@[0] != "her"@[0] && "zero"@[0] != "a"@[0] && "zero"@[0] != "an"@[0]);
    assert("nothing"@.len() != "thine"@.len() && "nothing"@[0] != "thy"@[0]);
    assert("nothing"@[0] != "your"@[0] && "nothing"@[0] != "my"@[0] && "nothing"@[0] != "mine"@[0]);
    assert("nothing"@[0] != "his"@[0] && "nothing"@[0] != "her"@[0]);
    assert("nothing"@[0] != "a"@[0] && "nothing"@[0] != "an"@[0]);
}

proof fn lemma_power_of_two_positive(k: nat)
    ensures
        power_of_two(k) >= 1,
    decreases k,
{
    if k > 0 {
        lemma_power_of_two_positive((k - 1) as nat);
    }
}

/// "zero" and "nothing" make a constant nothing: a phrase of words that are
/// neither nouns nor zero words, ended by a zero word that is no noun, is
/// worth 0 and ends with that word, as long as its adjectives' doublings do
/// not overflow first.
pub proof fn law_zero_word_gives_nothing(toks: Seq<Token>, pos: nat, z: nat, lex: Lexicon)
    requires
        pos <= z < toks.len(),
        forall|i: int|
            pos <= i < z ==> is_word(#[trigger] toks[i]) && !lex.is_noun(toks[i].text@)
                && !is_zero_word(toks[i].text@),
        is_word(toks[z as int]),
        is_zero_word(toks[z as int].text@),
        !lex.is_noun(toks[z as int].text@),
        power_of_two(doubling_words(toks, pos, z)) <= isize::MAX,
    ensures
        constant_scan(toks, pos, lex, 1) == Ok::<(int, nat), CompileError>((0, (z - pos + 1) as nat)),
{
    lemma_zero_after_words(toks, pos, z, lex, 1);
}

/// The binary operations: "the" (no character's name), an operation of two
/// arguments, its connective word, an expression, "and" and another
/// expression make that operation applied to the two expressions, taking the
/// tokens of both and four more.
pub proof fn law_binary_operation(
    toks: Seq<Token>,
    pos: nat,
    lex: Lexicon,
    speaking: Seq<char>,
    other: Seq<char>,
    op: Operation,
    a: SpecExpr,
    c1: nat,
    b: SpecExpr,
    c2: nat,
)
    requires
        pos + 3 + c1 < toks.len(),
        is_word(toks[pos as int]),
        toks[pos as int].text@ == "the"@,
        !lex.is_character("the"@),
        operation_named(toks[pos + 1 as int].text@) == Some(op),
        is_binary(op),
        toks[pos + 2 as int].text@ == connective(op),
        eval_spec(toks, pos + 3, lex, speaking, other) == Ok::<(SpecExpr, nat), CompileError>((a, c1)),
        toks[pos + 3 + c1 as int].text@ == "and"@,
        eval_spec(toks, pos + 4 + c1, lex, speaking, other) == Ok::<(SpecExpr, nat), CompileError>(
            (b, c2),
        ),
    ensures
        eval_spec(toks, pos, lex, speaking, other) == Ok::<(SpecExpr, nat), CompileError>(
            (binary(op, a, b), c1 + c2 + 4),
        ),
{
    lemma_the_is_no_other_word();
}

/// The operations of one argument: "the" (no character's name), an
/// operation of one argument, "of" and an expression make that operation
/// applied to the expression, taking its tokens and three more.
pub proof fn law_unary_operation(
    toks: Seq<Token>,
    pos: nat,
    lex: Lexicon,
    speaking: Seq<char>,
    other: Seq<char>,
    op: Operation,
    a: SpecExpr,
    c: nat,
)
    requires
        pos + 2 < toks.len(),
        is_word(toks[pos as int]),
        toks[pos as int].text@ == "the"@,
        !lex.is_character("the"@),
        operation_named(toks[pos + 1 as int].text@) == Some(op),
        !is_binary(op),
        toks[pos + 2 as int].text@ == connective(op),
        eval_spec(toks, pos + 3, lex, speaking, other) == Ok::<(SpecExpr, nat), CompileError>((a, c)),
    ensures
        eval_spec(toks, pos, lex, speaking, other) == Ok::<(SpecExpr, nat), CompileError>(
            (unary(op, a), c + 3),
        ),
{
    lemma_the_is_no_other_word();
}

proof fn lemma_the_is_no_other_word()
    ensures
        "the"@ != "a"@,
        "the"@ != "twice"@,
        !is_second_person_reflexive("the"@),
        !is_first_person_reflexive("the"@),
{
    reveal_strlit("the");
    reveal_strlit("a");
    reveal_strlit("twice");
    reveal_strlit("thyself");
    reveal_strlit("yourself");
    reveal_strlit("you");
    reveal_strlit("thou");
    reveal_strlit("me");
    reveal_strlit("myself");
    reveal_strlit("I");
    assert("the"@[0] != "a"@[0]);
    assert("the"@.len() != "twice"@.len());
    assert("the"@.len() != "thyself"@.len());
    assert("the"@.len() != "yourself"@.len());
    assert("the"@[0] != "you"@[0]);
    assert("the"@.len() != "thou"@.len());
    assert("the"@.len() != "me"@.len());
    assert("the"@.len() != "myself"@.len());
    assert("the"@.len() != "I"@.len());
}

/// Scenes are numbered as a play numbers them: the first is the first of its
/// act, and each next one is either the next in the same act or the first
/// of a later act.
pub open spec fn scenes_numbered(scenes: Seq<SpecScene>) -> bool {
    &&& scenes.len() > 0 ==> scenes[0].number == 1
    &&& forall|i: int|
        0 <= i < scenes.len() - 1 ==> {
            ||| scenes[i + 1].act == #[trigger] scenes[i].act && scenes[i + 1].number
                == scenes[i].number + 1
            ||| scenes[i + 1].act > scenes[i].act && scenes[i + 1].number == 1
        }
}

/// How the scenes so far stand with the current act and scene numbers.
pub open spec fn numbering_holds(st: SpecState) -> bool {
    &&& scenes_numbered(st.scenes)
    &&& st.scenes.len() == 0 ==> st.scene_num == 0
    &&& st.scenes.len() > 0 ==> {
        let last = st.scenes.last();
        &&& last.act <= st.act_num
        &&& last.act == st.act_num ==> last.number == st.scene_num
        &&& last.act < st.act_num ==> st.scene_num == 0
    }
}

proof fn lemma_with_statement_numbering(st: SpecState, s: SpecStatement)
    requires
        numbering_holds(st),
        st.scenes.len() > 0,
    ensures
        numbering_holds(with_statement(st, s)),
{
    let s2 = with_statement(st, s);
    assert forall|i: int| 0 <= i < s2.scenes.len() implies #[trigger] s2.scenes[i].act
        == st.scenes[i].act && s2.scenes[i].number == st.scenes[i].number by {}
}

proof fn lemma_add_statement_numbering(st: SpecState, s: SpecStatement)
    requires
        numbering_holds(st),
    ensures
        add_statement(st, s) matches Ok(s2) ==> numbering_holds(s2),
{
    if st.scenes.len() > 0 {
        lemma_with_statement_numbering(st, s);
    }
}

proof fn lemma_line_numbering(
    toks: Seq<Token>,
    pos: nat,
    lex: Lexicon,
    titles: Option<Seq<SpecAct>>,
    first: Seq<char>,
    lower: Seq<char>,
    st: SpecState,
)
    requires
        numbering_holds(st),
    ensures
        line_step(toks, pos, lex, titles, first, lower, st) matches Ok((s2, _)) ==> numbering_holds(s2),
{
    let rel: StepRelation = |s: SpecState, p: nat, s2: SpecState, p2: nat|
        numbering_holds(s) ==> numbering_holds(s2);
    assert forall|s: SpecState, p: nat| step_keeps(#[trigger] act_step(toks, p, s), s, p, rel) by {
        if numbering_holds(s) {
            lemma_act_numbering(toks, p, s);
        }
    }
    assert forall|s: SpecState, p: nat| step_keeps(#[trigger] scene_step(toks, p, s), s, p, rel) by {
        if numbering_holds(s) {
            lemma_scene_numbering(toks, p, s);
        }
    }
    assert forall|s: SpecState, p: nat|
        step_keeps(#[trigger] speaker_step(toks, p, first, s), s, p, rel) by {
        if numbering_holds(s) {
            lemma_speaker_numbering(toks, p, first, s);
        }
    }
    assert forall|s: SpecState, p: nat|
        step_keeps(#[trigger] assign_step(toks, p, lex, s), s, p, rel) by {
        if numbering_holds(s) {
            lemma_assign_numbering(toks, p, lex, s);
        }
    }
    assert forall|s: SpecState, p: nat| step_keeps(#[trigger] io_step(toks, p, first, s), s, p, rel) by {
        if numbering_holds(s) {
            lemma_io_numbering(toks, p, first, s);
        }
    }
    assert forall|s: SpecState, p: nat|
        step_keeps(#[trigger] condition_step(toks, p, s), s, p, rel) by {
        if numbering_holds(s) {
            lemma_condition_numbering(toks, p, s);
        }
    }
    assert forall|s: SpecState, p: nat|
        step_keeps(#[trigger] compare_step(toks, p, lex, s), s, p, rel) by {
        if numbering_holds(s) {
            lemma_compare_numbering(toks, p, lex, s);
        }
    }
    assert forall|s: SpecState, p: nat|
        step_keeps(#[trigger] jump_step(toks, p, titles, s), s, p, rel) by {
        if numbering_holds(s) {
            lemma_jump_numbering(toks, p, titles, s);
        }
    }
    assert forall|s: SpecState, p: nat|
        step_keeps(#[trigger] stack_step(toks, p, lex, first, s), s, p, rel) by {
        if numbering_holds(s) {
            lemma_stack_numbering(toks, p, lex, first, s);
        }
    }
    lemma_line_keeps(toks, pos, lex, titles, first, lower, st, rel);
}

proof fn lemma_act_numbering(toks: Seq<Token>, pos: nat, st: SpecState)
    requires
        numbering_holds(st),
    ensures
        act_step(toks, pos, st) matches Ok((s2, _)) ==> numbering_holds(s2),
{
    reveal(act_step);
}

proof fn lemma_scene_numbering(toks: Seq<Token>, pos: nat, st: SpecState)
    requires
        numbering_holds(st),
    ensures
        scene_step(toks, pos, st) matches Ok((s2, _)) ==> numbering_holds(s2),
{
    reveal(scene_step);
    if let Ok((s2, _)) = scene_step(toks, pos, st) {
        let n = st.scenes.len();
        assert(s2.scenes.len() == n + 1);
        assert forall|i: int| 0 <= i < s2.scenes.len() - 1 implies {
            ||| s2.scenes[i + 1].act == #[trigger] s2.scenes[i].act && s2.scenes[i + 1].number
                == s2.scenes[i].number + 1
            ||| s2.scenes[i + 1].act > s2.scenes[i].act && s2.scenes[i + 1].number == 1
        } by {
            if i < n - 1 {
                assert(s2.scenes[i] == st.scenes[i]);
                assert(s2.scenes[i + 1] == st.scenes[i + 1]);
            }
        }
    }
}

proof fn lemma_speaker_numbering(toks: Seq<Token>, pos: nat, first: Seq<char>, st: SpecState)
    requires
        numbering_holds(st),
    ensures
        speaker_step(toks, pos, first, st) matches Ok((s2, _)) ==> numbering_holds(s2),
{
    reveal(speaker_step);
}

proof fn lemma_assign_numbering(toks: Seq<Token>, pos: nat, lex: Lexicon, st: SpecState)
    requires
        numbering_holds(st),
    ensures
        assign_step(toks, pos, lex, st) matches Ok((s2, _)) ==> numbering_holds(s2),
{
    reveal(assign_step);
    if let Ok(p3) = assignment_value_at(toks, pos) {
        if let Ok(other) = crate::state::spoken_to(st) {
            if let Ok((e, c)) = crate::expression::eval_spec(toks, p3, lex, st.current, other) {
                lemma_add_statement_numbering(st, SpecStatement::Assign { target: other, value: e });
            }
        }
    }
}

proof fn lemma_io_numbering(toks: Seq<Token>, pos: nat, first: Seq<char>, st: SpecState)
    requires
        numbering_holds(st),
    ensures
        io_step(toks, pos, first, st) matches Ok((s2, _)) ==> numbering_holds(s2),
{
    reveal(io_step);
    if st.scenes.len() > 0 {
        assert forall|s: SpecStatement| true implies numbering_holds(with_statement(st, s)) by {
            lemma_with_statement_numbering(st, s);
        }
    }
}

proof fn lemma_condition_numbering(toks: Seq<Token>, pos: nat, st: SpecState)
    requires
        numbering_holds(st),
    ensures
        condition_step(toks, pos, st) matches Ok((s2, _)) ==> numbering_holds(s2),
{
    reveal(condition_step);
    if st.scenes.len() > 0 {
        assert forall|s: SpecStatement| true implies numbering_holds(with_statement(st, s)) by {
            lemma_with_statement_numbering(st, s);
        }
    }
}

proof fn lemma_compare_numbering(toks: Seq<Token>, pos: nat, lex: Lexicon, st: SpecState)
    requires
        numbering_holds(st),
    ensures
        compare_step(toks, pos, lex, st) matches Ok((s2, _)) ==> numbering_holds(s2),
{
    reveal(compare_step);
    if st.scenes.len() > 0 {
        assert forall|s: SpecStatement| true implies numbering_holds(with_statement(st, s)) by {
            lemma_with_statement_numbering(st, s);
        }
    }
}

proof fn lemma_jump_numbering(toks: Seq<Token>, pos: nat, titles: Option<Seq<SpecAct>>, st: SpecState)
    requires
        numbering_holds(st),
    ensures
        jump_step(toks, pos, titles, st) matches Ok((s2, _)) ==> numbering_holds(s2),
{
    reveal(jump_step);
    if st.scenes.len() > 0 {
        assert forall|s: SpecStatement| true implies numbering_holds(with_statement(st, s)) by {
            lemma_with_statement_numbering(st, s);
        }
    }
}

proof fn lemma_stack_numbering(toks: Seq<Token>, pos: nat, lex: Lexicon, first: Seq<char>, st: SpecState)
    requires
        numbering_holds(st),
    ensures
        stack_step(toks, pos, lex, first, st) matches Ok((s2, _)) ==> numbering_holds(s2),
{
    reveal(stack_step);
    if st.scenes.len() > 0 {
        assert forall|s: SpecStatement| true implies numbering_holds(with_statement(st, s)) by {
            lemma_with_statement_numbering(st, s);
        }
    }
}

proof fn lemma_direction_numbering(
    d: crate::token::Delimiter,
    inner: Seq<Token>,
    lex: Lexicon,
    st: SpecState,
)
    requires
        numbering_holds(st),
    ensures
        direction_step(d, inner, lex, st) matches Ok(s2) ==> numbering_holds(s2),
{
}

proof fn lemma_play_numbering(
    toks: Seq<Token>,
    pos: nat,
    lex: Lexicon,
    titles: Option<Seq<SpecAct>>,
    st: SpecState,
)
    requires
        numbering_holds(st),
    ensures
        play_from(toks, pos, lex, titles, st) matches Ok(s2) ==> numbering_holds(s2),
    decreases remaining(toks.len(), pos),
{
    if pos < toks.len() {
        match toks[pos as int].kind {
            TokenKind::Ident => {
                lemma_line_advances(toks, pos + 1, lex, titles, toks[pos as int].text@, toks[pos as int].lower@, st);
                lemma_line_numbering(toks, pos + 1, lex, titles, toks[pos as int].text@, toks[pos as int].lower@, st);
                if let Ok((s2, p)) = line_step(toks, pos + 1, lex, titles, toks[pos as int].text@, toks[pos as int].lower@, st) {
                    lemma_play_numbering(toks, p, lex, titles, s2);
                }
            },
            TokenKind::Group(d, inner) => {
                lemma_direction_numbering(d, inner@, lex, st);
                if let Ok(s2) = direction_step(d, inner@, lex, st) {
                    lemma_play_numbering(toks, pos + 1, lex, titles, s2);
                }
            },
            _ => {
                lemma_play_numbering(toks, pos + 1, lex, titles, st);
            },
        }
    }
}

/// Numbered scenes have distinct names: no two share both act and number.
pub proof fn lemma_numbered_scenes_distinct(scenes: Seq<SpecScene>, i: int, j: int)
    requires
        scenes_numbered(scenes),
        0 <= i < j < scenes.len(),
    ensures
        scenes[i].act < scenes[j].act || (scenes[i].act == scenes[j].act && scenes[i].number
            < scenes[j].number),
    decreases j - i,
{
    assert(scenes[i + 1].act == scenes[i].act || scenes[i + 1].act > scenes[i].act);
    if j > i + 1 {
        lemma_numbered_scenes_distinct(scenes, i + 1, j);
    }
}

/// No two scenes share both act and number.
pub open spec fn scene_names_distinct(scenes: Seq<SpecScene>) -> bool {
    forall|i: int, j: int|
        0 <= i < j < scenes.len() ==> #[trigger] scenes[i].act != #[trigger] scenes[j].act
            || scenes[i].number != scenes[j].number
}

proof fn lemma_numbered_distinct(scenes: Seq<SpecScene>)
    requires
        scenes_numbered(scenes),
    ensures
        scene_names_distinct(scenes),
{
    assert forall|i: int, j: int| 0 <= i < j < scenes.len() implies #[trigger] scenes[i].act
        != #[trigger] scenes[j].act || scenes[i].number != scenes[j].number by {
        lemma_numbered_scenes_distinct(scenes, i, j);
    }
}

/// In a compiled play the scenes are numbered as the play numbers them: the
/// first scene is scene 1 of its act, each next scene is the next one of the
/// same act or scene 1 of a later act, and so no two scenes share a name.
pub proof fn law_scenes_are_numbered(toks: Seq<Token>, lex: Lexicon)
    ensures
        compile_spec(toks, lex) matches Ok(prog) ==> scenes_numbered(prog.scenes)
            && scene_names_distinct(prog.scenes),
{
    match crate::play::cast_from(toks, 0, Seq::empty()) {
        Err(_) => {},
        Ok((names, p)) => {
            assert(numbering_holds(initial_state()));
            if let Ok(acts) = play_titles(toks, p, lex) {
                lemma_play_numbering(toks, p, lex, Some(acts), initial_state());
                if let Ok(st) = play_from(toks, p, lex, Some(acts), initial_state()) {
                    lemma_numbered_distinct(st.scenes);
                }
            }
        },
    }
}

proof fn lemma_enter_keeps_distinct(stage: Seq<Seq<char>>, n: Seq<char>)
    requires
        stage.no_duplicates(),
    ensures
        stage_enter(stage, n).no_duplicates(),
{
}

proof fn lemma_leave_keeps_distinct(stage: Seq<Seq<char>>, n: Seq<char>)
    requires
        stage.no_duplicates(),
    ensures
        stage_leave(stage, n).no_duplicates(),
{
    lemma_filter_keeps_distinct(stage, crate::state::other_than(n));
}

proof fn lemma_walk_keeps_distinct(
    inner: Seq<Token>,
    i: nat,
    lex: Lexicon,
    kind: Seq<char>,
    stage: Seq<Seq<char>>,
    name: Seq<char>,
)
    requires
        stage.no_duplicates(),
    ensures
        cast_walk(inner, i, lex, kind, stage, name) matches Ok((s2, _)) ==> s2.no_duplicates(),
    decreases inner.len() - i,
{
    if i < inner.len() {
        if is_word(inner[i as int]) && lex.is_character(inner[i as int].text@) {
            lemma_walk_keeps_distinct(inner, i + 1, lex, kind, stage, name + inner[i as int].text@);
        } else if kind == "Enter"@ {
            lemma_enter_keeps_distinct(stage, name);
            lemma_walk_keeps_distinct(inner, i + 1, lex, kind, stage_enter(stage, name), Seq::empty());
        } else if kind == "Exeunt"@ {
            lemma_leave_keeps_distinct(stage, name);
            lemma_walk_keeps_distinct(inner, i + 1, lex, kind, stage_leave(stage, name), Seq::empty());
        }
    }
}

/// The names a stage direction names, read from the `i`-th token inside the
/// brackets, `name` having been read of the current name: the words that
/// are characters' names are joined into a name, and every other token ends
/// the name (as the end does).
pub open spec fn names_named(inner: Seq<Token>, i: nat, lex: Lexicon, name: Seq<char>) -> Seq<Seq<char>>
    decreases inner.len() - i,
{
    if i >= inner.len() {
        seq![name]
    } else if is_word(inner[i as int]) && lex.is_character(inner[i as int].text@) {
        names_named(inner, i + 1, lex, name + inner[i as int].text@)
    } else {
        seq![name] + names_named(inner, i + 1, lex, Seq::empty())
    }
}

proof fn lemma_enter_set(stage: Seq<Seq<char>>, n: Seq<char>)
    ensures
        stage_enter(stage, n).to_set() == stage.to_set().insert(n),
{
    if !stage.contains(n) {
        assert forall|x: Seq<char>| stage.push(n).contains(x) <==> stage.contains(x) || x == n by {
            if stage.push(n).contains(x) {
                let j = choose|j: int| 0 <= j < stage.push(n).len() && stage.push(n)[j] == x;
                if j < stage.len() {
                    assert(stage[j] == x);
                }
            }
            if stage.contains(x) {
                let j = choose|j: int| 0 <= j < stage.len() && stage[j] == x;
                assert(stage.push(n)[j] == x);
            }
            if x == n {
                assert(stage.push(n)[stage.len() as int] == n);
            }
        }
    }
    assert(stage_enter(stage, n).to_set() =~= stage.to_set().insert(n));
}

proof fn lemma_leave_set(stage: Seq<Seq<char>>, n: Seq<char>)
    ensures
        stage_leave(stage, n).to_set() == stage.to_set().remove(n),
{
    let pred = crate::state::other_than(n);
    assert forall|x: Seq<char>| stage.filter(pred).contains(x) <==> stage.contains(x) && x != n by {
        if stage.filter(pred).contains(x) {
            stage.lemma_filter_contains_rev(pred, x);
        }
        if stage.contains(x) && x != n {
            let j = choose|j: int| 0 <= j < stage.len() && stage[j] == x;
            stage.lemma_filter_contains(pred, j);
        }
    }
    assert(stage_leave(stage, n).to_set() =~= stage.to_set().remove(n));
}

proof fn lemma_cons_set(a: Seq<char>, r: Seq<Seq<char>>)
    ensures
        (seq![a] + r).to_set() == r.to_set().insert(a),
{
    let s = seq![a] + r;
    assert forall|x: Seq<char>| s.contains(x) <==> r.contains(x) || x == a by {
        if s.contains(x) {
            let j = choose|j: int| 0 <= j < s.len() && s[j] == x;
            if j > 0 {
                assert(r[j - 1] == x);
            }
        }
        if r.contains(x) {
            let j = choose|j: int| 0 <= j < r.len() && r[j] == x;
            assert(s[j + 1] == x);
        }
        if x == a {
            assert(s[0] == a);
        }
    }
    assert(s.to_set() =~= r.to_set().insert(a));
}

proof fn lemma_walk_sets(
    inner: Seq<Token>,
    i: nat,
    lex: Lexicon,
    kind: Seq<char>,
    stage: Seq<Seq<char>>,
    name: Seq<char>,
)
    ensures
        cast_walk(inner, i, lex, kind, stage, name) matches Ok((s2, n2)) ==> {
            let named = names_named(inner, i, lex, name);
            &&& kind == "Enter"@ ==> stage_enter(s2, n2).to_set() == stage.to_set()
                + named.to_set()
            &&& kind != "Enter"@ ==> stage_leave(s2, n2).to_set() == stage.to_set()
                - named.to_set()
            &&& kind != "Enter"@ && kind != "Exeunt"@ ==> named.len() == 1
        },
    decreases inner.len() - i,
{
    if i >= inner.len() {
        lemma_enter_set(stage, name);
        lemma_leave_set(stage, name);
        lemma_cons_set(name, Seq::empty());
        assert(seq![name] + Seq::<Seq<char>>::empty() =~= seq![name]);
        assert(stage.to_set().insert(name) =~= stage.to_set() + Seq::<Seq<char>>::empty().to_set().insert(name));
        assert(stage.to_set().remove(name) =~= stage.to_set() - Seq::<Seq<char>>::empty().to_set().insert(name));
    } else if is_word(inner[i as int]) && lex.is_character(inner[i as int].text@) {
        lemma_walk_sets(inner, i + 1, lex, kind, stage, name + inner[i as int].text@);
    } else if kind == "Enter"@ {
        let rest = names_named(inner, i + 1, lex, Seq::empty());
        lemma_walk_sets(inner, i + 1, lex, kind, stage_enter(stage, name), Seq::empty());
        lemma_enter_set(stage, name);
        lemma_cons_set(name, rest);
        assert(stage.to_set().insert(name) + rest.to_set() =~= stage.to_set() + rest.to_set().insert(
            name,
        ));
    } else if kind == "Exeunt"@ {
        let rest = names_named(inner, i + 1, lex, Seq::empty());
        lemma_walk_sets(inner, i + 1, lex, kind, stage_leave(stage, name), Seq::empty());
        lemma_leave_set(stage, name);
        lemma_cons_set(name, rest);
        assert(stage.to_set().remove(name) - rest.to_set() =~= stage.to_set() - rest.to_set().insert(
            name,
        ));
    }
}

/// What a stage direction does to the stage, taken as a set: "Enter" adds
/// every name it names, "Exit" names one character and takes it off,
/// "Exeunt" takes off every name it names, or everybody when it names
/// nobody; any other direction leaves the stage as it is. Nothing else of
/// the state changes.
pub proof fn law_direction_sets_the_stage(
    d: crate::token::Delimiter,
    inner: Seq<Token>,
    lex: Lexicon,
    st: SpecState,
)
    ensures
        direction_step(d, inner, lex, st) matches Ok(s2) ==> {
            let kind = inner[0].text@;
            let named = names_named(inner, 1, lex, Seq::empty());
            &&& (SpecState { stage: st.stage, ..s2 }) == st
            &&& kind == "Enter"@ ==> inner.len() > 1 && s2.stage.to_set() == st.stage.to_set()
                + named.to_set()
            &&& kind == "Exit"@ ==> inner.len() > 1 && named.len() == 1 && s2.stage.to_set()
                == st.stage.to_set().remove(named[0])
            &&& kind == "Exeunt"@ && inner.len() > 1 ==> s2.stage.to_set() == st.stage.to_set()
                - named.to_set()
            &&& kind == "Exeunt"@ && inner.len() == 1 ==> s2.stage.len() == 0
            &&& kind != "Enter"@ && kind != "Exit"@ && kind != "Exeunt"@ ==> s2 == st
        },
{
    assert("Exit"@ != "Exeunt"@ && "Exit"@ != "Enter"@ && "Enter"@ != "Exeunt"@) by {
        reveal_strlit("Exit");
        reveal_strlit("Exeunt");
        reveal_strlit("Enter");
        assert("Exit"@.len() != "Exeunt"@.len());
        assert("Exit"@[1] != "Enter"@[1]);
        assert("Enter"@.len() != "Exeunt"@.len());
    }
    if d is Bracket && inner.len() > 1 {
        let kind = inner[0].text@;
        lemma_walk_sets(inner, 1, lex, kind, st.stage, Seq::empty());
        let named = names_named(inner, 1, lex, Seq::empty());
        if kind == "Exit"@ && named.len() == 1 {
            assert(named.to_set() =~= Set::empty().insert(named[0]));
            assert(st.stage.to_set() - named.to_set() =~= st.stage.to_set().remove(named[0]));
        }
    }
}

/// A stage direction keeps the stage a set: nobody stands on it twice.
pub proof fn law_direction_keeps_stage_a_set(
    d: crate::token::Delimiter,
    inner: Seq<Token>,
    lex: Lexicon,
    st: SpecState,
)
    requires
        st.stage.no_duplicates(),
    ensures
        direction_step(d, inner, lex, st) matches Ok(s2) ==> s2.stage.no_duplicates(),
{
    if d is Bracket && inner.len() > 1 {
        let kind = inner[0].text@;
        lemma_walk_keeps_distinct(inner, 1, lex, kind, st.stage, Seq::empty());
        if let Ok((stage, name)) = cast_walk(inner, 1, lex, kind, st.stage, Seq::empty()) {
            lemma_enter_keeps_distinct(stage, name);
            lemma_leave_keeps_distinct(stage, name);
        }
    }
}

/// A line of a scene leaves the stage as it is: only stage directions bring
/// characters on or take them off.
pub proof fn law_line_keeps_stage(
    toks: Seq<Token>,
    pos: nat,
    lex: Lexicon,
    titles: Option<Seq<SpecAct>>,
    first: Seq<char>,
    lower: Seq<char>,
    st: SpecState,
)
    ensures
        line_step(toks, pos, lex, titles, first, lower, st) matches Ok((s2, _)) ==> s2.stage == st.stage,
{
    let rel: StepRelation = |s: SpecState, p: nat, s2: SpecState, p2: nat| s2.stage == s.stage;
    assert forall|s: SpecState, p: nat| step_keeps(#[trigger] act_step(toks, p, s), s, p, rel) by {
        reveal(act_step);
    }
    assert forall|s: SpecState, p: nat| step_keeps(#[trigger] scene_step(toks, p, s), s, p, rel) by {
        reveal(scene_step);
    }
    assert forall|s: SpecState, p: nat|
        step_keeps(#[trigger] speaker_step(toks, p, first, s), s, p, rel) by {
        reveal(speaker_step);
    }
    assert forall|s: SpecState, p: nat|
        step_keeps(#[trigger] assign_step(toks, p, lex, s), s, p, rel) by {
        reveal(assign_step);
    }
    assert forall|s: SpecState, p: nat| step_keeps(#[trigger] io_step(toks, p, first, s), s, p, rel) by {
        reveal(io_step);
    }
    assert forall|s: SpecState, p: nat|
        step_keeps(#[trigger] condition_step(toks, p, s), s, p, rel) by {
        reveal(condition_step);
    }
    assert forall|s: SpecState, p: nat|
        step_keeps(#[trigger] compare_step(toks, p, lex, s), s, p, rel) by {
        reveal(compare_step);
    }
    assert forall|s: SpecState, p: nat|
        step_keeps(#[trigger] jump_step(toks, p, titles, s), s, p, rel) by {
        reveal(jump_step);
    }
    assert forall|s: SpecState, p: nat|
        step_keeps(#[trigger] stack_step(toks, p, lex, first, s), s, p, rel) by {
        reveal(stack_step);
    }
    lemma_line_keeps(toks, pos, lex, titles, first, lower, st, rel);
}

/// Reading the acts of a play keeps the stage a set: in every state the
/// compiler reaches from a stage without repetitions, nobody stands on the
/// stage twice.
pub proof fn law_stage_stays_a_set(
    toks: Seq<Token>,
    pos: nat,
    lex: Lexicon,
    titles: Option<Seq<SpecAct>>,
    st: SpecState,
)
    requires
        st.stage.no_duplicates(),
    ensures
        play_from(toks, pos, lex, titles, st) matches Ok(s2) ==> s2.stage.no_duplicates(),
    decreases remaining(toks.len(), pos),
{
    if pos < toks.len() {
        match toks[pos as int].kind {
            TokenKind::Ident => {
                lemma_line_advances(toks, pos + 1, lex, titles, toks[pos as int].text@, toks[pos as int].lower@, st);
                law_line_keeps_stage(toks, pos + 1, lex, titles, toks[pos as int].text@, toks[pos as int].lower@, st);
                if let Ok((s2, p)) = line_step(toks, pos + 1, lex, titles, toks[pos as int].text@, toks[pos as int].lower@, st) {
                    law_stage_stays_a_set(toks, p, lex, titles, s2);
                }
            },
            TokenKind::Group(d, inner) => {
                law_direction_keeps_stage_a_set(d, inner@, lex, st);
                if let Ok(s2) = direction_step(d, inner@, lex, st) {
                    law_stage_stays_a_set(toks, pos + 1, lex, titles, s2);
                }
            },
            _ => {
                law_stage_stays_a_set(toks, pos + 1, lex, titles, st);
            },
        }
    }
}

proof fn lemma_outline_numbering(toks: Seq<Token>, pos: nat, st: SpecState)
    requires
        numbering_holds(st),
    ensures
        outline_from(toks, pos, st) matches Ok(s2) ==> numbering_holds(s2),
    decreases remaining(toks.len(), pos),
{
    if pos < toks.len() {
        match toks[pos as int].kind {
            TokenKind::Ident => {
                let first = toks[pos as int].lower@;
                crate::statement::lemma_act_advances(toks, pos + 1, st);
                lemma_act_numbering(toks, pos + 1, st);
                if let Ok((s1, p1)) = step_if(first == "act"@, act_step(toks, pos + 1, st), st, pos + 1) {
                    crate::statement::lemma_scene_advances(toks, p1, s1);
                    lemma_scene_numbering(toks, p1, s1);
                }
                if let Ok((s2, p)) = heading_step(toks, pos + 1, first, st) {
                    lemma_outline_numbering(toks, p, s2);
                }
            },
            TokenKind::Group(d, inner) => {
                lemma_outline_numbering(toks, pos + 1, st);
            },
            _ => {
                lemma_outline_numbering(toks, pos + 1, st);
            },
        }
    }
}

/// In the outline of a play the scenes are numbered as in the play itself
/// (see `law_scenes_are_numbered`), and no two share a name.
pub proof fn law_outline_scenes_are_numbered(toks: Seq<Token>)
    ensures
        outline_spec(toks) matches Ok(prog) ==> scenes_numbered(prog.scenes)
            && scene_names_distinct(prog.scenes),
{
    match crate::play::cast_from(toks, 0, Seq::empty()) {
        Err(_) => {},
        Ok((names, p)) => {
            assert(numbering_holds(initial_state()));
            lemma_outline_numbering(toks, p, initial_state());
            match outline_from(toks, p, initial_state()) {
                Err(_) => {},
                Ok(st) => {
                    lemma_numbered_distinct(st.scenes);
                },
            }
        },
    }
}

/// The character spoken to is the other one on stage: with nobody on the
/// stage twice, a line is addressed to `o` exactly when `o` is on stage, is
/// not the one speaking, and is the only such character.
pub proof fn law_spoken_to_is_the_other_on_stage(st: SpecState, o: Seq<char>)
    requires
        st.stage.no_duplicates(),
    ensures
        spoken_to(st) == Ok::<Seq<char>, CompileError>(o) <==> (st.stage.contains(o) && o
            != st.current && forall|x: Seq<char>| #[trigger]
            st.stage.contains(x) && x != st.current ==> x == o),
{
    let pred = |n: Seq<char>| n != st.current;
    let f = st.stage.filter(pred);
    assert(f == others_on_stage(st));
    lemma_filter_keeps_distinct(st.stage, pred);
    if spoken_to(st) == Ok::<Seq<char>, CompileError>(o) {
        assert(f.len() == 1 && f[0] == o);
        assert(f.contains(o));
        st.stage.lemma_filter_contains_rev(pred, o);
        assert forall|x: Seq<char>| #[trigger] st.stage.contains(x) && x != st.current implies x
            == o by {
            let j = choose|j: int| 0 <= j < st.stage.len() && st.stage[j] == x;
            st.stage.lemma_filter_contains(pred, j);
            let k = choose|k: int| 0 <= k < f.len() && f[k] == x;
        }
    }
    if st.stage.contains(o) && o != st.current && forall|x: Seq<char>| #[trigger]
        st.stage.contains(x) && x != st.current ==> x == o {
        let j = choose|j: int| 0 <= j < st.stage.len() && st.stage[j] == o;
        st.stage.lemma_filter_contains(pred, j);
        assert(f.contains(o));
        assert forall|k: int| 0 <= k < f.len() implies f[k] == o by {
            assert(f.contains(f[k]));
            st.stage.lemma_filter_contains_rev(pred, f[k]);
            st.stage.lemma_filter_pred(pred, k);
        }
        if f.len() > 1 {
            assert(f[0] == o && f[1] == o);
        }
        assert(f.len() == 1);
    }
}

/// A scene without its statements: its act and number only.
pub open spec fn bare_scene(sc: SpecScene) -> SpecScene {
    SpecScene { act: sc.act, number: sc.number, body: Seq::empty() }
}

/// A state with the statements of its scenes left out: what the reading of
/// a play knows besides the statements compiled.
pub open spec fn without_bodies(st: SpecState) -> SpecState {
    SpecState { scenes: st.scenes.map_values(|sc: SpecScene| bare_scene(sc)), ..st }
}

/// Whether two steps, where both succeeded, reached the same position and
/// states alike but for their statements.
pub open spec fn steps_correspond(
    r1: Result<(SpecState, nat), CompileError>,
    r2: Result<(SpecState, nat), CompileError>,
) -> bool {
    match (r1, r2) {
        (Ok((s1, p1)), Ok((s2, p2))) => p1 == p2 && without_bodies(s1) == without_bodies(s2),
        _ => true,
    }
}

proof fn lemma_with_statement_bare(st: SpecState, s: SpecStatement)
    requires
        st.scenes.len() > 0,
    ensures
        without_bodies(with_statement(st, s)) == without_bodies(st),
{
    let s2 = with_statement(st, s);
    assert(s2.scenes.map_values(|sc: SpecScene| bare_scene(sc)) =~= st.scenes.map_values(
        |sc: SpecScene| bare_scene(sc),
    ));
}

proof fn lemma_bare_push(scenes: Seq<SpecScene>, sc: SpecScene)
    ensures
        scenes.push(sc).map_values(|x: SpecScene| bare_scene(x)) == scenes.map_values(
            |x: SpecScene| bare_scene(x),
        ).push(bare_scene(sc)),
{
    assert(scenes.push(sc).map_values(|x: SpecScene| bare_scene(x)) =~= scenes.map_values(
        |x: SpecScene| bare_scene(x),
    ).push(bare_scene(sc)));
}

/// The steps of a line, taken in states alike but for their statements,
/// correspond, however jumps by title are looked up.
proof fn lemma_handlers_correspond(
    toks: Seq<Token>,
    p: nat,
    lex: Lexicon,
    t1: Option<Seq<SpecAct>>,
    t2: Option<Seq<SpecAct>>,
    first: Seq<char>,
    a: SpecState,
    b: SpecState,
)
    requires
        without_bodies(a) == without_bodies(b),
    ensures
        steps_correspond(act_step(toks, p, a), act_step(toks, p, b)),
        steps_correspond(scene_step(toks, p, a), scene_step(toks, p, b)),
        steps_correspond(speaker_step(toks, p, first, a), speaker_step(toks, p, first, b)),
        steps_correspond(assign_step(toks, p, lex, a), assign_step(toks, p, lex, b)),
        steps_correspond(io_step(toks, p, first, a), io_step(toks, p, first, b)),
        steps_correspond(condition_step(toks, p, a), condition_step(toks, p, b)),
        steps_correspond(compare_step(toks, p, lex, a), compare_step(toks, p, lex, b)),
        steps_correspond(jump_step(toks, p, t1, a), jump_step(toks, p, t2, b)),
        steps_correspond(stack_step(toks, p, lex, first, a), stack_step(toks, p, lex, first, b)),
{
    assert(a.scenes.len() == b.scenes.len()) by {
        assert(without_bodies(a).scenes.len() == a.scenes.len());
        assert(without_bodies(b).scenes.len() == b.scenes.len());
    }
    assert(spoken_to(a) == spoken_to(b));
    assert forall|s1: SpecStatement, s2: SpecStatement| a.scenes.len() > 0 implies without_bodies(
        #[trigger] with_statement(a, s1),
    ) == without_bodies(#[trigger] with_statement(b, s2)) by {
        lemma_with_statement_bare(a, s1);
        lemma_with_statement_bare(b, s2);
    }
    reveal(act_step);
    reveal(scene_step);
    reveal(speaker_step);
    reveal(assign_step);
    reveal(io_step);
    reveal(condition_step);
    reveal(compare_step);
    reveal(jump_step);
    reveal(stack_step);
    let new_scene = SpecScene { act: a.act_num, number: a.scene_num + 1, body: Seq::empty() };
    lemma_bare_push(a.scenes, new_scene);
    lemma_bare_push(b.scenes, new_scene);
}

proof fn lemma_step_if_corresponds(
    cond: bool,
    r1: Result<(SpecState, nat), CompileError>,
    r2: Result<(SpecState, nat), CompileError>,
    a: SpecState,
    b: SpecState,
    p: nat,
)
    requires
        steps_correspond(r1, r2),
        without_bodies(a) == without_bodies(b),
    ensures
        steps_correspond(step_if(cond, r1, a, p), step_if(cond, r2, b, p)),
{
}

proof fn lemma_and_then_corresponds(
    r1: Result<(SpecState, nat), CompileError>,
    r2: Result<(SpecState, nat), CompileError>,
    k1: spec_fn(SpecState, nat) -> Result<(SpecState, nat), CompileError>,
    k2: spec_fn(SpecState, nat) -> Result<(SpecState, nat), CompileError>,
)
    requires
        steps_correspond(r1, r2),
        forall|s1: SpecState, s2: SpecState, p: nat|
            #![trigger k1(s1, p), k2(s2, p)]
            without_bodies(s1) == without_bodies(s2) ==> steps_correspond(k1(s1, p), k2(s2, p)),
    ensures
        steps_correspond(and_then(r1, k1), and_then(r2, k2)),
{
    if let (Ok((s1, p1)), Ok((s2, p2))) = (r1, r2) {
        assert(steps_correspond(k1(s1, p1), k2(s2, p1)));
    }
}

/// A line read in states alike but for their statements, with jumps by
/// title looked up among any titles or none, reaches, where both readings
/// succeed, the same position and states alike but for their statements.
proof fn lemma_line_corresponds(
    toks: Seq<Token>,
    pos: nat,
    lex: Lexicon,
    t1: Option<Seq<SpecAct>>,
    t2: Option<Seq<SpecAct>>,
    first: Seq<char>,
    lower: Seq<char>,
    a: SpecState,
    b: SpecState,
)
    requires
        without_bodies(a) == without_bodies(b),
    ensures
        steps_correspond(
            line_step(toks, pos, lex, t1, first, lower, a),
            line_step(toks, pos, lex, t2, first, lower, b),
        ),
{
    let k9 = |s: SpecState, p: nat| steps_from_9(toks, p, lex, first, s);
    let f8 = |s: SpecState, p: nat| steps_from_8(toks, p, lex, t1, first, lower, s);
    let g8 = |s: SpecState, p: nat| steps_from_8(toks, p, lex, t2, first, lower, s);
    let f7 = |s: SpecState, p: nat| steps_from_7(toks, p, lex, t1, first, lower, s);
    let g7 = |s: SpecState, p: nat| steps_from_7(toks, p, lex, t2, first, lower, s);
    let f6 = |s: SpecState, p: nat| steps_from_6(toks, p, lex, t1, first, lower, s);
    let g6 = |s: SpecState, p: nat| steps_from_6(toks, p, lex, t2, first, lower, s);
    let f5 = |s: SpecState, p: nat| steps_from_5(toks, p, lex, t1, first, lower, s);
    let g5 = |s: SpecState, p: nat| steps_from_5(toks, p, lex, t2, first, lower, s);
    let f4 = |s: SpecState, p: nat| steps_from_4(toks, p, lex, t1, first, lower, s);
    let g4 = |s: SpecState, p: nat| steps_from_4(toks, p, lex, t2, first, lower, s);
    let f3 = |s: SpecState, p: nat| steps_from_3(toks, p, lex, t1, first, lower, s);
    let g3 = |s: SpecState, p: nat| steps_from_3(toks, p, lex, t2, first, lower, s);
    let f2 = |s: SpecState, p: nat| steps_from_2(toks, p, lex, t1, first, lower, s);
    let g2 = |s: SpecState, p: nat| steps_from_2(toks, p, lex, t2, first, lower, s);
    assert forall|s1: SpecState, s2: SpecState, p: nat|
        #![trigger k9(s1, p), k9(s2, p)]
        without_bodies(s1) == without_bodies(s2) implies steps_correspond(k9(s1, p), k9(s2, p)) by {
        reveal(steps_from_9);
        lemma_handlers_correspond(toks, p, lex, t1, t2, first, s1, s2);
        lemma_step_if_corresponds(
            first == "Remember"@ || first == "Recall"@,
            stack_step(toks, p, lex, first, s1),
            stack_step(toks, p, lex, first, s2),
            s1,
            s2,
            p,
        );
    }
    assert forall|s1: SpecState, s2: SpecState, p: nat|
        #![trigger f8(s1, p), g8(s2, p)]
        without_bodies(s1) == without_bodies(s2) implies steps_correspond(f8(s1, p), g8(s2, p)) by {
        reveal(steps_from_8);
        lemma_handlers_correspond(toks, p, lex, t1, t2, first, s1, s2);
        let c = lower == "let"@ || lower == "we"@;
        let r1 = jump_step(toks, p, t1, s1);
        let r2 = jump_step(toks, p, t2, s2);
        lemma_step_if_corresponds(c, r1, r2, s1, s2, p);
        lemma_and_then_corresponds(step_if(c, r1, s1, p), step_if(c, r2, s2, p), k9, k9);
    }
    assert forall|s1: SpecState, s2: SpecState, p: nat|
        #![trigger f7(s1, p), g7(s2, p)]
        without_bodies(s1) == without_bodies(s2) implies steps_correspond(f7(s1, p), g7(s2, p)) by {
        reveal(steps_from_7);
        lemma_handlers_correspond(toks, p, lex, t1, t2, first, s1, s2);
        let c = is_be(lower);
        let r1 = compare_step(toks, p, lex, s1);
        let r2 = compare_step(toks, p, lex, s2);
        lemma_step_if_corresponds(c, r1, r2, s1, s2, p);
        lemma_and_then_corresponds(step_if(c, r1, s1, p), step_if(c, r2, s2, p), f8, g8);
    }
    assert forall|s1: SpecState, s2: SpecState, p: nat|
        #![trigger f6(s1, p), g6(s2, p)]
        without_bodies(s1) == without_bodies(s2) implies steps_correspond(f6(s1, p), g6(s2, p)) by {
        reveal(steps_from_6);
        lemma_handlers_correspond(toks, p, lex, t1, t2, first, s1, s2);
        let c = first == "If"@;
        let r1 = condition_step(toks, p, s1);
        let r2 = condition_step(toks, p, s2);
        lemma_step_if_corresponds(c, r1, r2, s1, s2, p);
        lemma_and_then_corresponds(step_if(c, r1, s1, p), step_if(c, r2, s2, p), f7, g7);
    }
    assert forall|s1: SpecState, s2: SpecState, p: nat|
        #![trigger f5(s1, p), g5(s2, p)]
        without_bodies(s1) == without_bodies(s2) implies steps_correspond(f5(s1, p), g5(s2, p)) by {
        reveal(steps_from_5);
        lemma_handlers_correspond(toks, p, lex, t1, t2, first, s1, s2);
        let c = first == "Open"@ || first == "Speak"@ || first == "Listen"@;
        let r1 = io_step(toks, p, first, s1);
        let r2 = io_step(toks, p, first, s2);
        lemma_step_if_corresponds(c, r1, r2, s1, s2, p);
        lemma_and_then_corresponds(step_if(c, r1, s1, p), step_if(c, r2, s2, p), f6, g6);
    }
    assert forall|s1: SpecState, s2: SpecState, p: nat|
        #![trigger f4(s1, p), g4(s2, p)]
        without_bodies(s1) == without_bodies(s2) implies steps_correspond(f4(s1, p), g4(s2, p)) by {
        reveal(steps_from_4);
        lemma_handlers_correspond(toks, p, lex, t1, t2, first, s1, s2);
        let c = is_second_person(lower);
        let r1 = assign_step(toks, p, lex, s1);
        let r2 = assign_step(toks, p, lex, s2);
        lemma_step_if_corresponds(c, r1, r2, s1, s2, p);
        lemma_and_then_corresponds(step_if(c, r1, s1, p), step_if(c, r2, s2, p), f5, g5);
    }
    assert forall|s1: SpecState, s2: SpecState, p: nat|
        #![trigger f3(s1, p), g3(s2, p)]
        without_bodies(s1) == without_bodies(s2) implies steps_correspond(f3(s1, p), g3(s2, p)) by {
        reveal(steps_from_3);
        lemma_handlers_correspond(toks, p, lex, t1, t2, first, s1, s2);
        let c = lex.is_character(first);
        let r1 = speaker_step(toks, p, first, s1);
        let r2 = speaker_step(toks, p, first, s2);
        lemma_step_if_corresponds(c, r1, r2, s1, s2, p);
        lemma_and_then_corresponds(step_if(c, r1, s1, p), step_if(c, r2, s2, p), f4, g4);
    }
    assert forall|s1: SpecState, s2: SpecState, p: nat|
        #![trigger f2(s1, p), g2(s2, p)]
        without_bodies(s1) == without_bodies(s2) implies steps_correspond(f2(s1, p), g2(s2, p)) by {
        reveal(steps_from_2);
        lemma_handlers_correspond(toks, p, lex, t1, t2, first, s1, s2);
        let c = first == "Scene"@;
        let r1 = scene_step(toks, p, s1);
        let r2 = scene_step(toks, p, s2);
        lemma_step_if_corresponds(c, r1, r2, s1, s2, p);
        lemma_and_then_corresponds(step_if(c, r1, s1, p), step_if(c, r2, s2, p), f3, g3);
    }
    reveal(line_step);
    lemma_handlers_correspond(toks, pos, lex, t1, t2, first, a, b);
    let c = first == "Act"@;
    let r1 = act_step(toks, pos, a);
    let r2 = act_step(toks, pos, b);
    lemma_step_if_corresponds(c, r1, r2, a, b, pos);
    lemma_and_then_corresponds(step_if(c, r1, a, pos), step_if(c, r2, b, pos), f2, g2);
}

proof fn lemma_play_corresponds(
    toks: Seq<Token>,
    pos: nat,
    lex: Lexicon,
    t1: Option<Seq<SpecAct>>,
    t2: Option<Seq<SpecAct>>,
    a: SpecState,
    b: SpecState,
)
    requires
        without_bodies(a) == without_bodies(b),
    ensures
        match (play_from(toks, pos, lex, t1, a), play_from(toks, pos, lex, t2, b)) {
            (Ok(x), Ok(y)) => without_bodies(x) == without_bodies(y),
            _ => true,
        },
    decreases remaining(toks.len(), pos),
{
    if pos < toks.len() {
        match toks[pos as int].kind {
            TokenKind::Ident => {
                let first = toks[pos as int].text@;
                let lower = toks[pos as int].lower@;
                lemma_line_advances(toks, pos + 1, lex, t1, first, lower, a);
                lemma_line_advances(toks, pos + 1, lex, t2, first, lower, b);
                lemma_line_corresponds(toks, pos + 1, lex, t1, t2, first, lower, a, b);
                if let (Ok((x, p)), Ok((y, q))) = (
                    line_step(toks, pos + 1, lex, t1, first, lower, a),
                    line_step(toks, pos + 1, lex, t2, first, lower, b),
                ) {
                    lemma_play_corresponds(toks, p, lex, t1, t2, x, y);
                }
            },
            TokenKind::Group(d, inner) => {
                if let (Ok(x), Ok(y)) = (
                    direction_step(d, inner@, lex, a),
                    direction_step(d, inner@, lex, b),
                ) {
                    lemma_play_corresponds(toks, pos + 1, lex, t1, t2, x, y);
                }
            },
            _ => {
                lemma_play_corresponds(toks, pos + 1, lex, t1, t2, a, b);
            },
        }
    }
}

/// Jumps by title are looked up among the acts and scenes of the very play
/// compiled: where the first reading of the acts learns `acts`, the second
/// reading, which looks titles up among them, reads the same acts with the
/// same scene titles, and numbers its scenes alike.
pub proof fn law_titles_are_the_plays_own(toks: Seq<Token>, pos: nat, lex: Lexicon)
    ensures
        play_titles(toks, pos, lex) matches Ok(acts) ==> (play_from(
            toks,
            pos,
            lex,
            Some(acts),
            initial_state(),
        ) matches Ok(st) ==> st.acts == acts && without_bodies(st) == without_bodies(
            play_from(toks, pos, lex, None, initial_state())->Ok_0,
        )),
{
    if let Ok(acts) = play_titles(toks, pos, lex) {
        lemma_play_corresponds(toks, pos, lex, None, Some(acts), initial_state(), initial_state());
    }
}

} // verus!
