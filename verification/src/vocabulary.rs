//! What the words of a play mean: laws that name each word the compiler
//! knows, and say what it makes of it.

use vstd::prelude::*;
use crate::token::{Token, TokenKind, is_word, run_len, run_title, run_mentions, run_joined};
use crate::text::{letters_of, alphabetic};
use crate::lexicon::{Lexicon, pieces_from, space_pieces, lines_from, lines_of};
use crate::expression::{constant_scan, eval_spec, name_tail, operation_named, connective, is_binary,
    Operation};
use crate::program::{SpecExpr, SpecScene, SpecStatement, Relation, CompileError};
use crate::roman::roman_value;
use crate::state::{SpecState, SpecAct, spoken_to, add_statement, with_statement, initial_state, jump_target, scene_titled};
use crate::statement::{relation_at, assignment_value_at, speaker_step, lemma_line_keeps, lemma_line_advances,
    step_keeps, StepRelation, is_be, assign_step, io_step, condition_step, stack_step,
    jump_step, line_step, compare_step, steps_from_2, steps_from_3,
    steps_from_4, steps_from_5, steps_from_6, steps_from_7, steps_from_8, steps_from_9, act_step, scene_step, step_if, lemma_act_advances,
    lemma_scene_advances};
use crate::play::{cast_from, remaining, play_from, play_titles, direction_step};
use crate::outline::{outline_from, heading_step};
use crate::laws::{law_binary_operation, law_unary_operation};

verus! {

proof fn lemma_operation_words()
    ensures
        operation_named("cube"@) == Some(Operation::Cube),
        operation_named("difference"@) == Some(Operation::Difference),
        operation_named("factorial"@) == Some(Operation::Factorial),
        operation_named("product"@) == Some(Operation::Product),
        operation_named("quotient"@) == Some(Operation::Quotient),
        operation_named("modulus"@) == Some(Operation::Modulus),
        operation_named("square"@) == Some(Operation::Square),
        operation_named("root"@) == Some(Operation::Root),
        operation_named("sum"@) == Some(Operation::Sum),
        operation_named("xor"@) == Some(Operation::Xor),
        connective(Operation::Difference) == "between"@,
        connective(Operation::Quotient) == "between"@,
        connective(Operation::Sum) == "of"@,
{
    reveal_strlit("cube");
    reveal_strlit("difference");
    reveal_strlit("factorial");
    reveal_strlit("product");
    reveal_strlit("quotient");
    reveal_strlit("modulus");
    reveal_strlit("square");
    reveal_strlit("root");
    reveal_strlit("sum");
    reveal_strlit("xor");
    assert("cube"@[0] != "root"@[0]);
    assert("product"@[0] != "modulus"@[0]);
    assert("sum"@[0] != "xor"@[0]);
    assert("cube"@.len() != "difference"@.len());
    assert("cube"@.len() != "factorial"@.len());
    assert("cube"@.len() != "product"@.len());
    assert("cube"@.len() != "quotient"@.len());
    assert("cube"@.len() != "modulus"@.len());
    assert("cube"@.len() != "square"@.len());
    assert("cube"@.len() != "sum"@.len());
    assert("cube"@.len() != "xor"@.len());
}

/// The operations of two arguments, word by word: "the sum of A and B",
/// "the difference between A and B", "the product of A and B", "the
/// quotient between A and B", "the modulus of A and B" and "the xor of A and
/// B" are that operation with A, read first, as its first operand (the
/// minuend, dividend) and B as its second, taking the tokens of both and
/// four more ("the" being no character's name).
pub proof fn law_operations_of_two(
    toks: Seq<Token>,
    pos: nat,
    lex: Lexicon,
    speaking: Seq<char>,
    other: Seq<char>,
    a: SpecExpr,
    c1: nat,
    b: SpecExpr,
    c2: nat,
)
    requires
        pos + 3 + c1 < toks.len(),
        is_word(toks[pos as int]),
        toks[pos as int].text@ == "the"@,
        !lex.is_character("the"@),
        eval_spec(toks, pos + 3, lex, speaking, other) == Ok::<(SpecExpr, nat), CompileError>((a, c1)),
        toks[pos + 3 + c1 as int].text@ == "and"@,
        eval_spec(toks, pos + 4 + c1, lex, speaking, other) == Ok::<(SpecExpr, nat), CompileError>(
            (b, c2),
        ),
    ensures
        ({
            let op = toks[pos + 1 as int].text@;
            let conn = toks[pos + 2 as int].text@;
            let r = eval_spec(toks, pos, lex, speaking, other);
            let n = c1 + c2 + 4;
            &&& op == "sum"@ && conn == "of"@ ==> r == Ok::<(SpecExpr, nat), CompileError>(
                (SpecExpr::Sum(Box::new(a), Box::new(b)), n),
            )
            &&& op == "difference"@ && conn == "between"@ ==> r == Ok::<(SpecExpr, nat), CompileError>(
                (SpecExpr::Difference(Box::new(a), Box::new(b)), n),
            )
            &&& op == "product"@ && conn == "of"@ ==> r == Ok::<(SpecExpr, nat), CompileError>(
                (SpecExpr::Product(Box::new(a), Box::new(b)), n),
            )
            &&& op == "quotient"@ && conn == "between"@ ==> r == Ok::<(SpecExpr, nat), CompileError>(
                (SpecExpr::Quotient(Box::new(a), Box::new(b)), n),
            )
            &&& op == "modulus"@ && conn == "of"@ ==> r == Ok::<(SpecExpr, nat), CompileError>(
                (SpecExpr::Modulus(Box::new(a), Box::new(b)), n),
            )
            &&& op == "xor"@ && conn == "of"@ ==> r == Ok::<(SpecExpr, nat), CompileError>(
                (SpecExpr::Xor(Box::new(a), Box::new(b)), n),
            )
        }),
{
    lemma_operation_words();
    let op = toks[pos + 1 as int].text@;
    if let Some(o) = operation_named(op) {
        if is_binary(o) && toks[pos + 2 as int].text@ == connective(o) {
            law_binary_operation(toks, pos, lex, speaking, other, o, a, c1, b, c2);
        }
    }
}

/// The operations of one argument, word by word: "the square of A", "the
/// cube of A", "the factorial of A" and "the root of A" are that operation
/// applied to A, taking its tokens and three more ("the" being no
/// character's name).
pub proof fn law_operations_of_one(
    toks: Seq<Token>,
    pos: nat,
    lex: Lexicon,
    speaking: Seq<char>,
    other: Seq<char>,
    a: SpecExpr,
    c: nat,
)
    requires
        pos + 2 < toks.len(),
        is_word(toks[pos as int]),
        toks[pos as int].text@ == "the"@,
        !lex.is_character("the"@),
        toks[pos + 2 as int].text@ == "of"@,
        eval_spec(toks, pos + 3, lex, speaking, other) == Ok::<(SpecExpr, nat), CompileError>((a, c)),
    ensures
        ({
            let op = toks[pos + 1 as int].text@;
            let r = eval_spec(toks, pos, lex, speaking, other);
            &&& op == "square"@ ==> r == Ok::<(SpecExpr, nat), CompileError>(
                (SpecExpr::Square(Box::new(a)), c + 3),
            )
            &&& op == "cube"@ ==> r == Ok::<(SpecExpr, nat), CompileError>(
                (SpecExpr::Cube(Box::new(a)), c + 3),
            )
            &&& op == "factorial"@ ==> r == Ok::<(SpecExpr, nat), CompileError>(
                (SpecExpr::Factorial(Box::new(a)), c + 3),
            )
            &&& op == "root"@ ==> r == Ok::<(SpecExpr, nat), CompileError>(
                (SpecExpr::Root(Box::new(a)), c + 3),
            )
        }),
{
    lemma_operation_words();
    let op = toks[pos + 1 as int].text@;
    if let Some(o) = operation_named(op) {
        if !is_binary(o) {
            law_unary_operation(toks, pos, lex, speaking, other, o, a, c);
        }
    }
}

/// The words a constant noun phrase passes over: the possessives "thine",
/// "thy", "your", "my", "mine", "his", "her" and the articles "a", "an" leave
/// its value as the rest of the phrase gives it, taking one token more.
pub proof fn law_possessives_and_articles_are_skipped(
    toks: Seq<Token>,
    pos: nat,
    lex: Lexicon,
    total: int,
)
    requires
        pos < toks.len(),
        is_word(toks[pos as int]),
        ({
            let w = toks[pos as int].text@;
            ||| w == "thine"@
            ||| w == "thy"@
            ||| w == "your"@
            ||| w == "my"@
            ||| w == "mine"@
            ||| w == "his"@
            ||| w == "her"@
            ||| w == "a"@
            ||| w == "an"@
        }),
    ensures
        match constant_scan(toks, pos + 1, lex, total) {
            Ok((v, c)) => constant_scan(toks, pos, lex, total) == Ok::<(int, nat), CompileError>(
                (v, c + 1),
            ),
            Err(e) => constant_scan(toks, pos, lex, total) == Err::<(int, nat), CompileError>(e),
        },
{
}

proof fn lemma_zero_words_are_none_skipped()
    ensures
        ({
            let z = "zero"@;
            let n = "nothing"@;
            &&& z != "thine"@ && z != "thy"@ && z != "your"@ && z != "my"@ && z != "mine"@
            &&& z != "his"@ && z != "her"@ && z != "a"@ && z != "an"@
            &&& n != "thine"@ && n != "thy"@ && n != "your"@ && n != "my"@ && n != "mine"@
            &&& n != "his"@ && n != "her"@ && n != "a"@ && n != "an"@
        }),
{
    reveal_strlit("zero");
    reveal_strlit("nothing");
    reveal_strlit("thine");
    reveal_strlit("thy");
    reveal_strlit("your");
    reveal_strlit("my");
    reveal_strlit("mine");
    reveal_strlit("his");
    reveal_strlit("her");
    reveal_strlit("a");
    reveal_strlit("an");
    assert("zero"@[0] != "thine"@[0] && "zero"@[0] != "thy"@[0] && "zero"@[0] != "your"@[0]);
    assert("zero"@[0] != "my"@[0] && "zero"@[0] != "mine"@[0] && "zero"@[0] != "his"@[0]);
    assert("zero"@[0] != "her"@[0] && "zero"@[0] != "a"@[0] && "zero"@[0] != "an"@[0]);
    assert("nothing"@[0] != "thine"@[0] && "nothing"@[0] != "thy"@[0]);
    assert("nothing"@[0] != "your"@[0] && "nothing"@[0] != "my"@[0] && "nothing"@[0] != "mine"@[0]);
    assert("nothing"@[0] != "his"@[0] && "nothing"@[0] != "her"@[0]);
    assert("nothing"@[0] != "a"@[0] && "nothing"@[0] != "an"@[0]);
}

/// "zero" and "nothing", where they are no nouns, end a constant noun
/// phrase and make it worth 0, whatever came before them.
pub proof fn law_zero_words_are_worth_nothing(toks: Seq<Token>, pos: nat, lex: Lexicon, total: int)
    requires
        pos < toks.len(),
        is_word(toks[pos as int]),
        toks[pos as int].text@ == "zero"@ || toks[pos as int].text@ == "nothing"@,
        !lex.is_noun(toks[pos as int].text@),
    ensures
        constant_scan(toks, pos, lex, total) == Ok::<(int, nat), CompileError>((0, 1)),
{
    lemma_zero_words_are_none_skipped();
}

/// A noun (one of the lexicon's, other than a possessive or an article)
/// ends a constant noun phrase, taking one token: the value so far, negated
/// for a negative noun.
pub proof fn law_nouns_end_a_constant(toks: Seq<Token>, pos: nat, lex: Lexicon, total: int)
    requires
        pos < toks.len(),
        is_word(toks[pos as int]),
        lex.is_noun(toks[pos as int].text@),
        ({
            let w = toks[pos as int].text@;
            &&& w != "thine"@ && w != "thy"@ && w != "your"@ && w != "my"@ && w != "mine"@
            &&& w != "his"@ && w != "her"@ && w != "a"@ && w != "an"@
        }),
    ensures
        constant_scan(toks, pos, lex, total) == Ok::<(int, nat), CompileError>(
            (
                if lex.is_negative_noun(toks[pos as int].text@) {
                    -total
                } else {
                    total
                },
                1,
            ),
        ),
{
}

proof fn lemma_pronouns_are_no_other_words()
    ensures
        ({
            let ws = seq!["thyself"@, "yourself"@, "you"@, "thou"@, "me"@, "myself"@, "I"@];
            forall|i: int| 0 <= i < ws.len() ==> #[trigger] ws[i] != "a"@ && ws[i] != "twice"@
        }),
        "me"@ != "thyself"@ && "me"@ != "yourself"@ && "me"@ != "you"@ && "me"@ != "thou"@,
        "myself"@ != "thyself"@ && "myself"@ != "yourself"@ && "myself"@ != "you"@
            && "myself"@ != "thou"@,
        "I"@ != "thyself"@ && "I"@ != "yourself"@ && "I"@ != "you"@ && "I"@ != "thou"@,
{
    reveal_strlit("thyself");
    reveal_strlit("yourself");
    reveal_strlit("you");
    reveal_strlit("thou");
    reveal_strlit("me");
    reveal_strlit("myself");
    reveal_strlit("I");
    reveal_strlit("a");
    reveal_strlit("twice");
    let ws = seq!["thyself"@, "yourself"@, "you"@, "thou"@, "me"@, "myself"@, "I"@];
    assert forall|i: int| 0 <= i < ws.len() implies #[trigger] ws[i] != "a"@ && ws[i] != "twice"@ by {
        assert(ws[i][0] != "a"@[0]);
        assert(ws[i].len() != "twice"@.len() || ws[i][0] != "twice"@[0]);
    }
    assert("me"@.len() != "thyself"@.len() && "me"@.len() != "yourself"@.len());
    assert("me"@[0] != "you"@[0] && "me"@.len() != "thou"@.len());
    assert("myself"@[0] != "thyself"@[0] && "myself"@[0] != "yourself"@[0]);
    assert("myself"@[0] != "you"@[0] && "myself"@[0] != "thou"@[0]);
    assert("I"@.len() != "thyself"@.len() && "I"@.len() != "yourself"@.len());
    assert("I"@.len() != "you"@.len() && "I"@.len() != "thou"@.len());
}

/// The pronouns of an expression: "thyself", "yourself", "you" and "thou"
/// stand for the character spoken to, "me", "myself" and "I" for the one
/// speaking; each takes one token.
pub proof fn law_pronouns(
    toks: Seq<Token>,
    pos: nat,
    lex: Lexicon,
    speaking: Seq<char>,
    other: Seq<char>,
)
    requires
        pos < toks.len(),
        is_word(toks[pos as int]),
    ensures
        ({
            let w = toks[pos as int].text@;
            let r = eval_spec(toks, pos, lex, speaking, other);
            &&& w == "thyself"@ || w == "yourself"@ || w == "you"@ || w == "thou"@ ==> r == Ok::<
                (SpecExpr, nat),
                CompileError,
            >((SpecExpr::Character(other), 1))
            &&& w == "me"@ || w == "myself"@ || w == "I"@ ==> r == Ok::<(SpecExpr, nat), CompileError>(
                (SpecExpr::Character(speaking), 1),
            )
        }),
{
    lemma_pronouns_are_no_other_words();
    let ws = seq!["thyself"@, "yourself"@, "you"@, "thou"@, "me"@, "myself"@, "I"@];
    assert(ws[0] == "thyself"@ && ws[1] == "yourself"@ && ws[2] == "you"@ && ws[3] == "thou"@);
    assert(ws[4] == "me"@ && ws[5] == "myself"@ && ws[6] == "I"@);
}

/// "twice" doubles the expression that follows it, taking one token more;
/// a leading "a" is passed over.
pub proof fn law_twice_and_a(
    toks: Seq<Token>,
    pos: nat,
    lex: Lexicon,
    speaking: Seq<char>,
    other: Seq<char>,
)
    requires
        pos < toks.len(),
        is_word(toks[pos as int]),
    ensures
        toks[pos as int].text@ == "twice"@ ==> eval_spec(toks, pos, lex, speaking, other) == match eval_spec(
            toks,
            pos + 1,
            lex,
            speaking,
            other,
        ) {
            Ok((e, c)) => Ok::<(SpecExpr, nat), CompileError>((SpecExpr::Twice(Box::new(e)), c + 1)),
            Err(x) => Err(x),
        },
        toks[pos as int].text@ == "a"@ ==> eval_spec(toks, pos, lex, speaking, other) == match eval_spec(
            toks,
            pos + 1,
            lex,
            speaking,
            other,
        ) {
            Ok((e, c)) => Ok::<(SpecExpr, nat), CompileError>((e, c + 1)),
            Err(x) => Err(x),
        },
{
    reveal_strlit("twice");
    reveal_strlit("a");
    assert("twice"@.len() != "a"@.len());
}

/// The state with `s` added at the end of the last scene's statements.
pub open spec fn statement_added(st: SpecState, s: SpecStatement) -> SpecState {
    let last = st.scenes.last();
    SpecState {
        scenes: st.scenes.update(
            st.scenes.len() - 1,
            SpecScene { act: last.act, number: last.number, body: last.body.push(s) },
        ),
        ..st
    }
}

/// Jumps by number: after the three words "Let us proceed to" (or the
/// like), "scene" and a roman numeral jump to the scene of that number in
/// the current act, "act" and a roman numeral to the first scene of the act
/// of that number (either word in any case, as its lower-cased text shows).
/// The jump is added to the end of the last scene, nothing else changes, and
/// the line goes on after the numeral and the token that follows it.
pub proof fn law_jumps_by_number(
    toks: Seq<Token>,
    pos: nat,
    titles: Option<Seq<SpecAct>>,
    st: SpecState,
)
    requires
        pos + 4 < toks.len(),
        st.scenes.len() > 0,
        roman_value(toks[pos + 4 as int].text@) <= u32::MAX,
    ensures
        ({
            let v = roman_value(toks[pos + 4 as int].text@);
            let w = toks[pos + 3 as int].lower@;
            let q = if pos + 5 < toks.len() {
                pos + 6
            } else {
                pos + 5
            };
            let r = jump_step(toks, pos, titles, st);
            &&& w == "scene"@ ==> r == Ok::<(SpecState, nat), CompileError>(
                (statement_added(st, SpecStatement::Jump { act: st.act_num, scene: v }), q),
            )
            &&& w == "act"@ ==> r == Ok::<(SpecState, nat), CompileError>(
                (statement_added(st, SpecStatement::Jump { act: v, scene: 1 }), q),
            )
        }),
{
    reveal(jump_step);
    reveal_strlit("scene");
    reveal_strlit("act");
    assert("scene"@.len() != "act"@.len());
}

/// Whether two token sequences have the same kinds and the same lower-cased
/// texts, whatever their texts.
pub open spec fn alike_but_for_case(t1: Seq<Token>, t2: Seq<Token>) -> bool {
    &&& t1.len() == t2.len()
    &&& forall|i: int|
        0 <= i < t1.len() ==> #[trigger] t1[i].kind == t2[i].kind && t1[i].lower@ == t2[i].lower@
}

proof fn lemma_runs_alike(t1: Seq<Token>, t2: Seq<Token>, pos: nat)
    requires
        alike_but_for_case(t1, t2),
    ensures
        run_len(t1, pos) == run_len(t2, pos),
        run_title(t1, pos) == run_title(t2, pos),
    decreases t1.len() - pos,
{
    if pos < t1.len() {
        assert(t1[pos as int].kind == t2[pos as int].kind);
        lemma_runs_alike(t1, t2, pos + 1);
    }
}

proof fn lemma_headings_alike(t1: Seq<Token>, t2: Seq<Token>, pos: nat, st: SpecState)
    requires
        alike_but_for_case(t1, t2),
    ensures
        act_step(t1, pos, st) == act_step(t2, pos, st),
        scene_step(t1, pos, st) == scene_step(t2, pos, st),
{
    reveal(act_step);
    reveal(scene_step);
    lemma_runs_alike(t1, t2, pos);
    lemma_runs_alike(t1, t2, pos + run_len(t1, pos));
}

/// The outline reads its headings by the lower-cased texts of the tokens
/// alone: two plays whose tokens have the same kinds and lower-cased texts,
/// whatever their cases, have the same outline from any position on.
pub proof fn law_outline_reads_lower_case(t1: Seq<Token>, t2: Seq<Token>, pos: nat, st: SpecState)
    requires
        alike_but_for_case(t1, t2),
    ensures
        outline_from(t1, pos, st) == outline_from(t2, pos, st),
    decreases remaining(t1.len(), pos),
{
    if pos < t1.len() {
        assert(t1[pos as int].kind == t2[pos as int].kind && t1[pos as int].lower@ == t2[
            pos as int
        ].lower@);
        match t1[pos as int].kind {
            TokenKind::Ident => {
                let first = t1[pos as int].lower@;
                lemma_act_advances(t1, pos + 1, st);
                lemma_headings_alike(t1, t2, pos + 1, st);
                if let Ok((s1, p1)) = step_if(first == "act"@, act_step(t1, pos + 1, st), st, pos + 1) {
                    lemma_scene_advances(t1, p1, s1);
                    lemma_headings_alike(t1, t2, p1, s1);
                }
                if let Ok((s2, p)) = heading_step(t1, pos + 1, first, st) {
                    law_outline_reads_lower_case(t1, t2, p, s2);
                }
            },
            _ => {
                law_outline_reads_lower_case(t1, t2, pos + 1, st);
            },
        }
    }
}

/// In the outline, a word whose lower-cased text is "act" begins an act, and
/// one whose lower-cased text is "scene" a scene, whatever the case it is
/// written in; the outline goes on after the heading.
pub proof fn law_outline_headings(toks: Seq<Token>, pos: nat, st: SpecState)
    requires
        pos < toks.len(),
        toks[pos as int].kind is Ident,
    ensures
        toks[pos as int].lower@ == "act"@ ==> outline_from(toks, pos, st) == match act_step(
            toks,
            pos + 1,
            st,
        ) {
            Ok((s1, p1)) => outline_from(toks, p1, s1),
            Err(e) => Err(e),
        },
        toks[pos as int].lower@ == "scene"@ ==> outline_from(toks, pos, st) == match scene_step(
            toks,
            pos + 1,
            st,
        ) {
            Ok((s1, p1)) => outline_from(toks, p1, s1),
            Err(e) => Err(e),
        },
{
    reveal_strlit("scene");
    reveal_strlit("act");
    assert("scene"@.len() != "act"@.len());
    lemma_act_advances(toks, pos + 1, st);
    lemma_scene_advances(toks, pos + 1, st);
}

proof fn lemma_be_words_are_no_other_keywords(w: Seq<char>)
    requires
        w == "am"@ || w == "are"@ || w == "art"@ || w == "be"@ || w == "is"@,
    ensures
        w != "thee"@ && w != "thou"@ && w != "you"@,
        w != "let"@ && w != "we"@,
{
    reveal_strlit("am");
    reveal_strlit("are");
    reveal_strlit("art");
    reveal_strlit("be");
    reveal_strlit("is");
    reveal_strlit("thee");
    reveal_strlit("thou");
    reveal_strlit("you");
    reveal_strlit("let");
    reveal_strlit("we");
    assert(w[0] != "thee"@[0] && w[0] != "thou"@[0] && w[0] != "you"@[0]);
    assert(w[0] != "let"@[0] && w[0] != "we"@[0]);
}

/// Questions: a line whose first word, lower-cased, is "am", "are", "art",
/// "be" or "is" (and that begins no other kind of line: it is no heading,
/// character's name, "Open", "Speak", "Listen", "If", "Remember" or
/// "Recall") is read as a comparison, and nothing else.
pub proof fn law_questions(
    toks: Seq<Token>,
    pos: nat,
    lex: Lexicon,
    titles: Option<Seq<SpecAct>>,
    first: Seq<char>,
    lower: Seq<char>,
    st: SpecState,
)
    requires
        lower == "am"@ || lower == "are"@ || lower == "art"@ || lower == "be"@ || lower == "is"@,
        first != "Act"@ && first != "Scene"@ && first != "If"@,
        first != "Open"@ && first != "Speak"@ && first != "Listen"@,
        first != "Remember"@ && first != "Recall"@,
        !lex.is_character(first),
    ensures
        line_step(toks, pos, lex, titles, first, lower, st) == compare_step(toks, pos, lex, st),
{
    lemma_be_words_are_no_other_keywords(lower);
    reveal(line_step);
    reveal(steps_from_2);
    reveal(steps_from_3);
    reveal(steps_from_4);
    reveal(steps_from_5);
    reveal(steps_from_6);
    reveal(steps_from_7);
    reveal(steps_from_8);
    reveal(steps_from_9);
    assert forall|s2: SpecState, p: nat| #[trigger] steps_from_8(toks, p, lex, titles, first, lower, s2)
        == Ok::<(SpecState, nat), CompileError>((s2, p)) by {}
}

/// A comparison, where it is read, adds exactly one statement, a comparison
/// of two expressions by a relation, at the end of the last scene, and
/// changes nothing else.
pub proof fn law_comparison_adds_one_compare(toks: Seq<Token>, pos: nat, lex: Lexicon, st: SpecState)
    ensures
        compare_step(toks, pos, lex, st) matches Ok((s2, _)) ==> st.scenes.len() > 0 && exists|
            lhs: SpecExpr,
            rel: Relation,
            rhs: SpecExpr,
        | s2 == statement_added(st, SpecStatement::Compare { lhs: lhs, relation: rel, rhs: rhs }),
        ({
            let o = spoken_to(st)->Ok_0;
            let first = eval_spec(toks, pos, lex, st.current, o);
            let rel = relation_at(toks, pos + first->Ok_0.1, lex);
            let second = eval_spec(toks, rel->Ok_0.1, lex, st.current, o);
            spoken_to(st) is Ok && st.scenes.len() > 0 && first is Ok && rel is Ok && second is Ok
                ==> compare_step(toks, pos, lex, st) == Ok::<(SpecState, nat), CompileError>(
                (
                    statement_added(
                        st,
                        SpecStatement::Compare {
                            lhs: first->Ok_0.0,
                            relation: rel->Ok_0.0,
                            rhs: second->Ok_0.0,
                        },
                    ),
                    rel->Ok_0.1 + second->Ok_0.1,
                ),
            )
        }),
{
    reveal(compare_step);
    if let Ok(other) = spoken_to(st) {
        if let Ok((lhs, c1)) = eval_spec(toks, pos, lex, st.current, other) {
            if let Ok((rel, q)) = relation_at(toks, pos + c1, lex) {
                if let Ok((rhs, c2)) = eval_spec(toks, q, lex, st.current, other) {
                    let s = SpecStatement::Compare { lhs: lhs, relation: rel, rhs: rhs };
                    assert(add_statement(st, s) matches Ok(s2) ==> s2 == statement_added(st, s));
                }
            }
        }
    }
}

/// The words that begin a line by their text.
pub open spec fn is_line_word(w: Seq<char>) -> bool {
    ||| w == "Act"@
    ||| w == "Scene"@
    ||| w == "Open"@
    ||| w == "Speak"@
    ||| w == "Listen"@
    ||| w == "If"@
    ||| w == "Remember"@
    ||| w == "Recall"@
}

/// The words that begin a line by their lower-cased text.
pub open spec fn is_lower_line_word(w: Seq<char>) -> bool {
    ||| w == "thee"@
    ||| w == "thou"@
    ||| w == "you"@
    ||| w == "am"@
    ||| w == "are"@
    ||| w == "art"@
    ||| w == "be"@
    ||| w == "is"@
    ||| w == "let"@
    ||| w == "we"@
}

proof fn lemma_line_words_distinct()
    ensures
        "Act"@ != "Scene"@ && "Act"@ != "Open"@ && "Act"@ != "Speak"@ && "Act"@ != "Listen"@,
        "Act"@ != "If"@ && "Act"@ != "Remember"@ && "Act"@ != "Recall"@,
        "Scene"@ != "Open"@ && "Scene"@ != "Speak"@ && "Scene"@ != "Listen"@ && "Scene"@ != "If"@,
        "Scene"@ != "Remember"@ && "Scene"@ != "Recall"@,
        "Open"@ != "Speak"@ && "Open"@ != "Listen"@ && "Open"@ != "If"@ && "Open"@ != "Remember"@,
        "Open"@ != "Recall"@,
        "Speak"@ != "Listen"@ && "Speak"@ != "If"@ && "Speak"@ != "Remember"@ && "Speak"@ != "Recall"@,
        "Listen"@ != "If"@ && "Listen"@ != "Remember"@ && "Listen"@ != "Recall"@,
        "If"@ != "Remember"@ && "If"@ != "Recall"@ && "Remember"@ != "Recall"@,
        "thee"@ != "thou"@ && "thee"@ != "you"@ && "thou"@ != "you"@,
        "let"@ != "we"@,
        "thee"@ != "am"@ && "thee"@ != "are"@ && "thee"@ != "art"@ && "thee"@ != "be"@ && "thee"@ != "is"@ && "thee"@ != "let"@ && "thee"@ != "we"@,
        "thou"@ != "am"@ && "thou"@ != "are"@ && "thou"@ != "art"@ && "thou"@ != "be"@ && "thou"@ != "is"@ && "thou"@ != "let"@ && "thou"@ != "we"@,
        "you"@ != "am"@ && "you"@ != "are"@ && "you"@ != "art"@ && "you"@ != "be"@ && "you"@ != "is"@ && "you"@ != "let"@ && "you"@ != "we"@,
        "let"@ != "am"@ && "let"@ != "are"@ && "let"@ != "art"@ && "let"@ != "be"@ && "let"@ != "is"@,
        "we"@ != "am"@ && "we"@ != "are"@ && "we"@ != "art"@ && "we"@ != "be"@ && "we"@ != "is"@,
        "mind"@ != "heart"@,
        "so"@ != "not"@,
{
    reveal_strlit("Act");
    reveal_strlit("Scene");
    reveal_strlit("Open");
    reveal_strlit("Speak");
    reveal_strlit("Listen");
    reveal_strlit("If");
    reveal_strlit("Remember");
    reveal_strlit("Recall");
    reveal_strlit("thee");
    reveal_strlit("thou");
    reveal_strlit("you");
    reveal_strlit("am");
    reveal_strlit("are");
    reveal_strlit("art");
    reveal_strlit("be");
    reveal_strlit("is");
    reveal_strlit("let");
    reveal_strlit("we");
    reveal_strlit("mind");
    reveal_strlit("heart");
    reveal_strlit("so");
    reveal_strlit("not");
    assert("Act"@[0] != "Scene"@[0] && "Act"@[0] != "Open"@[0] && "Act"@[0] != "Speak"@[0]);
    assert("Act"@[0] != "Listen"@[0] && "Act"@[0] != "If"@[0] && "Act"@[0] != "Remember"@[0]);
    assert("Act"@[0] != "Recall"@[0]);
    assert("Scene"@[0] != "Open"@[0] && "Scene"@[1] != "Speak"@[1] && "Scene"@[0] != "Listen"@[0]);
    assert("Scene"@[0] != "If"@[0] && "Scene"@[0] != "Remember"@[0] && "Scene"@[0] != "Recall"@[0]);
    assert("Open"@[0] != "Speak"@[0] && "Open"@[0] != "Listen"@[0] && "Open"@[0] != "If"@[0]);
    assert("Open"@[0] != "Remember"@[0] && "Open"@[0] != "Recall"@[0]);
    assert("Speak"@[0] != "Listen"@[0] && "Speak"@[0] != "If"@[0] && "Speak"@[0] != "Remember"@[0]);
    assert("Speak"@[0] != "Recall"@[0]);
    assert("Listen"@[0] != "If"@[0] && "Listen"@[0] != "Remember"@[0] && "Listen"@[0] != "Recall"@[0]);
    assert("If"@[0] != "Remember"@[0] && "If"@[0] != "Recall"@[0] && "Remember"@[2] != "Recall"@[2]);
    assert("thee"@[2] != "thou"@[2] && "thee"@[0] != "you"@[0] && "thou"@[0] != "you"@[0]);
    assert("let"@[0] != "we"@[0]);
    assert("thee"@[0] != "am"@[0] && "thee"@[0] != "are"@[0] && "thee"@[0] != "art"@[0]);
    assert("thee"@[0] != "be"@[0] && "thee"@[0] != "is"@[0] && "thee"@[0] != "let"@[0]);
    assert("thee"@[0] != "we"@[0]);
    assert("thou"@[0] != "am"@[0] && "thou"@[0] != "are"@[0] && "thou"@[0] != "art"@[0]);
    assert("thou"@[0] != "be"@[0] && "thou"@[0] != "is"@[0] && "thou"@[0] != "let"@[0]);
    assert("thou"@[0] != "we"@[0]);
    assert("you"@[0] != "am"@[0] && "you"@[0] != "are"@[0] && "you"@[0] != "art"@[0]);
    assert("you"@[0] != "be"@[0] && "you"@[0] != "is"@[0] && "you"@[0] != "let"@[0]);
    assert("you"@[0] != "we"@[0]);
    assert("let"@[0] != "am"@[0] && "let"@[0] != "are"@[0] && "let"@[0] != "art"@[0]);
    assert("let"@[0] != "be"@[0] && "let"@[0] != "is"@[0]);
    assert("we"@[0] != "am"@[0] && "we"@[0] != "are"@[0] && "we"@[0] != "art"@[0]);
    assert("we"@[0] != "be"@[0] && "we"@[0] != "is"@[0]);
    assert("mind"@[0] != "heart"@[0]);
    assert("so"@[0] != "not"@[0]);
}

/// How a line is read, by the word it begins with (no character's name):
/// "thee", "thou" or "you" (lower-cased) begin an assignment, "let" or "we"
/// a jump, "Open", "Speak" or "Listen" input or output, "If" a condition,
/// "Remember" or "Recall" a stack operation; the line is that step alone.
pub proof fn law_lines_by_their_first_word(
    toks: Seq<Token>,
    pos: nat,
    lex: Lexicon,
    titles: Option<Seq<SpecAct>>,
    first: Seq<char>,
    lower: Seq<char>,
    st: SpecState,
)
    requires
        !lex.is_character(first),
    ensures
        (lower == "thee"@ || lower == "thou"@ || lower == "you"@) && !is_line_word(first)
            ==> line_step(toks, pos, lex, titles, first, lower, st) == assign_step(toks, pos, lex, st),
        (lower == "let"@ || lower == "we"@) && !is_line_word(first) ==> line_step(
            toks,
            pos,
            lex,
            titles,
            first,
            lower,
            st,
        ) == jump_step(toks, pos, titles, st),
        (first == "Open"@ || first == "Speak"@ || first == "Listen"@) && !is_lower_line_word(lower)
            ==> line_step(toks, pos, lex, titles, first, lower, st) == io_step(toks, pos, first, st),
        first == "If"@ && !is_lower_line_word(lower) ==> line_step(toks, pos, lex, titles, first, lower, st)
            == condition_step(toks, pos, st),
        (first == "Remember"@ || first == "Recall"@) && !is_lower_line_word(lower) ==> line_step(
            toks,
            pos,
            lex,
            titles,
            first,
            lower,
            st,
        ) == stack_step(toks, pos, lex, first, st),
{
    lemma_line_words_distinct();
    reveal(line_step);
    reveal(steps_from_2);
    reveal(steps_from_3);
    reveal(steps_from_4);
    reveal(steps_from_5);
    reveal(steps_from_6);
    reveal(steps_from_7);
    reveal(steps_from_8);
    reveal(steps_from_9);
    assert forall|s2: SpecState, p: nat|
        !(first == "Remember"@ || first == "Recall"@) implies #[trigger] steps_from_9(
            toks,
            p,
            lex,
            first,
            s2,
        ) == Ok::<(SpecState, nat), CompileError>((s2, p)) by {}
    assert forall|s2: SpecState, p: nat|
        !(first == "Remember"@ || first == "Recall"@) && lower != "let"@ && lower != "we"@ implies #[trigger] steps_from_8(toks, p, lex, titles, first, lower, s2)
        == Ok::<(SpecState, nat), CompileError>((s2, p)) by {}
    assert forall|s2: SpecState, p: nat|
        !(first == "Remember"@ || first == "Recall"@) && lower != "let"@ && lower != "we"@
            && !is_be(lower) implies #[trigger] steps_from_7(toks, p, lex, titles, first, lower, s2)
        == Ok::<(SpecState, nat), CompileError>((s2, p)) by {}
    assert forall|s2: SpecState, p: nat|
        !(first == "Remember"@ || first == "Recall"@) && lower != "let"@ && lower != "we"@
            && !is_be(lower) && first != "If"@ implies #[trigger] steps_from_6(
            toks,
            p,
            lex,
            titles,
            first,
            lower,
            s2,
        ) == Ok::<(SpecState, nat), CompileError>((s2, p)) by {}
    assert forall|s2: SpecState, p: nat|
        !(first == "Remember"@ || first == "Recall"@) && lower != "let"@ && lower != "we"@
            && !is_be(lower) && first != "If"@ && !(first == "Open"@ || first == "Speak"@
            || first == "Listen"@) implies #[trigger] steps_from_5(
            toks,
            p,
            lex,
            titles,
            first,
            lower,
            s2,
        ) == Ok::<(SpecState, nat), CompileError>((s2, p)) by {}
}

/// Input and output, where one character is spoken to and a scene has
/// begun: "Open" prints that character's value as a number, or reads a
/// character into it where the line mentions "mind"; "Speak" prints it as a
/// character; "Listen" reads a number into it. The statement is added to
/// the end of the last scene, and the line ends after its words.
pub proof fn law_input_and_output(toks: Seq<Token>, pos: nat, first: Seq<char>, st: SpecState, o: Seq<char>)
    requires
        spoken_to(st) == Ok::<Seq<char>, CompileError>(o),
        st.scenes.len() > 0,
    ensures
        ({
            let r = io_step(toks, pos, first, st);
            let p = pos + run_len(toks, pos);
            &&& first == "Open"@ && run_mentions(toks, pos, "mind"@) ==> r == Ok::<
                (SpecState, nat),
                CompileError,
            >((statement_added(st, SpecStatement::ReadCharacter(o)), p))
            &&& first == "Open"@ && !run_mentions(toks, pos, "mind"@) ==> r == Ok::<
                (SpecState, nat),
                CompileError,
            >((statement_added(st, SpecStatement::PrintNumber(o)), p))
            &&& first == "Speak"@ ==> r == Ok::<(SpecState, nat), CompileError>(
                (statement_added(st, SpecStatement::PrintCharacter(o)), p),
            )
            &&& first == "Listen"@ ==> r == Ok::<(SpecState, nat), CompileError>(
                (statement_added(st, SpecStatement::ReadNumber(o)), p),
            )
        }),
{
    lemma_line_words_distinct();
    reveal(io_step);
}

/// Conditions, where a scene has begun: "If so" followed by punctuation
/// makes the next jump depend on the last comparison, "If not" on its
/// negation; the line ends after the punctuation.
pub proof fn law_conditions(toks: Seq<Token>, pos: nat, st: SpecState)
    requires
        st.scenes.len() > 0,
        pos + 1 < toks.len(),
        toks[pos + 1 as int].kind is Punct,
    ensures
        toks[pos as int].text@ == "so"@ ==> condition_step(toks, pos, st) == Ok::<
            (SpecState, nat),
            CompileError,
        >((statement_added(st, SpecStatement::Decide { negate: false }), pos + 2)),
        toks[pos as int].text@ == "not"@ ==> condition_step(toks, pos, st) == Ok::<
            (SpecState, nat),
            CompileError,
        >((statement_added(st, SpecStatement::Decide { negate: true }), pos + 2)),
{
    lemma_line_words_distinct();
    reveal(condition_step);
}

/// Stacks, where one character is spoken to and a scene has begun:
/// "Remember" pushes the expression that follows on that character's stack,
/// "Recall" pops it (whatever the rest of the line says).
pub proof fn law_stacks(
    toks: Seq<Token>,
    pos: nat,
    lex: Lexicon,
    st: SpecState,
    o: Seq<char>,
)
    requires
        spoken_to(st) == Ok::<Seq<char>, CompileError>(o),
        st.scenes.len() > 0,
    ensures
        stack_step(toks, pos, lex, "Recall"@, st) == Ok::<(SpecState, nat), CompileError>(
            (statement_added(st, SpecStatement::Pop(o)), pos + run_len(toks, pos)),
        ),
        eval_spec(toks, pos, lex, st.current, o) matches Ok((e, c)) ==> stack_step(
            toks,
            pos,
            lex,
            "Remember"@,
            st,
        ) == Ok::<(SpecState, nat), CompileError>(
            (statement_added(st, SpecStatement::Push { stack: o, value: e }), pos + c),
        ),
{
    lemma_line_words_distinct();
    reveal(stack_step);
}

/// Whether neither an act nor any of its scenes has the title `t`.
pub open spec fn title_free(act: SpecAct, t: Seq<char>) -> bool {
    act.name != t && !act.scenes.contains(t)
}

proof fn lemma_scene_titled(scenes: Seq<Seq<char>>, t: Seq<char>, j: nat)
    ensures
        match scene_titled(scenes, t, j) {
            Some(k) => j <= k < scenes.len() && scenes[k as int] == t && forall|m: int|
                j <= m < k ==> scenes[m] != t,
            None => forall|m: int| j <= m < scenes.len() ==> scenes[m] != t,
        },
    decreases scenes.len() - j,
{
    if j < scenes.len() {
        lemma_scene_titled(scenes, t, j + 1);
    }
}

proof fn lemma_jump_target(acts: Seq<SpecAct>, t: Seq<char>, i: nat)
    ensures
        match jump_target(acts, t, i) {
            Some((a, s)) => i + 1 <= a <= acts.len() && 1 <= s && ({
                let act = acts[a - 1];
                ||| s == 1 && act.name == t
                ||| act.name != t && s <= act.scenes.len() && act.scenes[s - 1] == t
                    && forall|m: int| 0 <= m < s - 1 ==> act.scenes[m] != t
            }) && forall|k: int|
                i <= k < a - 1 ==> title_free(#[trigger] acts[k], t),
            None => forall|k: int|
                i <= k < acts.len() ==> title_free(#[trigger] acts[k], t),
        },
    decreases acts.len() - i,
{
    if i < acts.len() {
        lemma_scene_titled(acts[i as int].scenes, t, 0);
        lemma_jump_target(acts, t, i + 1);
        if acts[i as int].name != t && scene_titled(acts[i as int].scenes, t, 0) is None {
            assert(!acts[i as int].scenes.contains(t));
            assert(title_free(acts[i as int], t));
            match jump_target(acts, t, i + 1) {
                Some((a, s)) => {
                    assert forall|k: int| i <= k < a - 1 implies #[trigger] acts[k].name != t
                        && !acts[k].scenes.contains(t) by {
                        if k > i {
                            assert(title_free(acts[k], t));
                        }
                    }
                },
                None => {
                    assert forall|k: int| i <= k < acts.len() implies #[trigger] acts[k].name != t
                        && !acts[k].scenes.contains(t) by {
                        if k > i {
                            assert(title_free(acts[k], t));
                        }
                    }
                },
            }
        }
    }
}

/// Where a jump by title goes: to act `a`, scene `s` (counted from 1) where
/// act `a` has that title (scene 1) or its `s`-th scene is the first of the
/// act with that title, no earlier act having the title or a scene with
/// it; and nowhere only where no act and no scene has it.
pub proof fn law_jump_by_title_goes_to_the_first_match(acts: Seq<SpecAct>, t: Seq<char>)
    ensures
        match jump_target(acts, t, 0) {
            Some((a, s)) => 1 <= a <= acts.len() && 1 <= s && ({
                let act = acts[a - 1];
                ||| s == 1 && act.name == t
                ||| act.name != t && s <= act.scenes.len() && act.scenes[s - 1] == t
                    && forall|m: int| 0 <= m < s - 1 ==> act.scenes[m] != t
            }) && forall|k: int|
                0 <= k < a - 1 ==> title_free(#[trigger] acts[k], t),
            None => forall|k: int|
                0 <= k < acts.len() ==> title_free(#[trigger] acts[k], t),
        },
{
    lemma_jump_target(acts, t, 0);
}

/// How the acts and scenes read stand with the numbers: the current act's
/// number is the count of acts read, the current scene's number the count
/// of that act's scenes, and every scene compiled is one of those read: its
/// act is one of the acts, its number one of that act's scenes.
pub open spec fn headings_counted(st: SpecState) -> bool {
    &&& st.act_num == st.acts.len()
    &&& st.acts.len() == 0 ==> st.scene_num == 0
    &&& st.acts.len() > 0 ==> st.scene_num == st.acts.last().scenes.len()
    &&& forall|i: int|
        0 <= i < st.scenes.len() ==> 1 <= #[trigger] st.scenes[i].act <= st.acts.len() && 1
            <= st.scenes[i].number <= st.acts[st.scenes[i].act - 1].scenes.len()
}

proof fn lemma_statement_counted(st: SpecState, s: SpecStatement)
    requires
        headings_counted(st),
        st.scenes.len() > 0,
    ensures
        headings_counted(with_statement(st, s)),
{
    let s2 = with_statement(st, s);
    assert forall|i: int| 0 <= i < s2.scenes.len() implies 1 <= #[trigger] s2.scenes[i].act
        <= s2.acts.len() && 1 <= s2.scenes[i].number <= s2.acts[s2.scenes[i].act - 1].scenes.len() by {
        assert(s2.scenes[i].act == st.scenes[i].act && s2.scenes[i].number == st.scenes[i].number);
    }
}

proof fn lemma_statements_counted(st: SpecState)
    requires
        headings_counted(st),
    ensures
        st.scenes.len() > 0 ==> forall|s: SpecStatement| #[trigger] headings_counted(
            with_statement(st, s),
        ),
{
    if st.scenes.len() > 0 {
        assert forall|s: SpecStatement| #[trigger] headings_counted(with_statement(st, s)) by {
            lemma_statement_counted(st, s);
        }
    }
}

proof fn lemma_act_counted(toks: Seq<Token>, pos: nat, st: SpecState)
    requires
        headings_counted(st),
    ensures
        act_step(toks, pos, st) matches Ok((s2, _)) ==> headings_counted(s2),
{
    reveal(act_step);
    if let Ok((s2, _)) = act_step(toks, pos, st) {
        assert forall|i: int| 0 <= i < s2.scenes.len() implies 1 <= #[trigger] s2.scenes[i].act
            <= s2.acts.len() && 1 <= s2.scenes[i].number <= s2.acts[s2.scenes[i].act
            - 1].scenes.len() by {
            assert(s2.scenes[i] == st.scenes[i]);
            assert(s2.acts[st.scenes[i].act - 1] == st.acts[st.scenes[i].act - 1]);
        }
    }
}

proof fn lemma_scene_counted(toks: Seq<Token>, pos: nat, st: SpecState)
    requires
        headings_counted(st),
    ensures
        scene_step(toks, pos, st) matches Ok((s2, _)) ==> headings_counted(s2),
{
    reveal(scene_step);
    if let Ok((s2, _)) = scene_step(toks, pos, st) {
        let n = st.scenes.len();
        let last = st.acts.len() - 1;
        assert(s2.acts.last().scenes.len() == st.acts.last().scenes.len() + 1);
        assert forall|i: int| 0 <= i < s2.scenes.len() implies 1 <= #[trigger] s2.scenes[i].act
            <= s2.acts.len() && 1 <= s2.scenes[i].number <= s2.acts[s2.scenes[i].act
            - 1].scenes.len() by {
            if i < n {
                assert(s2.scenes[i] == st.scenes[i]);
                let j = st.scenes[i].act - 1;
                if j != last {
                    assert(s2.acts[j] == st.acts[j]);
                }
            } else {
                assert(s2.scenes[i].act == st.act_num);
                assert(s2.scenes[i].number == st.scene_num + 1);
            }
        }
    }
}

proof fn lemma_line_counted(
    toks: Seq<Token>,
    pos: nat,
    lex: Lexicon,
    titles: Option<Seq<SpecAct>>,
    first: Seq<char>,
    lower: Seq<char>,
    st: SpecState,
)
    requires
        headings_counted(st),
    ensures
        line_step(toks, pos, lex, titles, first, lower, st) matches Ok((s2, _)) ==> headings_counted(
            s2,
        ),
{
    let rel: StepRelation = |s: SpecState, p: nat, s2: SpecState, p2: nat|
        headings_counted(s) ==> headings_counted(s2);
    assert forall|s: SpecState, p: nat| step_keeps(#[trigger] act_step(toks, p, s), s, p, rel) by {
        if headings_counted(s) {
            lemma_act_counted(toks, p, s);
        }
    }
    assert forall|s: SpecState, p: nat| step_keeps(#[trigger] scene_step(toks, p, s), s, p, rel) by {
        if headings_counted(s) {
            lemma_scene_counted(toks, p, s);
        }
    }
    assert forall|s: SpecState, p: nat|
        step_keeps(#[trigger] speaker_step(toks, p, first, s), s, p, rel) by {
        reveal(speaker_step);
    }
    assert forall|s: SpecState, p: nat|
        step_keeps(#[trigger] assign_step(toks, p, lex, s), s, p, rel) by {
        reveal(assign_step);
        if headings_counted(s) {
            lemma_statements_counted(s);
        }
    }
    assert forall|s: SpecState, p: nat| step_keeps(#[trigger] io_step(toks, p, first, s), s, p, rel) by {
        reveal(io_step);
        if headings_counted(s) {
            lemma_statements_counted(s);
        }
    }
    assert forall|s: SpecState, p: nat|
        step_keeps(#[trigger] condition_step(toks, p, s), s, p, rel) by {
        reveal(condition_step);
        if headings_counted(s) {
            lemma_statements_counted(s);
        }
    }
    assert forall|s: SpecState, p: nat|
        step_keeps(#[trigger] compare_step(toks, p, lex, s), s, p, rel) by {
        reveal(compare_step);
        if headings_counted(s) {
            lemma_statements_counted(s);
        }
    }
    assert forall|s: SpecState, p: nat|
        step_keeps(#[trigger] jump_step(toks, p, titles, s), s, p, rel) by {
        reveal(jump_step);
        if headings_counted(s) {
            lemma_statements_counted(s);
        }
    }
    assert forall|s: SpecState, p: nat|
        step_keeps(#[trigger] stack_step(toks, p, lex, first, s), s, p, rel) by {
        reveal(stack_step);
        if headings_counted(s) {
            lemma_statements_counted(s);
        }
    }
    lemma_line_keeps(toks, pos, lex, titles, first, lower, st, rel);
}

/// Acts and scenes are counted as they are read: in every state the reading
/// of a play reaches from a counted one, the current act's number is the
/// number of act headings read, the current scene's number the number of
/// scene headings of that act, and each compiled scene is named by an act
/// and a scene heading that were read.
pub proof fn law_headings_are_counted(
    toks: Seq<Token>,
    pos: nat,
    lex: Lexicon,
    titles: Option<Seq<SpecAct>>,
    st: SpecState,
)
    requires
        headings_counted(st),
    ensures
        play_from(toks, pos, lex, titles, st) matches Ok(s2) ==> headings_counted(s2),
    decreases remaining(toks.len(), pos),
{
    if pos < toks.len() {
        match toks[pos as int].kind {
            TokenKind::Ident => {
                let first = toks[pos as int].text@;
                let lower = toks[pos as int].lower@;
                lemma_line_advances(toks, pos + 1, lex, titles, first, lower, st);
                lemma_line_counted(toks, pos + 1, lex, titles, first, lower, st);
                if let Ok((s2, p)) = line_step(toks, pos + 1, lex, titles, first, lower, st) {
                    law_headings_are_counted(toks, p, lex, titles, s2);
                }
            },
            TokenKind::Group(d, inner) => {
                if let Ok(s2) = direction_step(d, inner@, lex, st) {
                    law_headings_are_counted(toks, pos + 1, lex, titles, s2);
                }
            },
            _ => {
                law_headings_are_counted(toks, pos + 1, lex, titles, st);
            },
        }
    }
}

/// A compiled play's scenes are named by the headings of the play: the
/// play's acts with their scene titles being those its first reading
/// learns, each compiled scene's act is one of those acts and its number
/// one of that act's scenes.
pub proof fn law_scenes_are_the_plays_headings(toks: Seq<Token>, pos: nat, lex: Lexicon)
    ensures
        play_titles(toks, pos, lex) matches Ok(acts) ==> (play_from(
            toks,
            pos,
            lex,
            Some(acts),
            initial_state(),
        ) matches Ok(st) ==> forall|i: int|
            0 <= i < st.scenes.len() ==> 1 <= #[trigger] st.scenes[i].act <= acts.len() && 1
                <= st.scenes[i].number <= acts[st.scenes[i].act - 1].scenes.len()),
{
    assert(headings_counted(initial_state()));
    if let Ok(acts) = play_titles(toks, pos, lex) {
        law_headings_are_counted(toks, pos, lex, Some(acts), initial_state());
        crate::laws::law_titles_are_the_plays_own(toks, pos, lex);
    }
}

/// The relations a question asks about, read after its first expression:
/// "as <word> as" asks for equality (and takes three tokens), a negative
/// comparative (such as "worse") for less, a positive one (such as
/// "better") for greater, each taking the word after it ("than") too.
pub proof fn law_relations(toks: Seq<Token>, q: nat, lex: Lexicon)
    requires
        q < toks.len(),
    ensures
        ({
            let w = toks[q as int].text@;
            let r = relation_at(toks, q, lex);
            &&& w == "as"@ && q + 2 < toks.len() && toks[q + 2 as int].text@ == "as"@ ==> r == Ok::<
                (Relation, nat),
                CompileError,
            >((Relation::Equal, q + 3))
            &&& w != "as"@ && lex.is_negative_comparative(w) ==> r == Ok::<(Relation, nat), CompileError>(
                (Relation::Less, if q + 1 < toks.len() { q + 2 } else { q + 1 }),
            )
            &&& w != "as"@ && !lex.is_negative_comparative(w) && lex.is_positive_comparative(w) ==> r
                == Ok::<(Relation, nat), CompileError>(
                (Relation::Greater, if q + 1 < toks.len() { q + 2 } else { q + 1 }),
            )
            &&& w != "as"@ && !lex.is_negative_comparative(w) && !lex.is_positive_comparative(w)
                ==> r == Err::<(Relation, nat), CompileError>(CompileError::InvalidComparison)
        }),
{
}

/// Where the value of an assignment begins: after a form of "to be" ("am",
/// "are", "art", "be", "is"), "as <word> as" is passed over, and so is an
/// article ("a", "an") that follows.
pub proof fn law_assignment_value(toks: Seq<Token>, pos: nat)
    requires
        pos + 1 < toks.len(),
        ({
            let w = toks[pos as int].text@;
            w == "am"@ || w == "are"@ || w == "art"@ || w == "be"@ || w == "is"@
        }),
    ensures
        ({
            let w1 = toks[pos + 1 as int].text@;
            let r = assignment_value_at(toks, pos);
            &&& w1 == "as"@ && pos + 4 < toks.len() && toks[pos + 3 as int].text@ == "as"@ && (
            toks[pos + 4 as int].text@ == "a"@ || toks[pos + 4 as int].text@ == "an"@) ==> r == Ok::<
                nat,
                CompileError,
            >(pos + 5)
            &&& w1 == "as"@ && pos + 4 < toks.len() && toks[pos + 3 as int].text@ == "as"@ && toks[pos
                + 4 as int].text@ != "a"@ && toks[pos + 4 as int].text@ != "an"@ ==> r == Ok::<
                nat,
                CompileError,
            >(pos + 4)
            &&& (w1 == "a"@ || w1 == "an"@) ==> r == Ok::<nat, CompileError>(pos + 2)
            &&& w1 != "as"@ && w1 != "a"@ && w1 != "an"@ ==> r == Ok::<nat, CompileError>(pos + 1)
        }),
{
    reveal_strlit("as");
    reveal_strlit("a");
    reveal_strlit("an");
    assert("as"@[1] != "an"@[1] && "as"@.len() != "a"@.len());
}

/// Assignments, where one character is spoken to and a scene has begun:
/// that character is assigned the expression read where the value begins,
/// the statement being added to the end of the last scene.
pub proof fn law_assignments(toks: Seq<Token>, pos: nat, lex: Lexicon, st: SpecState, o: Seq<char>)
    requires
        spoken_to(st) == Ok::<Seq<char>, CompileError>(o),
        st.scenes.len() > 0,
    ensures
        assignment_value_at(toks, pos) matches Ok(p) ==> (eval_spec(toks, p, lex, st.current, o) matches Ok(
            (e, c),
        ) ==> assign_step(toks, pos, lex, st) == Ok::<(SpecState, nat), CompileError>(
            (statement_added(st, SpecStatement::Assign { target: o, value: e }), p + c),
        )),
{
    reveal(assign_step);
}

/// A character's name that begins a line (with the words that follow it,
/// joined to it, up to the punctuation) makes that character the one who
/// speaks, where the character is on stage; nothing else changes.
pub proof fn law_speakers(toks: Seq<Token>, pos: nat, first: Seq<char>, st: SpecState)
    ensures
        ({
            let name = first + run_joined(toks, pos);
            &&& st.stage.contains(name) ==> speaker_step(toks, pos, first, st) == Ok::<
                (SpecState, nat),
                CompileError,
            >((SpecState { current: name, ..st }, pos + run_len(toks, pos)))
            &&& !st.stage.contains(name) ==> speaker_step(toks, pos, first, st) == Err::<
                (SpecState, nat),
                CompileError,
            >(CompileError::CharacterNotOnStage)
        }),
{
    reveal(speaker_step);
}

/// The names of `k` tokens from `pos`, joined.
pub open spec fn joined_texts(toks: Seq<Token>, pos: nat, k: nat) -> Seq<char>
    decreases k,
{
    if k == 0 {
        Seq::empty()
    } else {
        toks[pos as int].text@ + joined_texts(toks, pos + 1, (k - 1) as nat)
    }
}

/// A name of several words: the `k` tokens from `pos` that are characters'
/// names, up to a token that is none, make the rest of a name, joined, and
/// are all taken.
pub proof fn law_names_join(toks: Seq<Token>, pos: nat, k: nat, lex: Lexicon)
    requires
        pos + k < toks.len(),
        forall|i: int| pos <= i < pos + k ==> lex.is_character(#[trigger] toks[i].text@),
        !lex.is_character(toks[pos + k as int].text@),
    ensures
        name_tail(toks, pos, lex) == Ok::<(Seq<char>, nat), CompileError>(
            (joined_texts(toks, pos, k), k),
        ),
    decreases k,
{
    if k > 0 {
        assert(lex.is_character(toks[pos as int].text@));
        law_names_join(toks, pos + 1, (k - 1) as nat, lex);
    }
}

/// A character's name in an expression (no pronoun, "a" or "twice") stands
/// for that character, with the names that follow it joined to it.
pub proof fn law_characters_in_expressions(
    toks: Seq<Token>,
    pos: nat,
    lex: Lexicon,
    speaking: Seq<char>,
    other: Seq<char>,
)
    requires
        pos < toks.len(),
        is_word(toks[pos as int]),
        lex.is_character(toks[pos as int].text@),
        ({
            let w = toks[pos as int].text@;
            &&& w != "a"@ && w != "twice"@
            &&& w != "thyself"@ && w != "yourself"@ && w != "you"@ && w != "thou"@
            &&& w != "me"@ && w != "myself"@ && w != "I"@
        }),
    ensures
        name_tail(toks, pos + 1, lex) matches Ok((t, c)) ==> eval_spec(toks, pos, lex, speaking, other)
            == Ok::<(SpecExpr, nat), CompileError>(
            (SpecExpr::Character(toks[pos as int].text@ + t), c + 1),
        ),
{
}

/// Pieces written one after the other with a single space between each two.
pub open spec fn joined_with_spaces(ps: Seq<Seq<char>>) -> Seq<char>
    decreases ps.len(),
{
    if ps.len() == 0 {
        Seq::empty()
    } else if ps.len() == 1 {
        ps[0]
    } else {
        ps[0] + seq![' '] + joined_with_spaces(ps.drop_first())
    }
}

proof fn lemma_pieces_from(s: Seq<char>, cur: Seq<char>)
    requires
        !cur.contains(' '),
    ensures
        joined_with_spaces(pieces_from(s, cur)) == cur + s,
        pieces_from(s, cur).len() >= 1,
        forall|i: int| 0 <= i < pieces_from(s, cur).len() ==> !(#[trigger] pieces_from(s, cur)[i]).contains(' '),
    decreases s.len(),
{
    if s.len() == 0 {
        assert(cur + s =~= cur);
    } else if s[0] == ' ' {
        let rest = pieces_from(s.drop_first(), Seq::empty());
        lemma_pieces_from(s.drop_first(), Seq::empty());
        let ps = seq![cur] + rest;
        assert(ps.drop_first() =~= rest);
        assert(ps[0] == cur);
        assert(cur + seq![' '] + (Seq::<char>::empty() + s.drop_first()) =~= cur + s);
        assert forall|i: int| 0 <= i < ps.len() implies !(#[trigger] ps[i]).contains(' ') by {
            if i > 0 {
                assert(ps[i] == rest[i - 1]);
            }
        }
    } else {
        let c2 = cur.push(s[0]);
        assert(!c2.contains(' ')) by {
            if c2.contains(' ') {
                let j = choose|j: int| 0 <= j < c2.len() && c2[j] == ' ';
                if j < cur.len() {
                    assert(cur[j] == ' ');
                }
            }
        }
        lemma_pieces_from(s.drop_first(), c2);
        assert(c2 + s.drop_first() =~= cur + s);
    }
}

/// The words of a word list's line: none holds a space, and written with a
/// single space between each two they give the line back.
pub proof fn law_space_pieces_give_the_line_back(s: Seq<char>)
    ensures
        joined_with_spaces(space_pieces(s)) == s,
        forall|i: int| 0 <= i < space_pieces(s).len() ==> !(#[trigger] space_pieces(s)[i]).contains(' '),
{
    lemma_pieces_from(s, Seq::empty());
    assert(Seq::<char>::empty() + s =~= s);
}

/// Lines written one after the other, each followed by a line feed.
pub open spec fn lines_written(ls: Seq<Seq<char>>) -> Seq<char>
    decreases ls.len(),
{
    if ls.len() == 0 {
        Seq::empty()
    } else {
        ls[0] + seq!['\n'] + lines_written(ls.drop_first())
    }
}

proof fn lemma_lines_from(s: Seq<char>, cur: Seq<char>)
    requires
        !cur.contains('\n') && !cur.contains('\r'),
        !s.contains('\r'),
    ensures
        lines_written(lines_from(s, cur)) == if s.len() == 0 && cur.len() == 0 || s.len() > 0 && s.last()
            == '\n' {
            cur + s
        } else {
            cur + s + seq!['\n']
        },
        forall|i: int| 0 <= i < lines_from(s, cur).len() ==> !(#[trigger] lines_from(s, cur)[i]).contains('\n'),
    decreases s.len(),
{
    if s.len() == 0 {
        if cur.len() > 0 {
            assert(seq![cur].drop_first() =~= Seq::<Seq<char>>::empty());
            assert(cur + seq!['\n'] + Seq::<char>::empty() =~= cur + s + seq!['\n']);
            assert(lines_written(seq![cur]) == cur + seq!['\n'] + lines_written(Seq::<Seq<char>>::empty()));
            assert(lines_from(s, cur) == seq![cur]);
        } else {
            assert(cur + s =~= Seq::<char>::empty());
        }
    } else {
        let t = s.drop_first();
        assert(!t.contains('\r')) by {
            if t.contains('\r') {
                let j = choose|j: int| 0 <= j < t.len() && t[j] == '\r';
                assert(s[j + 1] == '\r');
            }
        }
        if s[0] == '\n' {
            lemma_lines_from(t, Seq::empty());
            let rest = lines_from(t, Seq::empty());
            assert(!(cur.len() > 0 && cur.last() == '\r')) by {
                if cur.len() > 0 {
                    assert(cur.contains(cur.last()));
                }
            }
            let ls = seq![cur] + rest;
            assert(ls.drop_first() =~= rest);
            assert(ls[0] == cur);
            if t.len() > 0 {
                assert(t.last() == s.last());
            }
            assert(cur + seq!['\n'] + t =~= cur + s);
            assert(cur + seq!['\n'] + (t + seq!['\n']) =~= cur + s + seq!['\n']);
            assert(cur + seq!['\n'] + (Seq::<char>::empty() + t) =~= cur + s);
            assert(cur + seq!['\n'] + (Seq::<char>::empty() + t + seq!['\n']) =~= cur + s + seq!['\n']);
            assert(lines_from(s, cur) == ls);
            assert(lines_written(ls) == cur + seq!['\n'] + lines_written(rest));
            assert forall|i: int| 0 <= i < ls.len() implies !(#[trigger] ls[i]).contains('\n') by {
                if i > 0 {
                    assert(ls[i] == rest[i - 1]);
                }
            }
        } else {
            let c2 = cur.push(s[0]);
            assert(!c2.contains('\n') && !c2.contains('\r')) by {
                if c2.contains('\n') || c2.contains('\r') {
                    let j = choose|j: int| 0 <= j < c2.len() && (c2[j] == '\n' || c2[j] == '\r');
                    if j < cur.len() {
                        assert(cur[j] == c2[j]);
                    } else {
                        assert(s.contains(s[0]));
                    }
                }
            }
            lemma_lines_from(t, c2);
            if t.len() > 0 {
                assert(t.last() == s.last());
            }
            assert(c2 + t =~= cur + s);
            assert(c2 + t + seq!['\n'] =~= cur + s + seq!['\n']);
        }
    }
}

/// The lines of a text without carriage returns hold no line feed, and
/// written each followed by a line feed they give the text back (with a
/// line feed added at the end where it had none).
pub proof fn law_lines_give_the_text_back(s: Seq<char>)
    requires
        !s.contains('\r'),
    ensures
        lines_written(lines_of(s)) == if s.len() == 0 || s.last() == '\n' {
            s
        } else {
            s + seq!['\n']
        },
        forall|i: int| 0 <= i < lines_of(s).len() ==> !(#[trigger] lines_of(s)[i]).contains('\n'),
{
    lemma_lines_from(s, Seq::empty());
    assert(Seq::<char>::empty() + s =~= s);
    assert(Seq::<char>::empty() + s + seq!['\n'] =~= s + seq!['\n']);
}

/// The cast: it ends at the first word whose lower-cased text is "act"
/// (in whatever case it is written), which is left to be read; before it,
/// each entry is a name, its words joined, and a description, both passed
/// over.
pub proof fn law_cast(toks: Seq<Token>, pos: nat, names: Seq<Seq<char>>)
    requires
        pos < toks.len(),
        is_word(toks[pos as int]),
    ensures
        toks[pos as int].lower@ == "act"@ ==> cast_from(toks, pos, names) == Ok::<
            (Seq<Seq<char>>, nat),
            CompileError,
        >((names, pos)),
        toks[pos as int].lower@ != "act"@ ==> cast_from(toks, pos, names) == cast_from(
            toks,
            pos + run_len(toks, pos) + run_len(toks, pos + run_len(toks, pos)),
            names.push(run_joined(toks, pos)),
        ),
{
}

/// Act and scene headings: "Act <number>: <title>." begins the next act,
/// with that title (the words of the second run, normalised) and no scenes
/// yet; "Scene <number>: <title>." adds the title to the current act's
/// scenes and begins a new, empty scene numbered next in that act. Each
/// heading is read up to the token that ends its title.
pub proof fn law_headings(toks: Seq<Token>, pos: nat, st: SpecState)
    ensures
        ({
            let p1 = pos + run_len(toks, pos);
            let title = run_title(toks, p1);
            let p2 = p1 + run_len(toks, p1);
            &&& st.act_num < u32::MAX ==> act_step(toks, pos, st) == Ok::<(SpecState, nat), CompileError>(
                (
                    SpecState {
                        acts: st.acts.push(SpecAct { name: title, scenes: Seq::empty() }),
                        act_num: st.act_num + 1,
                        scene_num: 0,
                        ..st
                    },
                    p2,
                ),
            )
            &&& st.acts.len() > 0 && st.scene_num < u32::MAX ==> (scene_step(toks, pos, st) matches Ok(
                (s2, p),
            ) && p == p2 && s2.scene_num == st.scene_num + 1 && s2.acts.len() == st.acts.len()
                && s2.acts.last().name == st.acts.last().name && s2.acts.last().scenes
                == st.acts.last().scenes.push(title) && s2.acts.drop_last() == st.acts.drop_last()
                && s2.scenes == st.scenes.push(
                SpecScene { act: st.act_num, number: st.scene_num + 1, body: Seq::empty() },
            ) && s2.stage == st.stage && s2.current == st.current && s2.act_num == st.act_num)
        }),
{
    reveal(act_step);
    reveal(scene_step);
    if st.acts.len() > 0 && st.scene_num < u32::MAX {
        if let Ok((s2, p)) = scene_step(toks, pos, st) {
            assert(s2.acts.drop_last() =~= st.acts.drop_last());
        }
    }
}

/// The letters of a text: every character kept is a letter, and a text made
/// of letters only is kept whole.
pub proof fn law_letters(w: Seq<char>)
    ensures
        forall|i: int| 0 <= i < letters_of(w).len() ==> alphabetic(#[trigger] letters_of(w)[i]),
        (forall|i: int| 0 <= i < w.len() ==> alphabetic(#[trigger] w[i])) ==> letters_of(w) == w,
    decreases w.len(),
{
    let pred = |c: char| alphabetic(c);
    reveal(Seq::filter);
    if w.len() > 0 {
        law_letters(w.drop_last());
        assert forall|i: int| 0 <= i < letters_of(w).len() implies alphabetic(#[trigger] letters_of(w)[i]) by {
            w.lemma_filter_pred(pred, i);
        }
        if forall|i: int| 0 <= i < w.len() ==> alphabetic(#[trigger] w[i]) {
            assert(forall|i: int| 0 <= i < w.drop_last().len() ==> alphabetic(#[trigger] w.drop_last()[i]) ) by {
                assert forall|i: int| 0 <= i < w.drop_last().len() implies alphabetic(#[trigger] w.drop_last()[i]) by {
                    assert(w.drop_last()[i] == w[i]);
                }
            }
            assert(alphabetic(w.last()));
            assert(w.drop_last().push(w.last()) =~= w);
        }
    }
}

} // verus!
