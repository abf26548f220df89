//! Noun phrases and the expressions built from them.

use vstd::prelude::*;
use crate::text::is_text;
use crate::token::{Token, is_word, token_is_word};
use crate::lexicon::{Lexicon, is_listed};
use crate::program::{Expr, SpecExpr, CompileError};

verus! {

/// A result with a count of tokens taken, counted `k` more.
pub open spec fn after<T>(r: Result<(T, nat), CompileError>, k: nat) -> Result<
    (T, nat),
    CompileError,
> {
    match r {
        Ok((v, c)) => Ok((v, c + k)),
        Err(e) => Err(e),
    }
}

/// Words that are skipped in a noun phrase: possessives.
pub open spec fn is_possessive(w: Seq<char>) -> bool {
    w == "thine"@ || w == "thy"@ || w == "your"@ || w == "my"@ || w == "mine"@ || w == "his"@
        || w == "her"@
}

/// Words that make a noun phrase nothing.
pub open spec fn is_zero_word(w: Seq<char>) -> bool {
    w == "zero"@ || w == "nothing"@
}

/// Words that stand for the character spoken to.
pub open spec fn is_second_person_reflexive(w: Seq<char>) -> bool {
    w == "thyself"@ || w == "yourself"@ || w == "you"@ || w == "thou"@
}

/// Words that stand for the character speaking.
pub open spec fn is_first_person_reflexive(w: Seq<char>) -> bool {
    w == "me"@ || w == "myself"@ || w == "I"@
}

/// Reads a constant noun phrase from `pos`, its value so far being `total`:
/// possessives and articles are skipped, each other adjective doubles the
/// value, and a noun ends the phrase (negating the value if it is a negative
/// noun), as "zero" or "nothing" does (making it 0). Anything but a word ends
/// the phrase too, and is taken with it. Gives the value and the count of
/// tokens taken.
pub open spec fn constant_scan(toks: Seq<Token>, pos: nat, lex: Lexicon, total: int) -> Result<
    (int, nat),
    CompileError,
>
    decreases toks.len() - pos,
{
    if pos >= toks.len() {
        Ok((total, 0))
    } else if !is_word(toks[pos as int]) {
        Ok((total, 1))
    } else {
        let w = toks[pos as int].text@;
        if is_possessive(w) || w == "a"@ || w == "an"@ {
            after(constant_scan(toks, pos + 1, lex, total), 1)
        } else if lex.is_noun(w) {
            Ok((
                if lex.is_negative_noun(w) {
                    -total
                } else {
                    total
                },
                1,
            ))
        } else if is_zero_word(w) {
            Ok((0, 1))
        } else if total * 2 > isize::MAX {
            Err(CompileError::ConstantOverflow)
        } else {
            after(constant_scan(toks, pos + 1, lex, total * 2), 1)
        }
    }
}

fn possessive(w: &String) -> (b: bool)
    ensures
        b == is_possessive(w@),
{
    is_text(w, "thine") || is_text(w, "thy") || is_text(w, "your") || is_text(w, "my") || is_text(
        w,
        "mine",
    ) || is_text(w, "his") || is_text(w, "her")
}

fn zero_word(w: &String) -> (b: bool)
    ensures
        b == is_zero_word(w@),
{
    is_text(w, "zero") || is_text(w, "nothing")
}

fn second_person_reflexive(w: &String) -> (b: bool)
    ensures
        b == is_second_person_reflexive(w@),
{
    is_text(w, "thyself") || is_text(w, "yourself") || is_text(w, "you") || is_text(w, "thou")
}

fn first_person_reflexive(w: &String) -> (b: bool)
    ensures
        b == is_first_person_reflexive(w@),
{
    is_text(w, "me") || is_text(w, "myself") || is_text(w, "I")
}

/// Reads a constant noun phrase from `pos` (see `constant_scan`, starting
/// from 1); gives its value and the position after it.
pub fn constant_value(toks: &Vec<Token>, pos: usize, lex: &Lexicon) -> (r: Result<
    (isize, usize),
    CompileError,
>)
    requires
        pos <= toks.len(),
    ensures
        match r {
            Ok((v, p)) => pos <= p <= toks.len() && constant_scan(toks@, pos as nat, *lex, 1)
                == Ok::<(int, nat), CompileError>((v as int, (p - pos) as nat)),
            Err(e) => constant_scan(toks@, pos as nat, *lex, 1) == Err::<(int, nat), CompileError>(
                e,
            ),
        },
{
    let mut total: isize = 1;
    let mut i = pos;
    loop
        invariant
            pos <= i <= toks.len(),
            1 <= total,
            constant_scan(toks@, pos as nat, *lex, 1) == after(
                constant_scan(toks@, i as nat, *lex, total as int),
                (i - pos) as nat,
            ),
        decreases toks.len() - i,
    {
        if i >= toks.len() {
            return Ok((total, i));
        }
        if !token_is_word(toks, i) {
            return Ok((total, i + 1));
        }
        let w = &toks[i].text;
        if possessive(w) || is_text(w, "a") || is_text(w, "an") {
            i = i + 1;
        } else if is_listed(&lex.nouns, w) {
            if is_listed(&lex.negative_nouns, w) {
                return Ok((-total, i + 1));
            }
            return Ok((total, i + 1));
        } else if zero_word(w) {
            return Ok((0, i + 1));
        } else if total > isize::MAX / 2 {
            return Err(CompileError::ConstantOverflow);
        } else {
            total = total * 2;
            i = i + 1;
        }
    }
}

/// Reads the rest of a name from `pos`: each following token whose text is
/// a character's name adds it. Gives the rest and the count of tokens taken;
/// the play must not end while a name is read.
pub open spec fn name_tail(toks: Seq<Token>, pos: nat, lex: Lexicon) -> Result<
    (Seq<char>, nat),
    CompileError,
>
    decreases toks.len() - pos,
{
    if pos >= toks.len() {
        Err(CompileError::UnexpectedEnd)
    } else if lex.is_character(toks[pos as int].text@) {
        match name_tail(toks, pos + 1, lex) {
            Ok((t, c)) => Ok((toks[pos as int].text@ + t, c + 1)),
            Err(e) => Err(e),
        }
    } else {
        Ok((Seq::empty(), 0))
    }
}

/// Reads the rest of a name from `pos` (see `name_tail`), appending it to
/// `name`; gives the position after it.
pub fn read_name_tail(toks: &Vec<Token>, pos: usize, lex: &Lexicon, name: &mut String) -> (r:
    Result<usize, CompileError>)
    requires
        pos <= toks.len(),
    ensures
        match r {
            Ok(p) => pos <= p <= toks.len() && name_tail(toks@, pos as nat, *lex) == Ok::<
                (Seq<char>, nat),
                CompileError,
            >(((final(name)@.skip(old(name)@.len() as int)), (p - pos) as nat))
                && final(name)@ == old(name)@ + final(name)@.skip(old(name)@.len() as int),
            Err(e) => name_tail(toks@, pos as nat, *lex) == Err::<(Seq<char>, nat), CompileError>(
                e,
            ),
        },
{
    let ghost start = name@;
    let mut i = pos;
    loop
        invariant
            start == old(name)@,
            pos <= i <= toks.len(),
            start.len() <= name@.len(),
            name@ == start + name@.skip(start.len() as int),
            name_tail(toks@, pos as nat, *lex) == (match name_tail(toks@, i as nat, *lex) {
                Ok((t, c)) => Ok((name@.skip(start.len() as int) + t, c + (i - pos) as nat)),
                Err(e) => Err(e),
            }),
        decreases toks.len() - i,
    {
        if i >= toks.len() {
            return Err(CompileError::UnexpectedEnd);
        }
        if !is_listed(&lex.characters, &toks[i].text) {
            proof {
                assert(name_tail(toks@, i as nat, *lex) == Ok::<(Seq<char>, nat), CompileError>(
                    (Seq::<char>::empty(), 0nat),
                ));
                assert(name@.skip(start.len() as int) + Seq::<char>::empty() =~= name@.skip(
                    start.len() as int,
                ));
                assert(name_tail(toks@, pos as nat, *lex) == Ok::<(Seq<char>, nat), CompileError>(
                    (name@.skip(start.len() as int), (i - pos) as nat),
                ));
            }
            return Ok(i);
        }
        let ghost before = name@;
        name.append(toks[i].text.as_str());
        proof {
            assert(name@.skip(start.len() as int) =~= before.skip(start.len() as int)
                + toks@[i as int].text@);
            assert(name@ =~= start + name@.skip(start.len() as int));
            match name_tail(toks@, (i + 1) as nat, *lex) {
                Ok((t, c)) => {
                    assert(before.skip(start.len() as int) + (toks@[i as int].text@ + t)
                        =~= name@.skip(start.len() as int) + t);
                },
                Err(e) => {},
            }
        }
        i = i + 1;
    }
}

/// The operations that "the" introduces.
#[derive(Debug, Clone, Copy, PartialEq, Eq, Structural)]
pub enum Operation {
    Cube,
    Difference,
    Factorial,
    Product,
    Quotient,
    Modulus,
    Square,
    Root,
    Sum,
    Xor,
}

/// The operation a word names, if any.
pub open spec fn operation_named(w: Seq<char>) -> Option<Operation> {
    if w == "cube"@ {
        Some(Operation::Cube)
    } else if w == "difference"@ {
        Some(Operation::Difference)
    } else if w == "factorial"@ {
        Some(Operation::Factorial)
    } else if w == "product"@ {
        Some(Operation::Product)
    } else if w == "quotient"@ {
        Some(Operation::Quotient)
    } else if w == "modulus"@ {
        Some(Operation::Modulus)
    } else if w == "square"@ {
        Some(Operation::Square)
    } else if w == "root"@ {
        Some(Operation::Root)
    } else if w == "sum"@ {
        Some(Operation::Sum)
    } else if w == "xor"@ {
        Some(Operation::Xor)
    } else {
        None
    }
}

/// The word that follows an operation's name: "between" for the difference
/// and the quotient, "of" for the others.
pub open spec fn connective(op: Operation) -> Seq<char> {
    match op {
        Operation::Difference | Operation::Quotient => "between"@,
        _ => "of"@,
    }
}

/// Whether an operation takes two arguments.
pub open spec fn is_binary(op: Operation) -> bool {
    match op {
        Operation::Difference | Operation::Product | Operation::Quotient | Operation::Modulus
        | Operation::Sum | Operation::Xor => true,
        _ => false,
    }
}

/// An operation of one argument applied.
pub open spec fn unary(op: Operation, a: SpecExpr) -> SpecExpr {
    match op {
        Operation::Cube => SpecExpr::Cube(Box::new(a)),
        Operation::Factorial => SpecExpr::Factorial(Box::new(a)),
        Operation::Square => SpecExpr::Square(Box::new(a)),
        _ => SpecExpr::Root(Box::new(a)),
    }
}

/// An operation of two arguments applied.
pub open spec fn binary(op: Operation, a: SpecExpr, b: SpecExpr) -> SpecExpr {
    match op {
        Operation::Difference => SpecExpr::Difference(Box::new(a), Box::new(b)),
        Operation::Product => SpecExpr::Product(Box::new(a), Box::new(b)),
        Operation::Quotient => SpecExpr::Quotient(Box::new(a), Box::new(b)),
        Operation::Modulus => SpecExpr::Modulus(Box::new(a), Box::new(b)),
        Operation::Sum => SpecExpr::Sum(Box::new(a), Box::new(b)),
        _ => SpecExpr::Xor(Box::new(a), Box::new(b)),
    }
}

/// Reads an expression from `pos`, `speaking` being the character who
/// speaks and `other` the one spoken to. Gives the expression and the count
/// of tokens taken.
///
/// A leading "a" is skipped; "twice" doubles what follows; "thyself",
/// "yourself", "you", "thou" stand for `other` and "me", "myself", "I" for
/// `speaking`; a character's name (with the names that follow it) stands for
/// that character; "the" introduces an operation, its connective word and
/// its arguments (two of them separated by "and"); anything else is a
/// constant noun phrase.
pub open spec fn eval_spec(
    toks: Seq<Token>,
    pos: nat,
    lex: Lexicon,
    speaking: Seq<char>,
    other: Seq<char>,
) -> Result<(SpecExpr, nat), CompileError>
    decreases toks.len() - pos,
{
    if pos < toks.len() && is_word(toks[pos as int]) {
        let w = toks[pos as int].text@;
        if w == "a"@ {
            after(eval_spec(toks, pos + 1, lex, speaking, other), 1)
        } else if w == "twice"@ {
            match eval_spec(toks, pos + 1, lex, speaking, other) {
                Ok((e, c)) => Ok((SpecExpr::Twice(Box::new(e)), c + 1)),
                Err(e) => Err(e),
            }
        } else if is_second_person_reflexive(w) {
            Ok((SpecExpr::Character(other), 1))
        } else if is_first_person_reflexive(w) {
            Ok((SpecExpr::Character(speaking), 1))
        } else if lex.is_character(w) {
            match name_tail(toks, pos + 1, lex) {
                Ok((t, c)) => Ok((SpecExpr::Character(w + t), c + 1)),
                Err(e) => Err(e),
            }
        } else if w == "the"@ {
            if pos + 2 >= toks.len() {
                Err(CompileError::UnexpectedEnd)
            } else {
                match operation_named(toks[pos + 1 as int].text@) {
                    None => Err(CompileError::UnknownOperation),
                    Some(op) => {
                        if toks[pos + 2 as int].text@ != connective(op) {
                            Err(CompileError::WrongConnective)
                        } else if !is_binary(op) {
                            match eval_spec(toks, pos + 3, lex, speaking, other) {
                                Ok((a, c)) => Ok((unary(op, a), c + 3)),
                                Err(e) => Err(e),
                            }
                        } else {
                            match eval_spec(toks, pos + 3, lex, speaking, other) {
                                Err(e) => Err(e),
                                Ok((a, c1)) => {
                                    let q = pos + 3 + c1;
                                    if q >= toks.len() {
                                        Err(CompileError::UnexpectedEnd)
                                    } else if toks[q as int].text@ != "and"@ {
                                        Err(CompileError::WrongConnective)
                                    } else {
                                        match eval_spec(toks, q + 1, lex, speaking, other) {
                                            Ok((b, c2)) => Ok((binary(op, a, b), c1 + c2 + 4)),
                                            Err(e) => Err(e),
                                        }
                                    }
                                },
                            }
                        }
                    },
                }
            }
        } else {
            match constant_scan(toks, pos, lex, 1) {
                Ok((v, c)) => Ok((SpecExpr::Constant(v), c)),
                Err(e) => Err(e),
            }
        }
    } else {
        match constant_scan(toks, pos, lex, 1) {
            Ok((v, c)) => Ok((SpecExpr::Constant(v), c)),
            Err(e) => Err(e),
        }
    }
}

/// Whether an executable result agrees with a specified one read from
/// `pos`, counting tokens taken as the distance to the position reached.
pub open spec fn agrees<T, V>(
    r: Result<(T, usize), CompileError>,
    pos: usize,
    s: Result<(V, nat), CompileError>,
    view: spec_fn(T) -> V,
) -> bool {
    match r {
        Ok((x, p)) => pos <= p && s == Ok::<(V, nat), CompileError>((view(x), (p - pos) as nat)),
        Err(e) => s == Err::<(V, nat), CompileError>(e),
    }
}

fn operation_of(w: &String) -> (r: Option<Operation>)
    ensures
        r == operation_named(w@),
{
    if is_text(w, "cube") {
        Some(Operation::Cube)
    } else if is_text(w, "difference") {
        Some(Operation::Difference)
    } else if is_text(w, "factorial") {
        Some(Operation::Factorial)
    } else if is_text(w, "product") {
        Some(Operation::Product)
    } else if is_text(w, "quotient") {
        Some(Operation::Quotient)
    } else if is_text(w, "modulus") {
        Some(Operation::Modulus)
    } else if is_text(w, "square") {
        Some(Operation::Square)
    } else if is_text(w, "root") {
        Some(Operation::Root)
    } else if is_text(w, "sum") {
        Some(Operation::Sum)
    } else if is_text(w, "xor") {
        Some(Operation::Xor)
    } else {
        None
    }
}

fn has_connective(w: &String, op: Operation) -> (b: bool)
    ensures
        b == (w@ == connective(op)),
{
    match op {
        Operation::Difference | Operation::Quotient => is_text(w, "between"),
        _ => is_text(w, "of"),
    }
}

fn binary_op(op: Operation) -> (b: bool)
    ensures
        b == is_binary(op),
{
    match op {
        Operation::Difference | Operation::Product | Operation::Quotient | Operation::Modulus
        | Operation::Sum | Operation::Xor => true,
        _ => false,
    }
}

fn apply_unary(op: Operation, a: Expr) -> (r: Expr)
    ensures
        r@ == unary(op, a@),
{
    match op {
        Operation::Cube => Expr::Cube(Box::new(a)),
        Operation::Factorial => Expr::Factorial(Box::new(a)),
        Operation::Square => Expr::Square(Box::new(a)),
        _ => Expr::Root(Box::new(a)),
    }
}

fn apply_binary(op: Operation, a: Expr, b: Expr) -> (r: Expr)
    ensures
        r@ == binary(op, a@, b@),
{
    match op {
        Operation::Difference => Expr::Difference(Box::new(a), Box::new(b)),
        Operation::Product => Expr::Product(Box::new(a), Box::new(b)),
        Operation::Quotient => Expr::Quotient(Box::new(a), Box::new(b)),
        Operation::Modulus => Expr::Modulus(Box::new(a), Box::new(b)),
        Operation::Sum => Expr::Sum(Box::new(a), Box::new(b)),
        _ => Expr::Xor(Box::new(a), Box::new(b)),
    }
}

fn constant_expr(toks: &Vec<Token>, pos: usize, lex: &Lexicon) -> (r: Result<
    (Expr, usize),
    CompileError,
>)
    requires
        pos <= toks.len(),
    ensures
        r matches Ok((_, p)) ==> p <= toks.len(),
        agrees(
            r,
            pos,
            match constant_scan(toks@, pos as nat, *lex, 1) {
                Ok((v, c)) => Ok((SpecExpr::Constant(v), c)),
                Err(e) => Err(e),
            },
            |e: Expr| e@,
        ),
{
    match constant_value(toks, pos, lex) {
        Ok((v, p)) => Ok((Expr::Constant(v), p)),
        Err(e) => Err(e),
    }
}

/// Reads an expression from `pos` (see `eval_spec`); gives it and the
/// position after it.
pub fn evaluate_expression(
    toks: &Vec<Token>,
    pos: usize,
    lex: &Lexicon,
    speaking: &String,
    other: &String,
) -> (r: Result<(Expr, usize), CompileError>)
    requires
        pos <= toks.len(),
    ensures
        r matches Ok((_, p)) ==> p <= toks.len(),
        agrees(r, pos, eval_spec(toks@, pos as nat, *lex, speaking@, other@), |e: Expr| e@),
    decreases toks.len() - pos,
{
    if pos < toks.len() && token_is_word(toks, pos) {
        let w = &toks[pos].text;
        if is_text(w, "a") {
            return evaluate_expression(toks, pos + 1, lex, speaking, other);
        } else if is_text(w, "twice") {
            return match evaluate_expression(toks, pos + 1, lex, speaking, other) {
                Ok((e, p)) => Ok((Expr::Twice(Box::new(e)), p)),
                Err(e) => Err(e),
            };
        } else if second_person_reflexive(w) {
            return Ok((Expr::Character(other.clone()), pos + 1));
        } else if first_person_reflexive(w) {
            return Ok((Expr::Character(speaking.clone()), pos + 1));
        } else if is_listed(&lex.characters, w) {
            let mut name = w.clone();
            return match read_name_tail(toks, pos + 1, lex, &mut name) {
                Ok(p) => {
                    proof {
                        assert(name@ =~= w@ + name@.skip(w@.len() as int));
                    }
                    Ok((Expr::Character(name), p))
                },
                Err(e) => Err(e),
            };
        } else if is_text(w, "the") {
            if toks.len() - pos <= 2 {
                return Err(CompileError::UnexpectedEnd);
            }
            let op = match operation_of(&toks[pos + 1].text) {
                None => {
                    return Err(CompileError::UnknownOperation);
                },
                Some(op) => op,
            };
            if !has_connective(&toks[pos + 2].text, op) {
                return Err(CompileError::WrongConnective);
            }
            if !binary_op(op) {
                return match evaluate_expression(toks, pos + 3, lex, speaking, other) {
                    Ok((a, p)) => Ok((apply_unary(op, a), p)),
                    Err(e) => Err(e),
                };
            }
            let (a, q) = match evaluate_expression(toks, pos + 3, lex, speaking, other) {
                Ok(x) => x,
                Err(e) => {
                    return Err(e);
                },
            };
            if q >= toks.len() {
                return Err(CompileError::UnexpectedEnd);
            }
            if !is_text(&toks[q].text, "and") {
                return Err(CompileError::WrongConnective);
            }
            return match evaluate_expression(toks, q + 1, lex, speaking, other) {
                Ok((b, p)) => Ok((apply_binary(op, a, b), p)),
                Err(e) => Err(e),
            };
        }
    }
    constant_expr(toks, pos, lex)
}

} // verus!
