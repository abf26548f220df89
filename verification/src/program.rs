//! What a play compiles to: the characters it declares and its scenes, in
//! order, each a list of statements over the characters' values.

use vstd::prelude::*;

verus! {

/// An expression over the characters' values.
#[derive(Debug, PartialEq, Eq)]
pub enum Expr {
    /// A constant noun phrase.
    Constant(isize),
    /// The value of a character.
    Character(String),
    /// Twice a value.
    Twice(Box<Expr>),
    /// The cube of a value.
    Cube(Box<Expr>),
    /// The difference between two values.
    Difference(Box<Expr>, Box<Expr>),
    /// The factorial of a value.
    Factorial(Box<Expr>),
    /// The product of two values.
    Product(Box<Expr>, Box<Expr>),
    /// The quotient between two values.
    Quotient(Box<Expr>, Box<Expr>),
    /// The remainder of two values.
    Modulus(Box<Expr>, Box<Expr>),
    /// The square of a value.
    Square(Box<Expr>),
    /// The square root of a value.
    Root(Box<Expr>),
    /// The sum of two values.
    Sum(Box<Expr>, Box<Expr>),
    /// The bitwise exclusive or of two values.
    Xor(Box<Expr>, Box<Expr>),
}

/// An expression, with texts for names.
pub enum SpecExpr {
    Constant(int),
    Character(Seq<char>),
    Twice(Box<SpecExpr>),
    Cube(Box<SpecExpr>),
    Difference(Box<SpecExpr>, Box<SpecExpr>),
    Factorial(Box<SpecExpr>),
    Product(Box<SpecExpr>, Box<SpecExpr>),
    Quotient(Box<SpecExpr>, Box<SpecExpr>),
    Modulus(Box<SpecExpr>, Box<SpecExpr>),
    Square(Box<SpecExpr>),
    Root(Box<SpecExpr>),
    Sum(Box<SpecExpr>, Box<SpecExpr>),
    Xor(Box<SpecExpr>, Box<SpecExpr>),
}

/// An expression, with texts for names.
pub open spec fn expr_view(e: Expr) -> SpecExpr
    decreases e,
{
    match e {
        Expr::Constant(v) => SpecExpr::Constant(v as int),
        Expr::Character(n) => SpecExpr::Character(n@),
        Expr::Twice(a) => SpecExpr::Twice(Box::new(expr_view(*a))),
        Expr::Cube(a) => SpecExpr::Cube(Box::new(expr_view(*a))),
        Expr::Difference(a, b) => SpecExpr::Difference(
            Box::new(expr_view(*a)),
            Box::new(expr_view(*b)),
        ),
        Expr::Factorial(a) => SpecExpr::Factorial(Box::new(expr_view(*a))),
        Expr::Product(a, b) => SpecExpr::Product(Box::new(expr_view(*a)), Box::new(expr_view(*b))),
        Expr::Quotient(a, b) => SpecExpr::Quotient(
            Box::new(expr_view(*a)),
            Box::new(expr_view(*b)),
        ),
        Expr::Modulus(a, b) => SpecExpr::Modulus(Box::new(expr_view(*a)), Box::new(expr_view(*b))),
        Expr::Square(a) => SpecExpr::Square(Box::new(expr_view(*a))),
        Expr::Root(a) => SpecExpr::Root(Box::new(expr_view(*a))),
        Expr::Sum(a, b) => SpecExpr::Sum(Box::new(expr_view(*a)), Box::new(expr_view(*b))),
        Expr::Xor(a, b) => SpecExpr::Xor(Box::new(expr_view(*a)), Box::new(expr_view(*b))),
    }
}

impl View for Expr {
    type V = SpecExpr;

    open spec fn view(&self) -> SpecExpr {
        expr_view(*self)
    }
}

/// How a comparison relates its two values.
#[derive(Debug, Clone, Copy, PartialEq, Eq, Structural)]
pub enum Relation {
    Equal,
    Less,
    Greater,
}

/// A statement of a scene.
#[derive(Debug, PartialEq, Eq)]
pub enum Statement {
    /// The character addressed takes a value.
    Assign { target: String, value: Expr },
    /// A character is read from input into the character addressed.
    ReadCharacter(String),
    /// The value of the character addressed is printed as a number.
    PrintNumber(String),
    /// The value of the character addressed is printed as a character.
    PrintCharacter(String),
    /// A number is read from input into the character addressed.
    ReadNumber(String),
    /// The condition that guards the next jump is set from the last
    /// comparison ("If so"), or from its negation ("If not").
    Decide { negate: bool },
    /// A comparison, whose outcome is kept for the next decision.
    Compare { lhs: Expr, relation: Relation, rhs: Expr },
    /// A jump, when the condition holds, to a scene given by its act and
    /// its number within the act; the condition holds again afterwards.
    Jump { act: usize, scene: usize },
    /// A value is pushed on the stack of the character addressed.
    Push { stack: String, value: Expr },
    /// The character addressed takes the value popped from its stack.
    Pop(String),
}

/// A statement, with texts for names.
pub enum SpecStatement {
    Assign { target: Seq<char>, value: SpecExpr },
    ReadCharacter(Seq<char>),
    PrintNumber(Seq<char>),
    PrintCharacter(Seq<char>),
    ReadNumber(Seq<char>),
    Decide { negate: bool },
    Compare { lhs: SpecExpr, relation: Relation, rhs: SpecExpr },
    Jump { act: nat, scene: nat },
    Push { stack: Seq<char>, value: SpecExpr },
    Pop(Seq<char>),
}

impl View for Statement {
    type V = SpecStatement;

    open spec fn view(&self) -> SpecStatement {
        match self {
            Statement::Assign { target, value } => SpecStatement::Assign {
                target: target@,
                value: value@,
            },
            Statement::ReadCharacter(n) => SpecStatement::ReadCharacter(n@),
            Statement::PrintNumber(n) => SpecStatement::PrintNumber(n@),
            Statement::PrintCharacter(n) => SpecStatement::PrintCharacter(n@),
            Statement::ReadNumber(n) => SpecStatement::ReadNumber(n@),
            Statement::Decide { negate } => SpecStatement::Decide { negate: *negate },
            Statement::Compare { lhs, relation, rhs } => SpecStatement::Compare {
                lhs: lhs@,
                relation: *relation,
                rhs: rhs@,
            },
            Statement::Jump { act, scene } => SpecStatement::Jump {
                act: *act as nat,
                scene: *scene as nat,
            },
            Statement::Push { stack, value } => SpecStatement::Push {
                stack: stack@,
                value: value@,
            },
            Statement::Pop(n) => SpecStatement::Pop(n@),
        }
    }
}

/// A scene: its act, its number within the act, and its statements.
#[derive(Debug, PartialEq, Eq)]
pub struct Scene {
    pub act: u32,
    pub number: u32,
    pub body: Vec<Statement>,
}

/// A scene, with texts for names.
pub struct SpecScene {
    pub act: nat,
    pub number: nat,
    pub body: Seq<SpecStatement>,
}

/// The views of a sequence of statements.
pub open spec fn statements_view(s: Seq<Statement>) -> Seq<SpecStatement> {
    s.map_values(|x: Statement| x@)
}

impl View for Scene {
    type V = SpecScene;

    open spec fn view(&self) -> SpecScene {
        SpecScene {
            act: self.act as nat,
            number: self.number as nat,
            body: statements_view(self.body@),
        }
    }
}

/// The views of a sequence of scenes.
pub open spec fn scenes_view(s: Seq<Scene>) -> Seq<SpecScene> {
    s.map_values(|x: Scene| x@)
}

/// A compiled play: the names of its characters, in the order they are
/// declared, and its scenes, in the order they are played.
#[derive(Debug, PartialEq, Eq)]
pub struct Program {
    pub characters: Vec<String>,
    pub scenes: Vec<Scene>,
}

impl Program {
    /// The scene that is played after the `i`-th when it ends without a
    /// jump: the next one in order, given by its act and number; after the
    /// last scene the play ends.
    pub fn next_scene(&self, i: usize) -> (r: Option<(u32, u32)>)
        requires
            i < self.scenes.len(),
        ensures
            i + 1 < self.scenes.len() ==> r == Some(
                (self.scenes@[i + 1].act, self.scenes@[i + 1].number),
            ),
            i + 1 == self.scenes.len() ==> r is None,
    {
        if i + 1 < self.scenes.len() {
            Some((self.scenes[i + 1].act, self.scenes[i + 1].number))
        } else {
            None
        }
    }
}

/// A compiled play, with texts for names.
pub struct SpecProgram {
    pub characters: Seq<Seq<char>>,
    pub scenes: Seq<SpecScene>,
}

impl View for Program {
    type V = SpecProgram;

    open spec fn view(&self) -> SpecProgram {
        SpecProgram {
            characters: self.characters@.map_values(|x: String| x@),
            scenes: scenes_view(self.scenes@),
        }
    }
}

/// Why a play is refused.
#[derive(Debug, Clone, Copy, PartialEq, Eq, Structural)]
pub enum CompileError {
    /// The play ends where a word was due.
    UnexpectedEnd,
    /// Something other than a word stands where a character's name or the
    /// first act was due.
    ExpectedCharacter,
    /// "the" is followed by a word that names no operation.
    UnknownOperation,
    /// An operation is not followed by the word it takes ("of", "between"),
    /// its arguments are not separated by "and", or "as" does not come twice.
    WrongConnective,
    /// A constant does not fit in an `isize`.
    ConstantOverflow,
    /// A scene comes before any act.
    NoAct,
    /// A statement comes before any scene.
    NoScene,
    /// A character speaks who is not on stage.
    CharacterNotOnStage,
    /// A statement addresses another character, but there is not exactly one
    /// other character on stage.
    NotTwoOnStage,
    /// "If" is followed by neither "so" nor "not".
    BadCondition,
    /// "If so" or "If not" is not followed by punctuation.
    ConditionWithoutPunctuation,
    /// A question compares with a word that is no comparative.
    InvalidComparison,
    /// A roman numeral does not fit in a `u32`.
    NumeralTooLarge,
    /// A jump by title names no act or scene of the play.
    UnknownJumpTarget,
    /// A group of tokens is not in brackets.
    NotBrackets,
    /// Brackets hold nothing.
    EmptyStageDirection,
    /// "Enter" or "Exit" names nobody.
    NobodyNamed,
    /// "Exit" names more than one character.
    ExitOfSeveral,
    /// The play has no scene.
    NoScenes,
    /// An act or scene number does not fit in a `u32`.
    CounterOverflow,
}

} // verus!
