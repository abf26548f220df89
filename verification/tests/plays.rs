use laertes::expression::{constant_value, evaluate_expression};
use laertes::lexicon::Lexicon;
use laertes::play::compile_play;
use laertes::outline::{compile_outline, outline_constant_value};
use laertes::program::{CompileError, Expr, Program, Relation, Scene, Statement};
use laertes::token::{Delimiter, Token, TokenKind};

fn convert(stream: proc_macro2::TokenStream) -> Vec<Token> {
    let mut out = Vec::new();
    for tree in stream {
        let text = tree.to_string();
        let kind = match tree {
            proc_macro2::TokenTree::Ident(_) => TokenKind::Ident,
            proc_macro2::TokenTree::Punct(_) => TokenKind::Punct,
            proc_macro2::TokenTree::Literal(_) => TokenKind::Literal,
            proc_macro2::TokenTree::Group(g) => {
                let d = match g.delimiter() {
                    proc_macro2::Delimiter::Parenthesis => Delimiter::Parenthesis,
                    proc_macro2::Delimiter::Brace => Delimiter::Brace,
                    proc_macro2::Delimiter::Bracket => Delimiter::Bracket,
                    proc_macro2::Delimiter::None => Delimiter::Invisible,
                };
                TokenKind::Group(d, convert(g.stream()))
            }
        };
        out.push(Token::new(kind, text));
    }
    out
}

fn tokens(src: &str) -> Vec<Token> {
    convert(src.parse::<proc_macro2::TokenStream>().unwrap())
}

fn lexicon() -> Lexicon {
    Lexicon::from_wordlists(
        "Romeo\nJuliet\nHamlet\nLady\nMacbeth\n",
        "cat\nflower\nking\npig\ncoward\ntoad\n",
        "pig\ncoward\ntoad\n",
        "better\nbigger\nfriendlier\n",
        "worse\nsmaller\npunier\n",
    )
}

fn s(x: &str) -> String {
    x.to_string()
}

fn name(x: &str) -> Box<Expr> {
    Box::new(Expr::Character(s(x)))
}

const HEADER: &str = "Romeo, a young man. Juliet, a lady. Act I: The beginning. Scene I: The start. [Enter Romeo and Juliet]";

fn one_scene(body: Vec<Statement>) -> Program {
    Program {
        characters: vec![s("Romeo"), s("Juliet")],
        scenes: vec![Scene { act: 1, number: 1, body }],
    }
}

#[test]
fn assignment_of_a_constant() {
    let play = format!("{} Juliet: You are as lovely as a cute cat. Open your heart. [Exeunt]", HEADER);
    let prog = compile_play(&tokens(&play), &lexicon()).unwrap();
    assert_eq!(
        prog,
        one_scene(vec![
            Statement::Assign { target: s("Romeo"), value: Expr::Constant(2) },
            Statement::PrintNumber(s("Romeo")),
        ])
    );
}

#[test]
fn negative_nouns_and_possessives() {
    let play = format!("{} Romeo: You are my big smelly old pig.", HEADER);
    let prog = compile_play(&tokens(&play), &lexicon()).unwrap();
    assert_eq!(
        prog,
        one_scene(vec![Statement::Assign { target: s("Juliet"), value: Expr::Constant(-8) }])
    );
}

#[test]
fn nothing_is_zero() {
    let play = format!("{} Romeo: You nothing.", HEADER);
    let prog = compile_play(&tokens(&play), &lexicon()).unwrap();
    assert_eq!(
        prog,
        one_scene(vec![Statement::Assign { target: s("Juliet"), value: Expr::Constant(0) }])
    );
}

#[test]
fn operations_and_names() {
    let play = format!(
        "{} Juliet: Thou art the sum of thyself and the difference between a cat and me. You are twice the square of Romeo.",
        HEADER
    );
    let prog = compile_play(&tokens(&play), &lexicon()).unwrap();
    assert_eq!(
        prog,
        one_scene(vec![
            Statement::Assign {
                target: s("Romeo"),
                value: Expr::Sum(
                    name("Romeo"),
                    Box::new(Expr::Difference(Box::new(Expr::Constant(1)), name("Juliet"))),
                ),
            },
            Statement::Assign {
                target: s("Romeo"),
                value: Expr::Twice(Box::new(Expr::Square(name("Romeo")))),
            },
        ])
    );
}

#[test]
fn comparisons_conditions_and_jumps() {
    let play = format!(
        "{} Juliet: Am I better than you? If so, let us proceed to scene II. Scene II: The end. Romeo: Are you as good as a flower? If not, we shall return to act I. Let us return to the beginning.",
        HEADER
    );
    let prog = compile_play(&tokens(&play), &lexicon()).unwrap();
    assert_eq!(
        prog,
        Program {
            characters: vec![s("Romeo"), s("Juliet")],
            scenes: vec![
                Scene {
                    act: 1,
                    number: 1,
                    body: vec![
                        Statement::Compare {
                            lhs: Expr::Character(s("Juliet")),
                            relation: Relation::Greater,
                            rhs: Expr::Character(s("Romeo")),
                        },
                        Statement::Decide { negate: false },
                        Statement::Jump { act: 1, scene: 2 },
                    ],
                },
                Scene {
                    act: 1,
                    number: 2,
                    body: vec![
                        Statement::Compare {
                            lhs: Expr::Character(s("Juliet")),
                            relation: Relation::Equal,
                            rhs: Expr::Constant(1),
                        },
                        Statement::Decide { negate: true },
                        Statement::Jump { act: 1, scene: 1 },
                        Statement::Jump { act: 1, scene: 1 },
                    ],
                },
            ],
        }
    );
}

#[test]
fn stacks_and_input() {
    let play = format!(
        "{} Juliet: Remember thyself. Recall your past. Listen to your heart. Open your mind. Speak your mind.",
        HEADER
    );
    let prog = compile_play(&tokens(&play), &lexicon()).unwrap();
    assert_eq!(
        prog,
        one_scene(vec![
            Statement::Push { stack: s("Romeo"), value: Expr::Character(s("Romeo")) },
            Statement::Pop(s("Romeo")),
            Statement::ReadNumber(s("Romeo")),
            Statement::ReadCharacter(s("Romeo")),
            Statement::PrintCharacter(s("Romeo")),
        ])
    );
}

#[test]
fn speaker_must_be_on_stage() {
    let play = "Romeo, a man. Hamlet, a prince. Act I: A. Scene I: B. [Enter Romeo] Hamlet: You are a cat.";
    assert_eq!(compile_play(&tokens(play), &lexicon()), Err(CompileError::CharacterNotOnStage));
}

#[test]
fn two_must_be_on_stage() {
    let play = "Romeo, a man. Act I: A. Scene I: B. [Enter Romeo] Romeo: You are a cat.";
    assert_eq!(compile_play(&tokens(play), &lexicon()), Err(CompileError::NotTwoOnStage));
}

#[test]
fn unknown_operation() {
    let play = format!("{} Juliet: You are the wonder of a cat.", HEADER);
    assert_eq!(compile_play(&tokens(&play), &lexicon()), Err(CompileError::UnknownOperation));
}

#[test]
fn play_without_scenes() {
    let play = "Romeo, a man. Act I: A.";
    assert_eq!(compile_play(&tokens(play), &lexicon()), Err(CompileError::NoScenes));
}

#[test]
fn outline_of_a_play() {
    let play = "Romeo, a man. Juliet, a lady. act I: A. scene I: B. [Enter Romeo] scene II: C. act II: D. scene I: E.";
    let prog = compile_outline(&tokens(play)).unwrap();
    assert_eq!(
        prog,
        Program {
            characters: vec![s("Romeo"), s("Juliet")],
            scenes: vec![
                Scene { act: 1, number: 1, body: vec![] },
                Scene { act: 1, number: 2, body: vec![] },
                Scene { act: 2, number: 1, body: vec![] },
            ],
        }
    );
}

fn err(play: &str) -> CompileError {
    compile_play(&tokens(play), &lexicon()).unwrap_err()
}

#[test]
fn cast_must_end_with_an_act() {
    assert_eq!(err("Romeo, a man. Juliet, a lady."), CompileError::UnexpectedEnd);
    assert_eq!(err("Romeo, a man. 42 Act I: A."), CompileError::ExpectedCharacter);
}

#[test]
fn act_heading_in_capitals_ends_the_cast() {
    // "ACT" ends the cast, as the cast is read in any case, but it begins no
    // act, as headings are read as written.
    assert_eq!(err("Romeo, a man. ACT I: A. Scene I: B."), CompileError::NoAct);
}

#[test]
fn statement_before_scene() {
    assert_eq!(err("Romeo, a man. Juliet, a lady. Act I: A. [Enter Romeo and Juliet] Juliet: You cat."), CompileError::NoScene);
}

#[test]
fn wrong_connectives() {
    assert_eq!(err(&format!("{} Juliet: You are the sum between a cat and a cat.", HEADER)), CompileError::WrongConnective);
    assert_eq!(err(&format!("{} Juliet: You are the sum of a cat or a cat.", HEADER)), CompileError::WrongConnective);
    assert_eq!(err(&format!("{} Juliet: You are as good than a cat.", HEADER)), CompileError::WrongConnective);
    assert_eq!(err(&format!("{} Juliet: Are you as good than a cat?", HEADER)), CompileError::WrongConnective);
}

#[test]
fn constant_too_large() {
    let adjectives = "big ".repeat(62);
    let fits = format!("{} Juliet: You {}cat.", HEADER, adjectives);
    let prog = compile_play(&tokens(&fits), &lexicon()).unwrap();
    assert_eq!(prog.scenes[0].body[0], Statement::Assign { target: s("Romeo"), value: Expr::Constant(1isize << 62) });
    let adjectives = "big ".repeat(63);
    assert_eq!(err(&format!("{} Juliet: You {}cat.", HEADER, adjectives)), CompileError::ConstantOverflow);
}

#[test]
fn conditions() {
    assert_eq!(err(&format!("{} Juliet: If maybe, let us proceed to scene I.", HEADER)), CompileError::BadCondition);
    assert_eq!(err(&format!("{} Juliet: If so let us proceed to scene I.", HEADER)), CompileError::ConditionWithoutPunctuation);
}

#[test]
fn invalid_comparison() {
    assert_eq!(err(&format!("{} Juliet: Am I fairer than you?", HEADER)), CompileError::InvalidComparison);
}

#[test]
fn comparisons_of_less() {
    let play = format!("{} Juliet: Is the square of you worse than a pig?", HEADER);
    let prog = compile_play(&tokens(&play), &lexicon()).unwrap();
    assert_eq!(
        prog.scenes[0].body,
        vec![Statement::Compare {
            lhs: Expr::Square(name("Romeo")),
            relation: Relation::Less,
            rhs: Expr::Constant(-1),
        }]
    );
}

#[test]
fn jumps() {
    assert_eq!(err(&format!("{} Juliet: Let us proceed to the middle.", HEADER)), CompileError::UnknownJumpTarget);
    let far = "M".repeat(4_294_968);
    assert_eq!(err(&format!("{} Juliet: Let us proceed to act {}.", HEADER, far)), CompileError::NumeralTooLarge);
    let play = format!("{} Juliet: Let us proceed to ACT IV. We shall return to Scene IX.", HEADER);
    let prog = compile_play(&tokens(&play), &lexicon()).unwrap();
    assert_eq!(
        prog.scenes[0].body,
        vec![Statement::Jump { act: 4, scene: 1 }, Statement::Jump { act: 1, scene: 9 }]
    );
}

#[test]
fn jumps_by_title_ignore_case_and_other_characters() {
    let play = format!(
        "{} Juliet: Let us return to THE START. Let us return to the_beginning. Let us return to the Start!",
        HEADER
    );
    let prog = compile_play(&tokens(&play), &lexicon()).unwrap();
    assert_eq!(
        prog.scenes[0].body,
        vec![
            Statement::Jump { act: 1, scene: 1 },
            Statement::Jump { act: 1, scene: 1 },
            Statement::Jump { act: 1, scene: 1 },
        ]
    );
}

#[test]
fn jump_to_a_later_scene_title() {
    let play = "Romeo, a man. Juliet, a lady. Act I: One. Scene I: A. Scene II: B. Act II: Two. Scene I: C. [Enter Romeo and Juliet] Romeo: Let us return to b. We shall return to two.";
    let prog = compile_play(&tokens(play), &lexicon()).unwrap();
    assert_eq!(
        prog.scenes[2].body,
        vec![Statement::Jump { act: 1, scene: 2 }, Statement::Jump { act: 2, scene: 1 }]
    );
}

#[test]
fn jump_forward_to_a_title_read_later() {
    let play = "Romeo, a man. Juliet, a lady. Act I: One. Scene I: A. [Enter Romeo and Juliet] Romeo: Let us proceed to the end. We shall proceed to two. Scene II: B. Act II: Two. Scene I: The End.";
    let prog = compile_play(&tokens(play), &lexicon()).unwrap();
    assert_eq!(
        prog.scenes[0].body,
        vec![Statement::Jump { act: 2, scene: 1 }, Statement::Jump { act: 2, scene: 1 }]
    );
    // the first act or scene in play order with the title wins
    let twice = "Romeo, a man. Juliet, a lady. Act I: One. Scene I: A. [Enter Romeo and Juliet] Romeo: Let us proceed to c. Scene II: C. Act II: C. Scene I: D.";
    let prog = compile_play(&tokens(twice), &lexicon()).unwrap();
    assert_eq!(prog.scenes[0].body, vec![Statement::Jump { act: 1, scene: 2 }]);
}

#[test]
fn stage_directions() {
    let head = "Romeo, a man. Juliet, a lady. Act I: A. Scene I: B.";
    assert_eq!(err(&format!("{} (Enter Romeo)", head)), CompileError::NotBrackets);
    assert_eq!(err(&format!("{} []", head)), CompileError::EmptyStageDirection);
    assert_eq!(err(&format!("{} [Enter]", head)), CompileError::NobodyNamed);
    assert_eq!(err(&format!("{} [Exit]", head)), CompileError::NobodyNamed);
    assert_eq!(err(&format!("{} [Exit Romeo and Juliet]", head)), CompileError::ExitOfSeveral);
    // other directions change nothing
    let prog = compile_play(&tokens(&format!("{} [Sound of trumpets]", head)), &lexicon()).unwrap();
    assert_eq!(prog.scenes[0].body, vec![]);
}

#[test]
fn entering_twice_keeps_one_on_stage() {
    let play = "Romeo, a man. Juliet, a lady. Act I: A. Scene I: B. [Enter Romeo] [Enter Romeo and Juliet] Juliet: You cat.";
    let prog = compile_play(&tokens(play), &lexicon()).unwrap();
    assert_eq!(prog.scenes[0].body, vec![Statement::Assign { target: s("Romeo"), value: Expr::Constant(1) }]);
}

#[test]
fn leaving_the_stage() {
    let head = "Romeo, a man. Juliet, a lady. Hamlet, a prince. Act I: A. Scene I: B. [Enter Romeo and Juliet and Hamlet]";
    assert_eq!(err(&format!("{} Juliet: You cat.", head)), CompileError::NotTwoOnStage);
    let play = format!("{} [Exit Hamlet] Juliet: You cat. [Exeunt Romeo and Juliet] [Enter Hamlet] Hamlet: You cat.", head);
    assert_eq!(err(&play), CompileError::NotTwoOnStage);
    let play = format!("{} [Exeunt] [Enter Hamlet and Romeo] Hamlet: You cat.", head);
    let prog = compile_play(&tokens(&play), &lexicon()).unwrap();
    assert_eq!(prog.scenes[0].body, vec![Statement::Assign { target: s("Romeo"), value: Expr::Constant(1) }]);
}

#[test]
fn names_of_several_words() {
    let play = "Lady Macbeth, a lady. Romeo, a man. Act I: A. Scene I: B. [Enter Lady Macbeth and Romeo] Lady Macbeth: You are the product of Lady Macbeth and a cat.";
    let prog = compile_play(&tokens(play), &lexicon()).unwrap();
    assert_eq!(prog.characters, vec![s("LadyMacbeth"), s("Romeo")]);
    assert_eq!(
        prog.scenes[0].body,
        vec![Statement::Assign {
            target: s("Romeo"),
            value: Expr::Product(name("LadyMacbeth"), Box::new(Expr::Constant(1))),
        }]
    );
}

#[test]
fn remaining_operations() {
    let play = format!(
        "{} Juliet: You are the cube of the factorial of the root of the quotient between the modulus of a cat and a cat and the xor of a cat and a cat.",
        HEADER
    );
    let prog = compile_play(&tokens(&play), &lexicon()).unwrap();
    let one = || Box::new(Expr::Constant(1));
    assert_eq!(
        prog.scenes[0].body,
        vec![Statement::Assign {
            target: s("Romeo"),
            value: Expr::Cube(Box::new(Expr::Factorial(Box::new(Expr::Root(Box::new(Expr::Quotient(
                Box::new(Expr::Modulus(one(), one())),
                Box::new(Expr::Xor(one(), one())),
            ))))))),
        }]
    );
}

#[test]
fn scenes_are_numbered_per_act() {
    let play = "Romeo, a man. Act I: A. Act II: B. Scene I: C. Scene II: D. Act III: E. Scene I: F.";
    let prog = compile_play(&tokens(play), &lexicon()).unwrap();
    let ids: Vec<(u32, u32)> = prog.scenes.iter().map(|sc| (sc.act, sc.number)).collect();
    assert_eq!(ids, vec![(2, 1), (2, 2), (3, 1)]);
}

#[test]
fn outline_refusals() {
    assert_eq!(compile_outline(&tokens("Romeo, a man. act I: A.")), Err(CompileError::NoScenes));
    assert_eq!(compile_outline(&tokens("Romeo, a man. act I: A. scene I: B. (x)")), Err(CompileError::NotBrackets));
    assert_eq!(compile_outline(&tokens("Romeo, a man. act I: A. scene I: B. []")), Err(CompileError::EmptyStageDirection));
}

#[test]
fn scenes_follow_one_another() {
    let play = "Romeo, a man. Act I: A. Scene I: B. Scene II: C. Act II: D. Scene I: E.";
    let prog = compile_play(&tokens(play), &lexicon()).unwrap();
    assert_eq!(prog.next_scene(0), Some((1, 2)));
    assert_eq!(prog.next_scene(1), Some((2, 1)));
    assert_eq!(prog.next_scene(2), None);
}

#[test]
fn outline_constants_are_one() {
    let toks = tokens("a big big cat. rest");
    // four words and the full stop are passed over
    assert_eq!(outline_constant_value(&toks, 0), (1, 5));
    assert_eq!(outline_constant_value(&toks, 3), (1, 5));
    // a run that reaches the end takes no ending token
    assert_eq!(outline_constant_value(&toks, 5), (1, 6));
    assert_eq!(outline_constant_value(&toks, 6), (1, 6));
}

#[test]
fn each_adjective_doubles_a_constant() {
    let lex = lexicon();
    let toks = tokens("big cat. big big pig. my big a fat cat.");
    assert_eq!(constant_value(&toks, 1, &lex), Ok((1, 2)));
    assert_eq!(constant_value(&toks, 0, &lex), Ok((2, 2)));
    assert_eq!(constant_value(&toks, 5, &lex), Ok((-1, 6)));
    assert_eq!(constant_value(&toks, 4, &lex), Ok((-2, 6)));
    assert_eq!(constant_value(&toks, 3, &lex), Ok((-4, 6)));
    // possessives and articles do not double
    assert_eq!(constant_value(&toks, 7, &lex), Ok((4, 12)));
}

#[test]
fn zero_words_give_nothing() {
    let lex = lexicon();
    let toks = tokens("big big zero cat. my nothing");
    assert_eq!(constant_value(&toks, 0, &lex), Ok((0, 3)));
    assert_eq!(constant_value(&toks, 5, &lex), Ok((0, 7)));
}

#[test]
fn operations_apply_to_their_arguments() {
    let lex = lexicon();
    let me = s("Romeo");
    let you = s("Juliet");
    let toks = tokens("the sum of a big cat and a pig. the difference between you and me.");
    assert_eq!(
        evaluate_expression(&toks, 0, &lex, &me, &you),
        Ok((Expr::Sum(Box::new(Expr::Constant(2)), Box::new(Expr::Constant(-1))), 9))
    );
    assert_eq!(
        evaluate_expression(&toks, 10, &lex, &me, &you),
        Ok((Expr::Difference(name("Juliet"), name("Romeo")), 16))
    );
    let toks = tokens("the cube of the square of a cat.");
    assert_eq!(
        evaluate_expression(&toks, 0, &lex, &me, &you),
        Ok((Expr::Cube(Box::new(Expr::Square(Box::new(Expr::Constant(1))))), 8))
    );
}

#[test]
fn headings_and_keywords_are_read_by_their_lower_case_text() {
    fn word(text: &str, lower: &str) -> Token {
        Token { kind: TokenKind::Ident, text: s(text), lower: s(lower) }
    }
    fn punct(text: &str) -> Token {
        Token { kind: TokenKind::Punct, text: s(text), lower: s(text) }
    }
    // the tokens carry their lower-cased text; the cast ends at the first
    // word whose lower-cased text is "act"
    let toks = vec![
        word("Romeo", "romeo"),
        punct(","),
        word("man", "man"),
        punct("."),
        word("Akt", "act"),
        word("Act", "act"),
        word("I", "i"),
        punct(":"),
        word("Eins", "one"),
        punct("."),
        word("Scene", "scene"),
        word("I", "i"),
        punct(":"),
        word("A", "a"),
        punct("."),
    ];
    let prog = compile_play(&toks, &lexicon()).unwrap();
    assert_eq!(prog.characters, vec![s("Romeo")]);
    assert_eq!(prog.scenes, vec![Scene { act: 1, number: 1, body: vec![] }]);
    assert_eq!(Token::new(TokenKind::Ident, s("ACT")).lower, s("act"));
}

#[test]
fn stage_directions_act_on_the_stage_as_a_set() {
    // Enter adds every name, Exeunt takes off every name, a bare Exeunt
    // clears the stage; who is spoken to shows who is on stage
    let head = "Romeo, a man. Juliet, a lady. Hamlet, a prince. Act I: A. Scene I: B.";
    let play = format!("{} [Enter Romeo and Juliet and Hamlet] [Exeunt Juliet and Hamlet] [Enter Juliet] Romeo: Speak your mind!", head);
    let prog = compile_play(&tokens(&play), &lexicon()).unwrap();
    assert_eq!(prog.scenes[0].body, vec![Statement::PrintCharacter(s("Juliet"))]);
    let play = format!("{} [Enter Romeo and Juliet] [Exeunt] [Enter Hamlet and Juliet] Juliet: Speak your mind!", head);
    let prog = compile_play(&tokens(&play), &lexicon()).unwrap();
    assert_eq!(prog.scenes[0].body, vec![Statement::PrintCharacter(s("Hamlet"))]);
}
