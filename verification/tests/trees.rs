use haessig::ast::{
    Arg, Bin, BinOperator, Block, Call, Expr, FunAss, Prim, PrimType, Ret, StEx, Stmt, VarAss,
};
use haessig::lexer::{Lexer, Token, TT};
use haessig::parser::{ParseError, Parser};

fn num(n: u8) -> Expr<'static> {
    Expr::Prim(Prim::R8(n))
}

fn bin<'a>(op: BinOperator, lhs: Expr<'a>, rhs: Expr<'a>) -> Expr<'a> {
    Expr::Bin(Bin {
        op,
        lhs: Box::new(lhs),
        rhs: Box::new(rhs),
    })
}

fn var<'a>(id: &'a str, value: Expr<'a>) -> Stmt<'a> {
    Stmt::VarAss(VarAss {
        id,
        value,
        pt: None,
    })
}

#[test]
fn variable_by_number() {
    let toks = Lexer::new("dä x isch 5;").lex();
    let ast = Parser::new(&toks).parse();
    assert_eq!(ast, Ok(vec![var("x", num(5))]));
}

#[test]
fn variable_by_string_keeps_the_quotes() {
    let toks = Lexer::new("dä x isch \"5\";").lex();
    let ast = Parser::new(&toks).parse();
    assert_eq!(ast, Ok(vec![var("x", Expr::Prim(Prim::Str("\"5\"")))]));
}

#[test]
fn variable_by_truth_values() {
    let toks = Lexer::new("dä x isch wahr ;\ndä y isch falsch ;").lex();
    let ast = Parser::new(&toks).parse();
    assert_eq!(
        ast,
        Ok(vec![
            var("x", Expr::Prim(Prim::Bool(true))),
            var("y", Expr::Prim(Prim::Bool(false))),
        ])
    );
}

#[test]
fn variable_by_name() {
    let toks = Lexer::new("dä x isch wahr;").lex();
    let ast = Parser::new(&toks).parse();
    assert_eq!(ast, Ok(vec![var("x", Expr::Prim(Prim::Id("wahr")))]));
}

#[test]
fn variable_with_declared_type() {
    let toks = Lexer::new("dä x isch 5 als N8 ;").lex();
    let ast = Parser::new(&toks).parse();
    assert_eq!(
        ast,
        Ok(vec![Stmt::VarAss(VarAss {
            id: "x",
            value: num(5),
            pt: Some(PrimType::N8),
        })])
    );
}

#[test]
fn operators_group_from_the_left() {
    let toks = Lexer::new("dä x isch 5 plus 5 minus 7;").lex();
    let ast = Parser::new(&toks).parse();
    assert_eq!(
        ast,
        Ok(vec![var(
            "x",
            bin(
                BinOperator::Minus,
                bin(BinOperator::Plus, num(5), num(5)),
                num(7)
            )
        )])
    );
}

#[test]
fn operators_have_no_precedence() {
    let toks = Lexer::new("gib 1 plus 2 mal 3 gliich 9 und wahr ;").lex();
    let ast = Parser::new(&toks).parse();
    let expected = bin(
        BinOperator::Und,
        bin(
            BinOperator::Gliich,
            bin(
                BinOperator::Mal,
                bin(BinOperator::Plus, num(1), num(2)),
                num(3),
            ),
            num(9),
        ),
        Expr::Prim(Prim::Bool(true)),
    );
    assert_eq!(ast, Ok(vec![Stmt::Ret(Ret { expr: expected })]));
}

#[test]
fn every_operator_word() {
    let words = [
        ("gliich", BinOperator::Gliich),
        ("grössergliich", BinOperator::GroesserGliich),
        ("grösser", BinOperator::Groesser),
        ("chlinnergliich", BinOperator::ChlinnerGliich),
        ("chlinner", BinOperator::Chlinner),
        ("ungliich", BinOperator::Ungliich),
        ("und", BinOperator::Und),
        ("oder", BinOperator::Oder),
        ("rescht", BinOperator::Rescht),
        ("hoch", BinOperator::Hoch),
        ("mal", BinOperator::Mal),
        ("durch", BinOperator::Durch),
        ("plus", BinOperator::Plus),
        ("minus", BinOperator::Minus),
    ];
    for (word, op) in words {
        assert_eq!(BinOperator::from_word(word), Some(op));
        let source = format!("gib 1 {} 2;", word);
        let toks = Lexer::new(&source).lex();
        let ast = Parser::new(&toks).parse();
        assert_eq!(
            ast,
            Ok(vec![Stmt::Ret(Ret {
                expr: bin(op, num(1), num(2))
            })])
        );
    }
    assert_eq!(BinOperator::from_word("Plus"), None);
    assert_eq!(BinOperator::from_word(""), None);
    assert_eq!(BinOperator::from_word("x"), None);
}

#[test]
fn type_keywords() {
    assert_eq!(PrimType::from_tt(TT::TypZeiche), Some(PrimType::String));
    assert_eq!(PrimType::from_tt(TT::TypR8), Some(PrimType::R8));
    assert_eq!(PrimType::from_tt(TT::TypN8), Some(PrimType::N8));
    assert_eq!(PrimType::from_tt(TT::TypZ8), Some(PrimType::Z8));
    assert_eq!(PrimType::from_tt(TT::TypWahrheit), Some(PrimType::Boolean));
    assert_eq!(PrimType::from_tt(TT::Id), None);
    assert_eq!(PrimType::from_tt(TT::Git), None);
}

#[test]
fn block_statement() {
    let toks = Lexer::new("{dä x isch 5;};").lex();
    let ast = Parser::new(&toks).parse();
    assert_eq!(
        ast,
        Ok(vec![Stmt::StEx(StEx::Block(Block {
            stmts: vec![var("x", num(5))]
        }))])
    );
}

#[test]
fn function_without_clauses() {
    let toks = Lexer::new("funktion f {};").lex();
    let ast = Parser::new(&toks).parse();
    assert_eq!(
        ast,
        Ok(vec![Stmt::FunAss(FunAss {
            id: "f",
            args: vec![],
            body: Block { stmts: vec![] },
            ret: None,
        })])
    );
}

#[test]
fn function_with_parameters_and_return_type() {
    let toks = Lexer::new("funktion f het N8 x, N8 y git N8 {};").lex();
    let ast = Parser::new(&toks).parse();
    assert_eq!(
        ast,
        Ok(vec![Stmt::FunAss(FunAss {
            id: "f",
            args: vec![
                Arg {
                    id: "x",
                    pt: PrimType::N8
                },
                Arg {
                    id: "y",
                    pt: PrimType::N8
                },
            ],
            body: Block { stmts: vec![] },
            ret: Some(PrimType::N8),
        })])
    );
}

#[test]
fn function_with_every_type() {
    let toks =
        Lexer::new("funktion f het Zeiche a, R8 b, N8 c, Z8 d, Wahrheit e git Zeiche {};").lex();
    let ast = Parser::new(&toks).parse().unwrap();
    match &ast[0] {
        Stmt::FunAss(f) => {
            let types: Vec<PrimType> = f.args.iter().map(|a| a.pt).collect();
            assert_eq!(
                types,
                vec![
                    PrimType::String,
                    PrimType::R8,
                    PrimType::N8,
                    PrimType::Z8,
                    PrimType::Boolean
                ]
            );
            assert_eq!(f.ret, Some(PrimType::String));
        }
        other => panic!("not a function: {:?}", other),
    }
}

#[test]
fn duplicate_parameters_are_no_parse_error() {
    let toks = Lexer::new("funktion f het N8 x, N8 x {};").lex();
    assert!(Parser::new(&toks).parse().is_ok());
}

#[test]
fn call_with_arguments() {
    let toks = Lexer::new("tuen f mit 1, x, \"s\";").lex();
    let ast = Parser::new(&toks).parse();
    assert_eq!(
        ast,
        Ok(vec![Stmt::StEx(StEx::Call(Call {
            id: "f",
            args: vec![
                num(1),
                Expr::Prim(Prim::Id("x")),
                Expr::Prim(Prim::Str("\"s\""))
            ],
        }))])
    );
}

#[test]
fn call_without_arguments() {
    let toks = Lexer::new("tuen f mit ;").lex();
    let ast = Parser::new(&toks).parse();
    assert_eq!(
        ast,
        Ok(vec![Stmt::StEx(StEx::Call(Call {
            id: "f",
            args: vec![],
        }))])
    );
}

#[test]
fn call_with_block_and_operator() {
    let toks = Lexer::new("tuen schreie mit 99 plus { gib 5; };").lex();
    let ast = Parser::new(&toks).parse();
    let inner = Expr::StEx(StEx::Block(Block {
        stmts: vec![Stmt::Ret(Ret { expr: num(5) })],
    }));
    assert_eq!(
        ast,
        Ok(vec![Stmt::StEx(StEx::Call(Call {
            id: "schreie",
            args: vec![bin(BinOperator::Plus, num(99), inner)],
        }))])
    );
}

#[test]
fn several_statements() {
    let source = "
funktion hallo_sege {
  tuen schreie mit \"Hallo welt\";
};

funktion chuchichäschtli {
  dä wert isch \"sowas\";
  tuen hallo_sege mit wert;
};
";
    let toks = Lexer::new(source).lex();
    let ast = Parser::new(&toks).parse().unwrap();
    assert_eq!(ast.len(), 2);
    match &ast[1] {
        Stmt::FunAss(f) => {
            assert_eq!(f.id, "chuchichäschtli");
            assert_eq!(f.body.stmts.len(), 2);
        }
        other => panic!("not a function: {:?}", other),
    }
}

#[test]
fn empty_program() {
    let toks = Lexer::new("").lex();
    assert_eq!(Parser::new(&toks).parse(), Ok(vec![]));
}

#[test]
fn missing_semicolon_at_the_end() {
    let toks = Lexer::new("dä x isch 5").lex();
    assert_eq!(Parser::new(&toks).parse(), Err(ParseError::NoTokensLeft));
}

#[test]
fn statement_cannot_start_with_a_name() {
    let toks = Lexer::new("x;").lex();
    assert_eq!(
        Parser::new(&toks).parse(),
        Err(ParseError::UnexpectedToken("Stmt".to_string(), toks[0]))
    );
}

#[test]
fn statement_needs_its_semicolon() {
    let toks = Lexer::new("dä x isch 5 dä y isch 6;").lex();
    assert_eq!(
        Parser::new(&toks).parse(),
        Err(ParseError::ExpectedToken(
            "Stmt".to_string(),
            TT::Semicolon,
            toks[4]
        ))
    );
    assert_eq!(toks[4].token_type, TT::Dae);
}

#[test]
fn variable_needs_its_name_and_its_verb() {
    let toks = Lexer::new("dä 5 isch 5;").lex();
    assert_eq!(
        Parser::new(&toks).parse(),
        Err(ParseError::ExpectedToken(
            "VarAss".to_string(),
            TT::Id,
            toks[1]
        ))
    );
    let toks = Lexer::new("dä x 5;").lex();
    assert_eq!(
        Parser::new(&toks).parse(),
        Err(ParseError::ExpectedToken(
            "VarAss".to_string(),
            TT::Isch,
            toks[2]
        ))
    );
}

#[test]
fn return_type_must_be_a_type() {
    let toks = Lexer::new("funktion f git x {};").lex();
    assert_eq!(
        Parser::new(&toks).parse(),
        Err(ParseError::ExpectedType("FunAss".to_string(), toks[3]))
    );
    let toks = Lexer::new("dä x isch 5 als y;").lex();
    assert_eq!(
        Parser::new(&toks).parse(),
        Err(ParseError::ExpectedType("VarAss".to_string(), toks[5]))
    );
    let toks = Lexer::new("funktion f het x {};").lex();
    assert_eq!(
        Parser::new(&toks).parse(),
        Err(ParseError::ExpectedType("FunAss".to_string(), toks[3]))
    );
}

#[test]
fn parameter_list_takes_no_trailing_comma() {
    let toks = Lexer::new("funktion f het N8 x, {};").lex();
    assert_eq!(
        Parser::new(&toks).parse(),
        Err(ParseError::ExpectedType("FunAss".to_string(), toks[6]))
    );
}

#[test]
fn argument_list_takes_no_trailing_comma() {
    let toks = Lexer::new("tuen f mit a, ;").lex();
    assert_eq!(toks[4].token_type, TT::Comma);
    assert_eq!(
        Parser::new(&toks).parse(),
        Err(ParseError::ExpectedToken(
            "Stmt".to_string(),
            TT::Semicolon,
            toks[4]
        ))
    );
}

#[test]
fn function_needs_a_block() {
    let toks = Lexer::new("funktion f gib 5;").lex();
    assert_eq!(
        Parser::new(&toks).parse(),
        Err(ParseError::ExpectedToken(
            "Block".to_string(),
            TT::LBrace,
            toks[2]
        ))
    );
}

#[test]
fn block_must_be_closed() {
    let toks = Lexer::new("{ dä x isch 5;").lex();
    assert_eq!(Parser::new(&toks).parse(), Err(ParseError::NoTokensLeft));
}

#[test]
fn value_must_be_a_literal_or_name() {
    let toks = Lexer::new("dä x isch ;").lex();
    assert_eq!(
        Parser::new(&toks).parse(),
        Err(ParseError::ExpectedPrim("Prim".to_string(), toks[3]))
    );
    let toks = Lexer::new("dä x isch 1 plus ;").lex();
    assert_eq!(
        Parser::new(&toks).parse(),
        Err(ParseError::ExpectedPrim("Prim".to_string(), toks[5]))
    );
}

#[test]
fn number_must_fit_eight_bits() {
    for source in ["dä x isch 256;", "dä x isch -1;", "dä x isch 1.5;", "dä x isch 99999999999999999999;"] {
        let toks = Lexer::new(source).lex();
        assert_eq!(
            Parser::new(&toks).parse(),
            Err(ParseError::NotConvertible(
                "Prim".to_string(),
                TT::Num,
                PrimType::R8,
                toks[3]
            ))
        );
    }
    let toks = Lexer::new("dä x isch 255;").lex();
    assert_eq!(Parser::new(&toks).parse(), Ok(vec![var("x", num(255))]));
    let toks = Lexer::new("dä x isch 007;").lex();
    assert_eq!(Parser::new(&toks).parse(), Ok(vec![var("x", num(7))]));
}

fn bare(token_type: TT, col: usize) -> Token<'static> {
    Token {
        token_type,
        value: None,
        row: 0,
        col,
    }
}

#[test]
fn token_without_its_text() {
    let toks = vec![bare(TT::Dae, 0), bare(TT::Id, 3)];
    assert_eq!(
        Parser::new(&toks).parse(),
        Err(ParseError::MissingValue(
            "VarAss".to_string(),
            TT::Id,
            toks[1]
        ))
    );
    let named = Token {
        token_type: TT::Id,
        value: Some("x"),
        row: 0,
        col: 3,
    };
    for (kind, reported) in [(TT::Num, TT::Num), (TT::Str, TT::Str), (TT::Id, TT::Id)] {
        let toks = vec![bare(TT::Dae, 0), named, bare(TT::Isch, 5), bare(kind, 10)];
        assert_eq!(
            Parser::new(&toks).parse(),
            Err(ParseError::MissingValue(
                "Prim".to_string(),
                reported,
                toks[3]
            ))
        );
    }
}

#[test]
fn well_formed_definition_from_any_positions() {
    let lit = |token_type, value| Token {
        token_type,
        value,
        row: 7,
        col: 40,
    };
    let cases = [
        (lit(TT::Num, Some("12")), Prim::R8(12)),
        (lit(TT::Num, Some("+3")), Prim::R8(3)),
        (lit(TT::Str, Some("\"a b\"")), Prim::Str("\"a b\"")),
        (lit(TT::Wahr, None), Prim::Bool(true)),
        (lit(TT::Falsch, None), Prim::Bool(false)),
    ];
    for (token, value) in cases {
        let toks = vec![
            bare(TT::Dae, 9),
            Token {
                token_type: TT::Id,
                value: Some("name"),
                row: 3,
                col: 1,
            },
            bare(TT::Isch, 0),
            token,
            bare(TT::Semicolon, 2),
        ];
        assert_eq!(
            Parser::new(&toks).parse(),
            Ok(vec![var("name", Expr::Prim(value))])
        );
    }
}

#[test]
fn failed_production_leaves_the_cursor() {
    let toks = Lexer::new("dä x 5; tuen f 1; { gib ; } funktion 7 gib ; 3 plus ;").lex();
    for start in 0..=toks.len() {
        let mut pos = start;
        if Stmt::parse(&toks, &mut pos).is_err() {
            assert_eq!(pos, start);
        }
        let mut pos = start;
        if Expr::parse(&toks, &mut pos).is_err() {
            assert_eq!(pos, start);
        }
        let mut pos = start;
        if Prim::parse(&toks, &mut pos).is_err() {
            assert_eq!(pos, start);
        }
        let mut pos = start;
        if StEx::parse(&toks, &mut pos).is_err() {
            assert_eq!(pos, start);
        }
        let mut pos = start;
        if Block::parse(&toks, &mut pos).is_err() {
            assert_eq!(pos, start);
        }
        let mut pos = start;
        if Call::parse(&toks, &mut pos).is_err() {
            assert_eq!(pos, start);
        }
        let mut pos = start;
        if FunAss::parse(&toks, &mut pos).is_err() {
            assert_eq!(pos, start);
        }
        let mut pos = start;
        if VarAss::parse(&toks, &mut pos).is_err() {
            assert_eq!(pos, start);
        }
        let mut pos = start;
        if Ret::parse(&toks, &mut pos).is_err() {
            assert_eq!(pos, start);
        }
    }
}

#[test]
fn successful_production_moves_the_cursor() {
    let toks = Lexer::new("tuen f mit 1 plus 2, { gib 3; };").lex();
    let mut pos = 0;
    let call = Call::parse(&toks, &mut pos).unwrap();
    assert_eq!(call.args.len(), 2);
    assert_eq!(pos, toks.len() - 1);
    let mut pos = 3;
    assert_eq!(
        Expr::parse(&toks, &mut pos),
        Ok(bin(BinOperator::Plus, num(1), num(2)))
    );
    assert_eq!(pos, 6);
    let mut pos = 3;
    assert_eq!(Prim::parse(&toks, &mut pos), Ok(Prim::R8(1)));
    assert_eq!(pos, 4);
}

#[test]
fn failed_argument_takes_nothing() {
    // The second argument breaks off after its operator: the list ends
    // behind the first argument, in front of the comma.
    let toks = Lexer::new("tuen f mit a, b plus ;").lex();
    let mut pos = 0;
    let call = Call::parse(&toks, &mut pos).unwrap();
    assert_eq!(call.args, vec![Expr::Prim(Prim::Id("a"))]);
    assert_eq!(pos, 4);
    assert_eq!(toks[pos].token_type, TT::Comma);
}

#[test]
fn productions_check_their_first_token() {
    let toks = Lexer::new("x;").lex();
    let mut pos = 0;
    assert_eq!(
        FunAss::parse(&toks, &mut pos),
        Err(ParseError::ExpectedToken(
            "FunAss".to_string(),
            TT::Funktion,
            toks[0]
        ))
    );
    assert_eq!(
        VarAss::parse(&toks, &mut pos),
        Err(ParseError::ExpectedToken(
            "VarAss".to_string(),
            TT::Dae,
            toks[0]
        ))
    );
    assert_eq!(
        Ret::parse(&toks, &mut pos),
        Err(ParseError::ExpectedToken(
            "Ret".to_string(),
            TT::Gib,
            toks[0]
        ))
    );
    assert_eq!(
        Call::parse(&toks, &mut pos),
        Err(ParseError::ExpectedToken(
            "Call".to_string(),
            TT::Tuen,
            toks[0]
        ))
    );
    assert_eq!(
        Block::parse(&toks, &mut pos),
        Err(ParseError::ExpectedToken(
            "Block".to_string(),
            TT::LBrace,
            toks[0]
        ))
    );
    assert_eq!(
        StEx::parse(&toks, &mut pos),
        Err(ParseError::UnexpectedToken("StEx".to_string(), toks[0]))
    );
    let mut end = toks.len();
    assert_eq!(Stmt::parse(&toks, &mut end), Err(ParseError::NoTokensLeft));
    assert_eq!(Expr::parse(&toks, &mut end), Err(ParseError::NoTokensLeft));
    assert_eq!(pos, 0);
}

fn read<'a, T: haessig::parser::Parseable<'a>>(
    tokens: &[Token<'a>],
    pos: &mut usize,
) -> Result<T, ParseError<'a>> {
    T::parse(tokens, pos)
}

#[test]
fn every_node_can_be_read_by_its_kind() {
    let toks = Lexer::new("funktion f { dä x isch 1; gib x; tuen f mit x; };").lex();
    let mut pos = 0;
    let stmt: Stmt = read(&toks, &mut pos).unwrap();
    assert_eq!(pos, toks.len());
    let mut pos = 0;
    let fun: FunAss = read(&toks, &mut pos).unwrap();
    assert_eq!(pos, toks.len() - 1);
    assert_eq!(stmt, Stmt::FunAss(fun));
    let mut pos = 2;
    let block: Block = read(&toks, &mut pos).unwrap();
    assert_eq!(block.stmts.len(), 3);
    let mut pos = 2;
    let st_ex: StEx = read(&toks, &mut pos).unwrap();
    assert_eq!(st_ex, StEx::Block(block));
    let mut pos = 3;
    let var: VarAss = read(&toks, &mut pos).unwrap();
    assert_eq!(var.id, "x");
    assert_eq!(pos, 7);
    let mut pos = 6;
    let prim: Prim = read(&toks, &mut pos).unwrap();
    assert_eq!(prim, Prim::R8(1));
    let mut pos = 6;
    let expr: Expr = read(&toks, &mut pos).unwrap();
    assert_eq!(expr, num(1));
    let mut pos = 8;
    let ret: Ret = read(&toks, &mut pos).unwrap();
    assert_eq!(ret.expr, Expr::Prim(Prim::Id("x")));
    let mut pos = 11;
    let call: Call = read(&toks, &mut pos).unwrap();
    assert_eq!(call.id, "f");
    assert_eq!(pos, 15);
    let mut pos = 1;
    let failed: Result<Call, ParseError> = read(&toks, &mut pos);
    assert!(failed.is_err());
    assert_eq!(pos, 1);
}

#[test]
fn trees_can_be_copied() {
    let source = "funktion f het N8 a, Zeiche b git N8 {\n  dä x isch a plus 1;\n  tuen schreie mit b, { gib x; };\n  gib x;\n};\ndä y isch \"s\" als Zeiche ;";
    let toks = Lexer::new(source).lex();
    let ast = Parser::new(&toks).parse().unwrap();
    let copy = ast.clone();
    assert_eq!(copy, ast);
    match (&ast[0], &ast[1]) {
        (Stmt::FunAss(f), Stmt::VarAss(v)) => {
            assert_eq!(f.clone(), *f);
            assert_eq!(f.body.clone(), f.body);
            assert_eq!(v.clone(), *v);
            assert_eq!(v.value.clone(), v.value);
            match &f.body.stmts[0] {
                Stmt::VarAss(inner) => match &inner.value {
                    Expr::Bin(b) => assert_eq!(b.clone(), *b),
                    other => panic!("not an operation: {:?}", other),
                },
                other => panic!("not a variable: {:?}", other),
            }
            match &f.body.stmts[1] {
                Stmt::StEx(x) => {
                    assert_eq!(x.clone(), *x);
                    match x {
                        StEx::Call(c) => assert_eq!(c.clone(), *c),
                        other => panic!("not a call: {:?}", other),
                    }
                }
                other => panic!("not a call: {:?}", other),
            }
            match &f.body.stmts[2] {
                Stmt::Ret(r) => assert_eq!(r.clone(), *r),
                other => panic!("not a return: {:?}", other),
            }
        }
        other => panic!("not a function and a variable: {:?}", other),
    }
}
