use haessig::ast::PrimType;
use haessig::lexer::{Lexer, Token, TT};
use haessig::parser::{ParseError, Parser};
use haessig::report::{decimal, display_tokens};
use haessig::seman::{SemAnError, Shadowing};

fn parse_error(source: &str) -> String {
    let toks = Lexer::new(source).lex();
    let text = match Parser::new(&toks).parse() {
        Ok(_) => panic!("the source parses"),
        Err(e) => e.to_string(),
    };
    text
}

#[test]
fn numbers_in_base_ten() {
    for n in [0usize, 1, 9, 10, 11, 99, 100, 101, 255, 1000, 65535, 1234567890] {
        assert_eq!(decimal(n), format!("{}", n));
    }
    assert_eq!(decimal(usize::MAX), format!("{}", usize::MAX));
}

#[test]
fn names_of_kinds_and_types() {
    assert_eq!(TT::Funktion.name(), "Funktion");
    assert_eq!(TT::Dae.name(), "Dä");
    assert_eq!(TT::TypWahrheit.name(), "TypWahrheit");
    assert_eq!(TT::Semicolon.name(), "Semicolon");
    assert_eq!(TT::Invalid.name(), "Invalid");
    let kinds = [
        TT::Funktion,
        TT::Tuen,
        TT::Mit,
        TT::Isch,
        TT::Het,
        TT::Git,
        TT::Gib,
        TT::Als,
        TT::Wahr,
        TT::Falsch,
        TT::TypR8,
        TT::TypN8,
        TT::TypZ8,
        TT::TypZeiche,
        TT::TypWahrheit,
        TT::Str,
        TT::Id,
        TT::Num,
        TT::LBrace,
        TT::RBrace,
        TT::Semicolon,
        TT::Comma,
        TT::Invalid,
    ];
    for kind in kinds {
        assert_eq!(kind.name(), format!("{:?}", kind));
    }
    for pt in [
        PrimType::String,
        PrimType::R8,
        PrimType::N8,
        PrimType::Z8,
        PrimType::Boolean,
    ] {
        assert_eq!(pt.name(), format!("{:?}", pt));
        assert_eq!(pt.to_string(), format!("{:?}", pt));
    }
}

#[test]
fn text_of_each_parse_error() {
    assert_eq!(
        parse_error("dä x isch 5"),
        "Your code is bonkers: No tokens left"
    );
    assert_eq!(
        parse_error("\n\n  x;"),
        "Your code is bonkers: Unexpected token at row 2 col 2 parsing Stmt"
    );
    assert_eq!(
        parse_error("dä x isch 5 dä y isch 6;"),
        "Your code is bonkers: Expected token Semicolon at row 0 col 12, got Dä parsing Stmt"
    );
    assert_eq!(
        parse_error("funktion f git x {};"),
        "Your code is bonkers: Expected type at row 0 col 15 parsing FunAss"
    );
    assert_eq!(
        parse_error("dä x isch ;"),
        "Your code is bonkers: Expected primitive at row 0 col 10 parsing Prim"
    );
    assert_eq!(
        parse_error("dä x isch 300;"),
        "Your code is bonkers: Couldn't convert value of token from Num to R8 at row 0 col 10 parsing Prim"
    );
    let tok = Token {
        token_type: TT::Id,
        value: None,
        row: 12,
        col: 345,
    };
    assert_eq!(
        ParseError::MissingValue("VarAss".to_string(), TT::Id, tok).to_string(),
        "Your code is bonkers: Expected value for Id at row 12 col 345 parsing VarAss"
    );
}

#[test]
fn text_of_each_semantic_error() {
    assert_eq!(
        SemAnError::TokenNotDefined("x").to_string(),
        "Your code is semantically incorrect :) Token `x` not defined"
    );
    assert_eq!(
        SemAnError::AssignTokenNotDefined("y", "x").to_string(),
        "Your code is semantically incorrect :) Token `y` not defined when assigning to `x`"
    );
    assert_eq!(
        SemAnError::FunctionNotDefined("f").to_string(),
        "Your code is semantically incorrect :) Function `f` not defined"
    );
    assert_eq!(
        SemAnError::SameFunctionArgs("a", "f").to_string(),
        "Your code is semantically incorrect :) Duplicate id's `a` passed as function args to `f`"
    );
    assert_eq!(
        SemAnError::ArgNotDefined("a", "f").to_string(),
        "Your code is semantically incorrect :) Argument `a` for function `f` not defined"
    );
}

#[test]
fn text_of_a_warning() {
    let w = Shadowing {
        name: "x",
        previous: Some(PrimType::R8),
        replacement: Some(PrimType::String),
    };
    assert_eq!(
        w.to_string(),
        "WARNING: Shadowing previously defined variable `x` (Some(R8)) with new String"
    );
    let w = Shadowing {
        name: "ö",
        previous: None,
        replacement: None,
    };
    assert_eq!(
        w.to_string(),
        "WARNING: Shadowing previously defined variable `ö` (None) with new Unknown"
    );
}

#[test]
fn text_of_tokens() {
    assert_eq!(display_tokens(&vec![]), "[  ]");
    let toks = Lexer::new("dä x isch 5;").lex();
    assert_eq!(
        display_tokens(&toks),
        "[ Dä, Id (x), Isch, Num (5), Semicolon ]"
    );
    let toks = Lexer::new("x").lex();
    assert_eq!(display_tokens(&toks), "[ Id (x) ]");
}
