use haessig::ast::{Prim, PrimType};
use haessig::lexer::Lexer;
use haessig::parser::Parser;
use haessig::seman::{is_builtin_name, SemAnError, SemanticAnalyzer, Shadowing};

fn check(source: &str) -> Result<Vec<String>, String> {
    let toks = Lexer::new(source).lex();
    let ast = Parser::new(&toks).parse().expect("the source parses");
    let mut analyzer = SemanticAnalyzer::new(&ast);
    match analyzer.analyze() {
        Ok(()) => Ok(analyzer
            .warnings()
            .iter()
            .map(|w| format!("{} {:?} {:?}", w.name, w.previous, w.replacement))
            .collect()),
        Err(e) => Err(format!("{:?}", e)),
    }
}

#[test]
fn call_of_unknown_function() {
    let source = "funktion f { tuen g mit 5; };";
    let toks = Lexer::new(source).lex();
    let ast = Parser::new(&toks).parse().unwrap();
    let mut analyzer = SemanticAnalyzer::new(&ast);
    assert_eq!(analyzer.analyze(), Err(SemAnError::FunctionNotDefined("g")));
}

#[test]
fn call_of_unknown_function_at_top_level() {
    let source = "tuen nüt mit 5;";
    let toks = Lexer::new(source).lex();
    let ast = Parser::new(&toks).parse().unwrap();
    let mut analyzer = SemanticAnalyzer::new(&ast);
    assert_eq!(
        analyzer.analyze(),
        Err(SemAnError::FunctionNotDefined("nüt"))
    );
}

#[test]
fn duplicate_parameter_names() {
    let source = "funktion f het N8 x, N8 x {};";
    let toks = Lexer::new(source).lex();
    let ast = Parser::new(&toks).parse().unwrap();
    let mut analyzer = SemanticAnalyzer::new(&ast);
    assert_eq!(
        analyzer.analyze(),
        Err(SemAnError::SameFunctionArgs("x", "f"))
    );
}

#[test]
fn first_repeated_parameter_is_reported() {
    let source = "funktion f het N8 a, N8 b, Z8 c, R8 b, N8 a {};";
    let toks = Lexer::new(source).lex();
    let ast = Parser::new(&toks).parse().unwrap();
    let mut analyzer = SemanticAnalyzer::new(&ast);
    assert_eq!(
        analyzer.analyze(),
        Err(SemAnError::SameFunctionArgs("a", "f"))
    );
}

#[test]
fn distinct_parameters_are_fine() {
    assert_eq!(check("funktion f het N8 x, N8 y git N8 { gib x plus y; };"), Ok(vec![]));
}

#[test]
fn builtins_need_no_definition() {
    assert_eq!(check("tuen schreie mit \"Hallo\";"), Ok(vec![]));
    assert_eq!(check("tuen verlange mit ;"), Ok(vec![]));
    assert!(is_builtin_name("schreie"));
    assert!(is_builtin_name("gib"));
    assert!(is_builtin_name("verlange"));
    assert!(!is_builtin_name("Schreie"));
    assert!(!is_builtin_name(""));
    assert!(!is_builtin_name("schreien"));
}

#[test]
fn function_may_call_itself_and_earlier_ones() {
    assert_eq!(check("funktion f { tuen f mit 1; };"), Ok(vec![]));
    assert_eq!(
        check("funktion f {};\nfunktion g { tuen f mit 1; };"),
        Ok(vec![])
    );
}

#[test]
fn function_may_not_call_a_later_one() {
    assert_eq!(
        check("funktion g { tuen f mit 1; };\nfunktion f {};"),
        Err("FunctionNotDefined(\"f\")".to_string())
    );
}

#[test]
fn name_must_be_defined() {
    assert_eq!(check("gib y;"), Err("TokenNotDefined(\"y\")".to_string()));
    assert_eq!(
        check("gib 1 plus y;"),
        Err("TokenNotDefined(\"y\")".to_string())
    );
    assert_eq!(check("dä y isch 1;\ngib 1 plus y;"), Ok(vec![]));
}

#[test]
fn variable_by_undefined_name() {
    assert_eq!(
        check("dä x isch y;"),
        Err("AssignTokenNotDefined(\"y\", \"x\")".to_string())
    );
    assert_eq!(
        check("dä x isch x;"),
        Err("AssignTokenNotDefined(\"x\", \"x\")".to_string())
    );
}

#[test]
fn undefined_argument() {
    assert_eq!(
        check("tuen schreie mit y;"),
        Err("ArgNotDefined(\"y\", \"schreie\")".to_string())
    );
    assert_eq!(
        check("tuen schreie mit 1, tuen g mit 2;"),
        Err("ArgNotDefined(\"g\", \"schreie\")".to_string())
    );
    // Any other error inside an argument names no culprit.
    assert_eq!(
        check("tuen schreie mit tuen schreie mit y;"),
        Err("ArgNotDefined(\"\", \"schreie\")".to_string())
    );
    assert_eq!(
        check("tuen schreie mit { dä x isch y; };"),
        Err("ArgNotDefined(\"\", \"schreie\")".to_string())
    );
}

#[test]
fn block_has_its_own_scope() {
    assert_eq!(check("{ dä x isch 5; gib x; };"), Ok(vec![]));
    assert_eq!(
        check("{ dä x isch 5; };\ngib x;"),
        Err("TokenNotDefined(\"x\")".to_string())
    );
    assert_eq!(check("dä x isch 5;\n{ { gib x; }; };"), Ok(vec![]));
}

#[test]
fn parameters_live_in_the_function_only() {
    assert_eq!(check("funktion f het N8 a { gib a; };"), Ok(vec![]));
    assert_eq!(
        check("funktion f het N8 a {};\ngib a;"),
        Err("TokenNotDefined(\"a\")".to_string())
    );
    assert_eq!(check("funktion f het N8 a {};\ngib f;"), Ok(vec![]));
}

#[test]
fn defining_again_in_the_same_scope_warns() {
    assert_eq!(
        check("dä x isch 5;\ndä x isch \"a\";"),
        Ok(vec!["x Some(R8) Some(String)".to_string()])
    );
    assert_eq!(
        check("dä x isch 5;\ndä y isch x;\ndä y isch wahr ;"),
        Ok(vec!["y Some(R8) Some(Boolean)".to_string()])
    );
    assert_eq!(
        check("dä x isch 1 plus 2;\ndä x isch { gib 1; };"),
        Ok(vec!["x None None".to_string()])
    );
}

#[test]
fn defining_again_in_an_inner_scope_does_not_warn() {
    assert_eq!(check("dä x isch 5;\n{ dä x isch \"a\"; };"), Ok(vec![]));
    assert_eq!(check("dä x isch 5;\nfunktion f het N8 x { dä x isch 1; };"), Ok(vec![]));
}

#[test]
fn function_named_like_a_variable_warns() {
    assert_eq!(
        check("dä f isch 5;\nfunktion f git N8 {};"),
        Ok(vec!["f Some(R8) Some(N8)".to_string()])
    );
}

#[test]
fn first_error_stops_the_analysis() {
    assert_eq!(
        check("gib a;\ngib b;"),
        Err("TokenNotDefined(\"a\")".to_string())
    );
}

#[test]
fn symbols_by_hand() {
    let ast = Vec::new();
    let mut analyzer = SemanticAnalyzer::new(&ast);
    assert!(!analyzer.has_symbol("x"));
    assert_eq!(analyzer.get_symbol("x"), None);
    analyzer.add_symbol("x", Some(PrimType::Z8));
    analyzer.add_symbol("u", None);
    assert!(analyzer.has_symbol("x"));
    assert!(analyzer.has_symbol("u"));
    assert_eq!(analyzer.get_symbol("x"), Some(PrimType::Z8));
    assert_eq!(analyzer.get_symbol("u"), None);
    assert_eq!(analyzer.add_prim(&Prim::Str("\"s\""), "s"), Ok(()));
    assert_eq!(analyzer.add_prim(&Prim::Bool(true), "b"), Ok(()));
    assert_eq!(analyzer.add_prim(&Prim::R8(3), "n"), Ok(()));
    assert_eq!(analyzer.add_prim(&Prim::Id("x"), "y"), Ok(()));
    assert_eq!(
        analyzer.add_prim(&Prim::Id("nope"), "z"),
        Err(SemAnError::AssignTokenNotDefined("nope", "z"))
    );
    assert_eq!(analyzer.get_symbol("s"), Some(PrimType::String));
    assert_eq!(analyzer.get_symbol("b"), Some(PrimType::Boolean));
    assert_eq!(analyzer.get_symbol("n"), Some(PrimType::R8));
    assert_eq!(analyzer.get_symbol("y"), Some(PrimType::Z8));
    assert!(!analyzer.has_symbol("z"));
    assert!(analyzer.warnings().is_empty());
    analyzer.add_symbol("x", None);
    assert_eq!(
        analyzer.warnings(),
        &vec![Shadowing {
            name: "x",
            previous: Some(PrimType::Z8),
            replacement: None
        }]
    );
    assert_eq!(analyzer.get_symbol("x"), None);
    assert!(analyzer.has_symbol("x"));
}

#[test]
fn empty_program_is_valid() {
    assert_eq!(check(""), Ok(vec![]));
}

#[test]
fn whole_example() {
    let source = "
funktion hallo_sege {
  tuen schreie mit \"Hallo welt\";
};

funktion chuchichäschtli {
  dä wert isch \"sowas\";
  tuen hallo_sege mit wert;
};
";
    assert_eq!(check(source), Ok(vec![]));
}

#[test]
fn failed_definition_changes_nothing() {
    let ast = Vec::new();
    let mut analyzer = SemanticAnalyzer::new(&ast);
    analyzer.add_symbol("x", Some(PrimType::N8));
    analyzer.add_symbol("z", Some(PrimType::Z8));
    assert_eq!(
        analyzer.add_prim(&Prim::Id("nope"), "z"),
        Err(SemAnError::AssignTokenNotDefined("nope", "z"))
    );
    assert_eq!(
        analyzer.add_prim(&Prim::Id("nope"), "fresh"),
        Err(SemAnError::AssignTokenNotDefined("nope", "fresh"))
    );
    assert!(analyzer.has_symbol("x"));
    assert_eq!(analyzer.get_symbol("z"), Some(PrimType::Z8));
    assert!(!analyzer.has_symbol("fresh"));
    assert!(!analyzer.has_symbol("nope"));
    assert!(analyzer.warnings().is_empty());
    assert_eq!(Prim::Id("nope").analyze(&mut analyzer), Err(SemAnError::TokenNotDefined("nope")));
    assert_eq!(Prim::Id("x").analyze(&mut analyzer), Ok(()));
    assert_eq!(Prim::R8(1).analyze(&mut analyzer), Ok(()));
    assert_eq!(analyzer.get_symbol("x"), Some(PrimType::N8));
    assert!(analyzer.warnings().is_empty());
}

#[test]
fn scopes_stay_open_where_the_analysis_stopped() {
    let toks = Lexer::new("dä a isch 1;\n{ dä x isch 5; gib y; };\ndä b isch 2;").lex();
    let ast = Parser::new(&toks).parse().unwrap();
    let mut analyzer = SemanticAnalyzer::new(&ast);
    assert_eq!(analyzer.analyze(), Err(SemAnError::TokenNotDefined("y")));
    assert!(analyzer.has_symbol("a"));
    assert!(analyzer.has_symbol("x"));
    assert!(!analyzer.has_symbol("b"));

    let toks = Lexer::new("funktion f het N8 p, N8 p {};").lex();
    let ast = Parser::new(&toks).parse().unwrap();
    let mut analyzer = SemanticAnalyzer::new(&ast);
    assert_eq!(analyzer.analyze(), Err(SemAnError::SameFunctionArgs("p", "f")));
    assert!(analyzer.has_symbol("f"));
    assert!(!analyzer.has_symbol("p"));

    let toks = Lexer::new("tuen nüt mit 1;").lex();
    let ast = Parser::new(&toks).parse().unwrap();
    let mut analyzer = SemanticAnalyzer::new(&ast);
    assert_eq!(analyzer.analyze(), Err(SemAnError::FunctionNotDefined("nüt")));
    assert!(!analyzer.has_symbol("nüt"));
}

#[test]
fn analysing_again_gives_the_same_outcome() {
    let toks = Lexer::new("dä x isch 5;\ndä x isch \"a\";").lex();
    let ast = Parser::new(&toks).parse().unwrap();
    let mut analyzer = SemanticAnalyzer::new(&ast);
    assert_eq!(analyzer.analyze(), Ok(()));
    let first: Vec<Shadowing> = analyzer.warnings().clone();
    assert_eq!(first.len(), 1);
    assert_eq!(analyzer.analyze(), Ok(()));
    assert_eq!(analyzer.warnings(), &first);

    let toks = Lexer::new("gib x;").lex();
    let ast = Parser::new(&toks).parse().unwrap();
    let mut analyzer = SemanticAnalyzer::new(&ast);
    analyzer.add_symbol("x", None);
    assert_eq!(analyzer.analyze(), Err(SemAnError::TokenNotDefined("x")));
    assert_eq!(analyzer.analyze(), Err(SemAnError::TokenNotDefined("x")));
}
