use haessig::ast::{Arg, BinOperator, Prim, PrimType, Stmt};
use haessig::lexer::Lexer;
use haessig::parser::Parser;
use haessig::trans::Transpiler;

fn c_file(source: &str) -> String {
    let toks = Lexer::new(source).lex();
    let ast = Parser::new(&toks).parse().expect("the source parses");
    Transpiler::new(&ast).generate()
}

fn c_statement(source: &str) -> String {
    let toks = Lexer::new(source).lex();
    let ast = Parser::new(&toks).parse().expect("the source parses");
    assert_eq!(ast.len(), 1);
    ast[0].transpile()
}

#[test]
fn whole_program() {
    let source = "
funktion hallo_sege {
  tuen schreie mit \"Hallo welt\";
};

funktion chuchichäschtli {
  dä wert isch \"sowas\";
  tuen hallo_sege mit wert;
};
";
    assert_eq!(
        c_file(source),
        "#include <stdio.h>\n\
         void hallo_sege() {\nprintf(\"Hallo welt\");\n\n}\n\
         void main() {\nvoid wert = \"sowas\";\nhallo_sege(wert);\n\n}\n"
    );
}

#[test]
fn empty_program_is_the_include_line() {
    assert_eq!(c_file(""), "#include <stdio.h>\n");
}

#[test]
fn top_level_keeps_functions_and_variables_only() {
    assert_eq!(
        c_file("dä x isch 5 als N8 ;\ntuen schreie mit x;\ngib x;\n{ gib 1; };"),
        "#include <stdio.h>\nunsigned int x = 5;\n"
    );
}

#[test]
fn function_with_parameters() {
    assert_eq!(
        c_statement("funktion f het N8 x, Zeiche y, R8 z git Wahrheit { gib x; };"),
        "int f(unsigned int x, char* y, float z) {\nreturn x;\n\n}"
    );
    assert_eq!(
        c_statement("funktion f het Z8 x {};"),
        "void f(int x) {\n\n}"
    );
}

#[test]
fn statements() {
    assert_eq!(c_statement("dä x isch 5;"), "void x = 5;\n");
    assert_eq!(c_statement("dä x isch wahr als Wahrheit ;"), "int x = 1;\n");
    assert_eq!(c_statement("dä x isch falsch ;"), "void x = 0;\n");
    assert_eq!(c_statement("gib 1 plus 2 mal x;"), "return 1 + 2 * x;\n");
    assert_eq!(c_statement("tuen f mit ;"), "f();\n");
    assert_eq!(c_statement("tuen f mit 1, \"a\", b;"), "f(1, \"a\", b);\n");
    assert_eq!(
        c_statement("tuen schreie mit 255;"),
        "printf(255);\n"
    );
    assert_eq!(
        c_statement("{ dä x isch 1; gib x; };"),
        "void x = 1;\nreturn x;\n;\n"
    );
}

#[test]
fn operators() {
    let expected = [
        (BinOperator::Gliich, "=="),
        (BinOperator::GroesserGliich, ">="),
        (BinOperator::Groesser, ">"),
        (BinOperator::ChlinnerGliich, "<="),
        (BinOperator::Chlinner, "<"),
        (BinOperator::Ungliich, "!="),
        (BinOperator::Und, "&&"),
        (BinOperator::Oder, "||"),
        (BinOperator::Rescht, "%"),
        (BinOperator::Hoch, "^"),
        (BinOperator::Mal, "*"),
        (BinOperator::Durch, "/"),
        (BinOperator::Plus, "+"),
        (BinOperator::Minus, "-"),
    ];
    for (op, text) in expected {
        assert_eq!(op.transpile(), text);
    }
}

#[test]
fn types_and_leaves() {
    assert_eq!(PrimType::String.transpile(), "char*");
    assert_eq!(PrimType::R8.transpile(), "float");
    assert_eq!(PrimType::N8.transpile(), "unsigned int");
    assert_eq!(PrimType::Z8.transpile(), "int");
    assert_eq!(PrimType::Boolean.transpile(), "int");
    assert_eq!(Prim::Bool(true).transpile(), "1");
    assert_eq!(Prim::Bool(false).transpile(), "0");
    assert_eq!(Prim::Str("\"s\"").transpile(), "\"s\"");
    assert_eq!(Prim::R8(0).transpile(), "0");
    assert_eq!(Prim::R8(200).transpile(), "200");
    assert_eq!(Prim::Id("x").transpile(), "x");
    assert_eq!(
        Arg {
            id: "n",
            pt: PrimType::N8
        }
        .transpile(),
        "unsigned int n"
    );
}

#[test]
fn entry_function_is_main() {
    let toks = Lexer::new("funktion chuchichäschtli git Z8 { gib 0; };").lex();
    let ast = Parser::new(&toks).parse().unwrap();
    match &ast[0] {
        Stmt::FunAss(f) => assert_eq!(f.transpile(), "int main() {\nreturn 0;\n\n}"),
        other => panic!("not a function: {:?}", other),
    }
}
