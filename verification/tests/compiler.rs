use haessig::compiler::{generate_print, Compiler, EPILOGUE, PRINT_TEXT, PROLOGUE};
use haessig::interm::IRGen;
use haessig::lexer::Lexer;
use haessig::parser::Parser;

#[test]
fn program_that_only_exits() {
    let ast = Vec::new();
    let generator = IRGen::new(&ast);
    let mut compiler = Compiler::new(generator.ir());
    let text = compiler.compile();
    assert_eq!(text, format!("{}{}", PROLOGUE, EPILOGUE));
    assert!(text.starts_with("\nformat ELF64 executable 3"));
    assert!(text.contains("_start:"));
    assert!(text.ends_with("syscall                               ;; );\n"));
    assert_eq!(text.lines().count(), 9);
}

#[test]
fn compiling_again_writes_the_end_again() {
    let toks = Lexer::new("funktion f {};").lex();
    let ast = Parser::new(&toks).parse().unwrap();
    let generator = IRGen::new(&ast);
    let mut compiler = Compiler::new(generator.ir());
    let once = compiler.compile();
    let twice = compiler.compile();
    assert_eq!(twice, format!("{}{}", once, EPILOGUE));
}

#[test]
fn print_text_is_fixed() {
    assert_eq!(generate_print("a"), PRINT_TEXT);
    assert_eq!(generate_print(""), generate_print("b"));
    assert!(PRINT_TEXT.starts_with("\nmov eax, 1"));
    assert_eq!(PRINT_TEXT.lines().count(), 6);
}
