//! The native-code generator: assembly text for a program in its
//! intermediate representation. So far the text is that of a program which
//! only exits.

use crate::interm::IntermRepr;
use vstd::prelude::*;

verus! {

/// The assembly text that prints.
pub const PRINT_TEXT: &'static str =
    "\nmov eax, 1                            ;; sys_write(               // Call the write(2) syscall\nmov edi, 1                            ;;     STDOUT_FILENO,       // Write to stdout\nmov esi, hello_world                  ;;     hello_world,         // Buffer to write to STDOUT_FILENO: hello_world\nmov edx, hello_world_length           ;;     hello_world_length,  // Buffer length\nsyscall                               ;; );\n";

/// The assembly text that every program starts with.
pub const PROLOGUE: &'static str =
    "\nformat ELF64 executable 3                 ;; ELF64 Format for GNU+Linux\nsegment readable executable               ;; Executable code section\n\n_start:                                   \n";

/// The assembly text that ends a program: it exits with success.
pub const EPILOGUE: &'static str =
    "\n    mov eax, 60                           ;; SYS_exit(                // Call the exit exit(2) syscall\n    mov edi, 0                            ;;     EXIT_SUCCESS,        // Exit with success exit code, required if we don't want a segfault\n    syscall                               ;; );\n";

/// The assembly text that prints. What is printed is not chosen yet: the text
/// is the same whatever is asked for.
pub fn generate_print(_out: &str) -> (r: String)
    ensures
        r@ == PRINT_TEXT@,
{
    String::from_str(PRINT_TEXT)
}

/// Writes assembly text for a program.
pub struct Compiler<'a> {
    input: &'a IntermRepr<'a>,
    stack_size: u64,
    output: String,
}

impl<'a> Compiler<'a> {
    /// The text written so far.
    pub closed spec fn output(&self) -> Seq<char> {
        self.output@
    }

    /// A compiler for `input`, with the start of every program written.
    pub fn new(input: &'a IntermRepr<'a>) -> (compiler: Self)
        ensures
            compiler.output() == PROLOGUE@,
    {
        Self { input, stack_size: 0, output: String::from_str(PROLOGUE) }
    }

    /// Writes the end of the program and returns the whole text.
    pub fn compile(&mut self) -> (r: String)
        ensures
            final(self).output() == old(self).output() + EPILOGUE@,
            r@ == final(self).output(),
    {
        self.output.append(EPILOGUE);
        self.output.clone()
    }
}

} // verus!
