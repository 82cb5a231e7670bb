//! The intermediate representation that the native-code generator reads:
//! instructions of the main program and of each label.

use crate::ast::{stmt_views, Program, StmtView};
use std::collections::HashMap;
use vstd::prelude::*;

verus! {

/// An arithmetic operation.
#[derive(Debug, Clone, Copy, PartialEq, Eq)]
pub enum Op {
    Add,
    Sub,
    Div,
    Mul,
    Mod,
}

/// One instruction: an operation on two named operands, or a jump to a label.
#[derive(Debug, Clone, Copy, PartialEq, Eq)]
pub enum Instruction<'a> {
    Bin(Op, &'a str, &'a str),
    Jmp(&'a str),
}

/// A run of instructions.
pub type Instructions<'a> = Vec<Instruction<'a>>;

/// A program as instructions: those of the main program, and those of each
/// label.
pub struct IntermRepr<'a> {
    main: Instructions<'a>,
    labels: HashMap<&'a str, Instructions<'a>>,
}

impl<'a> IntermRepr<'a> {
    /// The number of instructions of the main program.
    pub closed spec fn main_len(&self) -> nat {
        self.main@.len()
    }

    /// The number of labels.
    pub closed spec fn label_count(&self) -> nat {
        self.labels@.len()
    }
}

/// Builds the intermediate representation of a program.
pub struct IRGen<'a> {
    ir: IntermRepr<'a>,
    ast: &'a Program<'a>,
}

impl<'a> IRGen<'a> {
    /// The statements of the program that is read.
    pub closed spec fn program(&self) -> Seq<StmtView> {
        stmt_views(self.ast@)
    }

    /// What has been built so far.
    pub closed spec fn built(&self) -> IntermRepr<'a> {
        self.ir
    }

    /// A generator for `ast` that has built nothing yet.
    pub fn new(ast: &'a Program<'a>) -> (generator: Self)
        ensures
            generator.program() == stmt_views(ast@),
            generator.built().main_len() == 0,
            generator.built().label_count() == 0,
    {
        Self { ir: IntermRepr { main: Vec::new(), labels: HashMap::new() }, ast }
    }

    /// What has been built so far.
    pub fn ir(&self) -> (r: &IntermRepr<'a>)
        ensures
            *r == self.built(),
    {
        &self.ir
    }
}

} // verus!
