//! The rules of name resolution, as mathematical functions on the values of
//! syntax trees and on a stack of scopes.
//!
//! A scope maps a name to its type, or to no type where the type is unknown.
//! A name is looked up from the innermost scope outwards. Defining a name
//! that its scope already holds is allowed and leaves a warning.

use crate::ast::{
    ArgView, BlockView, CallView, ExprView, FunAssView, PrimType, PrimView, StExView, StmtView,
    VarAssView,
};
use vstd::prelude::*;

verus! {

/// A scope: the names defined in it, each with its type if that is known.
pub type ScopeView = Map<Seq<char>, Option<PrimType>>;

/// The value of a warning: `name` was defined again in the scope that
/// already held it with type `previous`, now with type `replacement`.
pub ghost struct ShadowingView {
    pub name: Seq<char>,
    pub previous: Option<PrimType>,
    pub replacement: Option<PrimType>,
}

/// What the analysis knows at a point of the program: the scopes that are
/// open, the innermost last, and the warnings given so far.
pub ghost struct Symbols {
    pub scopes: Seq<ScopeView>,
    pub warnings: Seq<ShadowingView>,
}

/// The value of a semantic error.
pub ghost enum SemAnErrorView {
    /// A name is used that no open scope defines.
    TokenNotDefined(Seq<char>),
    /// A function is called that no open scope defines and that is not built
    /// in.
    FunctionNotDefined(Seq<char>),
    /// A parameter name occurs twice: the name, then the function.
    SameFunctionArgs(Seq<char>, Seq<char>),
    /// An argument of a call is not valid: the name that is not defined in
    /// it, then the function called.
    ArgNotDefined(Seq<char>, Seq<char>),
    /// A variable is defined by a name that is not defined: that name, then
    /// the variable.
    AssignTokenNotDefined(Seq<char>, Seq<char>),
}

/// How an analysis fails: the first error, and what was known when it
/// stopped. Nothing is tidied up then: the scopes that were open at the error
/// are still open.
pub ghost struct Failure {
    pub error: SemAnErrorView,
    pub left: Symbols,
}

/// What a rule gives: the knowledge after the node, or the failure.
pub type Checked = Result<Symbols, Failure>;

/// The state before analysis: the module scope, empty, and no warning.
pub open spec fn initial_symbols() -> Symbols {
    Symbols { scopes: seq![Map::empty()], warnings: Seq::empty() }
}

/// Whether `name` is a function that the language provides: printing,
/// returning and reading input.
pub open spec fn is_builtin(name: Seq<char>) -> bool {
    name == "schreie"@ || name == "gib"@ || name == "verlange"@
}

/// The entry of `name` in the innermost scope that defines it.
pub open spec fn resolve(scopes: Seq<ScopeView>, name: Seq<char>) -> Option<Option<PrimType>>
    decreases scopes.len(),
{
    if scopes.len() == 0 {
        None
    } else if scopes.last().contains_key(name) {
        Some(scopes.last()[name])
    } else {
        resolve(scopes.drop_last(), name)
    }
}

/// Whether some open scope defines `name`.
pub open spec fn defined(scopes: Seq<ScopeView>, name: Seq<char>) -> bool {
    resolve(scopes, name) is Some
}

/// The type of `name`, if a scope defines it and knows its type.
pub open spec fn type_of(scopes: Seq<ScopeView>, name: Seq<char>) -> Option<PrimType> {
    match resolve(scopes, name) {
        Some(pt) => pt,
        None => None,
    }
}

/// Defines `name` with type `pt` in the innermost scope. Where that scope
/// holds the name already, the new entry replaces the old one and a warning
/// is added. With no scope open nothing changes.
pub open spec fn declare(st: Symbols, name: Seq<char>, pt: Option<PrimType>) -> Symbols {
    if st.scopes.len() == 0 {
        st
    } else {
        let current = st.scopes.last();
        Symbols {
            scopes: st.scopes.drop_last().push(current.insert(name, pt)),
            warnings: if current.contains_key(name) {
                st.warnings.push(
                    ShadowingView { name, previous: current[name], replacement: pt },
                )
            } else {
                st.warnings
            },
        }
    }
}

/// Opens a new, empty scope.
pub open spec fn enter(st: Symbols) -> Symbols {
    Symbols { scopes: st.scopes.push(Map::empty()), warnings: st.warnings }
}

/// Closes the innermost scope.
pub open spec fn leave(st: Symbols) -> Symbols {
    if st.scopes.len() == 0 {
        st
    } else {
        Symbols { scopes: st.scopes.drop_last(), warnings: st.warnings }
    }
}

/// Whether the name of parameter `i` occurs again behind it.
pub open spec fn repeated(args: Seq<ArgView>, i: int) -> bool {
    exists|j: int| i < j < args.len() && #[trigger] args[j].id == args[i].id
}

/// The name of the first parameter, at `i` or later, whose name occurs again
/// behind it.
pub open spec fn first_duplicate(args: Seq<ArgView>, i: int) -> Option<Seq<char>>
    decreases args.len() - i,
{
    if i < 0 || i >= args.len() {
        None
    } else if repeated(args, i) {
        Some(args[i].id)
    } else {
        first_duplicate(args, i + 1)
    }
}

/// Defines the parameters `args[i..]`, each with its type, in the innermost
/// scope.
pub open spec fn declare_params(args: Seq<ArgView>, i: int, st: Symbols) -> Symbols
    decreases args.len() - i,
{
    if i < 0 || i >= args.len() {
        st
    } else {
        declare_params(args, i + 1, declare(st, args[i].id, Some(args[i].pt)))
    }
}

/// The type that a literal has.
pub open spec fn literal_type(p: PrimView) -> Option<PrimType> {
    match p {
        PrimView::Str(_) => Some(PrimType::String),
        PrimView::Bool(_) => Some(PrimType::Boolean),
        PrimView::R8(_) => Some(PrimType::R8),
        PrimView::Id(_) => None,
    }
}

/// Defines `symbol` by the literal or name `p`: a literal gives its own
/// type; a name must be defined and gives the type it has. Where it is not
/// defined, nothing is defined either.
pub open spec fn define_by_prim(p: PrimView, symbol: Seq<char>, st: Symbols) -> Checked {
    match p {
        PrimView::Id(source) => if defined(st.scopes, source) {
            Ok(declare(st, symbol, type_of(st.scopes, source)))
        } else {
            Err(Failure { error: SemAnErrorView::AssignTokenNotDefined(source, symbol), left: st })
        },
        _ => Ok(declare(st, symbol, literal_type(p))),
    }
}

/// A literal is always valid; a name must be defined.
pub open spec fn check_prim(p: PrimView, st: Symbols) -> Checked {
    match p {
        PrimView::Id(name) => if defined(st.scopes, name) {
            Ok(st)
        } else {
            Err(Failure { error: SemAnErrorView::TokenNotDefined(name), left: st })
        },
        _ => Ok(st),
    }
}

/// The name that an error inside an argument speaks of: the undefined name
/// or function, and the empty name for any other error.
pub open spec fn culprit(e: SemAnErrorView) -> Seq<char> {
    match e {
        SemAnErrorView::TokenNotDefined(t) => t,
        SemAnErrorView::FunctionNotDefined(t) => t,
        _ => Seq::empty(),
    }
}

/// A statement.
pub open spec fn check_stmt(s: StmtView, st: Symbols) -> Checked
    decreases s, 0int,
{
    match s {
        StmtView::FunAss(f) => check_fun_ass(f, st),
        StmtView::VarAss(v) => check_var_ass(v, st),
        StmtView::StEx(x) => check_stex(x, st),
        StmtView::Ret(e) => check_expr(e, st),
    }
}

/// A function definition: the function's name is defined in the current
/// scope with its return type; no two parameters may share a name; the
/// parameters are defined in a scope of the function's own, in which the body
/// is analysed.
pub open spec fn check_fun_ass(f: FunAssView, st: Symbols) -> Checked
    decreases f, 0int,
{
    let named = declare(st, f.id, f.ret);
    match first_duplicate(f.args, 0) {
        Some(name) => Err(
            Failure { error: SemAnErrorView::SameFunctionArgs(name, f.id), left: named },
        ),
        None => match check_block(f.body, declare_params(f.args, 0, enter(named))) {
            Ok(after) => Ok(leave(after)),
            Err(e) => Err(e),
        },
    }
}

/// A variable definition: a literal or a name gives the variable its type;
/// any other initializer is analysed, and the variable's type stays unknown.
pub open spec fn check_var_ass(v: VarAssView, st: Symbols) -> Checked
    decreases v, 0int,
{
    match v.value {
        ExprView::Prim(p) => define_by_prim(p, v.id, st),
        _ => match check_expr(v.value, st) {
            Ok(after) => Ok(declare(after, v.id, None)),
            Err(e) => Err(e),
        },
    }
}

/// A call or a block.
pub open spec fn check_stex(x: StExView, st: Symbols) -> Checked
    decreases x, 0int,
{
    match x {
        StExView::Call(c) => check_call(c, st),
        StExView::Block(b) => check_block(b, st),
    }
}

/// A block: its statements in order, in a scope of its own.
pub open spec fn check_block(b: BlockView, st: Symbols) -> Checked
    decreases b, 0int,
{
    match check_stmts(b.stmts, 0, enter(st)) {
        Ok(after) => Ok(leave(after)),
        Err(e) => Err(e),
    }
}

/// The statements `stmts[i..]` in order.
pub open spec fn check_stmts(stmts: Seq<StmtView>, i: int, st: Symbols) -> Checked
    decreases stmts, stmts.len() - i,
{
    if i < 0 || i >= stmts.len() {
        Ok(st)
    } else {
        match check_stmt(stmts[i], st) {
            Ok(after) => check_stmts(stmts, i + 1, after),
            Err(e) => Err(e),
        }
    }
}

/// A call: the function must be defined or built in, and each argument must
/// be valid. An error in an argument is reported as an error of the call.
pub open spec fn check_call(c: CallView, st: Symbols) -> Checked
    decreases c, 0int,
{
    if !defined(st.scopes, c.id) && !is_builtin(c.id) {
        Err(Failure { error: SemAnErrorView::FunctionNotDefined(c.id), left: st })
    } else {
        check_args(c.args, 0, c.id, st)
    }
}

/// The arguments `args[i..]` of a call of `callee`, in order.
pub open spec fn check_args(args: Seq<ExprView>, i: int, callee: Seq<char>, st: Symbols) -> Checked
    decreases args, args.len() - i,
{
    if i < 0 || i >= args.len() {
        Ok(st)
    } else {
        match check_expr(args[i], st) {
            Ok(after) => check_args(args, i + 1, callee, after),
            Err(e) => Err(
                Failure {
                    error: SemAnErrorView::ArgNotDefined(culprit(e.error), callee),
                    left: e.left,
                },
            ),
        }
    }
}

/// An expression: a call or block, a literal or name, or a binary operation,
/// whose two operands are analysed in order.
pub open spec fn check_expr(e: ExprView, st: Symbols) -> Checked
    decreases e, 0int,
{
    match e {
        ExprView::StEx(x) => check_stex(x, st),
        ExprView::Prim(p) => check_prim(p, st),
        ExprView::Bin(_, lhs, rhs) => match check_expr(*lhs, st) {
            Ok(after) => check_expr(*rhs, after),
            Err(e) => Err(e),
        },
    }
}

/// A whole program: its statements in order, from the initial state.
pub open spec fn check_program(stmts: Seq<StmtView>) -> Checked {
    check_stmts(stmts, 0, initial_symbols())
}

/// Whether `after` can follow `before` in an analysis: as many scopes are
/// open, and the warnings given before are all still there, in front.
pub open spec fn settled(before: Symbols, after: Symbols) -> bool {
    &&& after.scopes.len() == before.scopes.len()
    &&& before.warnings.len() <= after.warnings.len()
    &&& after.warnings.take(before.warnings.len() as int) == before.warnings
}

/// Defining a name opens and closes no scope and takes no warning back.
pub proof fn lemma_declare_settled(st: Symbols, name: Seq<char>, pt: Option<PrimType>)
    ensures
        settled(st, declare(st, name, pt)),
{
    let after = declare(st, name, pt);
    assert(after.warnings.take(st.warnings.len() as int) =~= st.warnings);
}

/// Defining parameters opens and closes no scope and takes no warning back.
pub proof fn lemma_declare_params_settled(args: Seq<ArgView>, i: int, st: Symbols)
    ensures
        settled(st, declare_params(args, i, st)),
    decreases args.len() - i,
{
    if 0 <= i < args.len() {
        let next = declare(st, args[i].id, Some(args[i].pt));
        lemma_declare_settled(st, args[i].id, Some(args[i].pt));
        lemma_declare_params_settled(args, i + 1, next);
        lemma_settled_chain(st, next, declare_params(args, i + 1, next));
    } else {
        assert(st.warnings.take(st.warnings.len() as int) =~= st.warnings);
    }
}

/// What follows a state that follows another follows the first.
pub proof fn lemma_settled_chain(a: Symbols, b: Symbols, c: Symbols)
    requires
        settled(a, b),
        settled(b, c),
    ensures
        settled(a, c),
{
    assert(c.warnings.take(a.warnings.len() as int) =~= b.warnings.take(
        a.warnings.len() as int,
    ));
}

/// Every scope that the analysis of a statement opens it also closes: after
/// a statement that is valid, as many scopes are open as before, and no
/// warning has been taken back.
pub proof fn law_statement_leaves_scopes(s: StmtView, st: Symbols)
    ensures
        check_stmt(s, st) matches Ok(after) ==> settled(st, after),
    decreases s, 0int,
{
    match s {
        StmtView::FunAss(f) => law_function_leaves_scopes(f, st),
        StmtView::VarAss(v) => law_variable_leaves_scopes(v, st),
        StmtView::StEx(x) => law_stex_leaves_scopes(x, st),
        StmtView::Ret(e) => law_expression_leaves_scopes(e, st),
    }
}

/// A function definition that is valid leaves as many scopes open as it
/// found.
pub proof fn law_function_leaves_scopes(f: FunAssView, st: Symbols)
    ensures
        check_fun_ass(f, st) matches Ok(after) ==> settled(st, after),
    decreases f, 0int,
{
    if check_fun_ass(f, st) is Ok {
        let named = declare(st, f.id, f.ret);
        let inside = declare_params(f.args, 0, enter(named));
        lemma_declare_settled(st, f.id, f.ret);
        lemma_declare_params_settled(f.args, 0, enter(named));
        law_block_leaves_scopes(f.body, inside);
        let body = check_block(f.body, inside)->Ok_0;
        assert(settled(named, leave(body))) by {
            assert(leave(body).warnings.take(named.warnings.len() as int)
                =~= inside.warnings.take(named.warnings.len() as int));
        }
        lemma_settled_chain(st, named, leave(body));
    }
}

/// A variable definition that is valid leaves as many scopes open as it
/// found.
pub proof fn law_variable_leaves_scopes(v: VarAssView, st: Symbols)
    ensures
        check_var_ass(v, st) matches Ok(after) ==> settled(st, after),
    decreases v, 0int,
{
    if check_var_ass(v, st) is Ok {
        match v.value {
            ExprView::Prim(p) => {
                match p {
                    PrimView::Id(source) => lemma_declare_settled(
                        st,
                        v.id,
                        type_of(st.scopes, source),
                    ),
                    _ => lemma_declare_settled(st, v.id, literal_type(p)),
                }
            },
            _ => {
                law_expression_leaves_scopes(v.value, st);
                let after = check_expr(v.value, st)->Ok_0;
                lemma_declare_settled(after, v.id, None);
                lemma_settled_chain(st, after, declare(after, v.id, None));
            },
        }
    }
}

/// A call or block that is valid leaves as many scopes open as it found.
pub proof fn law_stex_leaves_scopes(x: StExView, st: Symbols)
    ensures
        check_stex(x, st) matches Ok(after) ==> settled(st, after),
    decreases x, 0int,
{
    match x {
        StExView::Call(c) => {
            if check_call(c, st) is Ok {
                law_arguments_leave_scopes(c.args, 0, c.id, st);
            }
        },
        StExView::Block(b) => law_block_leaves_scopes(b, st),
    }
}

/// A block that is valid closes the one scope that it opened.
pub proof fn law_block_leaves_scopes(b: BlockView, st: Symbols)
    ensures
        check_block(b, st) matches Ok(after) ==> settled(st, after),
    decreases b, 0int,
{
    if check_block(b, st) is Ok {
        law_statements_leave_scopes(b.stmts, 0, enter(st));
        let inside = check_stmts(b.stmts, 0, enter(st))->Ok_0;
        assert(leave(inside).warnings.take(st.warnings.len() as int) =~= st.warnings);
    }
}

/// Statements that are valid leave as many scopes open as they found.
pub proof fn law_statements_leave_scopes(stmts: Seq<StmtView>, i: int, st: Symbols)
    ensures
        check_stmts(stmts, i, st) matches Ok(after) ==> settled(st, after),
    decreases stmts, stmts.len() - i,
{
    if 0 <= i < stmts.len() {
        if check_stmts(stmts, i, st) is Ok {
            law_statement_leaves_scopes(stmts[i], st);
            let next = check_stmt(stmts[i], st)->Ok_0;
            law_statements_leave_scopes(stmts, i + 1, next);
            lemma_settled_chain(st, next, check_stmts(stmts, i + 1, next)->Ok_0);
        }
    } else {
        assert(st.warnings.take(st.warnings.len() as int) =~= st.warnings);
    }
}

/// Arguments that are valid leave as many scopes open as they found.
pub proof fn law_arguments_leave_scopes(
    args: Seq<ExprView>,
    i: int,
    callee: Seq<char>,
    st: Symbols,
)
    ensures
        check_args(args, i, callee, st) matches Ok(after) ==> settled(st, after),
    decreases args, args.len() - i,
{
    if 0 <= i < args.len() {
        if check_args(args, i, callee, st) is Ok {
            law_expression_leaves_scopes(args[i], st);
            let next = check_expr(args[i], st)->Ok_0;
            law_arguments_leave_scopes(args, i + 1, callee, next);
            lemma_settled_chain(st, next, check_args(args, i + 1, callee, next)->Ok_0);
        }
    } else {
        assert(st.warnings.take(st.warnings.len() as int) =~= st.warnings);
    }
}

/// An expression that is valid leaves as many scopes open as it found.
pub proof fn law_expression_leaves_scopes(e: ExprView, st: Symbols)
    ensures
        check_expr(e, st) matches Ok(after) ==> settled(st, after),
    decreases e, 0int,
{
    match e {
        ExprView::StEx(x) => law_stex_leaves_scopes(x, st),
        ExprView::Prim(p) => {
            assert(st.warnings.take(st.warnings.len() as int) =~= st.warnings);
        },
        ExprView::Bin(_, lhs, rhs) => {
            if check_expr(e, st) is Ok {
                law_expression_leaves_scopes(*lhs, st);
                let next = check_expr(*lhs, st)->Ok_0;
                law_expression_leaves_scopes(*rhs, next);
                lemma_settled_chain(st, next, check_expr(*rhs, next)->Ok_0);
            }
        },
    }
}

/// A valid program ends with the module scope alone open.
pub proof fn law_program_ends_in_module_scope(stmts: Seq<StmtView>)
    ensures
        check_program(stmts) matches Ok(after) ==> after.scopes.len() == 1,
{
    law_statements_leave_scopes(stmts, 0, initial_symbols());
}

} // verus!
