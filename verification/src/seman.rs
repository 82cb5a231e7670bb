//! The semantic analyzer: one walk over the syntax tree with a stack of
//! scopes, which resolves every name and stops at the first error.
//!
//! The tree is only read. What the analyzer does to its scopes and warnings,
//! and which error it gives, is what the rules of name resolution say of the
//! tree's value.

use crate::ast::{
    arg_views, expr_views, lemma_block_view, lemma_call_view, stmt_views, Arg, Bin, Block,
    Call, Expr, FunAss, Prim, PrimType, Program, StEx, Stmt, StmtView, VarAss,
};
use crate::rules::{
    check_args, check_block, check_call, check_expr, check_fun_ass, check_prim, check_stex,
    check_program, check_stmt, check_stmts, check_var_ass, culprit, declare, declare_params, define_by_prim,
    defined, enter, first_duplicate, initial_symbols, is_builtin, leave, repeated, resolve,
    type_of, Checked, ScopeView, SemAnErrorView, ShadowingView, Symbols,
};
use crate::text::str_eq;
use vstd::prelude::*;

verus! {

/// Why a program is not valid.
#[derive(Debug, Clone, Copy, PartialEq)]
pub enum SemAnError<'a> {
    /// A name is used that no open scope defines.
    TokenNotDefined(&'a str),
    /// A function is called that no open scope defines and that is not built
    /// in.
    FunctionNotDefined(&'a str),
    /// A parameter name occurs twice: the name, then the function.
    SameFunctionArgs(&'a str, &'a str),
    /// An argument of a call is not valid: the name that is not defined in
    /// it, then the function called.
    ArgNotDefined(&'a str, &'a str),
    /// A variable is defined by a name that is not defined: that name, then
    /// the variable.
    AssignTokenNotDefined(&'a str, &'a str),
}

impl<'a> View for SemAnError<'a> {
    type V = SemAnErrorView;

    open spec fn view(&self) -> SemAnErrorView {
        match *self {
            SemAnError::TokenNotDefined(t) => SemAnErrorView::TokenNotDefined(t@),
            SemAnError::FunctionNotDefined(t) => SemAnErrorView::FunctionNotDefined(t@),
            SemAnError::SameFunctionArgs(a, f) => SemAnErrorView::SameFunctionArgs(a@, f@),
            SemAnError::ArgNotDefined(a, f) => SemAnErrorView::ArgNotDefined(a@, f@),
            SemAnError::AssignTokenNotDefined(s, t) => SemAnErrorView::AssignTokenNotDefined(
                s@,
                t@,
            ),
        }
    }
}

/// A warning: `name` was defined again in the scope that already held it
/// with type `previous`, now with type `replacement`.
#[derive(Debug, Clone, Copy, PartialEq)]
pub struct Shadowing<'a> {
    pub name: &'a str,
    pub previous: Option<PrimType>,
    pub replacement: Option<PrimType>,
}

impl<'a> View for Shadowing<'a> {
    type V = ShadowingView;

    open spec fn view(&self) -> ShadowingView {
        ShadowingView { name: self.name@, previous: self.previous, replacement: self.replacement }
    }
}

/// The values of a sequence of warnings.
pub open spec fn shadowing_views(ws: Seq<Shadowing>) -> Seq<ShadowingView> {
    ws.map_values(|w: Shadowing| w@)
}

/// One definition in a scope.
#[derive(Debug, Clone, Copy)]
struct Binding<'a> {
    name: &'a str,
    pt: Option<PrimType>,
}

/// The scope that a list of definitions makes: a later definition of a name
/// replaces an earlier one.
spec fn scope_map(bindings: Seq<Binding>) -> ScopeView
    decreases bindings.len(),
{
    if bindings.len() == 0 {
        Map::empty()
    } else {
        scope_map(bindings.drop_last()).insert(bindings.last().name@, bindings.last().pt)
    }
}

/// The scopes that a stack of definition lists makes.
spec fn stack_view(stack: Seq<Vec<Binding>>) -> Seq<ScopeView> {
    Seq::new(stack.len(), |i: int| scope_map(stack[i]@))
}

/// The entry of `name` in one scope.
spec fn entry(scope: ScopeView, name: Seq<char>) -> Option<Option<PrimType>> {
    if scope.contains_key(name) {
        Some(scope[name])
    } else {
        None
    }
}

/// Whether the outcome `r` of analysing a node, which left the analyzer
/// knowing `after`, is what the rules give: the same knowledge, or the same
/// error with what was known when the analysis stopped.
pub open spec fn follows(r: Result<(), SemAnError>, after: Symbols, expected: Checked) -> bool {
    match expected {
        Ok(st) => r is Ok && after == st,
        Err(e) => r matches Err(x) && x@ == e.error && after == e.left,
    }
}

/// Looks `name` up in one scope.
fn find_in<'a>(scope: &Vec<Binding<'a>>, name: &str) -> (r: Option<Option<PrimType>>)
    ensures
        r == entry(scope_map(scope@), name@),
{
    let mut i: usize = scope.len();
    assert(scope@.take(i as int) =~= scope@);
    while i > 0
        invariant
            i <= scope@.len(),
            entry(scope_map(scope@), name@) == entry(scope_map(scope@.take(i as int)), name@),
        decreases i,
    {
        let b = scope[i - 1];
        proof {
            assert(scope@.take(i as int).drop_last() =~= scope@.take(i - 1));
            assert(scope@.take(i as int).last() == b);
        }
        if str_eq(b.name, name) {
            return Some(b.pt);
        }
        i -= 1;
    }
    None
}

/// The first parameter whose name occurs again behind it.
fn find_duplicate<'a>(args: &Vec<Arg<'a>>) -> (r: Option<&'a str>)
    ensures
        match first_duplicate(arg_views(args@), 0) {
            Some(name) => r matches Some(x) && x@ == name,
            None => r is None,
        },
{
    let ghost views = arg_views(args@);
    let n: usize = args.len();
    let mut i: usize = 0;
    while i < n
        invariant
            i <= n,
            n == args@.len(),
            views == arg_views(args@),
            first_duplicate(views, 0) == first_duplicate(views, i as int),
        decreases n - i,
    {
        let mut j: usize = i + 1;
        while j < n
            invariant
                i < j <= n,
                n == args@.len(),
                views == arg_views(args@),
                first_duplicate(views, 0) == first_duplicate(views, i as int),
                forall|k: int| i < k < j ==> (#[trigger] views[k]).id != views[i as int].id,
            decreases n - j,
        {
            if str_eq(args[i].id, args[j].id) {
                assert(views[j as int].id == views[i as int].id);
                assert(repeated(views, i as int));
                return Some(args[i].id);
            }
            j += 1;
        }
        assert(!repeated(views, i as int));
        i += 1;
    }
    None
}

/// Walks a program with a stack of scopes.
pub struct SemanticAnalyzer<'a> {
    ast: &'a Program<'a>,
    scope_stack: Vec<Vec<Binding<'a>>>,
    warnings: Vec<Shadowing<'a>>,
}

impl<'a> SemanticAnalyzer<'a> {
    /// What the analyzer knows: its open scopes and the warnings it has
    /// given.
    pub closed spec fn symbols(&self) -> Symbols {
        Symbols {
            scopes: stack_view(self.scope_stack@),
            warnings: shadowing_views(self.warnings@),
        }
    }

    /// The statements of the program that the analyzer walks.
    pub closed spec fn program(&self) -> Seq<StmtView> {
        stmt_views(self.ast@)
    }

    /// An analyzer for `ast`, with the module scope open and empty.
    pub fn new(ast: &'a Program<'a>) -> (analyzer: Self)
        ensures
            analyzer.symbols() == initial_symbols(),
            analyzer.program() == stmt_views(ast@),
    {
        let mut scope_stack: Vec<Vec<Binding<'a>>> = Vec::new();
        scope_stack.push(Vec::new());
        let analyzer = Self { ast, scope_stack, warnings: Vec::new() };
        proof {
            assert(analyzer.symbols().scopes =~= initial_symbols().scopes);
            assert(analyzer.symbols().warnings =~= initial_symbols().warnings);
        }
        analyzer
    }

    /// Analyses the program statement by statement, from the module scope
    /// alone and empty, and stops at the first error. The outcome depends on
    /// the program alone: what the analyzer knew before is forgotten.
    pub fn analyze(&mut self) -> (r: Result<(), SemAnError<'a>>)
        ensures
            final(self).program() == old(self).program(),
            follows(r, final(self).symbols(), check_program(old(self).program())),
    {
        let ast: &'a Program<'a> = self.ast;
        let ghost stmts = stmt_views(ast@);
        self.scope_stack = Vec::new();
        self.scope_stack.push(Vec::new());
        self.warnings = Vec::new();
        proof {
            assert(self.symbols().scopes =~= initial_symbols().scopes);
            assert(self.symbols().warnings =~= initial_symbols().warnings);
        }
        let n: usize = ast.len();
        let mut i: usize = 0;
        while i < n
            invariant
                i <= n,
                n == ast@.len(),
                stmts == stmt_views(ast@),
                self.program() == stmts,
                old(self).program() == stmts,
                check_program(stmts) == check_stmts(stmts, i as int, self.symbols()),
            decreases n - i,
        {
            match ast[i].analyze(self) {
                Ok(()) => {},
                Err(e) => {
                    return Err(e);
                },
            }
            i += 1;
        }
        Ok(())
    }

    /// The warnings given so far, in order.
    pub fn warnings(&self) -> (r: &Vec<Shadowing<'a>>)
        ensures
            shadowing_views(r@) == self.symbols().warnings,
    {
        &self.warnings
    }

    /// Defines `symbol` by the literal or name `prim`. Where the name is not
    /// defined nothing is defined, and the analyzer stays as it was.
    pub fn add_prim(&mut self, prim: &Prim<'a>, symbol: &'a str) -> (r: Result<(), SemAnError<'a>>)
        ensures
            final(self).program() == old(self).program(),
            follows(r, final(self).symbols(), define_by_prim(prim@, symbol@, old(self).symbols())),
            r is Err ==> final(self).symbols() == old(self).symbols(),
    {
        match *prim {
            Prim::Str(_) => self.add_symbol(symbol, Some(PrimType::String)),
            Prim::Bool(_) => self.add_symbol(symbol, Some(PrimType::Boolean)),
            Prim::R8(_) => self.add_symbol(symbol, Some(PrimType::R8)),
            Prim::Id(id) => {
                if self.has_symbol(id) {
                    let pt = self.get_symbol(id);
                    self.add_symbol(symbol, pt);
                } else {
                    return Err(SemAnError::AssignTokenNotDefined(id, symbol));
                }
            },
        }
        Ok(())
    }

    /// Defines `symbol` with type `value` in the innermost scope, with a
    /// warning where that scope holds the name already.
    pub fn add_symbol(&mut self, symbol: &'a str, value: Option<PrimType>)
        ensures
            final(self).program() == old(self).program(),
            final(self).symbols() == declare(old(self).symbols(), symbol@, value),
    {
        if self.scope_stack.len() == 0 {
            return ;
        }
        let ghost before = self.scope_stack@;
        let ghost warned = self.warnings@;
        let mut current = match self.scope_stack.pop() {
            Some(c) => c,
            None => {
                return ;
            },
        };
        match find_in(&current, symbol) {
            Some(previous) => {
                let w = Shadowing { name: symbol, previous, replacement: value };
                self.warnings.push(w);
                assert(shadowing_views(warned.push(w)) =~= shadowing_views(warned).push(w@));
            },
            None => {},
        }
        let ghost held = current@;
        let b = Binding { name: symbol, pt: value };
        current.push(b);
        proof {
            assert(held.push(b).drop_last() =~= held);
        }
        self.scope_stack.push(current);
        proof {
            let old_scopes = stack_view(before);
            assert(stack_view(self.scope_stack@) =~= old_scopes.drop_last().push(
                old_scopes.last().insert(symbol@, value),
            ));
        }
    }

    /// Whether some open scope defines `symbol`.
    pub fn has_symbol(&self, symbol: &str) -> (r: bool)
        ensures
            r == defined(self.symbols().scopes, symbol@),
    {
        self.lookup(symbol).is_some()
    }

    /// The type of `symbol`, if a scope defines it and knows its type.
    pub fn get_symbol(&self, symbol: &str) -> (r: Option<PrimType>)
        ensures
            r == type_of(self.symbols().scopes, symbol@),
    {
        match self.lookup(symbol) {
            Some(pt) => pt,
            None => None,
        }
    }

    /// The entry of `symbol` in the innermost scope that defines it.
    fn lookup(&self, symbol: &str) -> (r: Option<Option<PrimType>>)
        ensures
            r == resolve(self.symbols().scopes, symbol@),
    {
        let ghost scopes = stack_view(self.scope_stack@);
        let mut i: usize = self.scope_stack.len();
        assert(scopes.take(i as int) =~= scopes);
        while i > 0
            invariant
                i <= self.scope_stack@.len(),
                scopes == stack_view(self.scope_stack@),
                resolve(scopes, symbol@) == resolve(scopes.take(i as int), symbol@),
            decreases i,
        {
            proof {
                assert(scopes.take(i as int).drop_last() =~= scopes.take(i - 1));
                assert(scopes.take(i as int).last() == scope_map(self.scope_stack@[i - 1]@));
            }
            match find_in(&self.scope_stack[i - 1], symbol) {
                Some(pt) => {
                    return Some(pt);
                },
                None => {},
            }
            i -= 1;
        }
        None
    }

    /// Opens a new, empty scope.
    fn enter_scope(&mut self)
        ensures
            final(self).program() == old(self).program(),
            final(self).symbols() == enter(old(self).symbols()),
    {
        self.scope_stack.push(Vec::new());
        proof {
            assert(stack_view(self.scope_stack@) =~= stack_view(old(self).scope_stack@).push(
                Map::empty(),
            ));
        }
    }

    /// Closes the innermost scope.
    fn leave_scope(&mut self)
        ensures
            final(self).program() == old(self).program(),
            final(self).symbols() == leave(old(self).symbols()),
    {
        let _ = self.scope_stack.pop();
        proof {
            if old(self).scope_stack@.len() > 0 {
                assert(stack_view(self.scope_stack@) =~= stack_view(
                    old(self).scope_stack@,
                ).drop_last());
            }
        }
    }
}

impl<'a> Prim<'a> {
    /// A literal is always valid; a name must be defined. Either way the
    /// analyzer stays as it was.
    pub fn analyze(&self, ctx: &mut SemanticAnalyzer<'a>) -> (r: Result<(), SemAnError<'a>>)
        ensures
            final(ctx).program() == old(ctx).program(),
            follows(r, final(ctx).symbols(), check_prim(self@, old(ctx).symbols())),
            final(ctx).symbols() == old(ctx).symbols(),
    {
        match *self {
            Prim::Id(id) => {
                if !ctx.has_symbol(id) {
                    return Err(SemAnError::TokenNotDefined(id));
                }
            },
            _ => {},
        }
        Ok(())
    }
}

impl<'a> Expr<'a> {
    /// Analyses an expression.
    pub fn analyze(&self, ctx: &mut SemanticAnalyzer<'a>) -> (r: Result<(), SemAnError<'a>>)
        ensures
            final(ctx).program() == old(ctx).program(),
            follows(r, final(ctx).symbols(), check_expr(self@, old(ctx).symbols())),
        decreases self, 0int,
    {
        match self {
            Expr::StEx(st_ex) => st_ex.analyze(ctx),
            Expr::Prim(prim) => prim.analyze(ctx),
            Expr::Bin(bin) => bin.analyze(ctx),
        }
    }
}

impl<'a> Bin<'a> {
    /// Analyses the two operands of a binary operation in order.
    pub fn analyze(&self, ctx: &mut SemanticAnalyzer<'a>) -> (r: Result<(), SemAnError<'a>>)
        ensures
            final(ctx).program() == old(ctx).program(),
            follows(
                r,
                final(ctx).symbols(),
                check_expr(Expr::Bin(*self)@, old(ctx).symbols()),
            ),
        decreases self, 0int,
    {
        match self.lhs.analyze(ctx) {
            Ok(()) => {},
            Err(e) => {
                return Err(e);
            },
        }
        self.rhs.analyze(ctx)
    }
}

impl<'a> StEx<'a> {
    /// Analyses a call or a block.
    pub fn analyze(&self, ctx: &mut SemanticAnalyzer<'a>) -> (r: Result<(), SemAnError<'a>>)
        ensures
            final(ctx).program() == old(ctx).program(),
            follows(r, final(ctx).symbols(), check_stex(self@, old(ctx).symbols())),
        decreases self, 0int,
    {
        match self {
            StEx::Call(call) => call.analyze(ctx),
            StEx::Block(block) => block.analyze(ctx),
        }
    }
}

impl<'a> Call<'a> {
    /// Analyses a call: the function must be defined or built in, and each
    /// argument must be valid.
    pub fn analyze(&self, ctx: &mut SemanticAnalyzer<'a>) -> (r: Result<(), SemAnError<'a>>)
        ensures
            final(ctx).program() == old(ctx).program(),
            follows(r, final(ctx).symbols(), check_call(self@, old(ctx).symbols())),
        decreases self, 0int,
    {
        proof {
            lemma_call_view(*self);
        }
        if !ctx.has_symbol(self.id) && !is_builtin_name(self.id) {
            return Err(SemAnError::FunctionNotDefined(self.id));
        }
        let ghost args = expr_views(self.args@);
        let n: usize = self.args.len();
        let mut i: usize = 0;
        while i < n
            invariant
                i <= n,
                n == self.args@.len(),
                args == expr_views(self.args@),
                ctx.program() == old(ctx).program(),
                check_call(self@, old(ctx).symbols()) == check_args(
                    args,
                    0,
                    self.id@,
                    old(ctx).symbols(),
                ),
                check_args(args, 0, self.id@, old(ctx).symbols()) == check_args(
                    args,
                    i as int,
                    self.id@,
                    ctx.symbols(),
                ),
            decreases n - i,
        {
            match self.args[i].analyze(ctx) {
                Ok(()) => {},
                Err(e) => {
                    let culprit: &'a str = match e {
                        SemAnError::TokenNotDefined(t) => t,
                        SemAnError::FunctionNotDefined(t) => t,
                        _ => "",
                    };
                    proof {
                        reveal_strlit("");
                        assert(""@ =~= Seq::<char>::empty());
                    }
                    return Err(SemAnError::ArgNotDefined(culprit, self.id));
                },
            }
            i += 1;
        }
        Ok(())
    }
}

impl<'a> Block<'a> {
    /// Analyses the statements of a block in order, in a scope of its own.
    pub fn analyze(&self, ctx: &mut SemanticAnalyzer<'a>) -> (r: Result<(), SemAnError<'a>>)
        ensures
            final(ctx).program() == old(ctx).program(),
            follows(r, final(ctx).symbols(), check_block(self@, old(ctx).symbols())),
        decreases self, 0int,
    {
        proof {
            lemma_block_view(*self);
        }
        ctx.enter_scope();
        let ghost stmts = stmt_views(self.stmts@);
        let ghost entered = ctx.symbols();
        let n: usize = self.stmts.len();
        let mut i: usize = 0;
        while i < n
            invariant
                i <= n,
                n == self.stmts@.len(),
                stmts == stmt_views(self.stmts@),
                self@.stmts == stmts,
                entered == enter(old(ctx).symbols()),
                ctx.program() == old(ctx).program(),
                check_stmts(stmts, 0, entered) == check_stmts(stmts, i as int, ctx.symbols()),
            decreases n - i,
        {
            match self.stmts[i].analyze(ctx) {
                Ok(()) => {},
                Err(e) => {
                    return Err(e);
                },
            }
            i += 1;
        }
        ctx.leave_scope();
        Ok(())
    }
}

impl<'a> VarAss<'a> {
    /// Analyses a variable definition.
    pub fn analyze(&self, ctx: &mut SemanticAnalyzer<'a>) -> (r: Result<(), SemAnError<'a>>)
        ensures
            final(ctx).program() == old(ctx).program(),
            follows(r, final(ctx).symbols(), check_var_ass(self@, old(ctx).symbols())),
        decreases self, 0int,
    {
        match &self.value {
            Expr::Prim(prim) => ctx.add_prim(prim, self.id),
            _ => {
                match self.value.analyze(ctx) {
                    Ok(()) => {},
                    Err(e) => {
                        return Err(e);
                    },
                }
                ctx.add_symbol(self.id, None);
                Ok(())
            },
        }
    }
}

impl<'a> FunAss<'a> {
    /// Analyses a function definition.
    pub fn analyze(&self, ctx: &mut SemanticAnalyzer<'a>) -> (r: Result<(), SemAnError<'a>>)
        ensures
            final(ctx).program() == old(ctx).program(),
            follows(r, final(ctx).symbols(), check_fun_ass(self@, old(ctx).symbols())),
        decreases self, 0int,
    {
        ctx.add_symbol(self.id, self.ret);
        match find_duplicate(&self.args) {
            Some(name) => {
                return Err(SemAnError::SameFunctionArgs(name, self.id));
            },
            None => {},
        }
        ctx.enter_scope();
        let ghost args = arg_views(self.args@);
        let ghost entered = ctx.symbols();
        let n: usize = self.args.len();
        let mut i: usize = 0;
        while i < n
            invariant
                i <= n,
                n == self.args@.len(),
                args == arg_views(self.args@),
                ctx.program() == old(ctx).program(),
                declare_params(args, 0, entered) == declare_params(args, i as int, ctx.symbols()),
            decreases n - i,
        {
            let arg = self.args[i];
            ctx.add_symbol(arg.id, Some(arg.pt));
            i += 1;
        }
        match self.body.analyze(ctx) {
            Ok(()) => {},
            Err(e) => {
                return Err(e);
            },
        }
        ctx.leave_scope();
        Ok(())
    }
}

impl<'a> Stmt<'a> {
    /// Analyses a statement.
    pub fn analyze(&self, ctx: &mut SemanticAnalyzer<'a>) -> (r: Result<(), SemAnError<'a>>)
        ensures
            final(ctx).program() == old(ctx).program(),
            follows(r, final(ctx).symbols(), check_stmt(self@, old(ctx).symbols())),
        decreases self, 0int,
    {
        match self {
            Stmt::FunAss(fun_ass) => fun_ass.analyze(ctx),
            Stmt::VarAss(var_ass) => var_ass.analyze(ctx),
            Stmt::StEx(st_ex) => st_ex.analyze(ctx),
            Stmt::Ret(ret) => ret.expr.analyze(ctx),
        }
    }
}

/// Tests whether `name` is a function that the language provides.
pub fn is_builtin_name(name: &str) -> (r: bool)
    ensures
        r == is_builtin(name@),
{
    str_eq(name, "schreie") || str_eq(name, "gib") || str_eq(name, "verlange")
}

} // verus!
