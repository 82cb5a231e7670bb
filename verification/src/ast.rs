//! The syntax tree, and the mathematical value of each of its nodes.
//!
//! A node borrows its names and string literals from the source text. Its
//! value (its view) holds them as sequences of characters, and holds lists as
//! sequences.

use vstd::prelude::*;

verus! {

/// A program: its statements in order.
pub type Program<'a> = Vec<Stmt<'a>>;

/// A primitive type of the language.
#[derive(Debug, Clone, Copy, PartialEq, Eq, Structural)]
pub enum PrimType {
    String,
    R8,
    N8,
    Z8,
    Boolean,
}

/// A binary operator. All of them bind equally and to the left.
#[derive(Debug, Clone, Copy, PartialEq, Eq, Structural)]
pub enum BinOperator {
    Gliich,
    GroesserGliich,
    Groesser,
    ChlinnerGliich,
    Chlinner,
    Ungliich,
    Und,
    Oder,
    Rescht,
    Hoch,
    Mal,
    Durch,
    Plus,
    Minus,
}

/// A form that is both a statement and an expression: a call or a block.
#[derive(Debug, PartialEq)]
pub enum StEx<'a> {
    Call(Call<'a>),
    Block(Block<'a>),
}

/// A statement.
#[derive(Debug, PartialEq)]
pub enum Stmt<'a> {
    FunAss(FunAss<'a>),
    VarAss(VarAss<'a>),
    StEx(StEx<'a>),
    Ret(Ret<'a>),
}

/// An expression.
#[derive(Debug, PartialEq)]
pub enum Expr<'a> {
    StEx(StEx<'a>),
    Prim(Prim<'a>),
    Bin(Bin<'a>),
}

/// A binary operation.
#[derive(Debug, PartialEq)]
pub struct Bin<'a> {
    pub op: BinOperator,
    pub lhs: Box<Expr<'a>>,
    pub rhs: Box<Expr<'a>>,
}

/// A return statement.
#[derive(Debug, PartialEq)]
pub struct Ret<'a> {
    pub expr: Expr<'a>,
}

/// A literal or a name.
#[derive(Debug, Clone, Copy, PartialEq)]
pub enum Prim<'a> {
    Bool(bool),
    Str(&'a str),
    R8(u8),
    Id(&'a str),
}

/// A block of statements in braces.
#[derive(Debug, PartialEq)]
pub struct Block<'a> {
    pub stmts: Vec<Stmt<'a>>,
}

/// A variable definition.
#[derive(Debug, PartialEq)]
pub struct VarAss<'a> {
    pub id: &'a str,
    pub value: Expr<'a>,
    pub pt: Option<PrimType>,
}

/// A parameter of a function: its name and type.
#[derive(Debug, Clone, Copy, PartialEq)]
pub struct Arg<'a> {
    pub id: &'a str,
    pub pt: PrimType,
}

/// A function definition.
#[derive(Debug, PartialEq)]
pub struct FunAss<'a> {
    pub id: &'a str,
    pub args: Vec<Arg<'a>>,
    pub body: Block<'a>,
    pub ret: Option<PrimType>,
}

/// A call of a function.
#[derive(Debug, PartialEq)]
pub struct Call<'a> {
    pub id: &'a str,
    pub args: Vec<Expr<'a>>,
}

/// The value of a [`Prim`].
pub ghost enum PrimView {
    Bool(bool),
    Str(Seq<char>),
    R8(u8),
    Id(Seq<char>),
}

/// The value of an [`Arg`].
pub ghost struct ArgView {
    pub id: Seq<char>,
    pub pt: PrimType,
}

/// The value of a [`StEx`].
pub ghost enum StExView {
    Call(CallView),
    Block(BlockView),
}

/// The value of a [`Stmt`].
pub ghost enum StmtView {
    FunAss(FunAssView),
    VarAss(VarAssView),
    StEx(StExView),
    Ret(ExprView),
}

/// The value of an [`Expr`].
pub ghost enum ExprView {
    StEx(StExView),
    Prim(PrimView),
    Bin(BinOperator, Box<ExprView>, Box<ExprView>),
}

/// The value of a [`Block`].
pub ghost struct BlockView {
    pub stmts: Seq<StmtView>,
}

/// The value of a [`VarAss`].
pub ghost struct VarAssView {
    pub id: Seq<char>,
    pub value: ExprView,
    pub pt: Option<PrimType>,
}

/// The value of a [`FunAss`].
pub ghost struct FunAssView {
    pub id: Seq<char>,
    pub args: Seq<ArgView>,
    pub body: BlockView,
    pub ret: Option<PrimType>,
}

/// The value of a [`Call`].
pub ghost struct CallView {
    pub id: Seq<char>,
    pub args: Seq<ExprView>,
}

impl<'a> View for Prim<'a> {
    type V = PrimView;

    open spec fn view(&self) -> PrimView {
        match *self {
            Prim::Bool(b) => PrimView::Bool(b),
            Prim::Str(s) => PrimView::Str(s@),
            Prim::R8(n) => PrimView::R8(n),
            Prim::Id(s) => PrimView::Id(s@),
        }
    }
}

impl<'a> View for Arg<'a> {
    type V = ArgView;

    open spec fn view(&self) -> ArgView {
        ArgView { id: self.id@, pt: self.pt }
    }
}

/// The value of a function definition.
pub open spec fn fun_ass_view(f: FunAss) -> FunAssView
    decreases f,
{
    FunAssView { id: f.id@, args: arg_views(f.args@), body: block_view(f.body), ret: f.ret }
}

/// The value of a variable definition.
pub open spec fn var_ass_view(v: VarAss) -> VarAssView
    decreases v,
{
    VarAssView { id: v.id@, value: expr_view(v.value), pt: v.pt }
}

/// The value of a call.
pub open spec fn call_view(c: Call) -> CallView
    decreases c,
{
    CallView {
        id: c.id@,
        args: Seq::new(
            c.args@.len(),
            |i: int|
                if 0 <= i < c.args@.len() {
                    expr_view(c.args@[i])
                } else {
                    arbitrary()
                },
        ),
    }
}

/// The value of a statement.
pub open spec fn stmt_view(s: Stmt) -> StmtView
    decreases s,
{
    match s {
        Stmt::FunAss(f) => StmtView::FunAss(fun_ass_view(f)),
        Stmt::VarAss(v) => StmtView::VarAss(var_ass_view(v)),
        Stmt::StEx(x) => StmtView::StEx(stex_view(x)),
        Stmt::Ret(r) => StmtView::Ret(expr_view(r.expr)),
    }
}

/// The value of a statement-expression.
pub open spec fn stex_view(x: StEx) -> StExView
    decreases x,
{
    match x {
        StEx::Call(c) => StExView::Call(call_view(c)),
        StEx::Block(b) => StExView::Block(block_view(b)),
    }
}

/// The value of a block.
pub open spec fn block_view(b: Block) -> BlockView
    decreases b,
{
    BlockView {
        stmts: Seq::new(
            b.stmts@.len(),
            |i: int|
                if 0 <= i < b.stmts@.len() {
                    stmt_view(b.stmts@[i])
                } else {
                    arbitrary()
                },
        ),
    }
}

/// The value of an expression.
pub open spec fn expr_view(e: Expr) -> ExprView
    decreases e,
{
    match e {
        Expr::StEx(x) => ExprView::StEx(stex_view(x)),
        Expr::Prim(p) => ExprView::Prim(p@),
        Expr::Bin(b) => ExprView::Bin(
            b.op,
            Box::new(expr_view(*b.lhs)),
            Box::new(expr_view(*b.rhs)),
        ),
    }
}

impl<'a> View for Stmt<'a> {
    type V = StmtView;

    open spec fn view(&self) -> StmtView {
        stmt_view(*self)
    }
}

impl<'a> View for Expr<'a> {
    type V = ExprView;

    open spec fn view(&self) -> ExprView {
        expr_view(*self)
    }
}

impl<'a> View for StEx<'a> {
    type V = StExView;

    open spec fn view(&self) -> StExView {
        stex_view(*self)
    }
}

impl<'a> View for Block<'a> {
    type V = BlockView;

    open spec fn view(&self) -> BlockView {
        block_view(*self)
    }
}

impl<'a> View for FunAss<'a> {
    type V = FunAssView;

    open spec fn view(&self) -> FunAssView {
        fun_ass_view(*self)
    }
}

impl<'a> View for VarAss<'a> {
    type V = VarAssView;

    open spec fn view(&self) -> VarAssView {
        var_ass_view(*self)
    }
}

impl<'a> View for Call<'a> {
    type V = CallView;

    open spec fn view(&self) -> CallView {
        call_view(*self)
    }
}

impl<'a> View for Ret<'a> {
    type V = ExprView;

    open spec fn view(&self) -> ExprView {
        expr_view(self.expr)
    }
}

/// The values of a sequence of statements.
pub open spec fn stmt_views(s: Seq<Stmt>) -> Seq<StmtView> {
    s.map_values(|x: Stmt| x@)
}

/// The values of a sequence of expressions.
pub open spec fn expr_views(s: Seq<Expr>) -> Seq<ExprView> {
    s.map_values(|x: Expr| x@)
}

/// The values of a sequence of parameters.
pub open spec fn arg_views(s: Seq<Arg>) -> Seq<ArgView> {
    s.map_values(|x: Arg| x@)
}

/// The value of a block is made of the values of its statements.
pub proof fn lemma_block_view(b: Block)
    ensures
        b@ == (BlockView { stmts: stmt_views(b.stmts@) }),
{
    assert(b@.stmts =~= stmt_views(b.stmts@));
}

/// The value of a call is made of the values of its arguments.
pub proof fn lemma_call_view(c: Call)
    ensures
        c@ == (CallView { id: c.id@, args: expr_views(c.args@) }),
{
    assert(c@.args =~= expr_views(c.args@));
}

/// A copy of a list of parameters.
fn copy_args<'a>(args: &Vec<Arg<'a>>) -> (r: Vec<Arg<'a>>)
    ensures
        arg_views(r@) == arg_views(args@),
{
    let mut r: Vec<Arg<'a>> = Vec::new();
    let n: usize = args.len();
    let mut i: usize = 0;
    while i < n
        invariant
            i <= n,
            n == args@.len(),
            r@.len() == i,
            forall|k: int| 0 <= k < i ==> (#[trigger] r@[k])@ == args@[k]@,
        decreases n - i,
    {
        r.push(args[i]);
        i += 1;
    }
    assert(arg_views(r@) =~= arg_views(args@));
    r
}

/// A copy of a list of statements.
fn copy_stmts<'a>(stmts: &Vec<Stmt<'a>>) -> (r: Vec<Stmt<'a>>)
    ensures
        stmt_views(r@) == stmt_views(stmts@),
    decreases stmts, 0int,
{
    let mut r: Vec<Stmt<'a>> = Vec::new();
    let n: usize = stmts.len();
    let mut i: usize = 0;
    while i < n
        invariant
            i <= n,
            n == stmts@.len(),
            r@.len() == i,
            forall|k: int| 0 <= k < i ==> (#[trigger] r@[k])@ == stmts@[k]@,
        decreases n - i,
    {
        r.push(copy_stmt(&stmts[i]));
        i += 1;
    }
    assert(stmt_views(r@) =~= stmt_views(stmts@));
    r
}

/// A copy of a list of expressions.
fn copy_exprs<'a>(exprs: &Vec<Expr<'a>>) -> (r: Vec<Expr<'a>>)
    ensures
        expr_views(r@) == expr_views(exprs@),
    decreases exprs, 0int,
{
    let mut r: Vec<Expr<'a>> = Vec::new();
    let n: usize = exprs.len();
    let mut i: usize = 0;
    while i < n
        invariant
            i <= n,
            n == exprs@.len(),
            r@.len() == i,
            forall|k: int| 0 <= k < i ==> (#[trigger] r@[k])@ == exprs@[k]@,
        decreases n - i,
    {
        r.push(copy_expr(&exprs[i]));
        i += 1;
    }
    assert(expr_views(r@) =~= expr_views(exprs@));
    r
}

/// A copy of a block.
fn copy_block<'a>(b: &Block<'a>) -> (r: Block<'a>)
    ensures
        r@ == b@,
    decreases b, 1int,
{
    let r = Block { stmts: copy_stmts(&b.stmts) };
    proof {
        lemma_block_view(*b);
        lemma_block_view(r);
    }
    r
}

/// A copy of a call.
fn copy_call<'a>(c: &Call<'a>) -> (r: Call<'a>)
    ensures
        r@ == c@,
    decreases c, 1int,
{
    let r = Call { id: c.id, args: copy_exprs(&c.args) };
    proof {
        lemma_call_view(*c);
        lemma_call_view(r);
    }
    r
}

/// A copy of a call or block.
fn copy_stex<'a>(x: &StEx<'a>) -> (r: StEx<'a>)
    ensures
        r@ == x@,
    decreases x, 0int,
{
    match x {
        StEx::Call(c) => StEx::Call(copy_call(c)),
        StEx::Block(b) => StEx::Block(copy_block(b)),
    }
}

/// A copy of an expression.
fn copy_expr<'a>(e: &Expr<'a>) -> (r: Expr<'a>)
    ensures
        r@ == e@,
    decreases e, 0int,
{
    match e {
        Expr::StEx(x) => Expr::StEx(copy_stex(x)),
        Expr::Prim(p) => Expr::Prim(*p),
        Expr::Bin(b) => Expr::Bin(
            Bin {
                op: b.op,
                lhs: Box::new(copy_expr(&*b.lhs)),
                rhs: Box::new(copy_expr(&*b.rhs)),
            },
        ),
    }
}

/// A copy of a statement.
fn copy_stmt<'a>(s: &Stmt<'a>) -> (r: Stmt<'a>)
    ensures
        r@ == s@,
    decreases s, 0int,
{
    match s {
        Stmt::FunAss(f) => Stmt::FunAss(
            FunAss { id: f.id, args: copy_args(&f.args), body: copy_block(&f.body), ret: f.ret },
        ),
        Stmt::VarAss(v) => Stmt::VarAss(VarAss { id: v.id, value: copy_expr(&v.value), pt: v.pt }),
        Stmt::StEx(x) => Stmt::StEx(copy_stex(x)),
        Stmt::Ret(r) => Stmt::Ret(Ret { expr: copy_expr(&r.expr) }),
    }
}

impl<'a> Clone for Stmt<'a> {
    /// A copy with the same value.
    fn clone(&self) -> (r: Self)
        ensures
            r@ == self@,
    {
        copy_stmt(self)
    }
}

impl<'a> Clone for Expr<'a> {
    /// A copy with the same value.
    fn clone(&self) -> (r: Self)
        ensures
            r@ == self@,
    {
        copy_expr(self)
    }
}

impl<'a> Clone for StEx<'a> {
    /// A copy with the same value.
    fn clone(&self) -> (r: Self)
        ensures
            r@ == self@,
    {
        copy_stex(self)
    }
}

impl<'a> Clone for Block<'a> {
    /// A copy with the same value.
    fn clone(&self) -> (r: Self)
        ensures
            r@ == self@,
    {
        copy_block(self)
    }
}

impl<'a> Clone for Call<'a> {
    /// A copy with the same value.
    fn clone(&self) -> (r: Self)
        ensures
            r@ == self@,
    {
        copy_call(self)
    }
}

impl<'a> Clone for Bin<'a> {
    /// A copy with the same value.
    fn clone(&self) -> (r: Self)
        ensures
            Expr::Bin(r)@ == Expr::Bin(*self)@,
    {
        Bin { op: self.op, lhs: Box::new(copy_expr(&*self.lhs)), rhs: Box::new(copy_expr(&*self.rhs)) }
    }
}

impl<'a> Clone for Ret<'a> {
    /// A copy with the same value.
    fn clone(&self) -> (r: Self)
        ensures
            r@ == self@,
    {
        Ret { expr: copy_expr(&self.expr) }
    }
}

impl<'a> Clone for VarAss<'a> {
    /// A copy with the same value.
    fn clone(&self) -> (r: Self)
        ensures
            r@ == self@,
    {
        VarAss { id: self.id, value: copy_expr(&self.value), pt: self.pt }
    }
}

impl<'a> Clone for FunAss<'a> {
    /// A copy with the same value.
    fn clone(&self) -> (r: Self)
        ensures
            r@ == self@,
    {
        FunAss {
            id: self.id,
            args: copy_args(&self.args),
            body: copy_block(&self.body),
            ret: self.ret,
        }
    }
}

} // verus!
