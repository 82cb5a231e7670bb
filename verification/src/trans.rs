//! The C text of a syntax tree.
//!
//! Each node has one text, given as a mathematical function of the node's
//! value; the functions that build the texts are proved to return exactly
//! those.

use crate::ast::{
    arg_views, expr_views, lemma_block_view, lemma_call_view, stmt_views, Arg, ArgView, Bin,
    BinOperator, Block, BlockView, Call, CallView, Expr, ExprView, FunAss, FunAssView, Prim,
    PrimType, PrimView, Program, Ret, StEx, StExView, Stmt, StmtView, VarAss, VarAssView,
};
use crate::report::{decimal, decimal_text};
use crate::text::str_eq;
use vstd::prelude::*;

verus! {

/// The C type that stands for a primitive type.
pub open spec fn c_type(pt: PrimType) -> Seq<char> {
    match pt {
        PrimType::String => "char*"@,
        PrimType::R8 => "float"@,
        PrimType::N8 => "unsigned int"@,
        PrimType::Z8 => "int"@,
        PrimType::Boolean => "int"@,
    }
}

/// The C type that stands for a type that may be missing: `void` if it is.
pub open spec fn c_type_or_void(pt: Option<PrimType>) -> Seq<char> {
    match pt {
        Some(t) => c_type(t),
        None => "void"@,
    }
}

/// The C operator that stands for a binary operator.
pub open spec fn c_operator(op: BinOperator) -> Seq<char> {
    match op {
        BinOperator::Gliich => "=="@,
        BinOperator::GroesserGliich => ">="@,
        BinOperator::Groesser => ">"@,
        BinOperator::ChlinnerGliich => "<="@,
        BinOperator::Chlinner => "<"@,
        BinOperator::Ungliich => "!="@,
        BinOperator::Und => "&&"@,
        BinOperator::Oder => "||"@,
        BinOperator::Rescht => "%"@,
        BinOperator::Hoch => "^"@,
        BinOperator::Mal => "*"@,
        BinOperator::Durch => "/"@,
        BinOperator::Plus => "+"@,
        BinOperator::Minus => "-"@,
    }
}

/// The C text of a literal or a name: a truth value is `1` or `0`, a number
/// is written in base ten, a string and a name stand as they are.
pub open spec fn c_prim(p: PrimView) -> Seq<char> {
    match p {
        PrimView::Bool(b) => if b {
            "1"@
        } else {
            "0"@
        },
        PrimView::Str(v) => v,
        PrimView::R8(n) => decimal_text(n as nat),
        PrimView::Id(v) => v,
    }
}

/// The C text of a parameter: its type and its name.
pub open spec fn c_arg(a: ArgView) -> Seq<char> {
    c_type(a.pt) + " "@ + a.id
}

/// The C texts of the parameters `args[..n]`, with a comma and a space
/// between them.
pub open spec fn c_args(args: Seq<ArgView>, n: int) -> Seq<char>
    decreases n,
{
    if n <= 0 {
        Seq::empty()
    } else if n == 1 {
        c_arg(args[0])
    } else {
        c_args(args, n - 1) + ", "@ + c_arg(args[n - 1])
    }
}

/// The name of a function in C: the entry function is called `main`.
pub open spec fn c_function_name(id: Seq<char>) -> Seq<char> {
    if id == "chuchich\u{e4}schtli"@ {
        "main"@
    } else {
        id
    }
}

/// The name of a called function in C: printing is `printf`.
pub open spec fn c_callee(id: Seq<char>) -> Seq<char> {
    if id == "schreie"@ {
        "printf"@
    } else {
        id
    }
}

/// The C text of a statement. All but a function definition end in a
/// semicolon and a line feed.
pub open spec fn c_stmt(s: StmtView) -> Seq<char>
    decreases s, 0int,
{
    match s {
        StmtView::FunAss(f) => c_fun_ass(f),
        StmtView::VarAss(v) => c_var_ass(v) + ";\n"@,
        StmtView::StEx(x) => c_stex(x) + ";\n"@,
        StmtView::Ret(e) => c_ret(e) + ";\n"@,
    }
}

/// The C text of a function definition.
pub open spec fn c_fun_ass(f: FunAssView) -> Seq<char>
    decreases f, 0int,
{
    c_type_or_void(f.ret) + " "@ + c_function_name(f.id) + "("@ + c_args(
        f.args,
        f.args.len() as int,
    ) + ") {\n"@ + c_block(f.body) + "\n}"@
}

/// The C text of a variable definition.
pub open spec fn c_var_ass(v: VarAssView) -> Seq<char>
    decreases v, 0int,
{
    c_type_or_void(v.pt) + " "@ + v.id + " = "@ + c_expr(v.value)
}

/// The C text of a return statement.
pub open spec fn c_ret(e: ExprView) -> Seq<char>
    decreases e, 1int,
{
    "return "@ + c_expr(e)
}

/// The C text of a call or a block.
pub open spec fn c_stex(x: StExView) -> Seq<char>
    decreases x, 0int,
{
    match x {
        StExView::Call(c) => c_call(c),
        StExView::Block(b) => c_block(b),
    }
}

/// The C text of a block: the texts of its statements, one after another.
pub open spec fn c_block(b: BlockView) -> Seq<char>
    decreases b, 0int,
{
    c_stmts(b.stmts, b.stmts.len() as int)
}

/// The C texts of the statements `stmts[..n]`, one after another.
pub open spec fn c_stmts(stmts: Seq<StmtView>, n: int) -> Seq<char>
    decreases stmts, n,
{
    if n <= 0 || n > stmts.len() {
        Seq::empty()
    } else {
        c_stmts(stmts, n - 1) + c_stmt(stmts[n - 1])
    }
}

/// The C text of a call: the function and its arguments in brackets.
pub open spec fn c_call(c: CallView) -> Seq<char>
    decreases c, 0int,
{
    c_callee(c.id) + "("@ + c_exprs(c.args, c.args.len() as int) + ")"@
}

/// The C texts of the expressions `args[..n]`, with a comma and a space
/// between them.
pub open spec fn c_exprs(args: Seq<ExprView>, n: int) -> Seq<char>
    decreases args, n,
{
    if n <= 0 || n > args.len() {
        Seq::empty()
    } else if n == 1 {
        c_expr(args[0])
    } else {
        c_exprs(args, n - 1) + ", "@ + c_expr(args[n - 1])
    }
}

/// The C text of an expression. A binary operation is its operands with the
/// operator between them, without brackets.
pub open spec fn c_expr(e: ExprView) -> Seq<char>
    decreases e, 0int,
{
    match e {
        ExprView::StEx(x) => c_stex(x),
        ExprView::Prim(p) => c_prim(p),
        ExprView::Bin(op, lhs, rhs) => c_expr(*lhs) + " "@ + c_operator(op) + " "@ + c_expr(*rhs),
    }
}

/// What a statement at the top of a program adds to the C file: a function
/// definition and a line feed, or a variable definition, a semicolon and a
/// line feed; nothing for any other statement.
pub open spec fn c_top_level(s: StmtView) -> Seq<char> {
    match s {
        StmtView::FunAss(f) => c_fun_ass(f) + "\n"@,
        StmtView::VarAss(v) => c_var_ass(v) + ";\n"@,
        _ => Seq::empty(),
    }
}

/// What the statements `stmts[..n]` at the top of a program add to the C
/// file.
pub open spec fn c_definitions(stmts: Seq<StmtView>, n: int) -> Seq<char>
    decreases n,
{
    if n <= 0 {
        Seq::empty()
    } else {
        c_definitions(stmts, n - 1) + c_top_level(stmts[n - 1])
    }
}

/// The C file of a program: the include line, then its functions and
/// variables.
pub open spec fn c_program(stmts: Seq<StmtView>) -> Seq<char> {
    "#include <stdio.h>\n"@ + c_definitions(stmts, stmts.len() as int)
}

impl PrimType {
    /// The C type that stands for this type.
    pub fn transpile(&self) -> (r: String)
        ensures
            r@ == c_type(*self),
    {
        match self {
            PrimType::String => String::from_str("char*"),
            PrimType::R8 => String::from_str("float"),
            PrimType::N8 => String::from_str("unsigned int"),
            PrimType::Z8 => String::from_str("int"),
            PrimType::Boolean => String::from_str("int"),
        }
    }
}

/// The C type that stands for a type that may be missing.
fn type_or_void(pt: Option<PrimType>) -> (r: String)
    ensures
        r@ == c_type_or_void(pt),
{
    match pt {
        Some(t) => t.transpile(),
        None => String::from_str("void"),
    }
}

impl BinOperator {
    /// The C operator that stands for this operator.
    pub fn transpile(&self) -> (r: String)
        ensures
            r@ == c_operator(*self),
    {
        String::from_str(
            match self {
                BinOperator::Gliich => "==",
                BinOperator::GroesserGliich => ">=",
                BinOperator::Groesser => ">",
                BinOperator::ChlinnerGliich => "<=",
                BinOperator::Chlinner => "<",
                BinOperator::Ungliich => "!=",
                BinOperator::Und => "&&",
                BinOperator::Oder => "||",
                BinOperator::Rescht => "%",
                BinOperator::Hoch => "^",
                BinOperator::Mal => "*",
                BinOperator::Durch => "/",
                BinOperator::Plus => "+",
                BinOperator::Minus => "-",
            },
        )
    }
}

impl<'a> Prim<'a> {
    /// The C text of this literal or name.
    pub fn transpile(&self) -> (r: String)
        ensures
            r@ == c_prim(self@),
    {
        match *self {
            Prim::Bool(v) => String::from_str(
                if v {
                    "1"
                } else {
                    "0"
                },
            ),
            Prim::Str(v) => String::from_str(v),
            Prim::R8(v) => decimal(v as usize),
            Prim::Id(v) => String::from_str(v),
        }
    }
}

impl<'a> Arg<'a> {
    /// The C text of this parameter.
    pub fn transpile(&self) -> (r: String)
        ensures
            r@ == c_arg(self@),
    {
        let mut s = self.pt.transpile();
        s.append(" ");
        s.append(self.id);
        s
    }
}

/// The C texts of parameters, with commas between them.
fn transpile_args(args: &Vec<Arg>) -> (r: String)
    ensures
        r@ == c_args(arg_views(args@), args@.len() as int),
{
    let ghost views = arg_views(args@);
    let mut s = String::new();
    let n: usize = args.len();
    let mut i: usize = 0;
    assert(s@ =~= c_args(views, 0));
    while i < n
        invariant
            i <= n,
            n == args@.len(),
            views == arg_views(args@),
            s@ == c_args(views, i as int),
        decreases n - i,
    {
        if i > 0 {
            s.append(", ");
        }
        let one = args[i].transpile();
        s.append(one.as_str());
        i += 1;
        assert(s@ =~= c_args(views, i as int));
    }
    s
}

impl<'a> Expr<'a> {
    /// The C text of this expression.
    pub fn transpile(&self) -> (r: String)
        ensures
            r@ == c_expr(self@),
        decreases self, 0int,
    {
        match self {
            Expr::StEx(st_ex) => st_ex.transpile(),
            Expr::Prim(prim) => prim.transpile(),
            Expr::Bin(bin) => bin.transpile(),
        }
    }
}

impl<'a> Bin<'a> {
    /// The C text of this operation.
    pub fn transpile(&self) -> (r: String)
        ensures
            r@ == c_expr(Expr::Bin(*self)@),
        decreases self, 0int,
    {
        let mut s = self.lhs.transpile();
        let rhs = self.rhs.transpile();
        let op = self.op.transpile();
        s.append(" ");
        s.append(op.as_str());
        s.append(" ");
        s.append(rhs.as_str());
        s
    }
}

impl<'a> StEx<'a> {
    /// The C text of this call or block.
    pub fn transpile(&self) -> (r: String)
        ensures
            r@ == c_stex(self@),
        decreases self, 0int,
    {
        match self {
            StEx::Call(call) => call.transpile(),
            StEx::Block(block) => block.transpile(),
        }
    }
}

impl<'a> Call<'a> {
    /// The C text of this call.
    pub fn transpile(&self) -> (r: String)
        ensures
            r@ == c_call(self@),
        decreases self, 0int,
    {
        proof {
            lemma_call_view(*self);
        }
        let ghost views = expr_views(self.args@);
        let mut s = String::from_str(
            if str_eq(self.id, "schreie") {
                "printf"
            } else {
                self.id
            },
        );
        s.append("(");
        let ghost head = s@;
        let n: usize = self.args.len();
        let mut i: usize = 0;
        assert(s@ =~= head + c_exprs(views, 0));
        while i < n
            invariant
                i <= n,
                n == self.args@.len(),
                views == expr_views(self.args@),
                s@ == head + c_exprs(views, i as int),
            decreases n - i,
        {
            if i > 0 {
                s.append(", ");
            }
            let one = self.args[i].transpile();
            s.append(one.as_str());
            i += 1;
            assert(s@ =~= head + c_exprs(views, i as int));
        }
        s.append(")");
        s
    }
}

impl<'a> Block<'a> {
    /// The C text of this block.
    pub fn transpile(&self) -> (r: String)
        ensures
            r@ == c_block(self@),
        decreases self, 0int,
    {
        proof {
            lemma_block_view(*self);
        }
        let ghost views = stmt_views(self.stmts@);
        let mut s = String::new();
        let n: usize = self.stmts.len();
        let mut i: usize = 0;
        assert(s@ =~= c_stmts(views, 0));
        while i < n
            invariant
                i <= n,
                n == self.stmts@.len(),
                views == stmt_views(self.stmts@),
                s@ == c_stmts(views, i as int),
            decreases n - i,
        {
            let one = self.stmts[i].transpile();
            s.append(one.as_str());
            i += 1;
        }
        s
    }
}

impl<'a> Ret<'a> {
    /// The C text of this return statement.
    pub fn transpile(&self) -> (r: String)
        ensures
            r@ == c_ret(self@),
        decreases self, 1int,
    {
        let mut s = String::from_str("return ");
        let expr = self.expr.transpile();
        s.append(expr.as_str());
        s
    }
}

impl<'a> VarAss<'a> {
    /// The C text of this variable definition.
    pub fn transpile(&self) -> (r: String)
        ensures
            r@ == c_var_ass(self@),
        decreases self, 0int,
    {
        let mut s = type_or_void(self.pt);
        let value = self.value.transpile();
        s.append(" ");
        s.append(self.id);
        s.append(" = ");
        s.append(value.as_str());
        s
    }
}

impl<'a> FunAss<'a> {
    /// The C text of this function definition.
    pub fn transpile(&self) -> (r: String)
        ensures
            r@ == c_fun_ass(self@),
        decreases self, 0int,
    {
        let mut s = type_or_void(self.ret);
        let args = transpile_args(&self.args);
        let body = self.body.transpile();
        s.append(" ");
        s.append(
            if str_eq(self.id, "chuchich\u{e4}schtli") {
                "main"
            } else {
                self.id
            },
        );
        s.append("(");
        s.append(args.as_str());
        s.append(") {\n");
        s.append(body.as_str());
        s.append("\n}");
        s
    }
}

impl<'a> Stmt<'a> {
    /// The C text of this statement.
    pub fn transpile(&self) -> (r: String)
        ensures
            r@ == c_stmt(self@),
        decreases self, 0int,
    {
        match self {
            Stmt::FunAss(fun_ass) => fun_ass.transpile(),
            Stmt::VarAss(var_ass) => {
                let mut s = var_ass.transpile();
                s.append(";\n");
                s
            },
            Stmt::StEx(st_ex) => {
                let mut s = st_ex.transpile();
                s.append(";\n");
                s
            },
            Stmt::Ret(ret) => {
                let mut s = ret.transpile();
                s.append(";\n");
                s
            },
        }
    }
}

/// Appending two texts one after the other is appending their joint text.
proof fn lemma_append_twice(a: Seq<char>, b: Seq<char>, c: Seq<char>)
    ensures
        (a + b) + c == a + (b + c),
{
    assert((a + b) + c =~= a + (b + c));
}

/// What a statement at the top of a program adds to the C file.
fn top_level(stmt: &Stmt) -> (r: String)
    ensures
        r@ == c_top_level(stmt@),
{
    match stmt {
        Stmt::FunAss(fun_ass) => {
            let mut s = fun_ass.transpile();
            s.append("\n");
            s
        },
        Stmt::VarAss(var_ass) => {
            let mut s = var_ass.transpile();
            s.append(";\n");
            s
        },
        _ => String::new(),
    }
}

/// Writes a program as a C file.
pub struct Transpiler<'a> {
    ast: &'a Program<'a>,
}

impl<'a> Transpiler<'a> {
    /// The statements of the program that is written.
    pub closed spec fn program(&self) -> Seq<StmtView> {
        stmt_views(self.ast@)
    }

    /// A transpiler for `ast`.
    pub fn new(ast: &'a Program<'a>) -> (t: Self)
        ensures
            t.program() == stmt_views(ast@),
    {
        Self { ast }
    }

    /// The C file of the program: the include line, then each function and
    /// each variable that stands at the top of the program. Other statements
    /// at the top are left out.
    pub fn generate(&self) -> (r: String)
        ensures
            r@ == c_program(self.program()),
    {
        let ghost views = stmt_views(self.ast@);
        let mut tl = String::from_str("#include <stdio.h>\n");
        let ghost head = tl@;
        let n: usize = self.ast.len();
        let mut i: usize = 0;
        assert(tl@ =~= head + c_definitions(views, 0));
        while i < n
            invariant
                i <= n,
                n == self.ast@.len(),
                views == stmt_views(self.ast@),
                head == "#include <stdio.h>\n"@,
                tl@ == head + c_definitions(views, i as int),
            decreases n - i,
        {
            let one = top_level(&self.ast[i]);
            let ghost before = c_definitions(views, i as int);
            tl.append(one.as_str());
            i += 1;
            proof {
                assert(views[i - 1] == self.ast@[i - 1]@);
                lemma_append_twice(head, before, one@);
            }
        }
        tl
    }
}

} // verus!
