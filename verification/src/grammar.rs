//! The grammar, as mathematical functions from a token sequence and a
//! position to a syntax tree and the position behind it, or to an error.
//!
//! Statements are chosen by their first token. Binary operators all bind
//! equally and to the left. The arguments of a call are read as far as they
//! go: an argument that does not parse ends the list and takes nothing.
//!
//! Where a definition goes on from a position that another one gave, it first
//! asks that this position lies further on and inside the tokens. That is what
//! makes the definitions well-founded, and it is always so: a production that
//! succeeds ends behind where it began, as the laws of this module state.

use crate::ast::{
    ArgView, BinOperator, BlockView, CallView, ExprView, FunAssView, PrimType, PrimView, StExView,
    StmtView, VarAssView,
};
use crate::lexer::{TokenView, TT};
use crate::text::u8_of_text;
use vstd::prelude::*;

verus! {

/// The value of a parse error: what was being parsed, and the token at which
/// it went wrong.
pub ghost enum ParseErrorView {
    NoTokensLeft,
    UnexpectedToken(Seq<char>, TokenView),
    ExpectedToken(Seq<char>, TT, TokenView),
    ExpectedType(Seq<char>, TokenView),
    ExpectedPrim(Seq<char>, TokenView),
    MissingValue(Seq<char>, TT, TokenView),
    NotConvertible(Seq<char>, TT, PrimType, TokenView),
}

/// What a production gives: a value and the position behind it, or an error.
pub type Parsed<T> = Result<(T, int), ParseErrorView>;

/// Whether there is a token at `pos`.
pub open spec fn token_at(ts: Seq<TokenView>, pos: int) -> bool {
    0 <= pos < ts.len()
}

/// Whether the token at `pos` is there and of kind `kind`.
pub open spec fn kind_is(ts: Seq<TokenView>, pos: int, kind: TT) -> bool {
    token_at(ts, pos) && ts[pos].token_type == kind
}

/// A token of kind `kind` at `pos`: the position behind it.
pub open spec fn expect(ctx: Seq<char>, ts: Seq<TokenView>, pos: int, kind: TT) -> Result<
    int,
    ParseErrorView,
> {
    if !token_at(ts, pos) {
        Err(ParseErrorView::NoTokensLeft)
    } else if ts[pos].token_type != kind {
        Err(ParseErrorView::ExpectedToken(ctx, kind, ts[pos]))
    } else {
        Ok(pos + 1)
    }
}

/// An identifier at `pos`: its name.
pub open spec fn expect_id(ctx: Seq<char>, ts: Seq<TokenView>, pos: int) -> Parsed<Seq<char>> {
    if !token_at(ts, pos) {
        Err(ParseErrorView::NoTokensLeft)
    } else if ts[pos].token_type != TT::Id {
        Err(ParseErrorView::ExpectedToken(ctx, TT::Id, ts[pos]))
    } else {
        match ts[pos].value {
            Some(name) => Ok((name, pos + 1)),
            None => Err(ParseErrorView::MissingValue(ctx, TT::Id, ts[pos])),
        }
    }
}

/// The primitive type that a type keyword names.
pub open spec fn prim_type_of(kind: TT) -> Option<PrimType> {
    match kind {
        TT::TypZeiche => Some(PrimType::String),
        TT::TypR8 => Some(PrimType::R8),
        TT::TypN8 => Some(PrimType::N8),
        TT::TypZ8 => Some(PrimType::Z8),
        TT::TypWahrheit => Some(PrimType::Boolean),
        _ => None,
    }
}

/// A type keyword at `pos`: the type it names.
pub open spec fn expect_type(ctx: Seq<char>, ts: Seq<TokenView>, pos: int) -> Parsed<PrimType> {
    if !token_at(ts, pos) {
        Err(ParseErrorView::NoTokensLeft)
    } else {
        match prim_type_of(ts[pos].token_type) {
            Some(pt) => Ok((pt, pos + 1)),
            None => Err(ParseErrorView::ExpectedType(ctx, ts[pos])),
        }
    }
}

/// An optional clause that names a type: the keyword `keyword` and a type
/// keyword, or nothing.
pub open spec fn type_clause(ctx: Seq<char>, keyword: TT, ts: Seq<TokenView>, pos: int) -> Parsed<
    Option<PrimType>,
> {
    if kind_is(ts, pos, keyword) {
        match expect_type(ctx, ts, pos + 1) {
            Ok((pt, p)) => Ok((Some(pt), p)),
            Err(e) => Err(e),
        }
    } else {
        Ok((None, pos))
    }
}

/// The parameters of a function from `pos` on, after those in `acc`: a type
/// keyword and a name each, with commas between them.
pub open spec fn param_list(ts: Seq<TokenView>, pos: int, acc: Seq<ArgView>) -> Parsed<
    Seq<ArgView>,
>
    decreases ts.len() - pos,
{
    match expect_type("FunAss"@, ts, pos) {
        Err(e) => Err(e),
        Ok((pt, at1)) => match expect_id("FunAss"@, ts, at1) {
            Err(e) => Err(e),
            Ok((id, at2)) => {
                let all = acc.push(ArgView { id, pt });
                if kind_is(ts, at2, TT::Comma) {
                    param_list(ts, at2 + 1, all)
                } else {
                    Ok((all, at2))
                }
            },
        },
    }
}

/// The optional parameter clause of a function: the keyword `het` and a
/// parameter list, or nothing.
pub open spec fn params_clause(ts: Seq<TokenView>, pos: int) -> Parsed<Seq<ArgView>> {
    if kind_is(ts, pos, TT::Het) {
        param_list(ts, pos + 1, Seq::empty())
    } else {
        Ok((Seq::empty(), pos))
    }
}

/// The operator that a word names.
pub open spec fn operator_of(word: Seq<char>) -> Option<BinOperator> {
    if word == "gliich"@ {
        Some(BinOperator::Gliich)
    } else if word == "gr\u{f6}ssergliich"@ {
        Some(BinOperator::GroesserGliich)
    } else if word == "gr\u{f6}sser"@ {
        Some(BinOperator::Groesser)
    } else if word == "chlinnergliich"@ {
        Some(BinOperator::ChlinnerGliich)
    } else if word == "chlinner"@ {
        Some(BinOperator::Chlinner)
    } else if word == "ungliich"@ {
        Some(BinOperator::Ungliich)
    } else if word == "und"@ {
        Some(BinOperator::Und)
    } else if word == "oder"@ {
        Some(BinOperator::Oder)
    } else if word == "rescht"@ {
        Some(BinOperator::Rescht)
    } else if word == "hoch"@ {
        Some(BinOperator::Hoch)
    } else if word == "mal"@ {
        Some(BinOperator::Mal)
    } else if word == "durch"@ {
        Some(BinOperator::Durch)
    } else if word == "plus"@ {
        Some(BinOperator::Plus)
    } else if word == "minus"@ {
        Some(BinOperator::Minus)
    } else {
        None
    }
}

/// The operator at `pos`: an identifier token whose text is an operator word.
pub open spec fn operator_at(ts: Seq<TokenView>, pos: int) -> Option<BinOperator> {
    if kind_is(ts, pos, TT::Id) {
        match ts[pos].value {
            Some(word) => operator_of(word),
            None => None,
        }
    } else {
        None
    }
}

/// A literal or a name at `pos`.
pub open spec fn prim(ts: Seq<TokenView>, pos: int) -> Parsed<PrimView> {
    if !token_at(ts, pos) {
        Err(ParseErrorView::NoTokensLeft)
    } else {
        let tok = ts[pos];
        match tok.token_type {
            TT::Num => match tok.value {
                None => Err(ParseErrorView::MissingValue("Prim"@, TT::Num, tok)),
                Some(text) => match u8_of_text(text) {
                    Some(n) => Ok((PrimView::R8(n), pos + 1)),
                    None => Err(
                        ParseErrorView::NotConvertible("Prim"@, TT::Num, PrimType::R8, tok),
                    ),
                },
            },
            TT::Wahr => Ok((PrimView::Bool(true), pos + 1)),
            TT::Falsch => Ok((PrimView::Bool(false), pos + 1)),
            TT::Str => match tok.value {
                Some(text) => Ok((PrimView::Str(text), pos + 1)),
                None => Err(ParseErrorView::MissingValue("Prim"@, TT::Str, tok)),
            },
            TT::Id => match tok.value {
                Some(text) => Ok((PrimView::Id(text), pos + 1)),
                None => Err(ParseErrorView::MissingValue("Prim"@, TT::Id, tok)),
            },
            _ => Err(ParseErrorView::ExpectedPrim("Prim"@, tok)),
        }
    }
}

/// A statement at `pos`, chosen by its first token, and the semicolon that
/// ends it.
pub open spec fn stmt(ts: Seq<TokenView>, pos: int) -> Parsed<StmtView>
    decreases ts.len() - pos, 5int,
{
    if !token_at(ts, pos) {
        Err(ParseErrorView::NoTokensLeft)
    } else {
        let body: Parsed<StmtView> = match ts[pos].token_type {
            TT::Funktion => match fun_ass(ts, pos) {
                Ok((f, p)) => Ok((StmtView::FunAss(f), p)),
                Err(e) => Err(e),
            },
            TT::Dae => match var_ass(ts, pos) {
                Ok((v, p)) => Ok((StmtView::VarAss(v), p)),
                Err(e) => Err(e),
            },
            TT::Gib => match ret(ts, pos) {
                Ok((r, p)) => Ok((StmtView::Ret(r), p)),
                Err(e) => Err(e),
            },
            TT::Tuen | TT::LBrace => match stex(ts, pos) {
                Ok((x, p)) => Ok((StmtView::StEx(x), p)),
                Err(e) => Err(e),
            },
            _ => Err(ParseErrorView::UnexpectedToken("Stmt"@, ts[pos])),
        };
        match body {
            Ok((s, p)) => match expect("Stmt"@, ts, p, TT::Semicolon) {
                Ok(q) => Ok((s, q)),
                Err(e) => Err(e),
            },
            Err(e) => Err(e),
        }
    }
}

/// A function definition at `pos`: the keyword `funktion`, a name, the
/// optional parameter clause, the optional return type after `git`, and a
/// block.
pub open spec fn fun_ass(ts: Seq<TokenView>, pos: int) -> Parsed<FunAssView>
    decreases ts.len() - pos, 4int,
{
    match expect("FunAss"@, ts, pos, TT::Funktion) {
        Err(e) => Err(e),
        Ok(at0) => match expect_id("FunAss"@, ts, at0) {
            Err(e) => Err(e),
            Ok((id, at1)) => match params_clause(ts, at1) {
                Err(e) => Err(e),
                Ok((args, at2)) => match type_clause("FunAss"@, TT::Git, ts, at2) {
                    Err(e) => Err(e),
                    Ok((ret, at3)) => if pos < at3 <= ts.len() {
                        match block(ts, at3) {
                            Err(e) => Err(e),
                            Ok((body, at4)) => Ok((FunAssView { id, args, body, ret }, at4)),
                        }
                    } else {
                        Err(ParseErrorView::NoTokensLeft)
                    },
                },
            },
        },
    }
}

/// A variable definition at `pos`: the keyword, a name, `isch`, an
/// expression, and the optional type after `als`.
pub open spec fn var_ass(ts: Seq<TokenView>, pos: int) -> Parsed<VarAssView>
    decreases ts.len() - pos, 4int,
{
    match expect("VarAss"@, ts, pos, TT::Dae) {
        Err(e) => Err(e),
        Ok(at0) => match expect_id("VarAss"@, ts, at0) {
            Err(e) => Err(e),
            Ok((id, at1)) => match expect("VarAss"@, ts, at1, TT::Isch) {
                Err(e) => Err(e),
                Ok(at2) => match expr(ts, at2) {
                    Err(e) => Err(e),
                    Ok((value, at3)) => match type_clause("VarAss"@, TT::Als, ts, at3) {
                        Err(e) => Err(e),
                        Ok((pt, at4)) => Ok((VarAssView { id, value, pt }, at4)),
                    },
                },
            },
        },
    }
}

/// A return statement at `pos`: the keyword `gib` and an expression.
pub open spec fn ret(ts: Seq<TokenView>, pos: int) -> Parsed<ExprView>
    decreases ts.len() - pos, 4int,
{
    match expect("Ret"@, ts, pos, TT::Gib) {
        Err(e) => Err(e),
        Ok(at0) => expr(ts, at0),
    }
}

/// A call or a block at `pos`.
pub open spec fn stex(ts: Seq<TokenView>, pos: int) -> Parsed<StExView>
    decreases ts.len() - pos, 4int,
{
    if !token_at(ts, pos) {
        Err(ParseErrorView::NoTokensLeft)
    } else {
        match ts[pos].token_type {
            TT::Tuen => match call(ts, pos) {
                Ok((c, p)) => Ok((StExView::Call(c), p)),
                Err(e) => Err(e),
            },
            TT::LBrace => match block(ts, pos) {
                Ok((b, p)) => Ok((StExView::Block(b), p)),
                Err(e) => Err(e),
            },
            _ => Err(ParseErrorView::UnexpectedToken("StEx"@, ts[pos])),
        }
    }
}

/// A block at `pos`: statements in braces.
pub open spec fn block(ts: Seq<TokenView>, pos: int) -> Parsed<BlockView>
    decreases ts.len() - pos, 3int,
{
    match expect("Block"@, ts, pos, TT::LBrace) {
        Err(e) => Err(e),
        Ok(at0) => match block_stmts(ts, at0, Seq::empty()) {
            Err(e) => Err(e),
            Ok((stmts, at1)) => Ok((BlockView { stmts }, at1)),
        },
    }
}

/// The statements of a block from `pos` on, after those in `acc`, up to and
/// with the closing brace.
pub open spec fn block_stmts(ts: Seq<TokenView>, pos: int, acc: Seq<StmtView>) -> Parsed<
    Seq<StmtView>,
>
    decreases ts.len() - pos, 6int,
{
    if !token_at(ts, pos) {
        Err(ParseErrorView::NoTokensLeft)
    } else if ts[pos].token_type == TT::RBrace {
        Ok((acc, pos + 1))
    } else {
        match stmt(ts, pos) {
            Err(e) => Err(e),
            Ok((s, p)) => if pos < p <= ts.len() {
                block_stmts(ts, p, acc.push(s))
            } else {
                Err(ParseErrorView::NoTokensLeft)
            },
        }
    }
}

/// A call at `pos`: the keyword `tuen`, a name, `mit`, and the arguments.
pub open spec fn call(ts: Seq<TokenView>, pos: int) -> Parsed<CallView>
    decreases ts.len() - pos, 3int,
{
    match expect("Call"@, ts, pos, TT::Tuen) {
        Err(e) => Err(e),
        Ok(at0) => match expect_id("Call"@, ts, at0) {
            Err(e) => Err(e),
            Ok((id, at1)) => match expect("Call"@, ts, at1, TT::Mit) {
                Err(e) => Err(e),
                Ok(at2) => {
                    let (args, at3) = call_args(ts, at2, at2, Seq::empty());
                    Ok((CallView { id, args }, at3))
                },
            },
        },
    }
}

/// The arguments of a call from `pos` on, after those in `acc`, and the
/// position behind them. An argument is an expression; a comma after it asks
/// for another. Where no expression can be read at `pos` the list ends at
/// `fallback`, the position behind the last argument that was read.
pub open spec fn call_args(ts: Seq<TokenView>, pos: int, fallback: int, acc: Seq<ExprView>) -> (
    Seq<ExprView>,
    int,
)
    decreases ts.len() - pos, 8int,
{
    match expr(ts, pos) {
        Err(_) => (acc, fallback),
        Ok((e, p)) => if kind_is(ts, p, TT::Comma) && p > pos {
            call_args(ts, p + 1, p, acc.push(e))
        } else {
            (acc.push(e), p)
        },
    }
}

/// An expression at `pos`: operands with binary operators between them,
/// grouped from the left.
pub open spec fn expr(ts: Seq<TokenView>, pos: int) -> Parsed<ExprView>
    decreases ts.len() - pos, 7int,
{
    match operand(ts, pos) {
        Err(e) => Err(e),
        Ok((lhs, p)) => if pos < p <= ts.len() {
            expr_rest(ts, p, lhs)
        } else {
            Err(ParseErrorView::NoTokensLeft)
        },
    }
}

/// The rest of an expression whose left part `lhs` ends before `pos`.
pub open spec fn expr_rest(ts: Seq<TokenView>, pos: int, lhs: ExprView) -> Parsed<ExprView>
    decreases ts.len() - pos, 9int,
{
    match operator_at(ts, pos) {
        None => Ok((lhs, pos)),
        Some(op) => match operand(ts, pos + 1) {
            Err(e) => Err(e),
            Ok((rhs, p)) => if pos < p <= ts.len() {
                expr_rest(ts, p, ExprView::Bin(op, Box::new(lhs), Box::new(rhs)))
            } else {
                Err(ParseErrorView::NoTokensLeft)
            },
        },
    }
}

/// An operand at `pos`: a call or a block where one starts there, else a
/// literal or a name.
pub open spec fn operand(ts: Seq<TokenView>, pos: int) -> Parsed<ExprView>
    decreases ts.len() - pos, 5int,
{
    if !token_at(ts, pos) {
        Err(ParseErrorView::NoTokensLeft)
    } else if ts[pos].token_type == TT::Tuen || ts[pos].token_type == TT::LBrace {
        match stex(ts, pos) {
            Ok((x, p)) => Ok((ExprView::StEx(x), p)),
            Err(e) => Err(e),
        }
    } else {
        match prim(ts, pos) {
            Ok((x, p)) => Ok((ExprView::Prim(x), p)),
            Err(e) => Err(e),
        }
    }
}

/// The statements of a program from `pos` on, after those in `acc`.
pub open spec fn program_from(ts: Seq<TokenView>, pos: int, acc: Seq<StmtView>) -> Result<
    Seq<StmtView>,
    ParseErrorView,
>
    decreases ts.len() - pos,
{
    if !token_at(ts, pos) {
        Ok(acc)
    } else {
        match stmt(ts, pos) {
            Err(e) => Err(e),
            Ok((s, p)) => if pos < p <= ts.len() {
                program_from(ts, p, acc.push(s))
            } else {
                Err(ParseErrorView::NoTokensLeft)
            },
        }
    }
}

/// The program that a token sequence writes: its statements, or the first
/// error.
pub open spec fn program(ts: Seq<TokenView>) -> Result<Seq<StmtView>, ParseErrorView> {
    program_from(ts, 0, Seq::empty())
}

/// A parameter list that is read ends behind where it began, inside the
/// tokens.
pub proof fn law_param_list_advances(ts: Seq<TokenView>, pos: int, acc: Seq<ArgView>)
    ensures
        param_list(ts, pos, acc) matches Ok((_, p)) ==> pos < p <= ts.len(),
    decreases ts.len() - pos,
{
    if param_list(ts, pos, acc) is Ok {
        let pt = expect_type("FunAss"@, ts, pos)->Ok_0.0;
        let id = expect_id("FunAss"@, ts, pos + 1)->Ok_0.0;
        if kind_is(ts, pos + 2, TT::Comma) {
            law_param_list_advances(ts, pos + 3, acc.push(ArgView { id, pt }));
        }
    }
}

/// A statement that is read ends behind where it began, inside the tokens.
pub proof fn law_stmt_advances(ts: Seq<TokenView>, pos: int)
    ensures
        stmt(ts, pos) matches Ok((_, p)) ==> pos < p <= ts.len(),
    decreases ts.len() - pos, 5int,
{
    if token_at(ts, pos) {
        match ts[pos].token_type {
            TT::Funktion => law_fun_ass_advances(ts, pos),
            TT::Dae => law_var_ass_advances(ts, pos),
            TT::Gib => law_ret_advances(ts, pos),
            TT::Tuen | TT::LBrace => law_stex_advances(ts, pos),
            _ => {},
        }
    }
}

/// A function definition that is read ends behind where it began.
pub proof fn law_fun_ass_advances(ts: Seq<TokenView>, pos: int)
    ensures
        fun_ass(ts, pos) matches Ok((_, p)) ==> pos < p <= ts.len(),
    decreases ts.len() - pos, 4int,
{
    if fun_ass(ts, pos) is Ok {
        let at1 = pos + 2;
        let at2 = params_clause(ts, at1)->Ok_0.1;
        let at3 = type_clause("FunAss"@, TT::Git, ts, at2)->Ok_0.1;
        law_block_advances(ts, at3);
    }
}

/// A variable definition that is read ends behind where it began.
pub proof fn law_var_ass_advances(ts: Seq<TokenView>, pos: int)
    ensures
        var_ass(ts, pos) matches Ok((_, p)) ==> pos < p <= ts.len(),
    decreases ts.len() - pos, 4int,
{
    if var_ass(ts, pos) is Ok {
        law_expr_advances(ts, pos + 3);
    }
}

/// A return statement that is read ends behind where it began.
pub proof fn law_ret_advances(ts: Seq<TokenView>, pos: int)
    ensures
        ret(ts, pos) matches Ok((_, p)) ==> pos < p <= ts.len(),
    decreases ts.len() - pos, 4int,
{
    if ret(ts, pos) is Ok {
        law_expr_advances(ts, pos + 1);
    }
}

/// A call or block that is read ends behind where it began.
pub proof fn law_stex_advances(ts: Seq<TokenView>, pos: int)
    ensures
        stex(ts, pos) matches Ok((_, p)) ==> pos < p <= ts.len(),
    decreases ts.len() - pos, 4int,
{
    if token_at(ts, pos) {
        match ts[pos].token_type {
            TT::Tuen => law_call_advances(ts, pos),
            TT::LBrace => law_block_advances(ts, pos),
            _ => {},
        }
    }
}

/// A block that is read ends behind where it began.
pub proof fn law_block_advances(ts: Seq<TokenView>, pos: int)
    ensures
        block(ts, pos) matches Ok((_, p)) ==> pos < p <= ts.len(),
    decreases ts.len() - pos, 3int,
{
    if block(ts, pos) is Ok {
        law_block_stmts_advance(ts, pos + 1, Seq::empty());
    }
}

/// The statements of a block that are read end behind where they began.
pub proof fn law_block_stmts_advance(ts: Seq<TokenView>, pos: int, acc: Seq<StmtView>)
    ensures
        block_stmts(ts, pos, acc) matches Ok((_, p)) ==> pos < p <= ts.len(),
    decreases ts.len() - pos, 6int,
{
    if block_stmts(ts, pos, acc) is Ok && ts[pos].token_type != TT::RBrace {
        let (s, p) = stmt(ts, pos)->Ok_0;
        law_block_stmts_advance(ts, p, acc.push(s));
    }
}

/// A call that is read ends behind where it began.
pub proof fn law_call_advances(ts: Seq<TokenView>, pos: int)
    ensures
        call(ts, pos) matches Ok((_, p)) ==> pos < p <= ts.len(),
    decreases ts.len() - pos, 3int,
{
    if call(ts, pos) is Ok {
        law_call_args_bounds(ts, pos + 3, pos + 3, Seq::empty());
    }
}

/// The arguments of a call end between the fallback and the end of the
/// tokens.
pub proof fn law_call_args_bounds(
    ts: Seq<TokenView>,
    pos: int,
    fallback: int,
    acc: Seq<ExprView>,
)
    requires
        fallback <= pos,
        fallback <= ts.len(),
    ensures
        fallback <= call_args(ts, pos, fallback, acc).1 <= ts.len(),
    decreases ts.len() - pos, 8int,
{
    law_expr_advances(ts, pos);
    match expr(ts, pos) {
        Err(_) => {},
        Ok((e, p)) => {
            if kind_is(ts, p, TT::Comma) && p > pos {
                law_call_args_bounds(ts, p + 1, p, acc.push(e));
            }
        },
    }
}

/// An expression that is read ends behind where it began.
pub proof fn law_expr_advances(ts: Seq<TokenView>, pos: int)
    ensures
        expr(ts, pos) matches Ok((_, p)) ==> pos < p <= ts.len(),
    decreases ts.len() - pos, 7int,
{
    if expr(ts, pos) is Ok {
        let (lhs, p) = operand(ts, pos)->Ok_0;
        law_expr_rest_bounds(ts, p, lhs);
    }
}

/// The rest of an expression that is read ends at or behind where it began.
pub proof fn law_expr_rest_bounds(ts: Seq<TokenView>, pos: int, lhs: ExprView)
    requires
        pos <= ts.len(),
    ensures
        expr_rest(ts, pos, lhs) matches Ok((_, p)) ==> pos <= p <= ts.len(),
    decreases ts.len() - pos, 9int,
{
    if expr_rest(ts, pos, lhs) is Ok {
        match operator_at(ts, pos) {
            None => {},
            Some(op) => {
                let (rhs, p) = operand(ts, pos + 1)->Ok_0;
                law_expr_rest_bounds(ts, p, ExprView::Bin(op, Box::new(lhs), Box::new(rhs)));
            },
        }
    }
}

/// An operand that is read ends behind where it began.
pub proof fn law_operand_advances(ts: Seq<TokenView>, pos: int)
    ensures
        operand(ts, pos) matches Ok((_, p)) ==> pos < p <= ts.len(),
    decreases ts.len() - pos, 5int,
{
    if token_at(ts, pos) && (ts[pos].token_type == TT::Tuen || ts[pos].token_type == TT::LBrace) {
        law_stex_advances(ts, pos);
    }
}

/// The literal that a token writes: a number below 256, a string, or one of
/// the two truth values.
pub open spec fn literal_of(t: TokenView) -> Option<PrimView> {
    match t.token_type {
        TT::Num => match t.value {
            Some(text) => match u8_of_text(text) {
                Some(n) => Some(PrimView::R8(n)),
                None => None,
            },
            None => None,
        },
        TT::Str => match t.value {
            Some(text) => Some(PrimView::Str(text)),
            None => None,
        },
        TT::Wahr => Some(PrimView::Bool(true)),
        TT::Falsch => Some(PrimView::Bool(false)),
        _ => None,
    }
}

/// A single variable definition parses to itself: the five tokens of
/// `let name is literal ;`, wherever they stood in the source, are a program
/// of exactly one variable definition, which has that name and that literal
/// and no declared type.
pub proof fn law_variable_definition(ts: Seq<TokenView>, name: Seq<char>, literal: PrimView)
    requires
        ts.len() == 5,
        ts[0].token_type == TT::Dae,
        ts[1].token_type == TT::Id,
        ts[1].value == Some(name),
        ts[2].token_type == TT::Isch,
        literal_of(ts[3]) == Some(literal),
        ts[4].token_type == TT::Semicolon,
    ensures
        program(ts) == Ok::<Seq<StmtView>, ParseErrorView>(
            seq![
                StmtView::VarAss(
                    VarAssView { id: name, value: ExprView::Prim(literal), pt: None },
                ),
            ],
        ),
{
    let value = ExprView::Prim(literal);
    let defined = StmtView::VarAss(VarAssView { id: name, value, pt: None });
    assert(prim(ts, 3) == Ok::<(PrimView, int), ParseErrorView>((literal, 4)));
    assert(operand(ts, 3) == Ok::<(ExprView, int), ParseErrorView>((value, 4)));
    assert(expr_rest(ts, 4, value) == Ok::<(ExprView, int), ParseErrorView>((value, 4)));
    assert(expr(ts, 3) == Ok::<(ExprView, int), ParseErrorView>((value, 4)));
    assert(var_ass(ts, 0) == Ok::<(VarAssView, int), ParseErrorView>(
        (VarAssView { id: name, value, pt: None }, 4),
    ));
    assert(stmt(ts, 0) == Ok::<(StmtView, int), ParseErrorView>((defined, 5)));
    let all = Seq::<StmtView>::empty().push(defined);
    assert(program_from(ts, 5, all) == Ok::<Seq<StmtView>, ParseErrorView>(all));
    assert(program_from(ts, 0, Seq::empty()) == program_from(ts, 5, all));
    assert(all =~= seq![defined]);
}

/// A call never fails on its arguments: where no expression can be read
/// behind `mit`, the call has no arguments and ends right there.
pub proof fn law_arguments_are_optional(ts: Seq<TokenView>, pos: int, acc: Seq<ExprView>)
    requires
        expr(ts, pos) is Err,
    ensures
        call_args(ts, pos, pos, acc) == (acc, pos),
{
}

/// Operators group from the left, whatever they are: three literals or names
/// with two operators between them are the operation of the second operator
/// on the operation of the first and on the third operand.
pub proof fn law_operators_group_left(
    ts: Seq<TokenView>,
    pos: int,
    a: PrimView,
    op1: BinOperator,
    b: PrimView,
    op2: BinOperator,
    c: PrimView,
)
    requires
        0 <= pos,
        pos + 5 <= ts.len(),
        prim(ts, pos) == Ok::<(PrimView, int), ParseErrorView>((a, pos + 1)),
        operator_at(ts, pos + 1) == Some(op1),
        prim(ts, pos + 2) == Ok::<(PrimView, int), ParseErrorView>((b, pos + 3)),
        operator_at(ts, pos + 3) == Some(op2),
        prim(ts, pos + 4) == Ok::<(PrimView, int), ParseErrorView>((c, pos + 5)),
        operator_at(ts, pos + 5) is None,
    ensures
        expr(ts, pos) == Ok::<(ExprView, int), ParseErrorView>(
            (
                ExprView::Bin(
                    op2,
                    Box::new(
                        ExprView::Bin(
                            op1,
                            Box::new(ExprView::Prim(a)),
                            Box::new(ExprView::Prim(b)),
                        ),
                    ),
                    Box::new(ExprView::Prim(c)),
                ),
                pos + 5,
            ),
        ),
{
    let first = ExprView::Bin(op1, Box::new(ExprView::Prim(a)), Box::new(ExprView::Prim(b)));
    let both = ExprView::Bin(op2, Box::new(first), Box::new(ExprView::Prim(c)));
    assert(operand(ts, pos) == Ok::<(ExprView, int), ParseErrorView>((ExprView::Prim(a), pos + 1)));
    assert(operand(ts, pos + 2) == Ok::<(ExprView, int), ParseErrorView>(
        (ExprView::Prim(b), pos + 3),
    ));
    assert(operand(ts, pos + 4) == Ok::<(ExprView, int), ParseErrorView>(
        (ExprView::Prim(c), pos + 5),
    ));
    assert(expr_rest(ts, pos + 5, both) == Ok::<(ExprView, int), ParseErrorView>((both, pos + 5)));
    assert(expr_rest(ts, pos + 3, first) == expr_rest(ts, pos + 5, both));
    assert(expr_rest(ts, pos + 1, ExprView::Prim(a)) == expr_rest(ts, pos + 3, first));
}

} // verus!
