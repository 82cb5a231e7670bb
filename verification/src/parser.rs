//! The recursive-descent parser: tokens in, a syntax tree or the first error
//! out.
//!
//! Every production has one contract: what it returns is what the grammar
//! says of the same tokens and position; a production that succeeds moves the
//! cursor forward, and one that fails leaves it where it was.

use crate::ast::{
    arg_views, expr_views, lemma_block_view, lemma_call_view, stmt_views, Arg, Bin, BinOperator,
    Block, BlockView, Call, CallView, Expr, ExprView, FunAss, FunAssView, Prim, PrimType, PrimView,
    Program, Ret, StEx, StExView, Stmt, StmtView, VarAss, VarAssView,
};
use crate::grammar::{
    block, block_stmts, call, call_args, expect, expect_id, expect_type, expr, expr_rest, fun_ass,
    kind_is, operand, operator_at, operator_of, param_list, params_clause, prim, prim_type_of,
    program, program_from, ret, stex, stmt, type_clause, var_ass, ParseErrorView, Parsed,
};
use crate::lexer::{lemma_token_views, token_views, Token, TokenView, Tokens, TT};
use crate::text::{parse_u8, str_eq};
use vstd::prelude::*;

verus! {

/// Why a token sequence is not a program: what was being parsed, and the
/// token at which it went wrong.
#[derive(Debug, Clone, PartialEq)]
pub enum ParseError<'a> {
    NoTokensLeft,
    UnexpectedToken(String, Token<'a>),
    ExpectedToken(String, TT, Token<'a>),
    ExpectedType(String, Token<'a>),
    ExpectedPrim(String, Token<'a>),
    MissingValue(String, TT, Token<'a>),
    NotConvertible(String, TT, PrimType, Token<'a>),
}

impl<'a> View for ParseError<'a> {
    type V = ParseErrorView;

    open spec fn view(&self) -> ParseErrorView {
        match *self {
            ParseError::NoTokensLeft => ParseErrorView::NoTokensLeft,
            ParseError::UnexpectedToken(c, t) => ParseErrorView::UnexpectedToken(c@, t@),
            ParseError::ExpectedToken(c, k, t) => ParseErrorView::ExpectedToken(c@, k, t@),
            ParseError::ExpectedType(c, t) => ParseErrorView::ExpectedType(c@, t@),
            ParseError::ExpectedPrim(c, t) => ParseErrorView::ExpectedPrim(c@, t@),
            ParseError::MissingValue(c, k, t) => ParseErrorView::MissingValue(c@, k, t@),
            ParseError::NotConvertible(c, k, p, t) => ParseErrorView::NotConvertible(
                c@,
                k,
                p,
                t@,
            ),
        }
    }
}

/// Whether the outcome `r` of a production, which found the cursor at
/// `before` and left it at `after`, is what the grammar gives: the same value
/// and the cursor behind it, or the same error and the cursor unmoved.
pub open spec fn agrees<T: View>(
    r: Result<T, ParseError>,
    before: usize,
    after: usize,
    expected: Parsed<T::V>,
) -> bool {
    match expected {
        Ok((v, p)) => r matches Ok(x) && x@ == v && after == p && before < p,
        Err(e) => r matches Err(x) && x@ == e && after == before,
    }
}

/// A label for an error.
fn label(s: &str) -> (r: String)
    ensures
        r@ == s@,
{
    s.to_owned()
}

/// Checks for a token of kind `kind` at `pos`.
fn expect_tok<'a>(ctx: &str, tokens: &[Token<'a>], pos: usize, kind: TT) -> (r: Result<
    usize,
    ParseError<'a>,
>)
    ensures
        match expect(ctx@, token_views(tokens@), pos as int, kind) {
            Ok(p) => r matches Ok(q) && q == p && q <= tokens@.len(),
            Err(e) => r matches Err(x) && x@ == e,
        },
{
    if pos >= tokens.len() {
        return Err(ParseError::NoTokensLeft);
    }
    let tok = tokens[pos];
    if tok.token_type != kind {
        return Err(ParseError::ExpectedToken(label(ctx), kind, tok));
    }
    Ok(pos + 1)
}

/// Reads an identifier at `pos`.
fn expect_name<'a>(ctx: &str, tokens: &[Token<'a>], pos: usize) -> (r: Result<
    (&'a str, usize),
    ParseError<'a>,
>)
    ensures
        match expect_id(ctx@, token_views(tokens@), pos as int) {
            Ok((name, p)) => r matches Ok(x) && x.0@ == name && x.1 == p && p <= tokens@.len(),
            Err(e) => r matches Err(x) && x@ == e,
        },
{
    if pos >= tokens.len() {
        return Err(ParseError::NoTokensLeft);
    }
    let tok = tokens[pos];
    if tok.token_type != TT::Id {
        return Err(ParseError::ExpectedToken(label(ctx), TT::Id, tok));
    }
    match tok.value {
        Some(name) => Ok((name, pos + 1)),
        None => Err(ParseError::MissingValue(label(ctx), TT::Id, tok)),
    }
}

/// Reads a type keyword at `pos`.
fn expect_prim_type<'a>(ctx: &str, tokens: &[Token<'a>], pos: usize) -> (r: Result<
    (PrimType, usize),
    ParseError<'a>,
>)
    ensures
        match expect_type(ctx@, token_views(tokens@), pos as int) {
            Ok((pt, p)) => r matches Ok(x) && x.0 == pt && x.1 == p && p <= tokens@.len(),
            Err(e) => r matches Err(x) && x@ == e,
        },
{
    if pos >= tokens.len() {
        return Err(ParseError::NoTokensLeft);
    }
    let tok = tokens[pos];
    match PrimType::from_tt(tok.token_type) {
        Some(pt) => Ok((pt, pos + 1)),
        None => Err(ParseError::ExpectedType(label(ctx), tok)),
    }
}

/// Tests whether the token at `pos` is there and of kind `kind`.
fn at_kind<'a>(tokens: &[Token<'a>], pos: usize, kind: TT) -> (r: bool)
    ensures
        r == kind_is(token_views(tokens@), pos as int, kind),
        r ==> pos < tokens@.len() && pos < usize::MAX,
{
    pos < tokens.len() && tokens[pos].token_type == kind
}

/// Reads an optional clause that names a type.
fn parse_type_clause<'a>(ctx: &str, keyword: TT, tokens: &[Token<'a>], pos: usize) -> (r: Result<
    (Option<PrimType>, usize),
    ParseError<'a>,
>)
    ensures
        match type_clause(ctx@, keyword, token_views(tokens@), pos as int) {
            Ok((pt, p)) => r matches Ok(x) && x.0 == pt && x.1 == p && (p <= tokens@.len() || p
                == pos),
            Err(e) => r matches Err(x) && x@ == e,
        },
{
    if at_kind(tokens, pos, keyword) {
        match expect_prim_type(ctx, tokens, pos + 1) {
            Ok((pt, p)) => Ok((Some(pt), p)),
            Err(e) => Err(e),
        }
    } else {
        Ok((None, pos))
    }
}

/// Reads the optional parameter clause of a function.
fn parse_params<'a>(tokens: &[Token<'a>], pos: usize) -> (r: Result<
    (Vec<Arg<'a>>, usize),
    ParseError<'a>,
>)
    ensures
        match params_clause(token_views(tokens@), pos as int) {
            Ok((args, p)) => r matches Ok(x) && arg_views(x.0@) == args && x.1 == p,
            Err(e) => r matches Err(x) && x@ == e,
        },
{
    let mut args: Vec<Arg<'a>> = Vec::new();
    if !at_kind(tokens, pos, TT::Het) {
        assert(arg_views(args@) =~= Seq::empty());
        return Ok((args, pos));
    }
    let ghost ts = token_views(tokens@);
    let mut p: usize = pos + 1;
    assert(arg_views(args@) =~= Seq::empty());
    loop
        invariant
            ts == token_views(tokens@),
            p <= tokens@.len(),
            params_clause(ts, pos as int) == param_list(ts, p as int, arg_views(args@)),
        decreases tokens@.len() - p,
    {
        let (pt, at1) = match expect_prim_type("FunAss", tokens, p) {
            Ok(x) => x,
            Err(e) => {
                return Err(e);
            },
        };
        let (id, at2) = match expect_name("FunAss", tokens, at1) {
            Ok(x) => x,
            Err(e) => {
                return Err(e);
            },
        };
        let ghost before = args@;
        let arg = Arg { id, pt };
        args.push(arg);
        assert(arg_views(before.push(arg)) =~= arg_views(before).push(arg@));
        if at_kind(tokens, at2, TT::Comma) {
            p = at2 + 1;
        } else {
            return Ok((args, at2));
        }
    }
}

impl PrimType {
    /// The primitive type that a type keyword names.
    pub fn from_tt(value: TT) -> (r: Option<Self>)
        ensures
            r == prim_type_of(value),
    {
        match value {
            TT::TypZeiche => Some(PrimType::String),
            TT::TypR8 => Some(PrimType::R8),
            TT::TypN8 => Some(PrimType::N8),
            TT::TypZ8 => Some(PrimType::Z8),
            TT::TypWahrheit => Some(PrimType::Boolean),
            _ => None,
        }
    }
}

impl BinOperator {
    /// The operator that a word names.
    pub fn from_word(word: &str) -> (r: Option<Self>)
        ensures
            r == operator_of(word@),
    {
        if str_eq(word, "gliich") {
            Some(BinOperator::Gliich)
        } else if str_eq(word, "gr\u{f6}ssergliich") {
            Some(BinOperator::GroesserGliich)
        } else if str_eq(word, "gr\u{f6}sser") {
            Some(BinOperator::Groesser)
        } else if str_eq(word, "chlinnergliich") {
            Some(BinOperator::ChlinnerGliich)
        } else if str_eq(word, "chlinner") {
            Some(BinOperator::Chlinner)
        } else if str_eq(word, "ungliich") {
            Some(BinOperator::Ungliich)
        } else if str_eq(word, "und") {
            Some(BinOperator::Und)
        } else if str_eq(word, "oder") {
            Some(BinOperator::Oder)
        } else if str_eq(word, "rescht") {
            Some(BinOperator::Rescht)
        } else if str_eq(word, "hoch") {
            Some(BinOperator::Hoch)
        } else if str_eq(word, "mal") {
            Some(BinOperator::Mal)
        } else if str_eq(word, "durch") {
            Some(BinOperator::Durch)
        } else if str_eq(word, "plus") {
            Some(BinOperator::Plus)
        } else if str_eq(word, "minus") {
            Some(BinOperator::Minus)
        } else {
            None
        }
    }
}

/// The operator at `pos`, if an operator word stands there.
fn operator_here<'a>(tokens: &[Token<'a>], pos: usize) -> (r: Option<BinOperator>)
    ensures
        r == operator_at(token_views(tokens@), pos as int),
        r is Some ==> pos < tokens@.len() && pos < usize::MAX,
{
    if pos < tokens.len() && tokens[pos].token_type == TT::Id {
        match tokens[pos].value {
            Some(word) => BinOperator::from_word(word),
            None => None,
        }
    } else {
        None
    }
}

impl<'a> Prim<'a> {
    /// Reads a literal or a name at the cursor.
    pub fn parse(tokens: &[Token<'a>], pos: &mut usize) -> (r: Result<Self, ParseError<'a>>)
        ensures
            agrees(r, *old(pos), *final(pos), prim(token_views(tokens@), *old(pos) as int)),
    {
        let p: usize = *pos;
        if p >= tokens.len() {
            return Err(ParseError::NoTokensLeft);
        }
        let tok = tokens[p];
        let found = match tok.token_type {
            TT::Num => match tok.value {
                None => {
                    return Err(ParseError::MissingValue(label("Prim"), TT::Num, tok));
                },
                Some(text) => match parse_u8(text) {
                    Some(n) => Prim::R8(n),
                    None => {
                        return Err(
                            ParseError::NotConvertible(
                                label("Prim"),
                                TT::Num,
                                PrimType::R8,
                                tok,
                            ),
                        );
                    },
                },
            },
            TT::Wahr => Prim::Bool(true),
            TT::Falsch => Prim::Bool(false),
            TT::Str => match tok.value {
                Some(text) => Prim::Str(text),
                None => {
                    return Err(ParseError::MissingValue(label("Prim"), TT::Str, tok));
                },
            },
            TT::Id => match tok.value {
                Some(text) => Prim::Id(text),
                None => {
                    return Err(ParseError::MissingValue(label("Prim"), TT::Id, tok));
                },
            },
            _ => {
                return Err(ParseError::ExpectedPrim(label("Prim"), tok));
            },
        };
        *pos = p + 1;
        Ok(found)
    }
}

/// Reads an operand at the cursor: a call or a block where one starts there,
/// else a literal or a name.
fn parse_operand<'a>(tokens: &[Token<'a>], pos: &mut usize) -> (r: Result<Expr<'a>, ParseError<'a>>)
    ensures
        agrees(r, *old(pos), *final(pos), operand(token_views(tokens@), *old(pos) as int)),
        *final(pos) <= tokens@.len() || *final(pos) == *old(pos),
    decreases tokens@.len() - *old(pos), 5int,
{
    let p: usize = *pos;
    if p >= tokens.len() {
        return Err(ParseError::NoTokensLeft);
    }
    if tokens[p].token_type == TT::Tuen || tokens[p].token_type == TT::LBrace {
        match StEx::parse(tokens, pos) {
            Ok(x) => Ok(Expr::StEx(x)),
            Err(e) => Err(e),
        }
    } else {
        match Prim::parse(tokens, pos) {
            Ok(x) => Ok(Expr::Prim(x)),
            Err(e) => Err(e),
        }
    }
}

impl<'a> Expr<'a> {
    /// Reads an expression at the cursor: operands with binary operators
    /// between them, grouped from the left.
    pub fn parse(tokens: &[Token<'a>], pos: &mut usize) -> (r: Result<Self, ParseError<'a>>)
        ensures
            agrees(r, *old(pos), *final(pos), expr(token_views(tokens@), *old(pos) as int)),
            *final(pos) <= tokens@.len() || *final(pos) == *old(pos),
        decreases tokens@.len() - *old(pos), 7int,
    {
        let ghost ts = token_views(tokens@);
        let ghost start = *pos;
        let mut p: usize = *pos;
        let mut lhs = match parse_operand(tokens, &mut p) {
            Ok(x) => x,
            Err(e) => {
                return Err(e);
            },
        };
        loop
            invariant
                ts == token_views(tokens@),
                start == *old(pos),
                *pos == *old(pos),
                start < p <= tokens@.len(),
                expr(ts, start as int) == expr_rest(ts, p as int, lhs@),
            decreases tokens@.len() - p,
        {
            let op = match operator_here(tokens, p) {
                Some(op) => op,
                None => {
                    *pos = p;
                    return Ok(lhs);
                },
            };
            let mut q: usize = p + 1;
            let rhs = match parse_operand(tokens, &mut q) {
                Ok(x) => x,
                Err(e) => {
                    return Err(e);
                },
            };
            lhs = Expr::Bin(Bin { op, lhs: Box::new(lhs), rhs: Box::new(rhs) });
            p = q;
        }
    }
}

impl<'a> Ret<'a> {
    /// Reads a return statement at the cursor.
    pub fn parse(tokens: &[Token<'a>], pos: &mut usize) -> (r: Result<Self, ParseError<'a>>)
        ensures
            agrees(r, *old(pos), *final(pos), ret(token_views(tokens@), *old(pos) as int)),
            *final(pos) <= tokens@.len() || *final(pos) == *old(pos),
        decreases tokens@.len() - *old(pos), 4int,
    {
        let mut p: usize = match expect_tok("Ret", tokens, *pos, TT::Gib) {
            Ok(p) => p,
            Err(e) => {
                return Err(e);
            },
        };
        match Expr::parse(tokens, &mut p) {
            Ok(expr) => {
                *pos = p;
                Ok(Ret { expr })
            },
            Err(e) => Err(e),
        }
    }
}

impl<'a> VarAss<'a> {
    /// Reads a variable definition at the cursor.
    pub fn parse(tokens: &[Token<'a>], pos: &mut usize) -> (r: Result<Self, ParseError<'a>>)
        ensures
            agrees(r, *old(pos), *final(pos), var_ass(token_views(tokens@), *old(pos) as int)),
            *final(pos) <= tokens@.len() || *final(pos) == *old(pos),
        decreases tokens@.len() - *old(pos), 4int,
    {
        let at0 = match expect_tok("VarAss", tokens, *pos, TT::Dae) {
            Ok(p) => p,
            Err(e) => {
                return Err(e);
            },
        };
        let (id, at1) = match expect_name("VarAss", tokens, at0) {
            Ok(x) => x,
            Err(e) => {
                return Err(e);
            },
        };
        let mut p: usize = match expect_tok("VarAss", tokens, at1, TT::Isch) {
            Ok(p) => p,
            Err(e) => {
                return Err(e);
            },
        };
        let value = match Expr::parse(tokens, &mut p) {
            Ok(x) => x,
            Err(e) => {
                return Err(e);
            },
        };
        let (pt, at4) = match parse_type_clause("VarAss", TT::Als, tokens, p) {
            Ok(x) => x,
            Err(e) => {
                return Err(e);
            },
        };
        *pos = at4;
        Ok(VarAss { id, value, pt })
    }
}

impl<'a> FunAss<'a> {
    /// Reads a function definition at the cursor.
    pub fn parse(tokens: &[Token<'a>], pos: &mut usize) -> (r: Result<Self, ParseError<'a>>)
        ensures
            agrees(r, *old(pos), *final(pos), fun_ass(token_views(tokens@), *old(pos) as int)),
            *final(pos) <= tokens@.len() || *final(pos) == *old(pos),
        decreases tokens@.len() - *old(pos), 4int,
    {
        let ghost ts = token_views(tokens@);
        let at0 = match expect_tok("FunAss", tokens, *pos, TT::Funktion) {
            Ok(p) => p,
            Err(e) => {
                return Err(e);
            },
        };
        let (id, at1) = match expect_name("FunAss", tokens, at0) {
            Ok(x) => x,
            Err(e) => {
                return Err(e);
            },
        };
        let (args, at2) = match parse_params(tokens, at1) {
            Ok(x) => x,
            Err(e) => {
                return Err(e);
            },
        };
        proof {
            if kind_is(ts, at1 as int, TT::Het) {
                crate::grammar::law_param_list_advances(ts, at1 + 1, Seq::empty());
            }
        }
        let (ret, at3) = match parse_type_clause("FunAss", TT::Git, tokens, at2) {
            Ok(x) => x,
            Err(e) => {
                return Err(e);
            },
        };
        let mut p: usize = at3;
        let body = match Block::parse(tokens, &mut p) {
            Ok(x) => x,
            Err(e) => {
                return Err(e);
            },
        };
        *pos = p;
        Ok(FunAss { id, args, body, ret })
    }
}

impl<'a> Block<'a> {
    /// Reads a block at the cursor: statements in braces.
    pub fn parse(tokens: &[Token<'a>], pos: &mut usize) -> (r: Result<Self, ParseError<'a>>)
        ensures
            agrees(r, *old(pos), *final(pos), block(token_views(tokens@), *old(pos) as int)),
            *final(pos) <= tokens@.len() || *final(pos) == *old(pos),
        decreases tokens@.len() - *old(pos), 3int,
    {
        let ghost ts = token_views(tokens@);
        let ghost start = *pos;
        let mut p: usize = match expect_tok("Block", tokens, *pos, TT::LBrace) {
            Ok(p) => p,
            Err(e) => {
                return Err(e);
            },
        };
        let mut stmts: Vec<Stmt<'a>> = Vec::new();
        assert(stmt_views(stmts@) =~= Seq::empty());
        while p < tokens.len() && tokens[p].token_type != TT::RBrace
            invariant
                ts == token_views(tokens@),
                start == *old(pos),
                *pos == *old(pos),
                start < p <= tokens@.len(),
                kind_is(ts, start as int, TT::LBrace),
                block_stmts(ts, start + 1, Seq::empty()) == block_stmts(
                    ts,
                    p as int,
                    stmt_views(stmts@),
                ),
            decreases tokens@.len() - p,
        {
            let ghost before = stmts@;
            proof {
                lemma_token_views(tokens@);
            }
            match Stmt::parse(tokens, &mut p) {
                Ok(s) => {
                    stmts.push(s);
                    assert(stmt_views(before.push(s)) =~= stmt_views(before).push(s@));
                },
                Err(e) => {
                    return Err(e);
                },
            }
        }
        proof {
            lemma_token_views(tokens@);
        }
        if p >= tokens.len() {
            return Err(ParseError::NoTokensLeft);
        }
        *pos = p + 1;
        let b = Block { stmts };
        proof {
            lemma_block_view(b);
        }
        Ok(b)
    }
}

impl<'a> Call<'a> {
    /// Reads a call at the cursor. The arguments are read as far as they go:
    /// one that cannot be read ends the list and takes nothing.
    pub fn parse(tokens: &[Token<'a>], pos: &mut usize) -> (r: Result<Self, ParseError<'a>>)
        ensures
            agrees(r, *old(pos), *final(pos), call(token_views(tokens@), *old(pos) as int)),
            *final(pos) <= tokens@.len() || *final(pos) == *old(pos),
        decreases tokens@.len() - *old(pos), 3int,
    {
        let ghost ts = token_views(tokens@);
        let ghost start = *pos;
        let at0 = match expect_tok("Call", tokens, *pos, TT::Tuen) {
            Ok(p) => p,
            Err(e) => {
                return Err(e);
            },
        };
        let (id, at1) = match expect_name("Call", tokens, at0) {
            Ok(x) => x,
            Err(e) => {
                return Err(e);
            },
        };
        let at2 = match expect_tok("Call", tokens, at1, TT::Mit) {
            Ok(p) => p,
            Err(e) => {
                return Err(e);
            },
        };
        let mut args: Vec<Expr<'a>> = Vec::new();
        let mut p: usize = at2;
        let mut prev: usize = at2;
        assert(expr_views(args@) =~= Seq::empty());
        loop
            invariant_except_break
                call_args(ts, at2 as int, at2 as int, Seq::empty()) == call_args(
                    ts,
                    p as int,
                    prev as int,
                    expr_views(args@),
                ),
            invariant
                ts == token_views(tokens@),
                start == *old(pos),
                *pos == *old(pos),
                at2 == start + 3,
                at2 <= prev <= p <= tokens@.len(),
            ensures
                call_args(ts, at2 as int, at2 as int, Seq::empty()) == (expr_views(args@), p as int),
            decreases tokens@.len() - p,
        {
            let ghost before = args@;
            match Expr::parse(tokens, &mut p) {
                Ok(a) => {
                    args.push(a);
                    assert(expr_views(before.push(a)) =~= expr_views(before).push(a@));
                    prev = p;
                },
                Err(_) => {
                    p = prev;
                    break ;
                },
            }
            if !at_kind(tokens, p, TT::Comma) {
                break ;
            }
            p += 1;
        }
        *pos = p;
        let c = Call { id, args };
        proof {
            lemma_call_view(c);
        }
        Ok(c)
    }
}

impl<'a> StEx<'a> {
    /// Reads a call or a block at the cursor.
    pub fn parse(tokens: &[Token<'a>], pos: &mut usize) -> (r: Result<Self, ParseError<'a>>)
        ensures
            agrees(r, *old(pos), *final(pos), stex(token_views(tokens@), *old(pos) as int)),
            *final(pos) <= tokens@.len() || *final(pos) == *old(pos),
        decreases tokens@.len() - *old(pos), 4int,
    {
        let p: usize = *pos;
        if p >= tokens.len() {
            return Err(ParseError::NoTokensLeft);
        }
        let tok = tokens[p];
        match tok.token_type {
            TT::Tuen => match Call::parse(tokens, pos) {
                Ok(c) => Ok(StEx::Call(c)),
                Err(e) => Err(e),
            },
            TT::LBrace => match Block::parse(tokens, pos) {
                Ok(b) => Ok(StEx::Block(b)),
                Err(e) => Err(e),
            },
            _ => Err(ParseError::UnexpectedToken(label("StEx"), tok)),
        }
    }
}

impl<'a> Stmt<'a> {
    /// Reads a statement at the cursor, chosen by its first token, and the
    /// semicolon that ends it.
    pub fn parse(tokens: &[Token<'a>], pos: &mut usize) -> (r: Result<Self, ParseError<'a>>)
        ensures
            agrees(r, *old(pos), *final(pos), stmt(token_views(tokens@), *old(pos) as int)),
            *final(pos) <= tokens@.len() || *final(pos) == *old(pos),
        decreases tokens@.len() - *old(pos), 5int,
    {
        let mut p: usize = *pos;
        if p >= tokens.len() {
            return Err(ParseError::NoTokensLeft);
        }
        let tok = tokens[p];
        let found = match tok.token_type {
            TT::Funktion => match FunAss::parse(tokens, &mut p) {
                Ok(f) => Stmt::FunAss(f),
                Err(e) => {
                    return Err(e);
                },
            },
            TT::Dae => match VarAss::parse(tokens, &mut p) {
                Ok(v) => Stmt::VarAss(v),
                Err(e) => {
                    return Err(e);
                },
            },
            TT::Gib => match Ret::parse(tokens, &mut p) {
                Ok(r) => Stmt::Ret(r),
                Err(e) => {
                    return Err(e);
                },
            },
            TT::Tuen | TT::LBrace => match StEx::parse(tokens, &mut p) {
                Ok(x) => Stmt::StEx(x),
                Err(e) => {
                    return Err(e);
                },
            },
            _ => {
                return Err(ParseError::UnexpectedToken(label("Stmt"), tok));
            },
        };
        match expect_tok("Stmt", tokens, p, TT::Semicolon) {
            Ok(q) => {
                *pos = q;
                Ok(found)
            },
            Err(e) => Err(e),
        }
    }
}

/// Turns tokens into a program.
pub struct Parser<'a> {
    tokens: &'a Tokens<'a>,
}

impl<'a> Parser<'a> {
    /// The values of the tokens that this parser reads.
    pub closed spec fn tokens(&self) -> Seq<TokenView> {
        token_views(self.tokens@)
    }

    /// A parser for `tokens`.
    pub fn new(tokens: &'a Tokens<'a>) -> (parser: Self)
        ensures
            parser.tokens() == token_views(tokens@),
    {
        Self { tokens }
    }

    /// Reads statements until the tokens end. The result is the program that
    /// the grammar gives, or its first error.
    pub fn parse(&mut self) -> (r: Result<Program<'a>, ParseError<'a>>)
        ensures
            final(self).tokens() == old(self).tokens(),
            match program(old(self).tokens()) {
                Ok(stmts) => r matches Ok(ast) && stmt_views(ast@) == stmts,
                Err(e) => r matches Err(x) && x@ == e,
            },
    {
        let tokens: &'a [Token<'a>] = self.tokens.as_slice();
        let ghost ts = token_views(tokens@);
        let mut ast: Vec<Stmt<'a>> = Vec::new();
        let mut pos: usize = 0;
        assert(stmt_views(ast@) =~= Seq::empty());
        while pos < tokens.len()
            invariant
                ts == token_views(tokens@),
                ts == self.tokens(),
                self.tokens() == old(self).tokens(),
                pos <= tokens@.len(),
                program(ts) == program_from(ts, pos as int, stmt_views(ast@)),
            decreases tokens@.len() - pos,
        {
            let ghost before = ast@;
            proof {
                lemma_token_views(tokens@);
            }
            match Stmt::parse(tokens, &mut pos) {
                Ok(s) => {
                    ast.push(s);
                    assert(stmt_views(before.push(s)) =~= stmt_views(before).push(s@));
                },
                Err(e) => {
                    return Err(e);
                },
            }
        }
        proof {
            lemma_token_views(tokens@);
        }
        Ok(ast)
    }
}

/// A node of the syntax tree that can be read from tokens at a cursor.
pub trait Parseable<'a>: Sized + View {
    /// What the grammar gives for this kind of node at `pos`.
    spec fn grammar(ts: Seq<TokenView>, pos: int) -> Parsed<Self::V>;

    /// Reads a node at the cursor: the node that the grammar gives, with the
    /// cursor behind it, or the grammar's error, with the cursor unmoved.
    fn parse(tokens: &[Token<'a>], pos: &mut usize) -> (r: Result<Self, ParseError<'a>>)
        ensures
            agrees(
                r,
                *old(pos),
                *final(pos),
                Self::grammar(token_views(tokens@), *old(pos) as int),
            ),
    ;
}

impl<'a> Parseable<'a> for Stmt<'a> {
    open spec fn grammar(ts: Seq<TokenView>, pos: int) -> Parsed<StmtView> {
        stmt(ts, pos)
    }

    fn parse(tokens: &[Token<'a>], pos: &mut usize) -> (r: Result<Self, ParseError<'a>>) {
        Stmt::parse(tokens, pos)
    }
}

impl<'a> Parseable<'a> for FunAss<'a> {
    open spec fn grammar(ts: Seq<TokenView>, pos: int) -> Parsed<FunAssView> {
        fun_ass(ts, pos)
    }

    fn parse(tokens: &[Token<'a>], pos: &mut usize) -> (r: Result<Self, ParseError<'a>>) {
        FunAss::parse(tokens, pos)
    }
}

impl<'a> Parseable<'a> for VarAss<'a> {
    open spec fn grammar(ts: Seq<TokenView>, pos: int) -> Parsed<VarAssView> {
        var_ass(ts, pos)
    }

    fn parse(tokens: &[Token<'a>], pos: &mut usize) -> (r: Result<Self, ParseError<'a>>) {
        VarAss::parse(tokens, pos)
    }
}

impl<'a> Parseable<'a> for Expr<'a> {
    open spec fn grammar(ts: Seq<TokenView>, pos: int) -> Parsed<ExprView> {
        expr(ts, pos)
    }

    fn parse(tokens: &[Token<'a>], pos: &mut usize) -> (r: Result<Self, ParseError<'a>>) {
        Expr::parse(tokens, pos)
    }
}

impl<'a> Parseable<'a> for Block<'a> {
    open spec fn grammar(ts: Seq<TokenView>, pos: int) -> Parsed<BlockView> {
        block(ts, pos)
    }

    fn parse(tokens: &[Token<'a>], pos: &mut usize) -> (r: Result<Self, ParseError<'a>>) {
        Block::parse(tokens, pos)
    }
}

impl<'a> Parseable<'a> for Prim<'a> {
    open spec fn grammar(ts: Seq<TokenView>, pos: int) -> Parsed<PrimView> {
        prim(ts, pos)
    }

    fn parse(tokens: &[Token<'a>], pos: &mut usize) -> (r: Result<Self, ParseError<'a>>) {
        Prim::parse(tokens, pos)
    }
}

impl<'a> Parseable<'a> for Call<'a> {
    open spec fn grammar(ts: Seq<TokenView>, pos: int) -> Parsed<CallView> {
        call(ts, pos)
    }

    fn parse(tokens: &[Token<'a>], pos: &mut usize) -> (r: Result<Self, ParseError<'a>>) {
        Call::parse(tokens, pos)
    }
}

impl<'a> Parseable<'a> for Ret<'a> {
    open spec fn grammar(ts: Seq<TokenView>, pos: int) -> Parsed<ExprView> {
        ret(ts, pos)
    }

    fn parse(tokens: &[Token<'a>], pos: &mut usize) -> (r: Result<Self, ParseError<'a>>) {
        Ret::parse(tokens, pos)
    }
}

impl<'a> Parseable<'a> for StEx<'a> {
    open spec fn grammar(ts: Seq<TokenView>, pos: int) -> Parsed<StExView> {
        stex(ts, pos)
    }

    fn parse(tokens: &[Token<'a>], pos: &mut usize) -> (r: Result<Self, ParseError<'a>>) {
        StEx::parse(tokens, pos)
    }
}

} // verus!
