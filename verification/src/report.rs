//! What errors, warnings and tokens read as: each text is given as a
//! mathematical function of the value it describes, and built by a function
//! that is proved to return exactly that text.

use crate::ast::PrimType;
use crate::grammar::ParseErrorView;
use crate::lexer::{lemma_token_views, token_views, Token, TokenView, Tokens, TT};
use crate::parser::ParseError;
use crate::rules::{SemAnErrorView, ShadowingView};
use crate::seman::{SemAnError, Shadowing};
use crate::text::{all_digits, decimal_value, digit_value, is_digit, u8_of_text};
use vstd::prelude::*;

verus! {

/// The text of one decimal digit.
pub open spec fn digit_text(d: nat) -> Seq<char> {
    if d == 0 {
        "0"@
    } else if d == 1 {
        "1"@
    } else if d == 2 {
        "2"@
    } else if d == 3 {
        "3"@
    } else if d == 4 {
        "4"@
    } else if d == 5 {
        "5"@
    } else if d == 6 {
        "6"@
    } else if d == 7 {
        "7"@
    } else if d == 8 {
        "8"@
    } else {
        "9"@
    }
}

/// A number written in base ten, without leading zeros.
pub open spec fn decimal_text(n: nat) -> Seq<char>
    decreases n,
{
    if n < 10 {
        digit_text(n)
    } else {
        decimal_text(n / 10) + digit_text(n % 10)
    }
}

/// The name of a token kind.
pub open spec fn kind_name(kind: TT) -> Seq<char> {
    match kind {
        TT::Funktion => "Funktion"@,
        TT::Tuen => "Tuen"@,
        TT::Mit => "Mit"@,
        TT::Dae => "D\u{e4}"@,
        TT::Isch => "Isch"@,
        TT::Het => "Het"@,
        TT::Git => "Git"@,
        TT::Gib => "Gib"@,
        TT::Als => "Als"@,
        TT::Wahr => "Wahr"@,
        TT::Falsch => "Falsch"@,
        TT::TypR8 => "TypR8"@,
        TT::TypN8 => "TypN8"@,
        TT::TypZ8 => "TypZ8"@,
        TT::TypZeiche => "TypZeiche"@,
        TT::TypWahrheit => "TypWahrheit"@,
        TT::Str => "Str"@,
        TT::Id => "Id"@,
        TT::Num => "Num"@,
        TT::LBrace => "LBrace"@,
        TT::RBrace => "RBrace"@,
        TT::Semicolon => "Semicolon"@,
        TT::Comma => "Comma"@,
        TT::Invalid => "Invalid"@,
    }
}

/// The name of a primitive type.
pub open spec fn prim_type_name(pt: PrimType) -> Seq<char> {
    match pt {
        PrimType::String => "String"@,
        PrimType::R8 => "R8"@,
        PrimType::N8 => "N8"@,
        PrimType::Z8 => "Z8"@,
        PrimType::Boolean => "Boolean"@,
    }
}

/// Where a token stands, in words.
pub open spec fn position_text(t: TokenView) -> Seq<char> {
    "row "@ + decimal_text(t.row) + " col "@ + decimal_text(t.col)
}

/// The text of a parse error.
pub open spec fn parse_error_text(e: ParseErrorView) -> Seq<char> {
    match e {
        ParseErrorView::NoTokensLeft => "Your code is bonkers: No tokens left"@,
        ParseErrorView::NotConvertible(ctx, from, to, t) =>
            "Your code is bonkers: Couldn't convert value of token from "@ + kind_name(from)
                + " to "@ + prim_type_name(to) + " at "@ + position_text(t) + " parsing "@ + ctx,
        ParseErrorView::UnexpectedToken(ctx, t) => "Your code is bonkers: Unexpected token at "@
            + position_text(t) + " parsing "@ + ctx,
        ParseErrorView::ExpectedToken(ctx, kind, t) => "Your code is bonkers: Expected token "@
            + kind_name(kind) + " at "@ + position_text(t) + ", got "@ + kind_name(t.token_type)
            + " parsing "@ + ctx,
        ParseErrorView::ExpectedType(ctx, t) => "Your code is bonkers: Expected type at "@
            + position_text(t) + " parsing "@ + ctx,
        ParseErrorView::ExpectedPrim(ctx, t) => "Your code is bonkers: Expected primitive at "@
            + position_text(t) + " parsing "@ + ctx,
        ParseErrorView::MissingValue(ctx, kind, t) => "Your code is bonkers: Expected value for "@
            + kind_name(kind) + " at "@ + position_text(t) + " parsing "@ + ctx,
    }
}

/// The text of a semantic error.
pub open spec fn seman_error_text(e: SemAnErrorView) -> Seq<char> {
    match e {
        SemAnErrorView::TokenNotDefined(id) => "Your code is semantically incorrect :) Token `"@
            + id + "` not defined"@,
        SemAnErrorView::AssignTokenNotDefined(id, target) =>
            "Your code is semantically incorrect :) Token `"@ + id
                + "` not defined when assigning to `"@ + target + "`"@,
        SemAnErrorView::FunctionNotDefined(id) =>
            "Your code is semantically incorrect :) Function `"@ + id + "` not defined"@,
        SemAnErrorView::SameFunctionArgs(id, fun) =>
            "Your code is semantically incorrect :) Duplicate id's `"@ + id
                + "` passed as function args to `"@ + fun + "`"@,
        SemAnErrorView::ArgNotDefined(id, fun) =>
            "Your code is semantically incorrect :) Argument `"@ + id + "` for function `"@ + fun
                + "` not defined"@,
    }
}

/// The text of a type that a scope held: `Some(..)` with its name, or `None`.
pub open spec fn held_type_text(pt: Option<PrimType>) -> Seq<char> {
    match pt {
        Some(t) => "Some("@ + prim_type_name(t) + ")"@,
        None => "None"@,
    }
}

/// The text of a type that a definition gives: its name, or `Unknown`.
pub open spec fn given_type_text(pt: Option<PrimType>) -> Seq<char> {
    match pt {
        Some(t) => prim_type_name(t),
        None => "Unknown"@,
    }
}

/// The text of a warning.
pub open spec fn shadowing_text(w: ShadowingView) -> Seq<char> {
    "WARNING: Shadowing previously defined variable `"@ + w.name + "` ("@ + held_type_text(
        w.previous,
    ) + ") with new "@ + given_type_text(w.replacement)
}

/// The text of one token in a list: its kind, and its text in brackets if it
/// has one.
pub open spec fn token_text(t: TokenView) -> Seq<char> {
    match t.value {
        Some(v) => kind_name(t.token_type) + " ("@ + v + ")"@,
        None => kind_name(t.token_type),
    }
}

/// The texts of the tokens `ts[..n]`, with a comma and a space between them.
pub open spec fn token_list_text(ts: Seq<TokenView>, n: int) -> Seq<char>
    decreases n,
{
    if n <= 0 {
        Seq::empty()
    } else if n == 1 {
        token_text(ts[0])
    } else {
        token_list_text(ts, n - 1) + ", "@ + token_text(ts[n - 1])
    }
}

/// The text of a token sequence: the tokens between square brackets.
pub open spec fn tokens_text(ts: Seq<TokenView>) -> Seq<char> {
    "[ "@ + token_list_text(ts, ts.len() as int) + " ]"@
}

/// Writes one decimal digit.
fn digit(d: usize) -> (r: &'static str)
    requires
        d < 10,
    ensures
        r@ == digit_text(d as nat),
{
    match d {
        0 => "0",
        1 => "1",
        2 => "2",
        3 => "3",
        4 => "4",
        5 => "5",
        6 => "6",
        7 => "7",
        8 => "8",
        _ => "9",
    }
}

/// Writes a number in base ten.
pub fn decimal(n: usize) -> (r: String)
    ensures
        r@ == decimal_text(n as nat),
    decreases n,
{
    if n < 10 {
        String::from_str(digit(n))
    } else {
        let mut s = decimal(n / 10);
        s.append(digit(n % 10));
        s
    }
}

impl TT {
    /// The name of this kind.
    pub fn name(&self) -> (r: &'static str)
        ensures
            r@ == kind_name(*self),
    {
        match self {
            TT::Funktion => "Funktion",
            TT::Tuen => "Tuen",
            TT::Mit => "Mit",
            TT::Dae => "D\u{e4}",
            TT::Isch => "Isch",
            TT::Het => "Het",
            TT::Git => "Git",
            TT::Gib => "Gib",
            TT::Als => "Als",
            TT::Wahr => "Wahr",
            TT::Falsch => "Falsch",
            TT::TypR8 => "TypR8",
            TT::TypN8 => "TypN8",
            TT::TypZ8 => "TypZ8",
            TT::TypZeiche => "TypZeiche",
            TT::TypWahrheit => "TypWahrheit",
            TT::Str => "Str",
            TT::Id => "Id",
            TT::Num => "Num",
            TT::LBrace => "LBrace",
            TT::RBrace => "RBrace",
            TT::Semicolon => "Semicolon",
            TT::Comma => "Comma",
            TT::Invalid => "Invalid",
        }
    }
}

impl PrimType {
    /// The name of this type.
    pub fn name(&self) -> (r: &'static str)
        ensures
            r@ == prim_type_name(*self),
    {
        match self {
            PrimType::String => "String",
            PrimType::R8 => "R8",
            PrimType::N8 => "N8",
            PrimType::Z8 => "Z8",
            PrimType::Boolean => "Boolean",
        }
    }

    /// The name of this type, as an owned text.
    pub fn to_string(&self) -> (r: String)
        ensures
            r@ == prim_type_name(*self),
    {
        String::from_str(self.name())
    }
}

/// Appends where `tok` stands to `s`.
fn append_position(s: &mut String, tok: &Token)
    ensures
        final(s)@ == old(s)@ + position_text(tok@),
{
    let ghost start = s@;
    s.append("row ");
    let row = decimal(tok.row);
    s.append(row.as_str());
    s.append(" col ");
    let col = decimal(tok.col);
    s.append(col.as_str());
    assert(s@ =~= start + position_text(tok@));
}

/// Appends the end of a parse error's text to `s`: where the token stands
/// and what was being parsed.
fn append_place(s: &mut String, tok: &Token, ctx: &String)
    ensures
        final(s)@ == old(s)@ + position_text(tok@) + " parsing "@ + ctx@,
{
    append_position(s, tok);
    s.append(" parsing ");
    s.append(ctx.as_str());
}

impl<'a> ParseError<'a> {
    /// The text of this error.
    pub fn to_string(&self) -> (r: String)
        ensures
            r@ == parse_error_text(self@),
    {
        match self {
            ParseError::NoTokensLeft => String::from_str("Your code is bonkers: No tokens left"),
            ParseError::NotConvertible(ctx, from, to, tok) => {
                let mut s = String::from_str(
                    "Your code is bonkers: Couldn't convert value of token from ",
                );
                s.append(from.name());
                s.append(" to ");
                s.append(to.name());
                s.append(" at ");
                append_place(&mut s, tok, ctx);
                s
            },
            ParseError::UnexpectedToken(ctx, tok) => {
                let mut s = String::from_str("Your code is bonkers: Unexpected token at ");
                append_place(&mut s, tok, ctx);
                s
            },
            ParseError::ExpectedToken(ctx, kind, tok) => {
                let mut s = String::from_str("Your code is bonkers: Expected token ");
                s.append(kind.name());
                s.append(" at ");
                append_position(&mut s, tok);
                s.append(", got ");
                s.append(tok.token_type.name());
                s.append(" parsing ");
                s.append(ctx.as_str());
                s
            },
            ParseError::ExpectedType(ctx, tok) => {
                let mut s = String::from_str("Your code is bonkers: Expected type at ");
                append_place(&mut s, tok, ctx);
                s
            },
            ParseError::ExpectedPrim(ctx, tok) => {
                let mut s = String::from_str("Your code is bonkers: Expected primitive at ");
                append_place(&mut s, tok, ctx);
                s
            },
            ParseError::MissingValue(ctx, kind, tok) => {
                let mut s = String::from_str("Your code is bonkers: Expected value for ");
                s.append(kind.name());
                s.append(" at ");
                append_place(&mut s, tok, ctx);
                s
            },
        }
    }
}

impl<'a> SemAnError<'a> {
    /// The text of this error.
    pub fn to_string(&self) -> (r: String)
        ensures
            r@ == seman_error_text(self@),
    {
        match *self {
            SemAnError::TokenNotDefined(id) => {
                let mut s = String::from_str("Your code is semantically incorrect :) Token `");
                s.append(id);
                s.append("` not defined");
                s
            },
            SemAnError::AssignTokenNotDefined(id, target) => {
                let mut s = String::from_str("Your code is semantically incorrect :) Token `");
                s.append(id);
                s.append("` not defined when assigning to `");
                s.append(target);
                s.append("`");
                s
            },
            SemAnError::FunctionNotDefined(id) => {
                let mut s = String::from_str("Your code is semantically incorrect :) Function `");
                s.append(id);
                s.append("` not defined");
                s
            },
            SemAnError::SameFunctionArgs(id, fun) => {
                let mut s = String::from_str(
                    "Your code is semantically incorrect :) Duplicate id's `",
                );
                s.append(id);
                s.append("` passed as function args to `");
                s.append(fun);
                s.append("`");
                s
            },
            SemAnError::ArgNotDefined(id, fun) => {
                let mut s = String::from_str("Your code is semantically incorrect :) Argument `");
                s.append(id);
                s.append("` for function `");
                s.append(fun);
                s.append("` not defined");
                s
            },
        }
    }
}

impl<'a> Shadowing<'a> {
    /// The text of this warning.
    pub fn to_string(&self) -> (r: String)
        ensures
            r@ == shadowing_text(self@),
    {
        let mut s = String::from_str("WARNING: Shadowing previously defined variable `");
        s.append(self.name);
        s.append("` (");
        match self.previous {
            Some(t) => {
                s.append("Some(");
                s.append(t.name());
                s.append(")");
            },
            None => {
                s.append("None");
            },
        }
        s.append(") with new ");
        match self.replacement {
            Some(t) => {
                s.append(t.name());
            },
            None => {
                s.append("Unknown");
            },
        }
        assert(s@ =~= shadowing_text(self@));
        s
    }
}

/// Appends the text of one token to `s`.
fn append_token(s: &mut String, tok: &Token)
    ensures
        final(s)@ == old(s)@ + token_text(tok@),
{
    let ghost start = s@;
    s.append(tok.token_type.name());
    match tok.value {
        Some(v) => {
            s.append(" (");
            s.append(v);
            s.append(")");
        },
        None => {},
    }
    assert(s@ =~= start + token_text(tok@));
}

/// The text of a token sequence: kinds and texts, between square brackets.
pub fn display_tokens(v: &Tokens) -> (r: String)
    ensures
        r@ == tokens_text(token_views(v@)),
{
    let ghost ts = token_views(v@);
    let mut s = String::from_str("[ ");
    let n: usize = v.len();
    let mut i: usize = 0;
    proof {
        lemma_token_views(v@);
        assert(s@ =~= "[ "@ + token_list_text(ts, 0));
    }
    while i < n
        invariant
            i <= n,
            n == v@.len(),
            ts == token_views(v@),
            s@ == "[ "@ + token_list_text(ts, i as int),
        decreases n - i,
    {
        proof {
            lemma_token_views(v@);
        }
        if i > 0 {
            s.append(", ");
        }
        append_token(&mut s, &v[i]);
        i += 1;
        assert(s@ =~= "[ "@ + token_list_text(ts, i as int));
    }
    s.append(" ]");
    s
}

/// The text of a digit is that one digit.
proof fn lemma_digit_text(d: nat)
    requires
        d < 10,
    ensures
        digit_text(d).len() == 1,
        is_digit(digit_text(d)[0]),
        digit_value(digit_text(d)[0]) == d,
{
    reveal_strlit("0");
    reveal_strlit("1");
    reveal_strlit("2");
    reveal_strlit("3");
    reveal_strlit("4");
    reveal_strlit("5");
    reveal_strlit("6");
    reveal_strlit("7");
    reveal_strlit("8");
    reveal_strlit("9");
}

/// A number that is written can be read back: its text holds digits only,
/// at least one, and they write the number.
pub proof fn law_decimal_reads_back(n: nat)
    ensures
        decimal_text(n).len() > 0,
        all_digits(decimal_text(n)),
        decimal_value(decimal_text(n)) == n,
        n <= 255 ==> u8_of_text(decimal_text(n)) == Some(n as u8),
    decreases n,
{
    let text = decimal_text(n);
    let last = digit_text(n % 10);
    lemma_digit_text(n % 10);
    if n < 10 {
        assert(text == last);
        assert(text.drop_last() =~= Seq::<char>::empty());
        assert(decimal_value(text.drop_last()) == 0);
    } else {
        let front = decimal_text(n / 10);
        law_decimal_reads_back(n / 10);
        assert(text == front + last);
        assert(text.drop_last() =~= front);
        assert(text.last() == last[0]);
        assert forall|i: int| 0 <= i < text.len() implies is_digit(#[trigger] text[i]) by {
            if i < front.len() {
                assert(text[i] == front[i]);
            }
        }
    }
    assert(text[0] != '+');
}

} // verus!
