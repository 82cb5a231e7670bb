//! The tokenizer: source text in, positioned tokens out.
//!
//! The text is read line by line. Punctuation and keywords are recognised by
//! this module itself; string literals, numbers and identifiers are found by
//! the `regex` crate, and the tokenizer's contract speaks of what that crate
//! finds through the name [`regex_find`].

use crate::text::{chars_of, is_prefix, is_space, is_whitespace, lines, split_lines, starts_with};
use crate::text::{lemma_line_end, lemma_single_line, line_end, lines_from, strip_cr, views};
use regex::Regex;
use vstd::prelude::*;

verus! {

/// The kind of a token.
#[derive(Debug, PartialEq, Eq, Clone, Copy, Structural)]
pub enum TT {
    /// `funktion`: a function definition follows.
    Funktion,
    /// `tuen`: a call follows.
    Tuen,
    /// `mit`: the arguments of a call follow.
    Mit,
    /// `dä`: a variable definition follows.
    Dae,
    /// `isch`: the value of a variable follows.
    Isch,
    /// `het`: the parameters of a function follow.
    Het,
    /// `git`: the return type of a function follows.
    Git,
    /// `gib`: the value to return follows.
    Gib,
    /// `als`: the type of a variable follows.
    Als,
    /// `wahr`: the truth value true.
    Wahr,
    /// `falsch`: the truth value false.
    Falsch,
    /// `R8`: the type of real numbers.
    TypR8,
    /// `N8`: the type of natural numbers.
    TypN8,
    /// `Z8`: the type of whole numbers.
    TypZ8,
    /// `Zeiche`: the type of strings.
    TypZeiche,
    /// `Wahrheit`: the type of truth values.
    TypWahrheit,
    /// A quoted string literal.
    Str,
    /// An identifier.
    Id,
    /// A numeric literal.
    Num,
    /// `{`
    LBrace,
    /// `}`
    RBrace,
    /// `;`
    Semicolon,
    /// `,`
    Comma,
    /// Text that is none of the above.
    Invalid,
}

/// A token: its kind, the text it carries (for strings, numbers and
/// identifiers), and its position.
#[derive(Debug, PartialEq, Clone, Copy)]
pub struct Token<'a> {
    pub token_type: TT,
    pub value: Option<&'a str>,
    pub row: usize,
    pub col: usize,
}

/// The tokens of a source text, in order.
pub type Tokens<'a> = Vec<Token<'a>>;

/// The mathematical value of a token: its text is a sequence of characters.
pub ghost struct TokenView {
    pub token_type: TT,
    pub value: Option<Seq<char>>,
    pub row: nat,
    pub col: nat,
}

impl<'a> View for Token<'a> {
    type V = TokenView;

    open spec fn view(&self) -> TokenView {
        TokenView {
            token_type: self.token_type,
            value: match self.value {
                Some(s) => Some(s@),
                None => None,
            },
            row: self.row as nat,
            col: self.col as nat,
        }
    }
}

/// The values of a sequence of tokens.
pub open spec fn token_views(ts: Seq<Token>) -> Seq<TokenView> {
    ts.map_values(|t: Token| t@)
}

/// The values of a sequence of tokens are as many as the tokens, each the
/// value of the token at its place.
pub proof fn lemma_token_views(ts: Seq<Token>)
    ensures
        token_views(ts).len() == ts.len(),
        forall|i: int| 0 <= i < ts.len() ==> (#[trigger] token_views(ts)[i]) == ts[i]@,
{
}

/// A token without text.
pub open spec fn bare_token(kind: TT, row: nat, col: nat) -> TokenView {
    TokenView { token_type: kind, value: None, row, col }
}

/// A token with text.
pub open spec fn text_token(kind: TT, text: Seq<char>, row: nat, col: nat) -> TokenView {
    TokenView { token_type: kind, value: Some(text), row, col }
}

/// Whether `ch` is one of the four punctuation characters.
pub open spec fn is_punct(ch: char) -> bool {
    ch == '{' || ch == '}' || ch == ';' || ch == ','
}

/// The kind that a single character stands for: a punctuation kind, or
/// `Invalid` for any other character.
pub open spec fn punct_kind(ch: char) -> TT {
    if ch == '{' {
        TT::LBrace
    } else if ch == '}' {
        TT::RBrace
    } else if ch == ';' {
        TT::Semicolon
    } else if ch == ',' {
        TT::Comma
    } else {
        TT::Invalid
    }
}

/// The keyword table, in the order in which it is searched. Each text ends in
/// the space that must follow the keyword in the source.
pub open spec fn keywords() -> Seq<(Seq<char>, TT)> {
    seq![
        ("funktion "@, TT::Funktion),
        ("tuen "@, TT::Tuen),
        ("mit "@, TT::Mit),
        ("d\u{e4} "@, TT::Dae),
        ("isch "@, TT::Isch),
        ("het "@, TT::Het),
        ("git "@, TT::Git),
        ("gib "@, TT::Gib),
        ("als "@, TT::Als),
        ("wahr "@, TT::Wahr),
        ("falsch "@, TT::Falsch),
        ("R8 "@, TT::TypR8),
        ("N8 "@, TT::TypN8),
        ("Z8 "@, TT::TypZ8),
        ("Zeiche "@, TT::TypZeiche),
        ("Wahrheit "@, TT::TypWahrheit),
    ]
}

/// The first entry of the keyword table, at index `from` or later, whose text
/// `input` starts with.
pub open spec fn first_keyword(input: Seq<char>, from: int) -> Option<int>
    decreases keywords().len() - from,
{
    if from < 0 || from >= keywords().len() {
        None
    } else if is_prefix(keywords()[from].0, input) {
        Some(from)
    } else {
        first_keyword(input, from + 1)
    }
}

/// The pattern of a quoted string literal: from a quote to the next quote
/// that no backslash escapes.
pub const STR_PATTERN: &'static str = "^\"([^\"\\\\]|\\\\.)*\"";

/// The pattern of a numeric literal: an optional minus sign, digits, and
/// optionally a dot and more digits.
pub const NUM_PATTERN: &'static str = "^-?[0-9]+(\\.[0-9]+)?";

/// The pattern of an identifier: a letter or underscore, then letters, digits,
/// underscores, apostrophes and hyphens.
pub const ID_PATTERN: &'static str = "^[\\p{alpha}_][\\p{alpha}0-9_'-]*";

/// What the `regex` crate finds: the text of the first match of `pattern` in
/// `haystack`, or `None` where the pattern does not compile or matches
/// nowhere.
pub uninterp spec fn regex_find(pattern: Seq<char>, haystack: Seq<char>) -> Option<Seq<char>>;

/// Compiles `pattern` with `regex::Regex::new` and searches `input` with
/// `Regex::find`. The result is the matched text as `Match::as_str` gives it;
/// it is `None` where the pattern is refused or nothing matches. The search
/// is not verified: the contract only names its outcome [`regex_find`], which
/// is to say that the same pattern finds the same text in the same input
/// every time.
#[verifier::external_body]
fn find_match<'a>(pattern: &str, input: &'a str) -> (r: Option<&'a str>)
    ensures
        r matches Some(m) ==> regex_find(pattern@, input@) == Some(m@),
        r is None ==> regex_find(pattern@, input@) is None,
{
    match Regex::new(pattern) {
        Ok(re) => match re.find(input) {
            Some(m) => Some(m.as_str()),
            None => None,
        },
        Err(_) => None,
    }
}

/// A match that can make a token at the start of `input`: one that is not
/// empty and that `input` starts with. Any other is as good as none.
pub open spec fn usable(found: Option<Seq<char>>, input: Seq<char>) -> Option<Seq<char>> {
    match found {
        Some(m) => if m.len() > 0 && is_prefix(m, input) {
            Some(m)
        } else {
            None
        },
        None => None,
    }
}

/// The number of characters at the start of `s` before the first white space.
pub open spec fn non_space_run(s: Seq<char>) -> nat
    decreases s.len(),
{
    if s.len() == 0 || is_space(s[0]) {
        0
    } else {
        1 + non_space_run(s.drop_first())
    }
}

/// The token that starts `input`, which is the rest of a line from column
/// `col` on, and the column after it. A keyword of the table comes first,
/// then a string literal, a number and an identifier as the three patterns
/// find them. Anything else is an `Invalid` token that covers the characters
/// up to the next white space and one more, and that carries the column after
/// them.
pub open spec fn scan(input: Seq<char>, row: nat, col: nat) -> (TokenView, nat) {
    match first_keyword(input, 0) {
        Some(k) => (bare_token(keywords()[k].1, row, col), col + keywords()[k].0.len()),
        None => match usable(regex_find(STR_PATTERN@, input), input) {
            Some(m) => (text_token(TT::Str, m, row, col), col + m.len()),
            None => match usable(regex_find(NUM_PATTERN@, input), input) {
                Some(m) => (text_token(TT::Num, m, row, col), col + m.len()),
                None => match usable(regex_find(ID_PATTERN@, input), input) {
                    Some(m) => (text_token(TT::Id, m, row, col), col + m.len()),
                    None => {
                        let end = col + non_space_run(input) + 1;
                        (bare_token(TT::Invalid, row, end), end)
                    },
                },
            },
        },
    }
}

/// The tokens of one line from column `col` on.
pub open spec fn lex_line(line: Seq<char>, row: nat, col: nat) -> Seq<TokenView>
    decreases line.len() + 1 - col,
{
    if col >= line.len() {
        Seq::empty()
    } else if is_punct(line[col as int]) {
        seq![bare_token(punct_kind(line[col as int]), row, col)] + lex_line(line, row, col + 1)
    } else if is_space(line[col as int]) {
        lex_line(line, row, col + 1)
    } else {
        let (tok, next) = scan(line.skip(col as int), row, col);
        proof {
            lemma_scan_advances(line.skip(col as int), row, col);
        }
        seq![tok] + lex_line(line, row, next)
    }
}

/// The tokens of the lines `ls[i..]`, the first of them numbered `row` and
/// read from column `col` on, the others from their start.
pub open spec fn lex_lines(ls: Seq<Seq<char>>, i: int, row: nat, col: nat) -> Seq<TokenView>
    decreases ls.len() - i,
{
    if i < 0 || i >= ls.len() {
        Seq::empty()
    } else {
        lex_line(ls[i], row, col) + lex_lines(ls, i + 1, row + 1, 0)
    }
}

/// The tokens of a whole source text.
pub open spec fn tokens_of(source: Seq<char>) -> Seq<TokenView> {
    lex_lines(lines(source), 0, 0, 0)
}

/// Every entry of the keyword table holds at least one character.
pub proof fn lemma_keywords_not_empty(k: int)
    requires
        0 <= k < keywords().len(),
    ensures
        keywords()[k].0.len() > 0,
{
    lemma_keyword_texts();
}

/// What `first_keyword` finds is an entry of the table at `from` or later
/// whose text starts `input`.
pub proof fn lemma_first_keyword(input: Seq<char>, from: int)
    requires
        0 <= from,
    ensures
        first_keyword(input, from) matches Some(k) ==> from <= k < keywords().len() && is_prefix(
            keywords()[k].0,
            input,
        ),
    decreases keywords().len() - from,
{
    if from < keywords().len() && !is_prefix(keywords()[from].0, input) {
        lemma_first_keyword(input, from + 1);
    }
}

/// The run of characters before the first white space is no longer than the
/// text.
pub proof fn lemma_non_space_run_bound(s: Seq<char>)
    ensures
        non_space_run(s) <= s.len(),
    decreases s.len(),
{
    if s.len() > 0 && !is_space(s[0]) {
        lemma_non_space_run_bound(s.drop_first());
    }
}

/// A token always moves the column forward, and at most one column past the
/// end of the text.
pub proof fn lemma_scan_advances(input: Seq<char>, row: nat, col: nat)
    ensures
        col < scan(input, row, col).1 <= col + input.len() + 1,
{
    lemma_first_keyword(input, 0);
    lemma_non_space_run_bound(input);
    match first_keyword(input, 0) {
        Some(k) => {
            lemma_keywords_not_empty(k);
        },
        None => {},
    }
}

impl<'a> Token<'a> {
    /// The token for one punctuation character at `(row, col)`; the column
    /// moves one to the right.
    pub fn from_char(ch: char, row: usize, col: &mut usize) -> (tok: Self)
        requires
            *old(col) < usize::MAX,
        ensures
            *final(col) == *old(col) + 1,
            tok@ == bare_token(punct_kind(ch), row as nat, *old(col) as nat),
    {
        *col += 1;
        Self {
            token_type: match ch {
                '{' => TT::LBrace,
                '}' => TT::RBrace,
                ';' => TT::Semicolon,
                ',' => TT::Comma,
                _ => TT::Invalid,
            },
            row,
            col: *col - 1,
            value: None,
        }
    }

    fn new(token_type: TT, value: Option<&'a str>, row: usize, col: usize) -> (tok: Self)
        ensures
            tok == (Token { token_type, value, row, col }),
    {
        Self { token_type, row, col, value }
    }

    fn new_builtin(token_type: TT, row: usize, col: usize) -> (tok: Self)
        ensures
            tok@ == bare_token(token_type, row as nat, col as nat),
    {
        Self { token_type, row, col, value: None }
    }

    /// The token of kind `kind` that a match makes at the start of `input`. A
    /// match that is missing, empty, or not what `input` starts with makes
    /// none and leaves the column alone; any other becomes the token's text,
    /// and the column moves past it.
    pub fn from_match(
        kind: TT,
        found: Option<&'a str>,
        input: &[char],
        row: usize,
        col: &mut usize,
    ) -> (r: Option<Self>)
        requires
            *old(col) + input@.len() <= usize::MAX,
        ensures
            match usable(
                match found {
                    Some(m) => Some(m@),
                    None => None,
                },
                input@,
            ) {
                Some(m) => r matches Some(tok) && tok@ == text_token(
                    kind,
                    m,
                    row as nat,
                    *old(col) as nat,
                ) && *final(col) == *old(col) + m.len(),
                None => r is None && *final(col) == *old(col),
            },
    {
        match found {
            Some(m) => {
                let text = chars_of(m);
                if text.len() == 0 || !starts_with(input, text.as_slice()) {
                    None
                } else {
                    let tok = Token::new(kind, Some(m), row, *col);
                    *col += text.len();
                    Some(tok)
                }
            },
            None => None,
        }
    }

    /// The token that starts `input`, the rest of a line from column `col`
    /// on; the column moves past it.
    pub fn from_string(input: &'a str, row: usize, col: &mut usize) -> (tok: Self)
        requires
            *old(col) + input@.len() < usize::MAX,
        ensures
            (tok@, *final(col) as nat) == scan(input@, row as nat, *old(col) as nat),
            *old(col) < *final(col) <= *old(col) + input@.len() + 1,
    {
        let cs = chars_of(input);
        let mut i: usize = 0;
        while i < 16
            invariant
                i <= 16,
                cs@ == input@,
                *col == *old(col),
                *col + input@.len() < usize::MAX,
                first_keyword(input@, 0) == first_keyword(input@, i as int),
            decreases 16 - i,
        {
            let (text, kind) = keyword(i);
            let kcs = chars_of(text);
            if starts_with(cs.as_slice(), kcs.as_slice()) {
                proof {
                    lemma_keywords_not_empty(i as int);
                }
                let tok = Token::new_builtin(kind, row, *col);
                *col += kcs.len();
                return tok;
            }
            i += 1;
        }
        let found = find_match(STR_PATTERN, input);
        if let Some(tok) = Token::from_match(TT::Str, found, cs.as_slice(), row, col) {
            return tok;
        }
        let found = find_match(NUM_PATTERN, input);
        if let Some(tok) = Token::from_match(TT::Num, found, cs.as_slice(), row, col) {
            return tok;
        }
        let found = find_match(ID_PATTERN, input);
        if let Some(tok) = Token::from_match(TT::Id, found, cs.as_slice(), row, col) {
            return tok;
        }
        let run = count_non_space(cs.as_slice());
        proof {
            lemma_non_space_run_bound(input@);
        }
        *col += run + 1;
        Token::new_builtin(TT::Invalid, row, *col)
    }
}

/// Entry `i` of the keyword table.
fn keyword(i: usize) -> (r: (&'static str, TT))
    requires
        i < 16,
    ensures
        (r.0@, r.1) == keywords()[i as int],
{
    match i {
        0 => ("funktion ", TT::Funktion),
        1 => ("tuen ", TT::Tuen),
        2 => ("mit ", TT::Mit),
        3 => ("d\u{e4} ", TT::Dae),
        4 => ("isch ", TT::Isch),
        5 => ("het ", TT::Het),
        6 => ("git ", TT::Git),
        7 => ("gib ", TT::Gib),
        8 => ("als ", TT::Als),
        9 => ("wahr ", TT::Wahr),
        10 => ("falsch ", TT::Falsch),
        11 => ("R8 ", TT::TypR8),
        12 => ("N8 ", TT::TypN8),
        13 => ("Z8 ", TT::TypZ8),
        14 => ("Zeiche ", TT::TypZeiche),
        _ => ("Wahrheit ", TT::TypWahrheit),
    }
}

/// Counts the characters at the start of `s` before the first white space.
fn count_non_space(s: &[char]) -> (n: usize)
    ensures
        n == non_space_run(s@),
{
    let mut i: usize = 0;
    assert(s@.skip(0) =~= s@);
    while i < s.len() && !is_whitespace(s[i])
        invariant
            i <= s@.len(),
            non_space_run(s@) == i + non_space_run(s@.skip(i as int)),
        decreases s@.len() - i,
    {
        proof {
            assert(s@.skip(i as int).drop_first() =~= s@.skip(i + 1));
        }
        i += 1;
    }
    proof {
        if i < s@.len() {
            assert(s@.skip(i as int)[0] == s@[i as int]);
        }
    }
    i
}

/// Turns source text into tokens, line by line.
pub struct Lexer<'a> {
    input: &'a str,
}

impl<'a> Lexer<'a> {
    /// The source text.
    pub closed spec fn source(&self) -> Seq<char> {
        self.input@
    }

    /// A tokenizer at the start of `input`.
    pub fn new(input: &'a str) -> (lexer: Self)
        ensures
            lexer.source() == input@,
    {
        Self { input }
    }

    /// Reads the whole source from its first line. The tokens depend on the
    /// source alone: reading again gives the same tokens, with the same rows
    /// and columns.
    pub fn lex(&mut self) -> (res: Tokens<'a>)
        requires
            old(self).source().len() < usize::MAX,
        ensures
            token_views(res@) == tokens_of(old(self).source()),
            final(self).source() == old(self).source(),
    {
        let mut res: Vec<Token<'a>> = Vec::new();
        let ls = split_lines(self.input);
        let mut row: usize = 0;
        let mut col: usize = 0;
        let ghost all = lines(self.input@);
        proof {
            lemma_lines_bound(self.input@, 0);
        }
        let mut li: usize = 0;
        while li < ls.len()
            invariant
                li <= ls@.len(),
                views(ls@) == all,
                all == lines(self.input@),
                all.len() <= self.input@.len(),
                forall|k: int| 0 <= k < all.len() ==> (#[trigger] all[k]).len() <= self.input@.len(),
                self.input@.len() < usize::MAX,
                row == li,
                col == 0,
                lex_lines(all, 0, 0, 0) == token_views(res@) + lex_lines(
                    all,
                    li as int,
                    row as nat,
                    col as nat,
                ),
            decreases ls@.len() - li,
        {
            let line: &'a str = ls[li];
            let cs = chars_of(line);
            let n: usize = cs.len();
            assert(line@ == all[li as int]);
            let ghost before = token_views(res@);
            while col < n
                invariant
                    cs@ == line@,
                    n == cs@.len(),
                    n <= self.input@.len(),
                    self.input@.len() < usize::MAX,
                    col <= n + 1,
                    before + lex_line(line@, row as nat, 0) == token_views(res@) + lex_line(
                        line@,
                        row as nat,
                        col as nat,
                    ),
                decreases n + 1 - col,
            {
                let ch = cs[col];
                let ghost prev = res@;
                if ch == '{' || ch == '}' || ch == ';' || ch == ',' {
                    let tok = Token::from_char(ch, row, &mut col);
                    res.push(tok);
                    proof {
                        assert(token_views(prev.push(tok)) =~= token_views(prev) + seq![tok@]);
                    }
                } else if is_whitespace(ch) {
                    col += 1;
                } else {
                    let rest = line.substring_char(col, n);
                    assert(rest@ =~= line@.skip(col as int));
                    let tok = Token::from_string(rest, row, &mut col);
                    res.push(tok);
                    proof {
                        assert(token_views(prev.push(tok)) =~= token_views(prev) + seq![tok@]);
                    }
                }
            }
            proof {
                assert(lex_line(line@, row as nat, col as nat) =~= Seq::empty());
            }
            row += 1;
            col = 0;
            li += 1;
        }
        res
    }
}

/// The tokens of `input`, read from its first line. The result is `None`
/// only for a text so long that the positions in it cannot be counted.
pub fn tokenize<'a>(input: &'a str) -> (r: Option<Tokens<'a>>)
    ensures
        match r {
            Some(ts) => input@.len() < usize::MAX && token_views(ts@) == tokens_of(input@),
            None => input@.len() >= usize::MAX,
        },
{
    if input.unicode_len() == usize::MAX {
        return None;
    }
    let mut lexer = Lexer::new(input);
    Some(lexer.lex())
}

/// A text has no more lines than characters, and no line is longer than the
/// text.
pub proof fn lemma_lines_bound(s: Seq<char>, from: int)
    requires
        0 <= from,
    ensures
        lines_from(s, from).len() <= s.len() - from || lines_from(s, from).len() == 0,
        forall|k: int|
            0 <= k < lines_from(s, from).len() ==> (#[trigger] lines_from(s, from)[k]).len()
                <= s.len(),
    decreases s.len() - from,
{
    if from < s.len() {
        lemma_line_end(s, from);
        let e = line_end(s, from);
        if e < s.len() {
            lemma_lines_bound(s, e + 1);
            let head = seq![strip_cr(s.subrange(from, e))];
            let tail = lines_from(s, e + 1);
            assert(lines_from(s, from) == head + tail);
            assert forall|k: int| 0 <= k < lines_from(s, from).len() implies (
            #[trigger] lines_from(s, from)[k]).len() <= s.len() by {
                if k > 0 {
                    assert(lines_from(s, from)[k] == tail[k - 1]);
                }
            }
        }
    }
}

/// What tells the keywords apart: each text has three characters or more,
/// none of them a line feed, starts with a character that is neither
/// punctuation nor white space, and no two texts agree in both their first
/// and their third character.
pub proof fn lemma_keyword_texts()
    ensures
        forall|k: int, i: int|
            0 <= k < keywords().len() && 0 <= i < keywords()[k].0.len() ==> #[trigger] keywords()[k].0[i]
                != '\n',
        forall|k: int|
            0 <= k < keywords().len() ==> (#[trigger] keywords()[k]).0.len() >= 3 && !is_punct(
                keywords()[k].0[0],
            ) && !is_space(keywords()[k].0[0]),
        forall|j: int, k: int|
            0 <= j < keywords().len() && 0 <= k < keywords().len() && j != k ==> (
            #[trigger] keywords()[j]).0[0] != (#[trigger] keywords()[k]).0[0] || keywords()[j].0[2]
                != keywords()[k].0[2],
{
    reveal_strlit("funktion ");
    reveal_strlit("tuen ");
    reveal_strlit("mit ");
    reveal_strlit("d\u{e4} ");
    reveal_strlit("isch ");
    reveal_strlit("het ");
    reveal_strlit("git ");
    reveal_strlit("gib ");
    reveal_strlit("als ");
    reveal_strlit("wahr ");
    reveal_strlit("falsch ");
    reveal_strlit("R8 ");
    reveal_strlit("N8 ");
    reveal_strlit("Z8 ");
    reveal_strlit("Zeiche ");
    reveal_strlit("Wahrheit ");
}

/// A keyword's text starts with no other keyword's text.
pub proof fn lemma_keywords_differ(j: int, k: int)
    requires
        0 <= j < keywords().len(),
        0 <= k < keywords().len(),
        is_prefix(keywords()[j].0, keywords()[k].0),
    ensures
        j == k,
{
    lemma_keyword_texts();
    let p = keywords()[j].0;
    let s = keywords()[k].0;
    let t = s.take(p.len() as int);
    assert(t[0] == s[0]);
    assert(t[2] == s[2]);
}

/// In the text of keyword `k`, the table's search from `from` on finds `k`.
pub proof fn lemma_keyword_finds_itself(k: int, from: int)
    requires
        0 <= from <= k < keywords().len(),
    ensures
        first_keyword(keywords()[k].0, from) == Some(k),
    decreases k - from,
{
    let text = keywords()[k].0;
    if from < k {
        if is_prefix(keywords()[from].0, text) {
            lemma_keywords_differ(from, k);
        }
        lemma_keyword_finds_itself(k, from + 1);
    } else {
        assert(text.take(text.len() as int) =~= text);
    }
}

/// Reading a keyword's own text again gives the keyword: the text of entry
/// `k` of the table, taken as a line or as a whole source, is one token of
/// that entry's kind, at the start.
pub proof fn law_keyword_read_again(k: int, row: nat)
    requires
        0 <= k < keywords().len(),
    ensures
        scan(keywords()[k].0, row, 0).0 == bare_token(keywords()[k].1, row, 0),
        lex_line(keywords()[k].0, row, 0) == seq![bare_token(keywords()[k].1, row, 0)],
        tokens_of(keywords()[k].0) == seq![bare_token(keywords()[k].1, 0, 0)],
{
    lemma_keyword_line(k, 0);
    lemma_keyword_line(k, row);
    lemma_keyword_texts();
    lemma_single_line(keywords()[k].0);
    lemma_one_line_source(keywords()[k].0);
}

/// A source of one line has the tokens of that line.
proof fn lemma_one_line_source(s: Seq<char>)
    requires
        lines(s) == seq![s],
    ensures
        tokens_of(s) == lex_line(s, 0, 0),
{
    let ls = lines(s);
    assert(lex_lines(ls, 1, 1, 0) =~= Seq::empty());
    assert(lex_lines(ls, 0, 0, 0) =~= lex_line(ls[0], 0, 0) + lex_lines(ls, 1, 1, 0));
    assert(lex_line(s, 0, 0) + Seq::<TokenView>::empty() =~= lex_line(s, 0, 0));
}

/// The text of entry `k` of the keyword table, taken as a line, is one token
/// of that entry's kind.
proof fn lemma_keyword_line(k: int, row: nat)
    requires
        0 <= k < keywords().len(),
    ensures
        scan(keywords()[k].0, row, 0).0 == bare_token(keywords()[k].1, row, 0),
        lex_line(keywords()[k].0, row, 0) == seq![bare_token(keywords()[k].1, row, 0)],
{
    let text = keywords()[k].0;
    lemma_keyword_texts();
    lemma_keyword_finds_itself(k, 0);
    assert(text.skip(0) =~= text);
    let tok = bare_token(keywords()[k].1, row, 0);
    assert(lex_line(text, row, text.len()) =~= Seq::empty());
    assert(lex_line(text, row, 0) =~= seq![tok] + lex_line(text, row, text.len()));
}

/// Reading a punctuation character again gives the same kind: the character,
/// taken as a line or as a whole source, is one token of its kind, at the
/// start, and that kind is not `Invalid`.
pub proof fn law_punctuation_read_again(ch: char, row: nat)
    requires
        is_punct(ch),
    ensures
        punct_kind(ch) != TT::Invalid,
        lex_line(seq![ch], row, 0) == seq![bare_token(punct_kind(ch), row, 0)],
        tokens_of(seq![ch]) == seq![bare_token(punct_kind(ch), 0, 0)],
{
    lemma_punctuation_line(ch, 0);
    lemma_punctuation_line(ch, row);
    lemma_single_line(seq![ch]);
    lemma_one_line_source(seq![ch]);
}

/// A punctuation character, taken as a line, is one token of its kind.
proof fn lemma_punctuation_line(ch: char, row: nat)
    requires
        is_punct(ch),
    ensures
        lex_line(seq![ch], row, 0) == seq![bare_token(punct_kind(ch), row, 0)],
{
    let line = seq![ch];
    assert(lex_line(line, row, 1) =~= Seq::empty());
    assert(lex_line(line, row, 0) =~= seq![bare_token(punct_kind(ch), row, 0)] + lex_line(
        line,
        row,
        1,
    ));
}

/// Whether the tokens `ts` stand in row `row`, at column `from` or later, and
/// in the order of their columns.
pub open spec fn in_line_order(ts: Seq<TokenView>, row: nat, from: nat) -> bool {
    &&& forall|i: int| 0 <= i < ts.len() ==> (#[trigger] ts[i]).row == row && ts[i].col >= from
    &&& forall|i: int, j: int|
        0 <= i < j < ts.len() ==> (#[trigger] ts[i]).col <= (#[trigger] ts[j]).col
}

/// Positions rise along a line: the tokens of a line all carry the line's
/// row, none stands before the column where reading began, and none stands
/// before an earlier one.
pub proof fn law_positions_rise(line: Seq<char>, row: nat, col: nat)
    ensures
        in_line_order(lex_line(line, row, col), row, col),
    decreases line.len() - col,
{
    if col < line.len() {
        let ch = line[col as int];
        if is_punct(ch) {
            law_positions_rise(line, row, col + 1);
            lemma_first_before_rest(
                bare_token(punct_kind(ch), row, col),
                lex_line(line, row, col + 1),
                row,
                col,
                col + 1,
            );
        } else if is_space(ch) {
            law_positions_rise(line, row, col + 1);
        } else {
            let (tok, next) = scan(line.skip(col as int), row, col);
            lemma_scan_advances(line.skip(col as int), row, col);
            if next < line.len() {
                law_positions_rise(line, row, next);
                lemma_first_before_rest(tok, lex_line(line, row, next), row, col, next);
            }
        }
    }
}

/// A token at column `from` or later and not behind `next`, put in front of
/// tokens that stand in order from `next` on, gives tokens in order from
/// `from` on.
proof fn lemma_first_before_rest(
    first: TokenView,
    rest: Seq<TokenView>,
    row: nat,
    from: nat,
    next: nat,
)
    requires
        first.row == row,
        from <= first.col <= next,
        in_line_order(rest, row, next),
    ensures
        in_line_order(seq![first] + rest, row, from),
{
    let all = seq![first] + rest;
    assert forall|i: int| 0 <= i < all.len() implies (#[trigger] all[i]).row == row && all[i].col
        >= from by {
        if i > 0 {
            assert(all[i] == rest[i - 1]);
        }
    }
    assert forall|i: int, j: int| 0 <= i < j < all.len() implies (#[trigger] all[i]).col <= (
    #[trigger] all[j]).col by {
        assert(all[j] == rest[j - 1]);
        if i > 0 {
            assert(all[i] == rest[i - 1]);
        }
    }
}

/// Whether the text of `tok`, if it has one, is what `line` holds from the
/// token's column on.
pub open spec fn stands_in(tok: TokenView, line: Seq<char>) -> bool {
    tok.value matches Some(v) ==> v.len() > 0 && tok.col + v.len() <= line.len() && line.subrange(
        tok.col as int,
        (tok.col + v.len()) as int,
    ) == v
}

/// A token's text is the source at the token's position: whatever the
/// patterns find, every string, number and identifier of a line carries the
/// characters that the line holds from the token's column on.
pub proof fn law_text_stands_in_line(line: Seq<char>, row: nat, col: nat)
    ensures
        forall|i: int|
            0 <= i < lex_line(line, row, col).len() ==> stands_in(
                #[trigger] lex_line(line, row, col)[i],
                line,
            ),
    decreases line.len() + 1 - col,
{
    let all = lex_line(line, row, col);
    if col < line.len() {
        let ch = line[col as int];
        if is_punct(ch) {
            law_text_stands_in_line(line, row, col + 1);
            let rest = lex_line(line, row, col + 1);
            assert(all == seq![bare_token(punct_kind(ch), row, col)] + rest);
            assert forall|i: int| 0 <= i < all.len() implies stands_in(#[trigger] all[i], line) by {
                if i > 0 {
                    assert(all[i] == rest[i - 1]);
                }
            }
        } else if is_space(ch) {
            law_text_stands_in_line(line, row, col + 1);
            assert(all == lex_line(line, row, col + 1));
        } else {
            let input = line.skip(col as int);
            let (tok, next) = scan(input, row, col);
            lemma_scan_advances(input, row, col);
            law_text_stands_in_line(line, row, next);
            let rest = lex_line(line, row, next);
            assert(stands_in(tok, line)) by {
                if let Some(v) = tok.value {
                    assert(is_prefix(v, input));
                    assert(input.take(v.len() as int) =~= line.subrange(
                        col as int,
                        (col + v.len()) as int,
                    ));
                }
            }
            assert(all == seq![tok] + rest);
            assert forall|i: int| 0 <= i < all.len() implies stands_in(#[trigger] all[i], line) by {
                if i > 0 {
                    assert(all[i] == rest[i - 1]);
                } else {
                    assert(all[0] == tok);
                }
            }
        }
    }
}

} // verus!
