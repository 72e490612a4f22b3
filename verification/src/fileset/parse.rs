//! Parser for file set expression strings such as `AuthFiles - AuthTests`.
//!
//! The input is first split into tokens: names (runs of ASCII letters,
//! digits and `_`), the operators `|`, `&`, `-`, and parentheses, with
//! ASCII whitespace between them ignored. A character that starts no
//! token is reported before any syntax error. The tokens are then parsed
//! with all binary operators at equal precedence, associating to the
//! left. Error positions are byte offsets into the input.

use vstd::prelude::*;

use super::error::{NameError, ParseError};
use super::expr::{Expr, SpecExpr};
use super::name::{name_result_spec, Name};
use crate::text::{
    byte_len, byte_offset, char_width, chars_of, ident_valid, is_alnum, lemma_byte_offset_bound,
    string_from_chars,
};

verus! {

/// ASCII whitespace separating tokens.
pub open spec fn is_ws(c: char) -> bool {
    c == ' ' || c == '\t' || c == '\n' || c == '\r'
}

/// Characters that make up a name token.
pub open spec fn is_word(c: char) -> bool {
    is_alnum(c) || c == '_'
}

/// Single-character tokens.
pub open spec fn is_punct(c: char) -> bool {
    c == '|' || c == '&' || c == '-' || c == '(' || c == ')'
}

/// The class of a token.
#[derive(Debug, Clone, Copy, PartialEq, Eq, Structural)]
pub enum TokenKind {
    Word,
    Or,
    And,
    Minus,
    Open,
    Close,
}

/// One token: its class, the character range it covers, and the byte
/// offset where it starts.
#[derive(Debug, Clone, Copy, PartialEq, Eq)]
pub struct Token {
    pub kind: TokenKind,
    pub start: usize,
    pub end: usize,
    pub pos: usize,
}

/// The token class of a single-character token.
pub open spec fn punct_kind(c: char) -> TokenKind {
    if c == '|' {
        TokenKind::Or
    } else if c == '&' {
        TokenKind::And
    } else if c == '-' {
        TokenKind::Minus
    } else if c == '(' {
        TokenKind::Open
    } else {
        TokenKind::Close
    }
}

/// The end of the run of name characters starting at `i`.
pub open spec fn word_end(s: Seq<char>, i: int) -> int
    decreases s.len() - i,
{
    if 0 <= i < s.len() && is_word(s[i]) {
        word_end(s, i + 1)
    } else {
        i
    }
}

/// The outcome of splitting text into tokens.
pub enum Lexed {
    /// The tokens, in order.
    Tokens(Seq<Token>),
    /// A character at the given character index starts no token.
    Bad(char, int),
}

/// Prefix a token to a lexing outcome.
pub open spec fn prepend(t: Token, l: Lexed) -> Lexed {
    match l {
        Lexed::Tokens(ts) => Lexed::Tokens(seq![t] + ts),
        Lexed::Bad(c, i) => Lexed::Bad(c, i),
    }
}

/// Prefix a token sequence to a lexing outcome.
pub open spec fn prepend_all(ts: Seq<Token>, l: Lexed) -> Lexed {
    match l {
        Lexed::Tokens(rest) => Lexed::Tokens(ts + rest),
        Lexed::Bad(c, i) => Lexed::Bad(c, i),
    }
}

/// Split `s` into tokens, starting at character index `i`.
pub open spec fn lex(s: Seq<char>, i: int) -> Lexed
    decreases s.len() - i,
{
    if i < 0 || i >= s.len() {
        Lexed::Tokens(seq![])
    } else {
        let c = s[i];
        if is_ws(c) {
            lex(s, i + 1)
        } else if is_punct(c) {
            prepend(
                Token {
                    kind: punct_kind(c),
                    start: i as usize,
                    end: (i + 1) as usize,
                    pos: byte_offset(s, i) as usize,
                },
                lex(s, i + 1),
            )
        } else if is_word(c) {
            let k = word_end(s, i);
            if i < k <= s.len() {
                prepend(
                    Token {
                        kind: TokenKind::Word,
                        start: i as usize,
                        end: k as usize,
                        pos: byte_offset(s, i) as usize,
                    },
                    lex(s, k),
                )
            } else {
                Lexed::Tokens(seq![])
            }
        } else {
            Lexed::Bad(c, i)
        }
    }
}

/// Why the token parser stopped.
pub enum ParseFail {
    /// Input ended where a name or `(` was expected.
    Eof,
    /// An operator or `)` stood where a name or `(` was expected.
    Char(char, int),
    /// No `)` at the given byte offset.
    Unclosed(int),
    /// A name token failed the name rules.
    BadName(Seq<char>),
}

/// The result of parsing from one token index: an expression and the
/// index after it, or a failure.
pub enum ParseStep {
    Done(SpecExpr, int),
    Fail(ParseFail),
}

/// The text of token `t`.
pub open spec fn tok_text(s: Seq<char>, t: Token) -> Seq<char> {
    s.subrange(t.start as int, t.end as int)
}

/// The byte offset of token `k`, or of the end of input.
pub open spec fn pos_at(s: Seq<char>, ts: Seq<Token>, k: int) -> int {
    if 0 <= k < ts.len() {
        ts[k].pos as int
    } else {
        byte_offset(s, s.len() as int) as int
    }
}

/// Whether a token kind is a binary operator.
pub open spec fn is_op(k: TokenKind) -> bool {
    k == TokenKind::Or || k == TokenKind::And || k == TokenKind::Minus
}

/// The expression an operator builds from its two operands.
pub open spec fn combine(k: TokenKind, l: SpecExpr, r: SpecExpr) -> SpecExpr {
    if k == TokenKind::Or {
        SpecExpr::Union(Box::new(l), Box::new(r))
    } else if k == TokenKind::And {
        SpecExpr::Intersection(Box::new(l), Box::new(r))
    } else {
        SpecExpr::Difference(Box::new(l), Box::new(r))
    }
}

/// `primary ::= name | "(" expr ")"`
pub open spec fn p_primary(s: Seq<char>, ts: Seq<Token>, i: int) -> ParseStep
    decreases ts.len() - i, 0int,
{
    if i < 0 || i >= ts.len() {
        ParseStep::Fail(ParseFail::Eof)
    } else {
        let t = ts[i];
        if t.kind == TokenKind::Word {
            if ident_valid(tok_text(s, t), true) {
                ParseStep::Done(SpecExpr::Ref(tok_text(s, t)), i + 1)
            } else {
                ParseStep::Fail(ParseFail::BadName(tok_text(s, t)))
            }
        } else if t.kind == TokenKind::Open {
            match p_expr(s, ts, i + 1) {
                ParseStep::Done(e, k) => if 0 <= k < ts.len() && ts[k].kind == TokenKind::Close {
                    ParseStep::Done(e, k + 1)
                } else {
                    ParseStep::Fail(ParseFail::Unclosed(pos_at(s, ts, k)))
                },
                ParseStep::Fail(f) => ParseStep::Fail(f),
            }
        } else {
            ParseStep::Fail(ParseFail::Char(s[t.start as int], t.pos as int))
        }
    }
}

/// `expr ::= primary (op primary)*`
pub open spec fn p_expr(s: Seq<char>, ts: Seq<Token>, i: int) -> ParseStep
    decreases ts.len() - i, 1int,
{
    match p_primary(s, ts, i) {
        ParseStep::Done(e, k) => if i < k <= ts.len() {
            p_rest(s, ts, e, k)
        } else {
            ParseStep::Done(e, k)
        },
        ParseStep::Fail(f) => ParseStep::Fail(f),
    }
}

/// The `(op primary)*` tail, folding to the left onto `lhs`.
pub open spec fn p_rest(s: Seq<char>, ts: Seq<Token>, lhs: SpecExpr, i: int) -> ParseStep
    decreases ts.len() - i, 2int,
{
    if 0 <= i < ts.len() && is_op(ts[i].kind) {
        match p_primary(s, ts, i + 1) {
            ParseStep::Done(r, k) => if i < k <= ts.len() {
                p_rest(s, ts, combine(ts[i].kind, lhs, r), k)
            } else {
                ParseStep::Done(lhs, i)
            },
            ParseStep::Fail(f) => ParseStep::Fail(f),
        }
    } else {
        ParseStep::Done(lhs, i)
    }
}

/// The result the parser gives for the text `s`.
pub open spec fn parse_spec(s: Seq<char>, r: Result<Expr, ParseError>) -> bool {
    match lex(s, 0) {
        Lexed::Bad(c, i) => r == Err::<Expr, ParseError>(
            ParseError::UnexpectedChar { ch: c, pos: byte_offset(s, i) as usize },
        ),
        Lexed::Tokens(ts) => match p_expr(s, ts, 0) {
            ParseStep::Fail(f) => fail_matches(s, f, r),
            ParseStep::Done(e, k) => if k < ts.len() {
                r == Err::<Expr, ParseError>(ParseError::TrailingContent { pos: ts[k].pos })
            } else {
                r matches Ok(x) && x.spec_expr() == e
            },
        },
    }
}

/// Whether the error in `r` is the one a parse failure `f` reports.
pub open spec fn fail_matches<T>(s: Seq<char>, f: ParseFail, r: Result<T, ParseError>) -> bool {
    match f {
        ParseFail::Eof => r matches Err(ParseError::UnexpectedEof),
        ParseFail::Char(c, p) => r matches Err(ParseError::UnexpectedChar { ch, pos }) && ch == c
            && pos == p,
        ParseFail::Unclosed(p) => r matches Err(ParseError::UnclosedParen { pos }) && pos == p,
        ParseFail::BadName(tok) => r matches Err(ParseError::InvalidName(ne)) && name_result_spec(
            tok,
            Err(ne),
        ),
    }
}

/// Whether an executable parse step matches the specified one.
pub open spec fn step_matches(s: Seq<char>, r: Result<(Expr, usize), ParseError>, st: ParseStep) -> bool {
    match st {
        ParseStep::Done(e, k) => r matches Ok((x, k2)) && x.spec_expr() == e && k2 == k,
        ParseStep::Fail(f) => fail_matches(s, f, r),
    }
}

proof fn lemma_word_end(s: Seq<char>, i: int)
    requires
        0 <= i <= s.len(),
    ensures
        i <= word_end(s, i) <= s.len(),
        forall|j: int| i <= j < word_end(s, i) ==> is_word(#[trigger] s[j]),
        word_end(s, i) < s.len() ==> !is_word(s[word_end(s, i)]),
    decreases s.len() - i,
{
    if i < s.len() && is_word(s[i]) {
        lemma_word_end(s, i + 1);
    }
}

proof fn lemma_bad_name(tok: Seq<char>, ne: NameError)
    requires
        name_result_spec(tok, Err(ne)),
    ensures
        !ident_valid(tok, true),
{
    match ne {
        NameError::InvalidChar { name, ch, pos } => {
            assert(!is_alnum(tok[pos as int]));
        },
        _ => {},
    }
}

/// Whether `c` belongs to a name token.
fn word_char(c: char) -> (b: bool)
    ensures
        b == is_word(c),
{
    ('A' <= c && c <= 'Z') || ('a' <= c && c <= 'z') || ('0' <= c && c <= '9') || c == '_'
}

/// Split the characters of `s` into tokens.
fn lex_exec(cs: &Vec<char>, Ghost(s): Ghost<Seq<char>>, nbytes: usize) -> (r: Result<Vec<Token>, (char, usize)>)
    requires
        cs@ == s,
        nbytes == vstd::utf8::encode_utf8(s).len(),
    ensures
        match r {
            Ok(ts) => lex(s, 0) == Lexed::Tokens(ts@),
            Err((c, i)) => lex(s, 0) == Lexed::Bad(c, i as int) && i < s.len(),
        },
{
    let mut toks: Vec<Token> = Vec::new();
    let mut i: usize = 0;
    let mut b: usize = 0;
    proof {
        assert(toks@ + Seq::<Token>::empty() =~= Seq::<Token>::empty());
        match lex(s, 0) {
            Lexed::Tokens(rest) => {
                assert(toks@ + rest =~= rest);
            },
            _ => {},
        }
    }
    while i < cs.len()
        invariant
            cs@ == s,
            i <= cs.len(),
            b == byte_offset(s, i as int),
            nbytes == vstd::utf8::encode_utf8(s).len(),
            lex(s, 0) == prepend_all(toks@, lex(s, i as int)),
        decreases cs.len() - i,
    {
        let c = cs[i];
        proof {
            lemma_byte_offset_bound(s, i + 1);
        }
        if c == ' ' || c == '\t' || c == '\n' || c == '\r' {
            b = b + char_width(c);
            i = i + 1;
        } else if c == '|' || c == '&' || c == '-' || c == '(' || c == ')' {
            let kind = if c == '|' {
                TokenKind::Or
            } else if c == '&' {
                TokenKind::And
            } else if c == '-' {
                TokenKind::Minus
            } else if c == '(' {
                TokenKind::Open
            } else {
                TokenKind::Close
            };
            let t = Token { kind, start: i, end: i + 1, pos: b };
            let ghost before = toks@;
            toks.push(t);
            proof {
                match lex(s, i + 1) {
                    Lexed::Tokens(rest) => {
                        assert(before + (seq![t] + rest) =~= toks@ + rest);
                    },
                    _ => {},
                }
            }
            b = b + char_width(c);
            i = i + 1;
        } else if word_char(c) {
            let start = i;
            let start_b = b;
            proof {
                lemma_word_end(s, i as int);
            }
            while i < cs.len() && word_char(cs[i])
                invariant
                    cs@ == s,
                    start < i <= cs.len() || (start == i && i < cs.len() && is_word(s[i as int])),
                    b == byte_offset(s, i as int),
                    nbytes == vstd::utf8::encode_utf8(s).len(),
                    word_end(s, i as int) == word_end(s, start as int),
                decreases cs.len() - i,
            {
                proof {
                    lemma_byte_offset_bound(s, i + 1);
                }
                b = b + char_width(cs[i]);
                i = i + 1;
            }
            assert(word_end(s, i as int) == i as int);
            let t = Token { kind: TokenKind::Word, start, end: i, pos: start_b };
            let ghost before = toks@;
            toks.push(t);
            proof {
                match lex(s, i as int) {
                    Lexed::Tokens(rest) => {
                        assert(before + (seq![t] + rest) =~= toks@ + rest);
                    },
                    _ => {},
                }
            }
        } else {
            return Err((c, i));
        }
    }
    proof {
        assert(toks@ + Seq::<Token>::empty() =~= toks@);
    }
    Ok(toks)
}

/// Parser for a file set expression string.
pub struct ExprParser<'a> {
    input: &'a str,
}

impl<'a> ExprParser<'a> {
    /// Create a parser for `input`.
    pub fn new(input: &'a str) -> (p: Self)
        ensures
            p.input() == input@,
    {
        ExprParser { input }
    }

    /// The text being parsed.
    pub closed spec fn input(&self) -> Seq<char> {
        self.input@
    }

    /// Parse the whole input as one expression.
    pub fn parse(&self) -> (r: Result<Expr, ParseError>)
        ensures
            parse_spec(self.input(), r),
    {
        let cs = chars_of(self.input);
        let nbytes = byte_len(self.input);
        let ghost s = self.input@;
        match lex_exec(&cs, Ghost(s), nbytes) {
            Err((c, i)) => {
                proof {
                    lemma_byte_offset_bound(s, i as int);
                }
                let pos = byte_at(&cs, Ghost(s), nbytes, i);
                Err(ParseError::UnexpectedChar { ch: c, pos })
            },
            Ok(ts) => {
                proof {
                    lemma_lex_wf(s, 0);
                }
                let r = parse_expr(&cs, Ghost(s), nbytes, &ts, 0);
                match r {
                    Err(e) => Err(e),
                    Ok((e, k)) => {
                        if k < ts.len() {
                            Err(ParseError::TrailingContent { pos: ts[k].pos })
                        } else {
                            Ok(e)
                        }
                    },
                }
            },
        }
    }
}

/// The byte offset of character index `i`.
fn byte_at(cs: &Vec<char>, Ghost(s): Ghost<Seq<char>>, nbytes: usize, i: usize) -> (b: usize)
    requires
        cs@ == s,
        i <= cs.len(),
        nbytes == vstd::utf8::encode_utf8(s).len(),
    ensures
        b == byte_offset(s, i as int),
{
    let mut j: usize = 0;
    let mut b: usize = 0;
    while j < i
        invariant
            cs@ == s,
            j <= i <= cs.len(),
            b == byte_offset(s, j as int),
            nbytes == vstd::utf8::encode_utf8(s).len(),
        decreases i - j,
    {
        proof {
            lemma_byte_offset_bound(s, j + 1);
        }
        b = b + char_width(cs[j]);
        j = j + 1;
    }
    b
}

/// Well-formedness of a token sequence against its source text.
pub open spec fn tokens_wf(s: Seq<char>, ts: Seq<Token>) -> bool {
    forall|k: int|
        0 <= k < ts.len() ==> (#[trigger] ts[k]).start < ts[k].end <= s.len() && (ts[k].kind
            != TokenKind::Word ==> ts[k].end == ts[k].start + 1)
}

proof fn lemma_prepend_wf(s: Seq<char>, t: Token, l: Lexed)
    requires
        t.start < t.end <= s.len(),
        t.kind != TokenKind::Word ==> t.end == t.start + 1,
        l matches Lexed::Tokens(ts) ==> tokens_wf(s, ts),
    ensures
        prepend(t, l) matches Lexed::Tokens(ts) ==> tokens_wf(s, ts),
{
    match l {
        Lexed::Tokens(ts) => {
            let all = seq![t] + ts;
            assert forall|k: int| 0 <= k < all.len() implies (#[trigger] all[k]).start < all[k].end
                <= s.len() && (all[k].kind != TokenKind::Word ==> all[k].end == all[k].start
                + 1) by {
                if k > 0 {
                    assert(all[k] == ts[k - 1]);
                }
            }
        },
        _ => {},
    }
}

proof fn lemma_lex_wf(s: Seq<char>, i: int)
    requires
        0 <= i,
        s.len() <= usize::MAX,
    ensures
        lex(s, i) matches Lexed::Tokens(ts) ==> tokens_wf(s, ts),
        lex(s, i) matches Lexed::Bad(c, j) ==> 0 <= j < s.len() && c == s[j],
    decreases s.len() - i,
{
    if i < s.len() {
        let c = s[i];
        if is_ws(c) {
            lemma_lex_wf(s, i + 1);
        } else if is_punct(c) {
            lemma_lex_wf(s, i + 1);
            let t = Token {
                kind: punct_kind(c),
                start: i as usize,
                end: (i + 1) as usize,
                pos: byte_offset(s, i) as usize,
            };
            lemma_prepend_wf(s, t, lex(s, i + 1));
        } else if is_word(c) {
            lemma_word_end(s, i);
            let k = word_end(s, i);
            if i < k <= s.len() {
                lemma_lex_wf(s, k);
                let t = Token {
                    kind: TokenKind::Word,
                    start: i as usize,
                    end: k as usize,
                    pos: byte_offset(s, i) as usize,
                };
                lemma_prepend_wf(s, t, lex(s, k));
            }
        }
    }
}

/// The characters of a token, as a string.
fn token_string(cs: &Vec<char>, t: Token) -> (r: String)
    requires
        t.start < t.end <= cs.len(),
    ensures
        r@ == cs@.subrange(t.start as int, t.end as int),
{
    let mut v: Vec<char> = Vec::new();
    let mut j = t.start;
    while j < t.end
        invariant
            t.start <= j <= t.end <= cs.len(),
            v@ == cs@.subrange(t.start as int, j as int),
        decreases t.end - j,
    {
        v.push(cs[j]);
        j = j + 1;
        assert(v@ =~= cs@.subrange(t.start as int, j as int));
    }
    string_from_chars(&v)
}

fn parse_primary(
    cs: &Vec<char>,
    Ghost(s): Ghost<Seq<char>>,
    nbytes: usize,
    ts: &Vec<Token>,
    i: usize,
) -> (r: Result<(Expr, usize), ParseError>)
    requires
        cs@ == s,
        nbytes == vstd::utf8::encode_utf8(s).len(),
        tokens_wf(s, ts@),
        i <= ts.len(),
    ensures
        step_matches(s, r, p_primary(s, ts@, i as int)),
        r matches Ok((_, k)) ==> i < k <= ts.len(),
    decreases ts.len() - i, 0int,
{
    if i >= ts.len() {
        return Err(ParseError::UnexpectedEof);
    }
    let t = ts[i];
    assert(ts@[i as int] == t);
    match t.kind {
        TokenKind::Word => {
            let text = token_string(cs, t);
            match Name::new(text.as_str()) {
                Ok(n) => Ok((Expr::Ref(n), i + 1)),
                Err(ne) => {
                    proof {
                        lemma_bad_name(text@, ne);
                    }
                    Err(ParseError::InvalidName(ne))
                },
            }
        },
        TokenKind::Open => {
            match parse_expr(cs, Ghost(s), nbytes, ts, i + 1) {
                Err(e) => Err(e),
                Ok((e, k)) => {
                    if k < ts.len() && ts[k].kind == TokenKind::Close {
                        Ok((e, k + 1))
                    } else {
                        let pos = if k < ts.len() {
                            ts[k].pos
                        } else {
                            proof {
                                lemma_byte_offset_bound(s, s.len() as int);
                            }
                            byte_at(cs, Ghost(s), nbytes, cs.len())
                        };
                        Err(ParseError::UnclosedParen { pos })
                    }
                },
            }
        },
        _ => Err(ParseError::UnexpectedChar { ch: cs[t.start], pos: t.pos }),
    }
}

fn parse_expr(
    cs: &Vec<char>,
    Ghost(s): Ghost<Seq<char>>,
    nbytes: usize,
    ts: &Vec<Token>,
    i: usize,
) -> (r: Result<(Expr, usize), ParseError>)
    requires
        cs@ == s,
        nbytes == vstd::utf8::encode_utf8(s).len(),
        tokens_wf(s, ts@),
        i <= ts.len(),
    ensures
        step_matches(s, r, p_expr(s, ts@, i as int)),
        r matches Ok((_, k)) ==> i < k <= ts.len(),
    decreases ts.len() - i, 1int,
{
    let first = parse_primary(cs, Ghost(s), nbytes, ts, i);
    let (mut lhs, mut k) = match first {
        Err(e) => return Err(e),
        Ok(p) => p,
    };
    while k < ts.len() && (ts[k].kind == TokenKind::Or || ts[k].kind == TokenKind::And
        || ts[k].kind == TokenKind::Minus)
        invariant
            cs@ == s,
            nbytes == vstd::utf8::encode_utf8(s).len(),
            tokens_wf(s, ts@),
            i < k <= ts.len(),
            p_expr(s, ts@, i as int) == p_rest(s, ts@, lhs.spec_expr(), k as int),
        decreases ts.len() - k,
    {
        let op = ts[k].kind;
        let rhs = parse_primary(cs, Ghost(s), nbytes, ts, k + 1);
        match rhs {
            Err(e) => return Err(e),
            Ok((r, k2)) => {
                let ghost old_lhs = lhs.spec_expr();
                lhs = if op == TokenKind::Or {
                    Expr::Union(Box::new(lhs), Box::new(r))
                } else if op == TokenKind::And {
                    Expr::Intersection(Box::new(lhs), Box::new(r))
                } else {
                    Expr::Difference(Box::new(lhs), Box::new(r))
                };
                assert(lhs.spec_expr() == combine(op, old_lhs, r.spec_expr()));
                k = k2;
            },
        }
    }
    Ok((lhs, k))
}

} // verus!
