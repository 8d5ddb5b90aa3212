//! The tokenizer: turns a character sequence into an ordered sequence of
//! typed lexical tokens, inserting implicit multiplication and telling unary
//! from binary minus by context.

use vstd::prelude::*;
use crate::chars::{
    ascii_lower, digit_char, is_digit_char, matches_word, to_ascii_lower, xid_continue,
    xid_start, char_to_string,
};
use crate::errors::LexerError;
use crate::evaluator::{Function, is_const_name, is_const_str};

verus! {

/// The lexical category of a token.
#[derive(Clone, Copy, PartialEq, Eq, Structural, Debug)]
pub enum TokenType {
    Number,
    Identifier,
    Keyword(Function),
    Equals,
    // operators
    Negation,
    Exponentiation,
    Multiplication,
    Division,
    Addition,
    Subtraction,
    // delimiters
    LeftParenthesis,
    RightParenthesis,
    LeftBracket,
    RightBracket,
    LeftBrace,
    RightBrace,
    // punctuation
    Exclamation,
    Comma,
    Question,
    Colon,
    Semicolon,
}

/// A token: its category and the exact substring that produced it.
#[derive(Debug, PartialEq)]
pub struct Token {
    pub token_type: TokenType,
    pub lexeme: String,
}

/// The mathematical image of a token.
pub struct TokenV {
    pub token_type: TokenType,
    pub lexeme: Seq<char>,
}

impl View for Token {
    type V = TokenV;

    open spec fn view(&self) -> TokenV {
        TokenV { token_type: self.token_type, lexeme: self.lexeme@ }
    }
}

/// The images of a token sequence.
pub open spec fn toks_view(ts: Seq<Token>) -> Seq<TokenV> {
    ts.map_values(|t: Token| t@)
}

proof fn lemma_toks_view_push(ts: Seq<Token>, t: Token)
    ensures
        toks_view(ts.push(t)) == toks_view(ts).push(t@),
{
    assert(toks_view(ts.push(t)) =~= toks_view(ts).push(t@));
}

impl Token {
    pub fn new(token_type: TokenType, lexeme: String) -> (t: Token)
        ensures
            t@ == (TokenV { token_type, lexeme: lexeme@ }),
    {
        Token { token_type, lexeme }
    }
}

// ------------------------------------------------------------------
// Classification of one word.
// ------------------------------------------------------------------

/// The category of a single-character operator, bracket or punctuation mark.
pub open spec fn spec_symbol_type(c: char) -> Option<TokenType> {
    if c == '^' {
        Some(TokenType::Exponentiation)
    } else if c == '*' {
        Some(TokenType::Multiplication)
    } else if c == '/' {
        Some(TokenType::Division)
    } else if c == '+' {
        Some(TokenType::Addition)
    } else if c == '-' {
        Some(TokenType::Subtraction)
    } else if c == '(' {
        Some(TokenType::LeftParenthesis)
    } else if c == ')' {
        Some(TokenType::RightParenthesis)
    } else if c == '{' {
        Some(TokenType::LeftBrace)
    } else if c == '}' {
        Some(TokenType::RightBrace)
    } else if c == '[' {
        Some(TokenType::LeftBracket)
    } else if c == ']' {
        Some(TokenType::RightBracket)
    } else if c == '!' {
        Some(TokenType::Exclamation)
    } else if c == ',' {
        Some(TokenType::Comma)
    } else if c == '?' {
        Some(TokenType::Question)
    } else if c == ':' {
        Some(TokenType::Colon)
    } else if c == ';' {
        Some(TokenType::Semicolon)
    } else {
        None
    }
}

/// Index of the first exponent marker at or after `i`, or the length.
pub open spec fn find_e(w: Seq<char>, i: int) -> int
    decreases w.len() - i when 0 <= i <= w.len()
{
    if i >= w.len() {
        i
    } else if w[i] == 'e' || w[i] == 'E' {
        i
    } else {
        find_e(w, i + 1)
    }
}

/// `w[i..end]` consists of digits and at most one decimal point (beyond those
/// already seen), with at least one digit in total.
pub open spec fn mantissa_ok(w: Seq<char>, i: int, end: int, dot: bool, dig: bool) -> bool
    decreases end - i when i <= end
{
    if i >= end {
        dig
    } else if is_digit_char(w[i]) {
        mantissa_ok(w, i + 1, end, dot, true)
    } else if w[i] == '.' && !dot {
        mantissa_ok(w, i + 1, end, true, dig)
    } else {
        false
    }
}

/// `w[i..end]` consists of digits only.
pub open spec fn digits_from(w: Seq<char>, i: int, end: int) -> bool
    decreases end - i when i <= end
{
    if i >= end {
        true
    } else {
        is_digit_char(w[i]) && digits_from(w, i + 1, end)
    }
}

/// A valid exponent tail: an optional sign followed by at least one digit.
pub open spec fn exp_ok(w: Seq<char>, i: int, end: int) -> bool {
    let j = if i < end && (w[i] == '+' || w[i] == '-') {
        i + 1
    } else {
        i
    };
    j < end && digits_from(w, j, end)
}

/// `w[i..]` is a decimal literal: a mantissa, optionally followed by an
/// exponent marker and a signed digit run.
pub open spec fn spec_is_decimal(w: Seq<char>, i: int) -> bool {
    let e = find_e(w, i);
    mantissa_ok(w, i, e, false, false) && (e == w.len() || exp_ok(w, e + 1, w.len() as int))
}

/// `w` is accepted by the standard floating-point literal grammar: an
/// optional sign, then a case-insensitive infinity or not-a-number word or a
/// decimal literal with an optional exponent.
pub open spec fn spec_is_float_literal(w: Seq<char>) -> bool {
    let i = if w.len() > 0 && (w[0] == '+' || w[0] == '-') {
        1int
    } else {
        0int
    };
    let body = w.subrange(i, w.len() as int);
    ||| ascii_lower(body) == "inf"@
    ||| ascii_lower(body) == "infinity"@
    ||| ascii_lower(body) == "nan"@
    ||| spec_is_decimal(w, i)
}

/// `w` is shaped like an identifier: an underscore or identifier-start code
/// point, followed by identifier-continuation code points.
pub open spec fn spec_is_identifier(w: Seq<char>) -> bool {
    &&& w.len() > 0
    &&& (w[0] == '_' || xid_start(w[0]))
    &&& (forall|k: int| 1 <= k < w.len() ==> xid_continue(#[trigger] w[k]))
}

/// Classification of one flushed word: fixed symbols first, then numeric
/// literals, then function keywords, then identifiers. Keyword matching is
/// case-normalized; the category alone is decided here, and the token built
/// from the word keeps the exact substring as its lexeme unless it names a
/// constant (see `folded_token`). `None` means the word is rejected as an
/// invalid identifier.
pub open spec fn spec_get_token_type(w: Seq<char>) -> Option<TokenType> {
    if w.len() == 1 && spec_symbol_type(w[0]) is Some {
        spec_symbol_type(w[0])
    } else if spec_is_float_literal(w) {
        Some(TokenType::Number)
    } else if ascii_lower(w) == "sin"@ {
        Some(TokenType::Keyword(Function::Sin))
    } else if ascii_lower(w) == "cos"@ {
        Some(TokenType::Keyword(Function::Cos))
    } else if ascii_lower(w) == "tan"@ {
        Some(TokenType::Keyword(Function::Tan))
    } else if spec_is_identifier(w) {
        Some(TokenType::Identifier)
    } else {
        None
    }
}

fn find_e_exec(s: &str, from: usize) -> (r: usize)
    requires
        from <= s@.len(),
    ensures
        r as int == find_e(s@, from as int),
        from <= r <= s@.len(),
    decreases s@.len() - from,
{
    let n = s.unicode_len();
    if from >= n {
        return from;
    }
    let c = s.get_char(from);
    if c == 'e' || c == 'E' {
        from
    } else {
        find_e_exec(s, from + 1)
    }
}

fn mantissa_scan(s: &str, i: usize, end: usize, dot: bool, dig: bool) -> (b: bool)
    requires
        i <= end <= s@.len(),
    ensures
        b == mantissa_ok(s@, i as int, end as int, dot, dig),
    decreases end - i,
{
    if i >= end {
        return dig;
    }
    let c = s.get_char(i);
    if digit_char(c) {
        mantissa_scan(s, i + 1, end, dot, true)
    } else if c == '.' && !dot {
        mantissa_scan(s, i + 1, end, true, dig)
    } else {
        false
    }
}

fn digits_scan(s: &str, i: usize, end: usize) -> (b: bool)
    requires
        i <= end <= s@.len(),
    ensures
        b == digits_from(s@, i as int, end as int),
    decreases end - i,
{
    if i >= end {
        return true;
    }
    let c = s.get_char(i);
    if digit_char(c) {
        digits_scan(s, i + 1, end)
    } else {
        false
    }
}

/// Whether the word is accepted by the floating-point literal grammar.
pub fn is_float_literal(s: &str) -> (b: bool)
    ensures
        b == spec_is_float_literal(s@),
{
    let n = s.unicode_len();
    let start: usize = if n > 0 {
        let c0 = s.get_char(0);
        if c0 == '+' || c0 == '-' {
            1
        } else {
            0
        }
    } else {
        0
    };
    if matches_word(s, start, "inf") {
        return true;
    }
    if matches_word(s, start, "infinity") {
        return true;
    }
    if matches_word(s, start, "nan") {
        return true;
    }
    let e = find_e_exec(s, start);
    if !mantissa_scan(s, start, e, false, false) {
        return false;
    }
    if e == n {
        return true;
    }
    let mut j = e + 1;
    if j < n {
        let c = s.get_char(j);
        if c == '+' || c == '-' {
            j = j + 1;
        }
    }
    if j >= n {
        return false;
    }
    digits_scan(s, j, n)
}

fn xid_tail(s: &str, i: usize) -> (b: bool)
    requires
        i <= s@.len(),
    ensures
        b == (forall|k: int| i <= k < s@.len() ==> xid_continue(#[trigger] s@[k])),
    decreases s@.len() - i,
{
    let n = s.unicode_len();
    if i >= n {
        return true;
    }
    let c = s.get_char(i);
    if unicode_ident::is_xid_continue(c) {
        let rest = xid_tail(s, i + 1);
        proof {
            if rest {
                assert forall|k: int| i <= k < s@.len() implies xid_continue(#[trigger] s@[k]) by {
                    if k == i {
                    } else {
                        assert(i + 1 <= k < s@.len());
                    }
                }
            }
        }
        rest
    } else {
        proof {
            assert(i <= i < s@.len() && !xid_continue(s@[i as int]));
        }
        false
    }
}

/// Classifies one word, or rejects it as an invalid identifier.
pub fn get_token_type(token: &str) -> (r: Result<TokenType, LexerError>)
    ensures
        match spec_get_token_type(token@) {
            Some(tt) => r == Ok::<TokenType, LexerError>(tt),
            None => r matches Err(LexerError::InvalidIdentifier(t)) && t@ == token@,
        },
{
    proof {
        assert(token@.subrange(0, token@.len() as int) =~= token@);
    }
    let n = token.unicode_len();
    if n == 1 {
        let c = token.get_char(0);
        if c == '^' {
            return Ok(TokenType::Exponentiation);
        } else if c == '*' {
            return Ok(TokenType::Multiplication);
        } else if c == '/' {
            return Ok(TokenType::Division);
        } else if c == '+' {
            return Ok(TokenType::Addition);
        } else if c == '-' {
            return Ok(TokenType::Subtraction);
        } else if c == '(' {
            return Ok(TokenType::LeftParenthesis);
        } else if c == ')' {
            return Ok(TokenType::RightParenthesis);
        } else if c == '{' {
            return Ok(TokenType::LeftBrace);
        } else if c == '}' {
            return Ok(TokenType::RightBrace);
        } else if c == '[' {
            return Ok(TokenType::LeftBracket);
        } else if c == ']' {
            return Ok(TokenType::RightBracket);
        } else if c == '!' {
            return Ok(TokenType::Exclamation);
        } else if c == ',' {
            return Ok(TokenType::Comma);
        } else if c == '?' {
            return Ok(TokenType::Question);
        } else if c == ':' {
            return Ok(TokenType::Colon);
        } else if c == ';' {
            return Ok(TokenType::Semicolon);
        }
    }
    if is_float_literal(token) {
        return Ok(TokenType::Number);
    }
    if matches_word(token, 0, "sin") {
        return Ok(TokenType::Keyword(Function::Sin));
    }
    if matches_word(token, 0, "cos") {
        return Ok(TokenType::Keyword(Function::Cos));
    }
    if matches_word(token, 0, "tan") {
        return Ok(TokenType::Keyword(Function::Tan));
    }
    if n > 0 {
        let c0 = token.get_char(0);
        if c0 == '_' || unicode_ident::is_xid_start(c0) {
            if xid_tail(token, 1) {
                return Ok(TokenType::Identifier);
            }
        }
    }
    Err(LexerError::InvalidIdentifier(token.to_owned()))
}

} // verus!

// ------------------------------------------------------------------
// Flushing a word into the token sequence.
// ------------------------------------------------------------------

verus! {

/// Categories after which a minus is subtraction and an implicit
/// multiplication is inserted before an opening bracket or a word.
pub open spec fn value_like(tt: TokenType) -> bool {
    ||| tt == TokenType::Number
    ||| tt == TokenType::Identifier
    ||| tt == TokenType::RightParenthesis
    ||| tt == TokenType::RightBracket
    ||| tt == TokenType::RightBrace
}

pub fn value_like_exec(tt: TokenType) -> (b: bool)
    ensures
        b == value_like(tt),
{
    matches!(
        tt,
        TokenType::Number
        | TokenType::Identifier
        | TokenType::RightParenthesis
        | TokenType::RightBracket
        | TokenType::RightBrace
    )
}

/// The inserted implicit multiplication token.
pub open spec fn star_token() -> TokenV {
    TokenV { token_type: TokenType::Multiplication, lexeme: "*"@ }
}

/// Length of the maximal leading run of digits and at most one decimal point.
pub open spec fn num_prefix_len(w: Seq<char>, i: int, dot: bool) -> int
    decreases w.len() - i when 0 <= i <= w.len()
{
    if i >= w.len() {
        i
    } else if is_digit_char(w[i]) {
        num_prefix_len(w, i + 1, dot)
    } else if w[i] == '.' && !dot {
        num_prefix_len(w, i + 1, true)
    } else {
        i
    }
}

/// A classified word token. Only a reserved constant name has its lexeme
/// folded to lowercase (so `Pi` and `pi` tokenize identically); every other
/// word, a case-insensitively matched function keyword included, keeps the
/// exact substring as its lexeme.
pub open spec fn folded_token(tt: TokenType, w: Seq<char>) -> TokenV {
    if is_const_name(ascii_lower(w)) {
        TokenV { token_type: tt, lexeme: ascii_lower(w) }
    } else {
        TokenV { token_type: tt, lexeme: w }
    }
}

/// Whether a word token is preceded by a value-like token with a nonempty
/// lexeme, so that an implicit multiplication is inserted before it.
pub open spec fn prev_allows_mult(ts: Seq<TokenV>) -> bool {
    ts.len() > 0 && ts.last().lexeme.len() > 0 && value_like(ts.last().token_type)
}

/// What flushing one word appends: a leading numeric prefix is split off as a
/// Number, the remainder is classified, and implicit multiplications are
/// inserted; an unclassifiable remainder is the offending text.
pub open spec fn spec_push_word(ts: Seq<TokenV>, w: Seq<char>) -> Result<Seq<TokenV>, Seq<char>> {
    let k = num_prefix_len(w, 0, false);
    let num = w.subrange(0, k);
    let rest = w.subrange(k, w.len() as int);
    if rest.len() > 0 {
        match spec_get_token_type(rest) {
            None => Err(rest),
            Some(tt) => {
                let ts1 = if (tt == TokenType::Identifier || tt is Keyword) && prev_allows_mult(
                    ts,
                ) {
                    ts.push(star_token())
                } else {
                    ts
                };
                if k > 0 {
                    Ok(
                        ts1.push(TokenV { token_type: TokenType::Number, lexeme: num }).push(
                            star_token(),
                        ).push(folded_token(tt, rest)),
                    )
                } else {
                    Ok(ts1.push(folded_token(tt, rest)))
                }
            },
        }
    } else if k > 0 {
        Ok(ts.push(TokenV { token_type: TokenType::Number, lexeme: num }))
    } else {
        match spec_get_token_type(w) {
            None => Err(w),
            Some(tt) => Ok(ts.push(folded_token(tt, w))),
        }
    }
}

fn num_prefix_scan(w: &str, i: usize, dot: bool) -> (r: usize)
    requires
        i <= w@.len(),
    ensures
        r as int == num_prefix_len(w@, i as int, dot),
        i <= r <= w@.len(),
    decreases w@.len() - i,
{
    let n = w.unicode_len();
    if i >= n {
        return i;
    }
    let c = w.get_char(i);
    if digit_char(c) {
        num_prefix_scan(w, i + 1, dot)
    } else if c == '.' && !dot {
        num_prefix_scan(w, i + 1, true)
    } else {
        i
    }
}

fn make_folded(tt: TokenType, w: &str) -> (t: Token)
    ensures
        t@ == folded_token(tt, w@),
{
    let lw = to_ascii_lower(w);
    if is_const_str(lw.as_str()) {
        Token::new(tt, lw)
    } else {
        Token::new(tt, w.to_owned())
    }
}

/// Flushes one pending word into the token sequence; `None` on success, the
/// lexical error otherwise (in which case the tokens are unchanged).
pub fn push_word(tokens: &mut Vec<Token>, word: &str) -> (r: Option<LexerError>)
    ensures
        match spec_push_word(toks_view(old(tokens)@), word@) {
            Ok(ts) => r is None && toks_view(final(tokens)@) == ts,
            Err(t) => {
                &&& r matches Some(LexerError::InvalidIdentifier(x)) && x@ == t
                &&& final(tokens)@ == old(tokens)@
            },
        },
{
    let ghost ts0 = toks_view(tokens@);
    let n = word.unicode_len();
    let k = num_prefix_scan(word, 0, false);
    if k < n {
        let rest = word.substring_char(k, n);
        let tt = match get_token_type(rest) {
            Ok(t) => t,
            Err(e) => {
                return Some(e);
            },
        };
        let is_wordy = matches!(tt, TokenType::Identifier | TokenType::Keyword(_));
        if is_wordy && tokens.len() > 0 {
            let last_idx = tokens.len() - 1;
            let prev_like = value_like_exec(tokens[last_idx].token_type);
            let prev_nonempty = !tokens[last_idx].lexeme.as_str().is_empty();
            if prev_nonempty && prev_like {
                tokens.push(Token::new(TokenType::Multiplication, "*".to_owned()));
                proof {
                    lemma_toks_view_push(old(tokens)@, Token { token_type: TokenType::Multiplication, lexeme: tokens@.last().lexeme });
                }
            }
        }
        proof {
            assert(toks_view(tokens@) =~= if (tt == TokenType::Identifier || tt is Keyword)
                && prev_allows_mult(ts0) {
                ts0.push(star_token())
            } else {
                ts0
            });
        }
        let ghost ts1 = toks_view(tokens@);
        if k > 0 {
            let num = word.substring_char(0, k);
            tokens.push(Token::new(TokenType::Number, num.to_owned()));
            tokens.push(Token::new(TokenType::Multiplication, "*".to_owned()));
            tokens.push(make_folded(tt, rest));
            proof {
                assert(toks_view(tokens@) =~= ts1.push(
                    TokenV { token_type: TokenType::Number, lexeme: word@.subrange(0, k as int) },
                ).push(star_token()).push(folded_token(tt, word@.subrange(k as int, word@.len() as int))));
            }
            None
        } else {
            tokens.push(make_folded(tt, rest));
            proof {
                assert(toks_view(tokens@) =~= ts1.push(
                    folded_token(tt, word@.subrange(k as int, word@.len() as int)),
                ));
            }
            None
        }
    } else {
        if k > 0 {
            tokens.push(Token::new(TokenType::Number, word.to_owned()));
            proof {
                assert(word@.subrange(0, k as int) =~= word@);
                assert(toks_view(tokens@) =~= ts0.push(
                    TokenV { token_type: TokenType::Number, lexeme: word@ },
                ));
            }
            None
        } else {
            match get_token_type(word) {
                Ok(tt) => {
                    tokens.push(make_folded(tt, word));
                    proof {
                        assert(toks_view(tokens@) =~= ts0.push(folded_token(tt, word@)));
                    }
                    None
                },
                Err(e) => Some(e),
            }
        }
    }
}

} // verus!

// ------------------------------------------------------------------
// The tokenizer itself.
// ------------------------------------------------------------------

verus! {

/// Whitespace flushes the pending word and produces no token.
pub open spec fn is_ws_char(c: char) -> bool {
    c == ' ' || c == '\n' || c == '\t'
}

/// The single characters that end a pending word and stand for a token.
pub open spec fn is_break_char(c: char) -> bool {
    c == '=' || spec_symbol_type(c) is Some
}

/// The category of a break character ('=' aside).
pub open spec fn spec_symbol_unwrap(c: char) -> TokenType {
    match spec_symbol_type(c) {
        Some(tt) => tt,
        None => TokenType::Equals,
    }
}

/// Flushing the pending word, when there is one.
pub open spec fn spec_flush(ts: Seq<TokenV>, w: Seq<char>) -> Result<Seq<TokenV>, Seq<char>> {
    if w.len() > 0 {
        spec_push_word(ts, w)
    } else {
        Ok(ts)
    }
}

/// The tokens appended for one break character, after the pending word was
/// flushed: a minus is subtraction exactly after a value-like token, and an
/// opening bracket after a value-like token gets an implicit multiplication
/// inserted before it.
pub open spec fn spec_step_tokens(ts: Seq<TokenV>, c: char) -> Seq<TokenV> {
    if c == '=' {
        ts.push(TokenV { token_type: TokenType::Equals, lexeme: seq![c] })
    } else if c == '-' {
        if ts.len() > 0 && value_like(ts.last().token_type) {
            ts.push(TokenV { token_type: TokenType::Subtraction, lexeme: seq![c] })
        } else {
            ts.push(TokenV { token_type: TokenType::Negation, lexeme: seq![c] })
        }
    } else if c == '(' || c == '{' || c == '[' {
        let ts1 = if ts.len() > 0 && value_like(ts.last().token_type) {
            ts.push(star_token())
        } else {
            ts
        };
        ts1.push(TokenV { token_type: spec_symbol_unwrap(c), lexeme: seq![c] })
    } else {
        ts.push(TokenV { token_type: spec_symbol_unwrap(c), lexeme: seq![c] })
    }
}

/// One pass over the text from position `i`, with the tokens and the pending
/// word accumulated so far.
pub open spec fn spec_tokenise_from(
    s: Seq<char>,
    i: int,
    ts: Seq<TokenV>,
    w: Seq<char>,
) -> Result<Seq<TokenV>, Seq<char>>
    decreases s.len() - i when 0 <= i <= s.len()
{
    if i >= s.len() {
        spec_flush(ts, w)
    } else {
        let c = s[i];
        if is_ws_char(c) {
            match spec_flush(ts, w) {
                Err(t) => Err(t),
                Ok(ts2) => spec_tokenise_from(s, i + 1, ts2, Seq::empty()),
            }
        } else if is_break_char(c) {
            match spec_flush(ts, w) {
                Err(t) => Err(t),
                Ok(ts2) => spec_tokenise_from(s, i + 1, spec_step_tokens(ts2, c), Seq::empty()),
            }
        } else {
            spec_tokenise_from(s, i + 1, ts, w.push(c))
        }
    }
}

/// The tokenizer: the ordered token sequence of the text, or the offending
/// word. A pure function of the text alone.
pub open spec fn spec_tokenise(s: Seq<char>) -> Result<Seq<TokenV>, Seq<char>> {
    spec_tokenise_from(s, 0, Seq::empty(), Seq::empty())
}

/// Law: tokenization keeps no hidden state. What `tokenise` returns is
/// pinned to `spec_tokenise` of the text alone, so tokenizing the same text
/// twice yields identical token sequences.
pub proof fn lemma_tokenise_deterministic(
    first: Result<Seq<TokenV>, Seq<char>>,
    second: Result<Seq<TokenV>, Seq<char>>,
    s: Seq<char>,
)
    requires
        first == spec_tokenise(s),
        second == spec_tokenise(s),
    ensures
        first == second,
{
}

fn flush_word(tokens: &mut Vec<Token>, word: &str) -> (r: Option<LexerError>)
    ensures
        match spec_flush(toks_view(old(tokens)@), word@) {
            Ok(ts) => r is None && toks_view(final(tokens)@) == ts,
            Err(t) => {
                &&& r matches Some(LexerError::InvalidIdentifier(x)) && x@ == t
                &&& final(tokens)@ == old(tokens)@
            },
        },
{
    if word.is_empty() {
        None
    } else {
        push_word(tokens, word)
    }
}

/// Turns the text into tokens, or reports the first unclassifiable word.
pub fn tokenise(string: String) -> (r: Result<Vec<Token>, LexerError>)
    ensures
        match spec_tokenise(string@) {
            Ok(ts) => r matches Ok(v) && toks_view(v@) == ts,
            Err(t) => r matches Err(LexerError::InvalidIdentifier(x)) && x@ == t,
        },
{
    let s = string.as_str();
    let n = s.unicode_len();
    let mut tokens: Vec<Token> = Vec::new();
    let mut word = String::new();
    let mut i: usize = 0;
    proof {
        assert(toks_view(tokens@) =~= Seq::<TokenV>::empty());
    }
    while i < n
        invariant
            i <= n,
            n == string@.len(),
            s@ == string@,
            spec_tokenise_from(string@, i as int, toks_view(tokens@), word@) == spec_tokenise(
                string@,
            ),
        decreases n - i,
    {
        let ghost ts0 = toks_view(tokens@);
        let ghost w0 = word@;
        let c = s.get_char(i);
        if c == ' ' || c == '\n' || c == '\t' {
            match flush_word(&mut tokens, word.as_str()) {
                Some(e) => {
                    return Err(e);
                },
                None => {},
            }
            word = String::new();
        } else if c == '=' {
            match flush_word(&mut tokens, word.as_str()) {
                Some(e) => {
                    return Err(e);
                },
                None => {},
            }
            let ghost ts2 = toks_view(tokens@);
            tokens.push(Token::new(TokenType::Equals, char_to_string(c)));
            proof {
                assert(toks_view(tokens@) =~= spec_step_tokens(ts2, c));
            }
            word = String::new();
        } else if c == '^' || c == '*' || c == '/' || c == '+' {
            match flush_word(&mut tokens, word.as_str()) {
                Some(e) => {
                    return Err(e);
                },
                None => {},
            }
            let ghost ts2 = toks_view(tokens@);
            let tt = if c == '^' {
                TokenType::Exponentiation
            } else if c == '*' {
                TokenType::Multiplication
            } else if c == '/' {
                TokenType::Division
            } else {
                TokenType::Addition
            };
            tokens.push(Token::new(tt, char_to_string(c)));
            proof {
                assert(toks_view(tokens@) =~= spec_step_tokens(ts2, c));
            }
            word = String::new();
        } else if c == '-' {
            match flush_word(&mut tokens, word.as_str()) {
                Some(e) => {
                    return Err(e);
                },
                None => {},
            }
            let ghost ts2 = toks_view(tokens@);
            let subtraction = if tokens.len() > 0 {
                value_like_exec(tokens[tokens.len() - 1].token_type)
            } else {
                false
            };
            if subtraction {
                tokens.push(Token::new(TokenType::Subtraction, char_to_string(c)));
            } else {
                tokens.push(Token::new(TokenType::Negation, char_to_string(c)));
            }
            proof {
                assert(toks_view(tokens@) =~= spec_step_tokens(ts2, c));
            }
            word = String::new();
        } else if c == '(' || c == '{' || c == '[' {
            match flush_word(&mut tokens, word.as_str()) {
                Some(e) => {
                    return Err(e);
                },
                None => {},
            }
            let ghost ts2 = toks_view(tokens@);
            let star = if tokens.len() > 0 {
                value_like_exec(tokens[tokens.len() - 1].token_type)
            } else {
                false
            };
            if star {
                tokens.push(Token::new(TokenType::Multiplication, "*".to_owned()));
            }
            let tt = if c == '(' {
                TokenType::LeftParenthesis
            } else if c == '{' {
                TokenType::LeftBrace
            } else {
                TokenType::LeftBracket
            };
            tokens.push(Token::new(tt, char_to_string(c)));
            proof {
                assert(toks_view(tokens@) =~= spec_step_tokens(ts2, c));
            }
            word = String::new();
        } else if c == ')' || c == '}' || c == ']' || c == '!' || c == ',' || c == '?' || c == ':'
            || c == ';' {
            match flush_word(&mut tokens, word.as_str()) {
                Some(e) => {
                    return Err(e);
                },
                None => {},
            }
            let ghost ts2 = toks_view(tokens@);
            let tt = if c == ')' {
                TokenType::RightParenthesis
            } else if c == '}' {
                TokenType::RightBrace
            } else if c == ']' {
                TokenType::RightBracket
            } else if c == '!' {
                TokenType::Exclamation
            } else if c == ',' {
                TokenType::Comma
            } else if c == '?' {
                TokenType::Question
            } else if c == ':' {
                TokenType::Colon
            } else {
                TokenType::Semicolon
            };
            tokens.push(Token::new(tt, char_to_string(c)));
            proof {
                assert(toks_view(tokens@) =~= spec_step_tokens(ts2, c));
            }
            word = String::new();
        } else {
            word.push(c);
        }
        proof {
            assert(spec_tokenise_from(string@, i as int, ts0, w0) == spec_tokenise_from(
                string@,
                i + 1,
                toks_view(tokens@),
                word@,
            ));
        }
        i = i + 1;
    }
    match flush_word(&mut tokens, word.as_str()) {
        Some(e) => Err(e),
        None => Ok(tokens),
    }
}

} // verus!
