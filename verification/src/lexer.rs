//! The lexer: a stateful scanner converting a source string into a lazy
//! sequence of tokens, one per call, with single-character lookahead.
//!
//! The scanner's behaviour is specified by `scan_token`: one scanning step
//! from a given position, and `tokens_from`: the whole token sequence.

use vstd::prelude::*;
use vstd::string::StrSliceExecFns;
use crate::token::{Token, TokenModel, lookup_ident, lookup_ident_spec, keyword_token};

verus! {

/// True of the four whitespace characters the scanner skips.
pub open spec fn is_whitespace_char(c: char) -> bool {
    c == ' ' || c == '\t' || c == '\n' || c == '\r'
}

/// True of letters and the underscore, the characters an identifier is
/// made of.
pub open spec fn is_letter_char(c: char) -> bool {
    ('a' <= c && c <= 'z') || ('A' <= c && c <= 'Z') || c == '_'
}

/// True of decimal digits.
pub open spec fn is_digit_char(c: char) -> bool {
    '0' <= c && c <= '9'
}

/// True of the fourteen single-character operator and punctuation symbols.
pub open spec fn is_symbol_char(c: char) -> bool {
    ||| c == '='
    ||| c == '+'
    ||| c == '-'
    ||| c == '!'
    ||| c == '*'
    ||| c == '/'
    ||| c == '<'
    ||| c == '>'
    ||| c == ','
    ||| c == ';'
    ||| c == '('
    ||| c == ')'
    ||| c == '{'
    ||| c == '}'
}

/// The token a single-character operator or punctuation symbol maps to.
pub open spec fn symbol_token(c: char) -> TokenModel {
    if c == '=' {
        TokenModel::Assign
    } else if c == '+' {
        TokenModel::Plus
    } else if c == '-' {
        TokenModel::Minus
    } else if c == '!' {
        TokenModel::Bang
    } else if c == '*' {
        TokenModel::Asterisk
    } else if c == '/' {
        TokenModel::Slash
    } else if c == '<' {
        TokenModel::Lt
    } else if c == '>' {
        TokenModel::Gt
    } else if c == ',' {
        TokenModel::Comma
    } else if c == ';' {
        TokenModel::Semicolon
    } else if c == '(' {
        TokenModel::Lparen
    } else if c == ')' {
        TokenModel::Rparen
    } else if c == '{' {
        TokenModel::Lbrace
    } else if c == '}' {
        TokenModel::Rbrace
    } else {
        TokenModel::Illegal(c)
    }
}

/// The first position at or after `p` that holds no whitespace character
/// (or the end of the input).
pub open spec fn skip_ws_from(s: Seq<char>, p: int) -> int
    decreases s.len() - p,
{
    if 0 <= p < s.len() && is_whitespace_char(s[p]) {
        skip_ws_from(s, p + 1)
    } else {
        p
    }
}

/// The position just past the maximal run of letters/underscores that
/// starts at `p`.
pub open spec fn letter_run_end(s: Seq<char>, p: int) -> int
    decreases s.len() - p,
{
    if 0 <= p < s.len() && is_letter_char(s[p]) {
        letter_run_end(s, p + 1)
    } else {
        p
    }
}

/// The position just past the maximal run of digits that starts at `p`.
pub open spec fn digit_run_end(s: Seq<char>, p: int) -> int
    decreases s.len() - p,
{
    if 0 <= p < s.len() && is_digit_char(s[p]) {
        digit_run_end(s, p + 1)
    } else {
        p
    }
}

/// One scanning step from position `p`: skip whitespace, then classify and
/// consume one token; yields the token and the position just past it. At
/// or past the end of the input (or at the NUL sentinel) the token is
/// `Eof` and the position does not advance further.
pub open spec fn scan_token(s: Seq<char>, p: int) -> (TokenModel, int) {
    let q = skip_ws_from(s, p);
    if !(0 <= q < s.len()) || s[q] == '\0' {
        (TokenModel::Eof, q)
    } else if is_symbol_char(s[q]) {
        (symbol_token(s[q]), q + 1)
    } else if is_letter_char(s[q]) {
        (lookup_ident_spec(s.subrange(q, letter_run_end(s, q))), letter_run_end(s, q))
    } else if is_digit_char(s[q]) {
        (TokenModel::Int(s.subrange(q, digit_run_end(s, q))), digit_run_end(s, q))
    } else {
        (TokenModel::Illegal(s[q]), q + 1)
    }
}

/// The whole token sequence scanned from position `p`, in source order, up
/// to but not including the terminal `Eof`.
pub open spec fn tokens_from(s: Seq<char>, p: int) -> Seq<TokenModel>
    decreases s.len() - p
        via tokens_from_decreases
{
    if !(0 <= p <= s.len()) {
        Seq::empty()
    } else if scan_token(s, p).0 == TokenModel::Eof {
        Seq::empty()
    } else {
        seq![scan_token(s, p).0] + tokens_from(s, scan_token(s, p).1)
    }
}

#[via_fn]
proof fn tokens_from_decreases(s: Seq<char>, p: int) {
    if 0 <= p <= s.len() {
        lemma_scan_token_bounds(s, p);
    }
}

/// Position bounds for whitespace skipping, and that it stops at the first
/// non-whitespace character.
pub proof fn lemma_skip_ws_bounds(s: Seq<char>, p: int)
    requires
        0 <= p <= s.len(),
    ensures
        p <= skip_ws_from(s, p) <= s.len(),
        skip_ws_from(s, p) < s.len() ==> !is_whitespace_char(s[skip_ws_from(s, p)]),
        forall|i: int| p <= i < skip_ws_from(s, p) ==> is_whitespace_char(#[trigger] s[i]),
    decreases s.len() - p,
{
    if p < s.len() && is_whitespace_char(s[p]) {
        lemma_skip_ws_bounds(s, p + 1);
    }
}

/// Position bounds for a letter run, and that the run is maximal.
pub proof fn lemma_letter_run_end_bounds(s: Seq<char>, p: int)
    requires
        0 <= p <= s.len(),
    ensures
        p <= letter_run_end(s, p) <= s.len(),
        letter_run_end(s, p) < s.len() ==> !is_letter_char(s[letter_run_end(s, p)]),
        forall|i: int| p <= i < letter_run_end(s, p) ==> is_letter_char(#[trigger] s[i]),
    decreases s.len() - p,
{
    if p < s.len() && is_letter_char(s[p]) {
        lemma_letter_run_end_bounds(s, p + 1);
    }
}

/// Position bounds for a digit run, and that the run is maximal.
pub proof fn lemma_digit_run_end_bounds(s: Seq<char>, p: int)
    requires
        0 <= p <= s.len(),
    ensures
        p <= digit_run_end(s, p) <= s.len(),
        digit_run_end(s, p) < s.len() ==> !is_digit_char(s[digit_run_end(s, p)]),
        forall|i: int| p <= i < digit_run_end(s, p) ==> is_digit_char(#[trigger] s[i]),
    decreases s.len() - p,
{
    if p < s.len() && is_digit_char(s[p]) {
        lemma_digit_run_end_bounds(s, p + 1);
    }
}

/// A scanning step never moves backwards, never moves past the end of the
/// input, and moves strictly forward whenever it yields anything but `Eof`.
pub proof fn lemma_scan_token_bounds(s: Seq<char>, p: int)
    requires
        0 <= p <= s.len(),
    ensures
        p <= scan_token(s, p).1 <= s.len(),
        scan_token(s, p).0 != TokenModel::Eof ==> scan_token(s, p).1 > p,
{
    lemma_skip_ws_bounds(s, p);
    let q = skip_ws_from(s, p);
    if 0 <= q < s.len() && s[q] != '\0' {
        if is_letter_char(s[q]) {
            lemma_letter_run_end_bounds(s, q + 1);
        } else if is_digit_char(s[q]) {
            lemma_digit_run_end_bounds(s, q + 1);
        }
    }
}

/// Law: once a scan yields `Eof`, every further scan from the resulting
/// position yields `Eof` again and the position stays put — `next_token`
/// keeps returning `Eof` forever once the input is exhausted.
pub proof fn lemma_eof_idempotent(s: Seq<char>, p: int)
    requires
        0 <= p <= s.len(),
        scan_token(s, p).0 == TokenModel::Eof,
    ensures
        scan_token(s, scan_token(s, p).1) == (TokenModel::Eof, scan_token(s, p).1),
{
    lemma_skip_ws_bounds(s, p);
}

proof fn lemma_symbols_tokenize_from(s: Seq<char>, p: int)
    requires
        0 <= p <= s.len(),
        forall|i: int| p <= i < s.len() ==> is_symbol_char(#[trigger] s[i]),
    ensures
        tokens_from(s, p).len() == s.len() - p,
        forall|i: int|
            0 <= i < s.len() - p ==> #[trigger] tokens_from(s, p)[i] == symbol_token(s[p + i]),
    decreases s.len() - p,
{
    if p < s.len() {
        assert(!is_whitespace_char(s[p]));
        assert(skip_ws_from(s, p) == p);
        assert(s[p] != '\0');
        lemma_symbols_tokenize_from(s, p + 1);
        assert(scan_token(s, p) == (symbol_token(s[p]), p + 1));
        assert forall|i: int| 0 <= i < s.len() - p implies #[trigger] tokens_from(s, p)[i]
            == symbol_token(s[p + i]) by {
            if i > 0 {
                assert(tokens_from(s, p)[i] == tokens_from(s, p + 1)[i - 1]);
            }
        }
    }
}

/// Law: a source string consisting solely of single-character operator and
/// punctuation symbols tokenizes to exactly one token per character, in
/// source order, after which the scan yields only `Eof`.
pub proof fn lemma_symbols_tokenize(s: Seq<char>)
    requires
        forall|i: int| 0 <= i < s.len() ==> is_symbol_char(#[trigger] s[i]),
    ensures
        tokens_from(s, 0).len() == s.len(),
        forall|i: int| 0 <= i < s.len() ==> #[trigger] tokens_from(s, 0)[i] == symbol_token(s[i]),
{
    lemma_symbols_tokenize_from(s, 0);
}

proof fn lemma_letter_run_end_eq(s: Seq<char>, p: int, e: int)
    requires
        0 <= p <= e <= s.len(),
        forall|i: int| p <= i < e ==> is_letter_char(#[trigger] s[i]),
        e < s.len() ==> !is_letter_char(s[e]),
    ensures
        letter_run_end(s, p) == e,
    decreases e - p,
{
    if p < e {
        lemma_letter_run_end_eq(s, p + 1, e);
    }
}

proof fn lemma_digit_run_end_eq(s: Seq<char>, p: int, e: int)
    requires
        0 <= p <= e <= s.len(),
        forall|i: int| p <= i < e ==> is_digit_char(#[trigger] s[i]),
        e < s.len() ==> !is_digit_char(s[e]),
    ensures
        digit_run_end(s, p) == e,
    decreases e - p,
{
    if p < e {
        lemma_digit_run_end_eq(s, p + 1, e);
    }
}

/// Law: a maximal run of letters/underscores starting at `p` and ending
/// just before `e` scans to a single token consuming exactly the run: the
/// keyword token when the run is one of the seven reserved spellings,
/// otherwise an `Ident` token carrying the run's text verbatim.
pub proof fn lemma_letter_run_scans(s: Seq<char>, p: int, e: int)
    requires
        0 <= p < e <= s.len(),
        forall|i: int| p <= i < e ==> is_letter_char(#[trigger] s[i]),
        e < s.len() ==> !is_letter_char(s[e]),
    ensures
        scan_token(s, p) == (lookup_ident_spec(s.subrange(p, e)), e),
        keyword_token(s.subrange(p, e)) is None ==> scan_token(s, p).0 == TokenModel::Ident(
            s.subrange(p, e),
        ),
{
    assert(is_letter_char(s[p]));
    assert(!is_whitespace_char(s[p]));
    assert(skip_ws_from(s, p) == p);
    assert(s[p] != '\0');
    assert(!is_symbol_char(s[p]));
    lemma_letter_run_end_eq(s, p, e);
}

/// Law: a maximal run of digits starting at `p` and ending just before `e`
/// scans to a single `Int` token carrying the run's text verbatim, with no
/// numeric interpretation, consuming exactly the run.
pub proof fn lemma_digit_run_scans(s: Seq<char>, p: int, e: int)
    requires
        0 <= p < e <= s.len(),
        forall|i: int| p <= i < e ==> is_digit_char(#[trigger] s[i]),
        e < s.len() ==> !is_digit_char(s[e]),
    ensures
        scan_token(s, p) == (TokenModel::Int(s.subrange(p, e)), e),
{
    assert(is_digit_char(s[p]));
    assert(!is_whitespace_char(s[p]));
    assert(skip_ws_from(s, p) == p);
    assert(s[p] != '\0');
    assert(!is_symbol_char(s[p]));
    assert(!is_letter_char(s[p]));
    lemma_digit_run_end_eq(s, p, e);
}

/// The stateful scanner: the source buffer, the current scan offset, the
/// next-read offset, and the character decoded at the scan offset (the NUL
/// sentinel at or past end-of-input).
pub struct Lexer {
    input: String,
    position: usize,
    read_position: usize,
    ch: char,
}

impl Lexer {
    /// The scanned source text.
    pub closed spec fn src(&self) -> Seq<char> {
        self.input@
    }

    /// The current scan offset, as a character index.
    pub closed spec fn pos(&self) -> int {
        self.position as int
    }

    /// Well-formed scanner state: the current character reflects the
    /// character at the scan offset (the sentinel at end-of-input), and
    /// the next-read offset is one past the scan offset until the end is
    /// reached.
    pub closed spec fn wf(&self) -> bool {
        &&& self.position <= self.input@.len()
        &&& if (self.position as int) < self.input@.len() {
            self.read_position == self.position + 1 && self.ch == self.input@[
                self.position as int
            ]
        } else {
            self.read_position == self.input@.len() && self.ch == '\0'
        }
    }

    /// A well-formed scanner's offset lies inside its input.
    pub proof fn lemma_pos_in_range(&self)
        requires
            self.wf(),
        ensures
            0 <= self.pos() <= self.src().len(),
    {
    }

    /// Constructs a scanner over `input`, positioned at its first
    /// character.
    pub fn new(input: &str) -> (l: Lexer)
        ensures
            l.wf(),
            l.src() == input@,
            l.pos() == 0,
    {
        let mut l = Lexer { input: input.to_owned(), position: 0, read_position: 0, ch: '\0' };
        l.read_char();
        l
    }

    /// Consumes one character: the scan offset moves to the next-read
    /// offset and the current character is decoded there, with the NUL
    /// sentinel at or past end-of-input.
    fn read_char(&mut self)
        requires
            old(self).read_position <= old(self).input@.len(),
        ensures
            final(self).input == old(self).input,
            final(self).wf(),
            if (old(self).read_position as int) < old(self).input@.len() {
                final(self).position == old(self).read_position
            } else {
                final(self).position == final(self).input@.len()
            },
    {
        let len = self.input.as_str().unicode_len();
        if self.read_position >= len {
            self.ch = '\0';
            self.position = len;
            self.read_position = len;
        } else {
            self.ch = self.input.as_str().get_char(self.read_position);
            self.position = self.read_position;
            self.read_position = self.read_position + 1;
        }
    }

    /// Skips the run of whitespace at the scan offset.
    fn skip_whitespace(&mut self)
        requires
            old(self).wf(),
        ensures
            final(self).wf(),
            final(self).src() == old(self).src(),
            final(self).pos() == skip_ws_from(old(self).src(), old(self).pos()),
    {
        while self.ch == ' ' || self.ch == '\t' || self.ch == '\n' || self.ch == '\r'
            invariant
                self.wf(),
                self.src() == old(self).src(),
                skip_ws_from(self.src(), self.pos()) == skip_ws_from(
                    old(self).src(),
                    old(self).pos(),
                ),
            decreases self.src().len() - self.pos(),
        {
            self.read_char();
        }
    }

    /// True of ASCII letters and the underscore.
    fn is_letter(ch: char) -> (r: bool)
        ensures
            r == is_letter_char(ch),
    {
        ('a' <= ch && ch <= 'z') || ('A' <= ch && ch <= 'Z') || ch == '_'
    }

    /// True of decimal digits.
    fn is_digit(ch: char) -> (r: bool)
        ensures
            r == is_digit_char(ch),
    {
        '0' <= ch && ch <= '9'
    }

    /// Reads the maximal run of letters/underscores at the scan offset and
    /// resolves it to a keyword token or an identifier token.
    fn read_identifier(&mut self) -> (t: Token)
        requires
            old(self).wf(),
            old(self).pos() < old(self).src().len(),
            is_letter_char(old(self).src()[old(self).pos()]),
        ensures
            final(self).wf(),
            final(self).src() == old(self).src(),
            final(self).pos() == letter_run_end(old(self).src(), old(self).pos()),
            t@ == lookup_ident_spec(old(self).src().subrange(old(self).pos(), final(self).pos())),
    {
        let position = self.position;
        while Self::is_letter(self.ch)
            invariant
                self.wf(),
                self.src() == old(self).src(),
                position == old(self).position,
                position as int <= self.pos(),
                letter_run_end(self.src(), self.pos()) == letter_run_end(
                    old(self).src(),
                    old(self).pos(),
                ),
            decreases self.src().len() - self.pos(),
        {
            self.read_char();
        }
        proof {
            lemma_letter_run_end_bounds(self.src(), position as int);
        }
        let token_string = self.input.as_str().substring_char(position, self.position).to_owned();
        lookup_ident(&token_string)
    }

    /// Reads the maximal run of digits at the scan offset into an integer
    /// literal token carrying the raw digit text.
    fn read_digit(&mut self) -> (t: Token)
        requires
            old(self).wf(),
            old(self).pos() < old(self).src().len(),
            is_digit_char(old(self).src()[old(self).pos()]),
        ensures
            final(self).wf(),
            final(self).src() == old(self).src(),
            final(self).pos() == digit_run_end(old(self).src(), old(self).pos()),
            t@ == TokenModel::Int(old(self).src().subrange(old(self).pos(), final(self).pos())),
    {
        let position = self.position;
        while Self::is_digit(self.ch)
            invariant
                self.wf(),
                self.src() == old(self).src(),
                position == old(self).position,
                position as int <= self.pos(),
                digit_run_end(self.src(), self.pos()) == digit_run_end(
                    old(self).src(),
                    old(self).pos(),
                ),
            decreases self.src().len() - self.pos(),
        {
            self.read_char();
        }
        proof {
            lemma_digit_run_end_bounds(self.src(), position as int);
        }
        let token_string = self.input.as_str().substring_char(position, self.position).to_owned();
        Token::Int(token_string)
    }

    /// Produces the next token: skips whitespace, classifies the current
    /// character, and advances exactly past the consumed token. Once the
    /// input is exhausted it returns `Eof` every time without advancing.
    pub fn next_token(&mut self) -> (t: Token)
        requires
            old(self).wf(),
        ensures
            final(self).wf(),
            final(self).src() == old(self).src(),
            t@ == scan_token(old(self).src(), old(self).pos()).0,
            final(self).pos() == scan_token(old(self).src(), old(self).pos()).1,
    {
        self.skip_whitespace();
        let tok: Token;
        match self.ch {
            '=' => {
                tok = Token::Assign;
            },
            ';' => {
                tok = Token::Semicolon;
            },
            '(' => {
                tok = Token::Lparen;
            },
            ')' => {
                tok = Token::Rparen;
            },
            ',' => {
                tok = Token::Comma;
            },
            '+' => {
                tok = Token::Plus;
            },
            '-' => {
                tok = Token::Minus;
            },
            '!' => {
                tok = Token::Bang;
            },
            '/' => {
                tok = Token::Slash;
            },
            '*' => {
                tok = Token::Asterisk;
            },
            '<' => {
                tok = Token::Lt;
            },
            '>' => {
                tok = Token::Gt;
            },
            '{' => {
                tok = Token::Lbrace;
            },
            '}' => {
                tok = Token::Rbrace;
            },
            '\0' => {
                return Token::Eof;
            },
            c => {
                if Self::is_letter(c) {
                    return self.read_identifier();
                } else if Self::is_digit(c) {
                    return self.read_digit();
                } else {
                    tok = Token::Illegal(c);
                }
            },
        }
        self.read_char();
        tok
    }
}

} // verus!
