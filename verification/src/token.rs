//! The token model: the closed set of lexical categories, their display
//! forms, and keyword resolution for identifier-shaped text.

use vstd::prelude::*;
use vstd::pervasive::unreached;
use vstd::string::StrSliceExecFns;

verus! {

/// Mathematical model of a token. Identifier and integer-literal tokens
/// carry their text as a sequence of characters; all other categories are
/// fixed symbols or keywords.
pub enum TokenModel {
    Illegal(char),
    Eof,
    Ident(Seq<char>),
    Int(Seq<char>),
    Assign,
    Plus,
    Minus,
    Bang,
    Asterisk,
    Slash,
    Lt,
    Gt,
    Comma,
    Semicolon,
    Lparen,
    Rparen,
    Lbrace,
    Rbrace,
    Function,
    Let,
    True,
    False,
    If,
    Else,
    Return,
}

/// A lexical token. Immutable value type, compared structurally; identifier
/// and integer tokens compare by their carried text.
#[derive(Debug, Clone)]
pub enum Token {
    Illegal(char),
    Eof,
    Ident(String),
    Int(String),
    Assign,
    Plus,
    Minus,
    Bang,
    Asterisk,
    Slash,
    Lt,
    Gt,
    Comma,
    Semicolon,
    Lparen,
    Rparen,
    Lbrace,
    Rbrace,
    Function,
    Let,
    True,
    False,
    If,
    Else,
    Return,
}

impl View for Token {
    type V = TokenModel;

    open spec fn view(&self) -> TokenModel {
        match self {
            Token::Illegal(c) => TokenModel::Illegal(*c),
            Token::Eof => TokenModel::Eof,
            Token::Ident(s) => TokenModel::Ident(s@),
            Token::Int(s) => TokenModel::Int(s@),
            Token::Assign => TokenModel::Assign,
            Token::Plus => TokenModel::Plus,
            Token::Minus => TokenModel::Minus,
            Token::Bang => TokenModel::Bang,
            Token::Asterisk => TokenModel::Asterisk,
            Token::Slash => TokenModel::Slash,
            Token::Lt => TokenModel::Lt,
            Token::Gt => TokenModel::Gt,
            Token::Comma => TokenModel::Comma,
            Token::Semicolon => TokenModel::Semicolon,
            Token::Lparen => TokenModel::Lparen,
            Token::Rparen => TokenModel::Rparen,
            Token::Lbrace => TokenModel::Lbrace,
            Token::Rbrace => TokenModel::Rbrace,
            Token::Function => TokenModel::Function,
            Token::Let => TokenModel::Let,
            Token::True => TokenModel::True,
            Token::False => TokenModel::False,
            Token::If => TokenModel::If,
            Token::Else => TokenModel::Else,
            Token::Return => TokenModel::Return,
        }
    }
}

impl PartialEq for Token {
    fn eq(&self, other: &Token) -> bool {
        match (self, other) {
            (Token::Illegal(a), Token::Illegal(b)) => *a == *b,
            (Token::Eof, Token::Eof) => true,
            (Token::Ident(a), Token::Ident(b)) => *a == *b,
            (Token::Int(a), Token::Int(b)) => *a == *b,
            (Token::Assign, Token::Assign) => true,
            (Token::Plus, Token::Plus) => true,
            (Token::Minus, Token::Minus) => true,
            (Token::Bang, Token::Bang) => true,
            (Token::Asterisk, Token::Asterisk) => true,
            (Token::Slash, Token::Slash) => true,
            (Token::Lt, Token::Lt) => true,
            (Token::Gt, Token::Gt) => true,
            (Token::Comma, Token::Comma) => true,
            (Token::Semicolon, Token::Semicolon) => true,
            (Token::Lparen, Token::Lparen) => true,
            (Token::Rparen, Token::Rparen) => true,
            (Token::Lbrace, Token::Lbrace) => true,
            (Token::Rbrace, Token::Rbrace) => true,
            (Token::Function, Token::Function) => true,
            (Token::Let, Token::Let) => true,
            (Token::True, Token::True) => true,
            (Token::False, Token::False) => true,
            (Token::If, Token::If) => true,
            (Token::Else, Token::Else) => true,
            (Token::Return, Token::Return) => true,
            _ => false,
        }
    }
}

impl vstd::std_specs::cmp::PartialEqSpecImpl for Token {
    open spec fn obeys_eq_spec() -> bool {
        true
    }

    open spec fn eq_spec(&self, other: &Token) -> bool {
        self@ == other@
    }
}

/// The display form of a token: each punctuation or operator token is its
/// literal character, each keyword its canonical lower-case spelling, `Eof`
/// a fixed end marker, and `Ident`/`Int` their carried text. An `Illegal`
/// token has no display form; it must never reach a display context.
pub open spec fn token_display(t: TokenModel) -> Seq<char> {
    match t {
        TokenModel::Illegal(_) => Seq::<char>::empty(),
        TokenModel::Eof => "EOF"@,
        TokenModel::Ident(s) => s,
        TokenModel::Int(s) => s,
        TokenModel::Assign => "="@,
        TokenModel::Plus => "+"@,
        TokenModel::Minus => "-"@,
        TokenModel::Bang => "!"@,
        TokenModel::Asterisk => "*"@,
        TokenModel::Slash => "/"@,
        TokenModel::Lt => "<"@,
        TokenModel::Gt => ">"@,
        TokenModel::Comma => ","@,
        TokenModel::Semicolon => ";"@,
        TokenModel::Lparen => "("@,
        TokenModel::Rparen => ")"@,
        TokenModel::Lbrace => "{"@,
        TokenModel::Rbrace => "}"@,
        TokenModel::Function => "fn"@,
        TokenModel::Let => "let"@,
        TokenModel::True => "true"@,
        TokenModel::False => "false"@,
        TokenModel::If => "if"@,
        TokenModel::Else => "else"@,
        TokenModel::Return => "return"@,
    }
}

impl Token {
    /// True exactly of identifier tokens.
    pub fn is_ident(&self) -> (r: bool)
        ensures
            r == (self@ is Ident),
    {
        matches!(self, Token::Ident(_))
    }

    /// True exactly of integer-literal tokens.
    pub fn is_int(&self) -> (r: bool)
        ensures
            r == (self@ is Int),
    {
        matches!(self, Token::Int(_))
    }

    /// True exactly of illegal-character tokens.
    pub fn is_illegal(&self) -> (r: bool)
        ensures
            r == (self@ is Illegal),
    {
        matches!(self, Token::Illegal(_))
    }

    /// The display form of the token. Rendering an `Illegal` token is a
    /// usage error, so such a token is excluded by precondition.
    pub fn literal(&self) -> (r: String)
        requires
            !(self@ is Illegal),
        ensures
            r@ == token_display(self@),
    {
        match self {
            Token::Illegal(_) => unreached(),
            Token::Eof => "EOF".to_owned(),
            Token::Ident(s) => s.clone(),
            Token::Int(s) => s.clone(),
            Token::Assign => "=".to_owned(),
            Token::Plus => "+".to_owned(),
            Token::Minus => "-".to_owned(),
            Token::Bang => "!".to_owned(),
            Token::Asterisk => "*".to_owned(),
            Token::Slash => "/".to_owned(),
            Token::Lt => "<".to_owned(),
            Token::Gt => ">".to_owned(),
            Token::Comma => ",".to_owned(),
            Token::Semicolon => ";".to_owned(),
            Token::Lparen => "(".to_owned(),
            Token::Rparen => ")".to_owned(),
            Token::Lbrace => "{".to_owned(),
            Token::Rbrace => "}".to_owned(),
            Token::Function => "fn".to_owned(),
            Token::Let => "let".to_owned(),
            Token::True => "true".to_owned(),
            Token::False => "false".to_owned(),
            Token::If => "if".to_owned(),
            Token::Else => "else".to_owned(),
            Token::Return => "return".to_owned(),
        }
    }
}

/// The keyword token for one of the seven reserved spellings, or `None`
/// for any other text.
pub open spec fn keyword_token(s: Seq<char>) -> Option<TokenModel> {
    if s == "fn"@ {
        Some(TokenModel::Function)
    } else if s == "let"@ {
        Some(TokenModel::Let)
    } else if s == "true"@ {
        Some(TokenModel::True)
    } else if s == "false"@ {
        Some(TokenModel::False)
    } else if s == "if"@ {
        Some(TokenModel::If)
    } else if s == "else"@ {
        Some(TokenModel::Else)
    } else if s == "return"@ {
        Some(TokenModel::Return)
    } else {
        None
    }
}

/// What `lookup_ident` returns: the keyword token when the text is one of
/// the seven reserved spellings, otherwise an identifier token carrying
/// the text verbatim.
pub open spec fn lookup_ident_spec(s: Seq<char>) -> TokenModel {
    match keyword_token(s) {
        Some(t) => t,
        None => TokenModel::Ident(s),
    }
}

/// Character-by-character string equality.
fn str_eq(a: &str, b: &str) -> (r: bool)
    ensures
        r == (a@ == b@),
{
    let alen = a.unicode_len();
    if alen != b.unicode_len() {
        return false;
    }
    let mut i: usize = 0;
    while i < alen
        invariant
            i <= alen,
            alen == a@.len(),
            alen == b@.len(),
            forall|j: int| 0 <= j < i ==> a@[j] == b@[j],
        decreases alen - i,
    {
        if a.get_char(i) != b.get_char(i) {
            return false;
        }
        i = i + 1;
    }
    proof {
        assert(a@ =~= b@);
    }
    true
}

/// Maps identifier-shaped text to its keyword token if it exactly matches
/// one of the seven reserved words, otherwise to an identifier token
/// carrying the text verbatim.
pub fn lookup_ident(ident: &String) -> (t: Token)
    ensures
        t@ == lookup_ident_spec(ident@),
{
    let s = ident.as_str();
    if str_eq(s, "fn") {
        Token::Function
    } else if str_eq(s, "let") {
        Token::Let
    } else if str_eq(s, "true") {
        Token::True
    } else if str_eq(s, "false") {
        Token::False
    } else if str_eq(s, "if") {
        Token::If
    } else if str_eq(s, "else") {
        Token::Else
    } else if str_eq(s, "return") {
        Token::Return
    } else {
        Token::Ident(ident.clone())
    }
}

} // verus!
