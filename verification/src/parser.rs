//! The parser: consumes the lexer's token stream through a two-token
//! lookahead window, builds AST nodes by per-statement-kind recursive
//! descent, and accumulates human-readable diagnostics instead of aborting
//! on the first mismatch.
//!
//! The parser's behaviour is specified by a family of spec functions over
//! scan positions in the source: `spec_parse_let`, `spec_parse_return`,
//! `spec_parse_statement`, `spec_synchronize` and `spec_parse_program`
//! say, for each routine, which node it produces, where it leaves the
//! scan, and which diagnostics it appends.

use vstd::prelude::*;
use vstd::pervasive::unreached;
use vstd::string::StringExecFns;
use crate::ast::{
    Expression, Identifier, IdentifierModel, LetStatement, LetStatementModel, Program,
    ReturnStatement, ReturnStatementModel, Statement, StatementModel,
    placeholder_expression_model,
};
use crate::lexer::{Lexer, scan_token, lemma_scan_token_bounds};
use crate::token::{Token, TokenModel, token_display};

verus! {

/// The token scanned at position `b`.
pub open spec fn cur_of(s: Seq<char>, b: int) -> TokenModel {
    scan_token(s, b).0
}

/// The position just past the token scanned at `b`.
pub open spec fn adv(s: Seq<char>, b: int) -> int {
    scan_token(s, b).1
}

/// The lookahead comparison the statement grammar uses: fixed tokens must
/// match exactly; identifier and integer tokens match by kind alone,
/// ignoring their carried text.
pub open spec fn token_kind_eq(a: TokenModel, b: TokenModel) -> bool {
    a == b || (a is Ident && b is Ident) || (a is Int && b is Int)
}

/// The diagnostic recorded when the next token is not the expected one.
pub open spec fn diag_msg(expected: TokenModel, actual: TokenModel) -> Seq<char> {
    "expected next token to be "@ + token_display(expected) + ", got "@ + token_display(actual)
        + " instead"@
}

/// The first position at or after `b` whose token is the terminating
/// semicolon of an expression span, or `Eof` when none remains.
pub open spec fn semicolon_stop(s: Seq<char>, b: int) -> int
    decreases s.len() - b
        via semicolon_stop_decreases
{
    if !(0 <= b <= s.len()) {
        b
    } else if cur_of(s, b) == TokenModel::Semicolon || cur_of(s, b) == TokenModel::Eof {
        b
    } else {
        semicolon_stop(s, adv(s, b))
    }
}

#[via_fn]
proof fn semicolon_stop_decreases(s: Seq<char>, b: int) {
    if 0 <= b <= s.len() && !(cur_of(s, b) == TokenModel::Semicolon || cur_of(s, b)
        == TokenModel::Eof) {
        lemma_scan_token_bounds(s, b);
    }
}

/// Where the scan stands after skipping an expression span from `b`: just
/// past the terminating semicolon, or at `Eof` when none remains.
pub open spec fn after_expression_skip(s: Seq<char>, b: int) -> int {
    let e = semicolon_stop(s, b);
    if cur_of(s, e) == TokenModel::Semicolon {
        adv(s, e)
    } else {
        e
    }
}

/// Mirror of let-statement parsing from the position `b` of the `let`
/// token: the produced node if any, the position the routine leaves, the
/// diagnostics it appends, and whether a diagnostic would have to render
/// an illegal token (a usage error the exec routine excludes).
pub open spec fn spec_parse_let(s: Seq<char>, b: int) -> (
    Option<LetStatementModel>,
    int,
    Seq<Seq<char>>,
    bool,
) {
    let b1 = adv(s, b);
    let peek1 = cur_of(s, b1);
    if !(peek1 is Ident) {
        (
            None::<LetStatementModel>,
            b,
            seq![diag_msg(TokenModel::Ident(Seq::empty()), peek1)],
            peek1 is Illegal,
        )
    } else {
        let b2 = adv(s, b1);
        let peek2 = cur_of(s, b2);
        if peek2 != TokenModel::Assign {
            (None::<LetStatementModel>, b1, seq![diag_msg(TokenModel::Assign, peek2)], peek2
                is Illegal)
        } else {
            let name = peek1->Ident_0;
            (
                Some(
                    LetStatementModel {
                        token: TokenModel::Let,
                        name: IdentifierModel { token: TokenModel::Ident(name), value: name },
                        value: placeholder_expression_model(),
                    },
                ),
                after_expression_skip(s, b2),
                Seq::<Seq<char>>::empty(),
                false,
            )
        }
    }
}

/// Mirror of return-statement parsing from the position `b` of the
/// `return` token: the produced node and the position the routine leaves.
/// Return-statement parsing records no diagnostics.
pub open spec fn spec_parse_return(s: Seq<char>, b: int) -> (ReturnStatementModel, int) {
    (
        ReturnStatementModel {
            token: TokenModel::Return,
            return_value: placeholder_expression_model(),
        },
        after_expression_skip(s, b),
    )
}

/// Mirror of statement dispatch at position `b`: `let` and `return` start
/// statements; any other token yields no node and moves nothing.
pub open spec fn spec_parse_statement(s: Seq<char>, b: int) -> (
    Option<StatementModel>,
    int,
    Seq<Seq<char>>,
    bool,
) {
    if cur_of(s, b) == TokenModel::Let {
        let step = spec_parse_let(s, b);
        (
            match step.0 {
                Some(m) => Some(StatementModel::Let(m)),
                None => None,
            },
            step.1,
            step.2,
            step.3,
        )
    } else if cur_of(s, b) == TokenModel::Return {
        let step = spec_parse_return(s, b);
        (Some(StatementModel::Return(step.0)), step.1, Seq::<Seq<char>>::empty(), false)
    } else {
        (None::<StatementModel>, b, Seq::<Seq<char>>::empty(), false)
    }
}

/// True of the tokens at which error recovery stops skipping: the end of
/// the input, a statement boundary, or a statement-starting keyword.
pub open spec fn sync_stop(t: TokenModel) -> bool {
    ||| t == TokenModel::Eof
    ||| t == TokenModel::Semicolon
    ||| t == TokenModel::Let
    ||| t == TokenModel::Return
}

/// The first position at or after `b` whose token stops error recovery.
pub open spec fn sync_skip(s: Seq<char>, b: int) -> int
    decreases s.len() - b
        via sync_skip_decreases
{
    if !(0 <= b <= s.len()) {
        b
    } else if sync_stop(cur_of(s, b)) {
        b
    } else {
        sync_skip(s, adv(s, b))
    }
}

#[via_fn]
proof fn sync_skip_decreases(s: Seq<char>, b: int) {
    if 0 <= b <= s.len() && !sync_stop(cur_of(s, b)) {
        lemma_scan_token_bounds(s, b);
    }
}

/// Where parsing resumes after a statement could not be parsed: the
/// offending token is skipped, then everything up to the next statement
/// boundary or statement-starting keyword, and a boundary semicolon is
/// itself consumed.
pub open spec fn spec_synchronize(s: Seq<char>, b: int) -> int {
    let r = sync_skip(s, adv(s, b));
    if cur_of(s, r) == TokenModel::Semicolon {
        adv(s, r)
    } else {
        r
    }
}

/// Mirror of the top-level parse loop from position `b`: the statements
/// produced in order, the diagnostics accumulated in order, and whether a
/// diagnostic would have to render an illegal token.
pub open spec fn spec_parse_program(s: Seq<char>, b: int) -> (
    Seq<StatementModel>,
    Seq<Seq<char>>,
    bool,
)
    decreases s.len() - b
        via spec_parse_program_decreases
{
    if !(0 <= b <= s.len()) || cur_of(s, b) == TokenModel::Eof {
        (Seq::<StatementModel>::empty(), Seq::<Seq<char>>::empty(), false)
    } else {
        let step = spec_parse_statement(s, b);
        let nb = if step.0 is Some {
            step.1
        } else {
            spec_synchronize(s, step.1)
        };
        let rest = spec_parse_program(s, nb);
        (
            (match step.0 {
                Some(m) => seq![m],
                None => Seq::<StatementModel>::empty(),
            }) + rest.0,
            step.2 + rest.1,
            step.3 || rest.2,
        )
    }
}

#[via_fn]
proof fn spec_parse_program_decreases(s: Seq<char>, b: int) {
    if 0 <= b <= s.len() && cur_of(s, b) != TokenModel::Eof {
        lemma_parse_statement_props(s, b);
        let step = spec_parse_statement(s, b);
        if !(step.0 is Some) {
            lemma_synchronize_bounds(s, step.1);
        }
    }
}

/// Bounds for the skip to a semicolon, and what stands at the stop.
pub proof fn lemma_semicolon_stop_bounds(s: Seq<char>, b: int)
    requires
        0 <= b <= s.len(),
    ensures
        b <= semicolon_stop(s, b) <= s.len(),
        cur_of(s, semicolon_stop(s, b)) == TokenModel::Semicolon || cur_of(
            s,
            semicolon_stop(s, b),
        ) == TokenModel::Eof,
    decreases s.len() - b,
{
    if !(cur_of(s, b) == TokenModel::Semicolon || cur_of(s, b) == TokenModel::Eof) {
        lemma_scan_token_bounds(s, b);
        lemma_semicolon_stop_bounds(s, adv(s, b));
    }
}

/// Bounds for the whole expression-span skip.
pub proof fn lemma_after_expression_skip_bounds(s: Seq<char>, b: int)
    requires
        0 <= b <= s.len(),
    ensures
        b <= after_expression_skip(s, b) <= s.len(),
{
    lemma_semicolon_stop_bounds(s, b);
    lemma_scan_token_bounds(s, semicolon_stop(s, b));
}

/// Bounds for the recovery skip, and what stands at the stop.
pub proof fn lemma_sync_skip_bounds(s: Seq<char>, b: int)
    requires
        0 <= b <= s.len(),
    ensures
        b <= sync_skip(s, b) <= s.len(),
        sync_stop(cur_of(s, sync_skip(s, b))),
    decreases s.len() - b,
{
    if !sync_stop(cur_of(s, b)) {
        lemma_scan_token_bounds(s, b);
        lemma_sync_skip_bounds(s, adv(s, b));
    }
}

/// Recovery never moves backwards, stays inside the input, and makes
/// strict progress whenever the current token is not `Eof`.
pub proof fn lemma_synchronize_bounds(s: Seq<char>, b: int)
    requires
        0 <= b <= s.len(),
    ensures
        b <= spec_synchronize(s, b) <= s.len(),
        cur_of(s, b) != TokenModel::Eof ==> spec_synchronize(s, b) > b,
{
    lemma_scan_token_bounds(s, b);
    lemma_sync_skip_bounds(s, adv(s, b));
    lemma_scan_token_bounds(s, sync_skip(s, adv(s, b)));
}

/// Statement parsing never moves backwards and stays inside the input; it
/// makes strict progress when it produces a node, and when it produces
/// none it leaves the scan on a token other than `Eof`.
proof fn lemma_parse_statement_props(s: Seq<char>, b: int)
    requires
        0 <= b <= s.len(),
        cur_of(s, b) != TokenModel::Eof,
    ensures
        b <= spec_parse_statement(s, b).1 <= s.len(),
        spec_parse_statement(s, b).0 is Some ==> spec_parse_statement(s, b).1 > b,
        spec_parse_statement(s, b).0 is None ==> cur_of(s, spec_parse_statement(s, b).1)
            != TokenModel::Eof,
{
    lemma_scan_token_bounds(s, b);
    if cur_of(s, b) == TokenModel::Let {
        let b1 = adv(s, b);
        lemma_scan_token_bounds(s, b1);
        if cur_of(s, b1) is Ident {
            let b2 = adv(s, b1);
            lemma_after_expression_skip_bounds(s, b2);
        }
    } else if cur_of(s, b) == TokenModel::Return {
        lemma_after_expression_skip_bounds(s, b);
        lemma_scan_token_bounds(s, semicolon_stop(s, b));
        lemma_semicolon_stop_bounds(s, b);
    }
}

/// The statement parser: wraps a lexer with a two-token lookahead window
/// (`cur_token`, `peek_token`) and an append-only list of diagnostics.
pub struct Parser {
    l: Lexer,
    pub cur_token: Option<Token>,
    pub peek_token: Option<Token>,
    errors: Vec<String>,
    base: Ghost<int>,
    mid: Ghost<int>,
}

impl Parser {
    /// The source text under parse.
    pub closed spec fn src(&self) -> Seq<char> {
        self.l.src()
    }

    /// The scan position at which the current token was read.
    pub closed spec fn base(&self) -> int {
        self.base@
    }

    /// The current token of the lookahead window.
    pub closed spec fn cur(&self) -> TokenModel {
        match self.cur_token {
            Some(t) => t@,
            None => TokenModel::Eof,
        }
    }

    /// The peek token of the lookahead window.
    pub closed spec fn peek(&self) -> TokenModel {
        match self.peek_token {
            Some(t) => t@,
            None => TokenModel::Eof,
        }
    }

    /// The diagnostics accumulated so far, in order.
    pub closed spec fn diags(&self) -> Seq<Seq<char>> {
        self.errors.deep_view()
    }

    /// Parser well-formedness: the lexer is well formed and the window
    /// holds exactly the next two not-yet-consumed tokens: the current
    /// token was scanned at `base` ending at `mid`, and the peek token at
    /// `mid` ending at the lexer's position.
    pub closed spec fn wf(&self) -> bool {
        &&& self.l.wf()
        &&& self.cur_token is Some
        &&& self.peek_token is Some
        &&& 0 <= self.base@ <= self.src().len()
        &&& scan_token(self.src(), self.base@) == (self.cur(), self.mid@)
        &&& scan_token(self.src(), self.mid@) == (self.peek(), self.l.pos())
    }

    /// Constructs a parser over `lexer`, filling the lookahead window by
    /// advancing twice, so that `cur_token` holds the first token and
    /// `peek_token` the second.
    pub fn new(lexer: Lexer) -> (p: Parser)
        requires
            lexer.wf(),
        ensures
            p.wf(),
            p.src() == lexer.src(),
            p.base() == lexer.pos(),
            p.diags() == Seq::<Seq<char>>::empty(),
    {
        proof {
            lexer.lemma_pos_in_range();
        }
        let ghost b = lexer.pos();
        let mut l = lexer;
        let cur = l.next_token();
        let ghost m = l.pos();
        let peek = l.next_token();
        let p = Parser {
            l,
            cur_token: Some(cur),
            peek_token: Some(peek),
            errors: Vec::new(),
            base: Ghost(b),
            mid: Ghost(m),
        };
        proof {
            lemma_scan_token_bounds(p.src(), b);
            assert(p.diags() =~= Seq::<Seq<char>>::empty());
        }
        p
    }

    /// Shifts the window: the peek token becomes current and one new token
    /// is pulled from the lexer into peek.
    fn next_token(&mut self)
        requires
            old(self).wf(),
        ensures
            final(self).wf(),
            final(self).src() == old(self).src(),
            final(self).base() == adv(old(self).src(), old(self).base()),
            final(self).cur() == old(self).peek(),
            final(self).diags() == old(self).diags(),
    {
        proof {
            lemma_scan_token_bounds(self.src(), self.base@);
        }
        let ghost new_mid = self.l.pos();
        let mut shifted: Option<Token> = Some(self.l.next_token());
        core::mem::swap(&mut self.peek_token, &mut shifted);
        self.cur_token = shifted;
        self.base = Ghost(self.mid@);
        self.mid = Ghost(new_mid);
    }

    /// Whether the peek token matches `t` at the type level: fixed tokens
    /// must match exactly; identifier and integer tokens match by kind
    /// alone, their carried text being unimportant for lookahead.
    fn peek_token_is(&self, t: &Token) -> (r: bool)
        requires
            self.wf(),
        ensures
            r == token_kind_eq(self.peek(), t@),
    {
        let peek_token = self.peek_token.as_ref().unwrap();
        if *peek_token == *t {
            true
        } else if peek_token.is_ident() && t.is_ident() {
            true
        } else if peek_token.is_int() && t.is_int() {
            true
        } else {
            false
        }
    }

    /// Records the diagnostic for a lookahead mismatch, naming the
    /// expected token and the actual next token found. Neither may be an
    /// illegal-character token: those must be surfaced as errors before
    /// they reach a display context.
    fn peek_error(&mut self, t: &Token)
        requires
            old(self).wf(),
            !(t@ is Illegal),
            !(old(self).peek() is Illegal),
        ensures
            final(self).wf(),
            final(self).src() == old(self).src(),
            final(self).base() == old(self).base(),
            final(self).cur() == old(self).cur(),
            final(self).peek() == old(self).peek(),
            final(self).diags() == old(self).diags() + seq![
                diag_msg(t@, old(self).peek()),
            ],
    {
        let mut msg = String::from_str("expected next token to be ");
        msg.append(t.literal().as_str());
        msg.append(", got ");
        msg.append(self.peek_token.as_ref().unwrap().literal().as_str());
        msg.append(" instead");
        proof {
            assert(msg@ == diag_msg(t@, old(self).peek()));
        }
        self.errors.push(msg);
        proof {
            assert(self.errors.deep_view() =~= old(self).errors.deep_view() + seq![
                diag_msg(t@, old(self).peek()),
            ]);
        }
    }

    /// Checks the peek token against the expected one: on a match the
    /// window advances and the check succeeds; on a mismatch a diagnostic
    /// is recorded and the window stays put.
    fn expect_peek(&mut self, t: &Token) -> (r: bool)
        requires
            old(self).wf(),
            !(t@ is Illegal),
            !token_kind_eq(old(self).peek(), t@) ==> !(old(self).peek() is Illegal),
        ensures
            final(self).wf(),
            final(self).src() == old(self).src(),
            r == token_kind_eq(old(self).peek(), t@),
            r ==> final(self).base() == adv(old(self).src(), old(self).base())
                && final(self).cur() == old(self).peek()
                && final(self).diags() == old(self).diags(),
            !r ==> final(self).base() == old(self).base()
                && final(self).cur() == old(self).cur()
                && final(self).peek() == old(self).peek()
                && final(self).diags() == old(self).diags() + seq![diag_msg(t@, old(self).peek())],
    {
        if self.peek_token_is(t) {
            self.next_token();
            true
        } else {
            self.peek_error(t);
            false
        }
    }

    /// True when the current token is `Eof`.
    fn cur_is_eof(&self) -> (r: bool)
        requires
            self.cur_token is Some,
        ensures
            r == (self.cur() == TokenModel::Eof),
    {
        matches!(self.cur_token.as_ref().unwrap(), Token::Eof)
    }

    /// True when the current token ends an expression span.
    fn cur_ends_expression(&self) -> (r: bool)
        requires
            self.cur_token is Some,
        ensures
            r == (self.cur() == TokenModel::Semicolon || self.cur() == TokenModel::Eof),
    {
        matches!(self.cur_token.as_ref().unwrap(), Token::Semicolon | Token::Eof)
    }

    /// True when the current token stops error recovery.
    fn cur_stops_recovery(&self) -> (r: bool)
        requires
            self.cur_token is Some,
        ensures
            r == sync_stop(self.cur()),
    {
        matches!(
            self.cur_token.as_ref().unwrap(),
            Token::Eof | Token::Semicolon | Token::Let | Token::Return
        )
    }

    /// Skips the not-yet-parsed expression span: advances until the
    /// current token is the terminating semicolon (or `Eof`), then
    /// consumes the semicolon itself.
    fn skip_expression(&mut self)
        requires
            old(self).wf(),
        ensures
            final(self).wf(),
            final(self).src() == old(self).src(),
            final(self).base() == after_expression_skip(old(self).src(), old(self).base()),
            final(self).diags() == old(self).diags(),
    {
        while !self.cur_ends_expression()
            invariant
                self.wf(),
                self.src() == old(self).src(),
                self.diags() == old(self).diags(),
                semicolon_stop(self.src(), self.base@) == semicolon_stop(
                    old(self).src(),
                    old(self).base(),
                ),
                self.base@ <= self.src().len(),
            decreases self.src().len() - self.base@,
        {
            proof {
                lemma_scan_token_bounds(self.src(), self.base@);
            }
            self.next_token();
        }
        if matches!(self.cur_token.as_ref().unwrap(), Token::Semicolon) {
            self.next_token();
        }
    }

    /// Parses `let <identifier> = <expression> ;` from the current `let`
    /// token. The bound value is not parsed into an expression tree yet:
    /// the span up to the terminating semicolon is skipped and the node
    /// carries a placeholder value. On a lookahead mismatch no node is
    /// produced and a diagnostic is recorded.
    fn parse_let_statement(&mut self) -> (r: Option<LetStatement>)
        requires
            old(self).wf(),
            old(self).cur() == TokenModel::Let,
            !spec_parse_let(old(self).src(), old(self).base()).3,
        ensures
            final(self).wf(),
            final(self).src() == old(self).src(),
            ({
                let step = spec_parse_let(old(self).src(), old(self).base());
                &&& (match r {
                    Some(st) => step.0 == Some(st@),
                    None => step.0 is None,
                })
                &&& final(self).base() == step.1
                &&& final(self).diags() == old(self).diags() + step.2
            }),
    {
        let token = Token::Let;
        let ident_token = Token::Ident(String::new());
        if !self.expect_peek(&ident_token) {
            return None;
        }
        let name_text = match self.cur_token.as_ref().unwrap() {
            Token::Ident(s) => s.clone(),
            _ => unreached(),
        };
        let name = Identifier { token: Token::Ident(name_text.clone()), value: name_text };
        if !self.expect_peek(&Token::Assign) {
            return None;
        }
        self.skip_expression();
        proof {
            assert(old(self).diags() + Seq::<Seq<char>>::empty() =~= old(self).diags());
        }
        Some(
            LetStatement {
                token,
                name,
                value: Expression::Identifier(Identifier { token: Token::Eof, value: String::new() }),
            },
        )
    }

    /// Parses `return <expression> ;` from the current `return` token,
    /// with the same skip-to-semicolon placeholder policy for the returned
    /// value. Never fails and records no diagnostics.
    fn parse_return_statement(&mut self) -> (r: Option<ReturnStatement>)
        requires
            old(self).wf(),
            old(self).cur() == TokenModel::Return,
        ensures
            final(self).wf(),
            final(self).src() == old(self).src(),
            final(self).diags() == old(self).diags(),
            final(self).base() == spec_parse_return(old(self).src(), old(self).base()).1,
            (match r {
                Some(st) => st@ == spec_parse_return(old(self).src(), old(self).base()).0,
                None => false,
            }),
    {
        let token = Token::Return;
        self.skip_expression();
        Some(
            ReturnStatement {
                token,
                return_value: Expression::Identifier(
                    Identifier { token: Token::Eof, value: String::new() },
                ),
            },
        )
    }

    /// Parses one statement at the current token: a `let` or `return`
    /// token starts its statement grammar; any other token is not a
    /// statement start and yields no node.
    fn parse_statement(&mut self) -> (r: Option<Statement>)
        requires
            old(self).wf(),
            !spec_parse_statement(old(self).src(), old(self).base()).3,
        ensures
            final(self).wf(),
            final(self).src() == old(self).src(),
            ({
                let step = spec_parse_statement(old(self).src(), old(self).base());
                &&& (match r {
                    Some(st) => step.0 == Some(st@),
                    None => step.0 is None,
                })
                &&& final(self).base() == step.1
                &&& final(self).diags() == old(self).diags() + step.2
            }),
    {
        proof {
            assert(old(self).diags() + Seq::<Seq<char>>::empty() =~= old(self).diags());
        }
        if matches!(self.cur_token.as_ref().unwrap(), Token::Let) {
            match self.parse_let_statement() {
                Some(s) => Some(Statement::Let(s)),
                None => None,
            }
        } else if matches!(self.cur_token.as_ref().unwrap(), Token::Return) {
            match self.parse_return_statement() {
                Some(s) => Some(Statement::Return(s)),
                None => None,
            }
        } else {
            None
        }
    }

    /// Resynchronizes after a statement failed to parse: skips the
    /// offending token, then everything up to the next statement boundary
    /// or statement-starting keyword, consuming a boundary semicolon.
    fn synchronize(&mut self)
        requires
            old(self).wf(),
            old(self).cur() != TokenModel::Eof,
        ensures
            final(self).wf(),
            final(self).src() == old(self).src(),
            final(self).diags() == old(self).diags(),
            final(self).base() == spec_synchronize(old(self).src(), old(self).base()),
    {
        self.next_token();
        while !self.cur_stops_recovery()
            invariant
                self.wf(),
                self.src() == old(self).src(),
                self.diags() == old(self).diags(),
                sync_skip(self.src(), self.base@) == sync_skip(
                    old(self).src(),
                    adv(old(self).src(), old(self).base()),
                ),
            decreases self.src().len() - self.base@,
        {
            proof {
                lemma_scan_token_bounds(self.src(), self.base@);
            }
            self.next_token();
        }
        if matches!(self.cur_token.as_ref().unwrap(), Token::Semicolon) {
            self.next_token();
        }
    }

    /// Parses statements until the end of the input. A construct the
    /// grammar does not recognize, or whose parse fails, yields no node:
    /// the parser records any diagnostic, resynchronizes at the next
    /// statement boundary, and goes on — the result is the (possibly
    /// partial) program plus the accumulated diagnostics, never an abort.
    pub fn parse_program(&mut self) -> (program: Program)
        requires
            old(self).wf(),
            !spec_parse_program(old(self).src(), old(self).base()).2,
        ensures
            final(self).wf(),
            final(self).src() == old(self).src(),
            program@ == spec_parse_program(old(self).src(), old(self).base()).0,
            final(self).diags() == old(self).diags() + spec_parse_program(
                old(self).src(),
                old(self).base(),
            ).1,
    {
        let ghost s = self.src();
        let ghost b0 = self.base@;
        let ghost d0 = self.diags();
        let mut program = Program { statements: Vec::new() };
        proof {
            assert(program@ =~= Seq::<StatementModel>::empty());
        }
        while !self.cur_is_eof()
            invariant
                self.wf(),
                self.src() == s,
                spec_parse_program(s, b0).0 =~= program@ + spec_parse_program(s, self.base@).0,
                d0 + spec_parse_program(s, b0).1 =~= self.diags() + spec_parse_program(
                    s,
                    self.base@,
                ).1,
                !spec_parse_program(s, self.base@).2,
            decreases s.len() - self.base@,
        {
            let ghost bpre = self.base@;
            let ghost dpre = self.diags();
            let ghost ppre = program@;
            proof {
                lemma_parse_statement_props(s, bpre);
            }
            let statement = self.parse_statement();
            match statement {
                Some(st) => {
                    let ghost stm = st@;
                    program.statements.push(st);
                    proof {
                        assert(program@ =~= ppre + seq![stm]);
                    }
                },
                None => {
                    proof {
                        lemma_synchronize_bounds(s, spec_parse_statement(s, bpre).1);
                    }
                    self.synchronize();
                },
            }
            proof {
                let step = spec_parse_statement(s, bpre);
                let nb = if step.0 is Some {
                    step.1
                } else {
                    spec_synchronize(s, step.1)
                };
                assert(self.base@ == nb);
                let rest = spec_parse_program(s, nb);
                assert(spec_parse_program(s, bpre) == (
                    (match step.0 {
                        Some(m) => seq![m],
                        None => Seq::<StatementModel>::empty(),
                    }) + rest.0,
                    step.2 + rest.1,
                    step.3 || rest.2,
                ));
                assert(spec_parse_program(s, b0).0 =~= program@ + rest.0);
                assert(d0 + spec_parse_program(s, b0).1 =~= self.diags() + rest.1);
            }
        }
        proof {
            assert(spec_parse_program(s, self.base@).0 =~= Seq::<StatementModel>::empty());
            assert(spec_parse_program(s, self.base@).1 =~= Seq::<Seq<char>>::empty());
            assert(program@ =~= spec_parse_program(s, b0).0);
            assert(self.diags() =~= d0 + spec_parse_program(s, b0).1);
        }
        program
    }

    /// The diagnostics recorded so far, in order; empty exactly when every
    /// construct parsed cleanly.
    pub fn errors(&self) -> (r: Vec<String>)
        ensures
            r.deep_view() == self.diags(),
    {
        let r = self.errors.clone();
        proof {
            assert(r@ =~= self.errors@);
        }
        r
    }
}

} // verus!
