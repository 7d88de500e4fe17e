//! The parser of the contract language, and the compiler that runs lexer and parser.
use vstd::prelude::*;
use super::lexer::{lex, lex_from, Lexer};
use super::token::{
    code_of, opcodes_view, tokens_view, Opcode, OpcodeV, Token, TokenV, SYM_ALLOCATE_RESOURCE,
    SYM_COMMA, SYM_CREATE_PROPOSAL, SYM_EMIT, SYM_EQUALS, SYM_GET_PROPOSAL_STATUS, SYM_L_PAREN,
    SYM_RETURN, SYM_R_PAREN, SYM_SEMICOLON, SYM_UPDATE_REPUTATION, SYM_VOTE,
};

verus! {

/// Whether position `i` of `ts` holds the token with code `code`.
pub open spec fn is_sym(ts: Seq<TokenV>, i: int, code: u8) -> bool {
    0 <= i < ts.len() && ts[i] == TokenV::Sym(code)
}

/// Where the expression that starts at `p`, `depth` brackets deep, ends: at
/// the first `;`, `,` or `)` outside every bracket, or at the end of the
/// tokens. Expressions compile to nothing; their tokens are passed over.
pub open spec fn expression_end(ts: Seq<TokenV>, p: int, depth: nat) -> int
    decreases ts.len() - p,
{
    if p < 0 || p >= ts.len() {
        p
    } else if depth == 0 && (is_sym(ts, p, SYM_SEMICOLON) || is_sym(ts, p, SYM_COMMA) || is_sym(
        ts,
        p,
        SYM_R_PAREN,
    )) {
        p
    } else if is_sym(ts, p, SYM_L_PAREN) {
        expression_end(ts, p + 1, depth + 1)
    } else if is_sym(ts, p, SYM_R_PAREN) {
        expression_end(ts, p + 1, (depth - 1) as nat)
    } else {
        expression_end(ts, p + 1, depth)
    }
}

/// Where the arguments of a call that start at `p` end, at the closing `)`:
/// expressions separated by commas. `None` where the parser never gets there
/// because an argument is followed by neither a comma nor `)`.
pub open spec fn arguments_end(ts: Seq<TokenV>, p: int) -> Option<int>
    decreases ts.len() - p,
{
    if p < 0 || p > ts.len() {
        None
    } else if is_sym(ts, p, SYM_R_PAREN) {
        Some(p)
    } else {
        let q = expression_end(ts, p, 0);
        let r = if is_sym(ts, q, SYM_COMMA) {
            q + 1
        } else {
            q
        };
        if r <= p || r > ts.len() {
            None
        } else {
            arguments_end(ts, r)
        }
    }
}

/// A statement `kw("text", expr);` that starts at `p`: the text and the
/// position after the statement.
pub open spec fn string_statement(ts: Seq<TokenV>, p: int) -> Option<(Seq<char>, int)> {
    if is_sym(ts, p + 1, SYM_L_PAREN) && 0 <= p + 2 < ts.len() && ts[p + 2] is Str && is_sym(
        ts,
        p + 3,
        SYM_COMMA,
    ) {
        let q = expression_end(ts, p + 4, 0);
        if is_sym(ts, q, SYM_R_PAREN) && is_sym(ts, q + 1, SYM_SEMICOLON) {
            Some((ts[p + 2]->Str_0, q + 2))
        } else {
            None
        }
    } else {
        None
    }
}

/// A statement `kw(expr);` that starts at `p`: the position after it.
pub open spec fn bracket_statement(ts: Seq<TokenV>, p: int) -> Option<int> {
    if is_sym(ts, p + 1, SYM_L_PAREN) {
        let q = expression_end(ts, p + 2, 0);
        if is_sym(ts, q, SYM_R_PAREN) && is_sym(ts, q + 1, SYM_SEMICOLON) {
            Some(q + 2)
        } else {
            None
        }
    } else {
        None
    }
}

/// The statement that starts at `p`: its opcodes and the position after it;
/// `None` where the parser panics or never returns.
pub open spec fn parse_statement(ts: Seq<TokenV>, p: int) -> Option<(Seq<OpcodeV>, int)> {
    if p < 0 || p >= ts.len() {
        None
    } else {
        match ts[p] {
            TokenV::Identifier(name) => if is_sym(ts, p + 1, SYM_EQUALS) {
                let q = expression_end(ts, p + 2, 0);
                if is_sym(ts, q, SYM_SEMICOLON) {
                    Some((seq![OpcodeV::Store(name)], q + 1))
                } else {
                    None
                }
            } else if is_sym(ts, p + 1, SYM_L_PAREN) {
                match arguments_end(ts, p + 2) {
                    Some(q) => if is_sym(ts, q + 1, SYM_SEMICOLON) {
                        Some((seq![OpcodeV::Call(name)], q + 2))
                    } else {
                        None
                    },
                    None => None,
                }
            } else {
                Some((Seq::empty(), p + 1))
            },
            TokenV::Sym(c) => if c == SYM_RETURN {
                let q = expression_end(ts, p + 1, 0);
                if is_sym(ts, q, SYM_SEMICOLON) {
                    Some((seq![OpcodeV::Return], q + 1))
                } else {
                    None
                }
            } else if c == SYM_VOTE || c == SYM_ALLOCATE_RESOURCE || c == SYM_UPDATE_REPUTATION || c
                == SYM_EMIT {
                match string_statement(ts, p) {
                    Some((text, q)) => Some(
                        (
                            seq![
                                if c == SYM_VOTE {
                                    OpcodeV::Vote(text)
                                } else if c == SYM_ALLOCATE_RESOURCE {
                                    OpcodeV::AllocateResource(text)
                                } else if c == SYM_UPDATE_REPUTATION {
                                    OpcodeV::UpdateReputation(text)
                                } else {
                                    OpcodeV::Emit(text)
                                },
                            ],
                            q,
                        ),
                    ),
                    None => None,
                }
            } else if c == SYM_CREATE_PROPOSAL || c == SYM_GET_PROPOSAL_STATUS {
                match bracket_statement(ts, p) {
                    Some(q) => Some(
                        (
                            seq![
                                if c == SYM_CREATE_PROPOSAL {
                                    OpcodeV::CreateProposal
                                } else {
                                    OpcodeV::GetProposalStatus
                                },
                            ],
                            q,
                        ),
                    ),
                    None => None,
                }
            } else {
                None
            },
            _ => None,
        }
    }
}

/// The opcodes of the statements from `p` on; `None` where the parser
/// panics or never returns.
pub open spec fn parse_from(ts: Seq<TokenV>, p: int) -> Option<Seq<OpcodeV>>
    decreases ts.len() - p,
{
    if p < 0 {
        None
    } else if p >= ts.len() {
        Some(Seq::empty())
    } else {
        match parse_statement(ts, p) {
            None => None,
            Some((ops, q)) => if p < q <= ts.len() {
                match parse_from(ts, q) {
                    Some(rest) => Some(ops + rest),
                    None => None,
                }
            } else {
                None
            },
        }
    }
}

/// The opcodes of a whole token sequence.
pub open spec fn parse(ts: Seq<TokenV>) -> Option<Seq<OpcodeV>> {
    parse_from(ts, 0)
}

/// What compiling a source text gives: `None` where the compiler panics or
/// never returns.
pub open spec fn compile_text(s: Seq<char>) -> Option<Seq<OpcodeV>> {
    match lex(s) {
        Some(ts) => parse(ts),
        None => None,
    }
}

proof fn lemma_expression_end(ts: Seq<TokenV>, p: int, depth: nat)
    requires
        0 <= p,
    ensures
        p <= expression_end(ts, p, depth),
        p <= ts.len() ==> expression_end(ts, p, depth) <= ts.len(),
    decreases ts.len() - p,
{
    if p < ts.len() {
        if is_sym(ts, p, SYM_L_PAREN) {
            lemma_expression_end(ts, p + 1, depth + 1);
        } else if is_sym(ts, p, SYM_R_PAREN) && depth > 0 {
            lemma_expression_end(ts, p + 1, (depth - 1) as nat);
        } else {
            lemma_expression_end(ts, p + 1, depth);
        }
    }
}

proof fn lemma_arguments_end(ts: Seq<TokenV>, p: int)
    requires
        0 <= p,
    ensures
        arguments_end(ts, p) matches Some(q) ==> p <= q < ts.len() && is_sym(ts, q, SYM_R_PAREN),
    decreases ts.len() - p,
{
    if p <= ts.len() && !is_sym(ts, p, SYM_R_PAREN) {
        let q = expression_end(ts, p, 0);
        lemma_expression_end(ts, p, 0);
        let r = if is_sym(ts, q, SYM_COMMA) {
            q + 1
        } else {
            q
        };
        if p < r <= ts.len() {
            lemma_arguments_end(ts, r);
        }
    }
}

/// Every statement that parses moves forward and stays within the tokens.
pub proof fn lemma_statement_progress(ts: Seq<TokenV>, p: int)
    requires
        0 <= p < ts.len(),
    ensures
        parse_statement(ts, p) matches Some((_, q)) ==> p < q <= ts.len(),
{
    lemma_expression_end(ts, p + 1, 0);
    lemma_expression_end(ts, p + 2, 0);
    lemma_expression_end(ts, p + 4, 0);
    lemma_arguments_end(ts, p + 2);
}

/// `rest` with the opcodes `ops` in front, when parsing goes through.
pub open spec fn ops_then(ops: Seq<OpcodeV>, rest: Option<Seq<OpcodeV>>) -> Option<Seq<OpcodeV>> {
    match rest {
        Some(r) => Some(ops + r),
        None => None,
    }
}

/// Each statement keyword compiles to the opcode of its own kind. A
/// statement `kw("text", expr);` starting at `p` compiles to the one opcode
/// `Vote(text)`, `AllocateResource(text)`, `UpdateReputation(text)` or
/// `Emit(text)` for `vote`, `allocate_resource`, `update_reputation` and
/// `emit`; the statements after its `;` compile on their own.
pub proof fn lemma_text_statements(ts: Seq<TokenV>, p: int, text: Seq<char>)
    requires
        0 <= p,
        p + 3 < ts.len(),
        ts[p + 1] == Token::LParen@,
        ts[p + 2] == TokenV::Str(text),
        ts[p + 3] == Token::Comma@,
        expression_end(ts, p + 4, 0) + 1 < ts.len(),
        ts[expression_end(ts, p + 4, 0)] == Token::RParen@,
        ts[expression_end(ts, p + 4, 0) + 1] == Token::Semicolon@,
    ensures
        ({
            let after = parse_from(ts, expression_end(ts, p + 4, 0) + 2);
            &&& ts[p] == Token::Vote@ ==> parse_from(ts, p) == ops_then(seq![OpcodeV::Vote(text)], after)
            &&& ts[p] == Token::AllocateResource@ ==> parse_from(ts, p) == ops_then(
                seq![OpcodeV::AllocateResource(text)],
                after,
            )
            &&& ts[p] == Token::UpdateReputation@ ==> parse_from(ts, p) == ops_then(
                seq![OpcodeV::UpdateReputation(text)],
                after,
            )
            &&& ts[p] == Token::Emit@ ==> parse_from(ts, p) == ops_then(seq![OpcodeV::Emit(text)], after)
        }),
{
    lemma_expression_end(ts, p + 4, 0);
}

/// A statement `create_proposal(expr);` or `get_proposal_status(expr);`
/// starting at `p` compiles to the one opcode `CreateProposal` or
/// `GetProposalStatus`; the statements after its `;` compile on their own.
pub proof fn lemma_proposal_statements(ts: Seq<TokenV>, p: int)
    requires
        0 <= p,
        p + 1 < ts.len(),
        ts[p + 1] == Token::LParen@,
        expression_end(ts, p + 2, 0) + 1 < ts.len(),
        ts[expression_end(ts, p + 2, 0)] == Token::RParen@,
        ts[expression_end(ts, p + 2, 0) + 1] == Token::Semicolon@,
    ensures
        ({
            let after = parse_from(ts, expression_end(ts, p + 2, 0) + 2);
            &&& ts[p] == Token::CreateProposal@ ==> parse_from(ts, p) == ops_then(
                seq![OpcodeV::CreateProposal],
                after,
            )
            &&& ts[p] == Token::GetProposalStatus@ ==> parse_from(ts, p) == ops_then(
                seq![OpcodeV::GetProposalStatus],
                after,
            )
        }),
{
    lemma_expression_end(ts, p + 2, 0);
}

/// Assignments, calls and returns. `name = expr;` compiles to
/// `Store(name)`, `name(args);` to `Call(name)`, and `return expr;` to
/// `Return`; the statements after the `;` compile on their own.
pub proof fn lemma_assignment_call_return(ts: Seq<TokenV>, p: int, name: Seq<char>)
    requires
        0 <= p < ts.len(),
    ensures
        ts[p] == TokenV::Identifier(name) && p + 1 < ts.len() && ts[p + 1] == Token::Equals@ && expression_end(
            ts,
            p + 2,
            0,
        ) < ts.len() && ts[expression_end(ts, p + 2, 0)] == Token::Semicolon@ ==> parse_from(ts, p)
            == ops_then(seq![OpcodeV::Store(name)], parse_from(ts, expression_end(ts, p + 2, 0) + 1)),
        ts[p] == TokenV::Identifier(name) && p + 1 < ts.len() && ts[p + 1] == Token::LParen@ && (
        arguments_end(ts, p + 2) matches Some(q) && q + 1 < ts.len() && ts[q + 1] == Token::Semicolon@)
            ==> parse_from(ts, p) == ops_then(
            seq![OpcodeV::Call(name)],
            parse_from(ts, arguments_end(ts, p + 2).unwrap() + 2),
        ),
        ts[p] == Token::Return@ && expression_end(ts, p + 1, 0) < ts.len() && ts[expression_end(ts, p + 1, 0)]
            == Token::Semicolon@ ==> parse_from(ts, p) == ops_then(
            seq![OpcodeV::Return],
            parse_from(ts, expression_end(ts, p + 1, 0) + 1),
        ),
{
    lemma_expression_end(ts, p + 1, 0);
    lemma_expression_end(ts, p + 2, 0);
    lemma_arguments_end(ts, p + 2);
}

/// The parser: tokens, and the position reached.
pub struct Parser {
    tokens: Vec<Token>,
    position: usize,
}

impl Parser {
    /// The tokens, seen mathematically.
    pub closed spec fn token_views(&self) -> Seq<TokenV> {
        tokens_view(self.tokens@)
    }

    /// The position reached.
    pub closed spec fn pos(&self) -> int {
        self.position as int
    }

    pub closed spec fn wf(&self) -> bool {
        self.position <= self.tokens@.len()
    }

    /// A parser at the start of `tokens`.
    pub fn new(tokens: Vec<Token>) -> (p: Parser)
        ensures
            p.wf(),
            p.token_views() == tokens_view(tokens@),
            p.pos() == 0,
    {
        Parser { tokens, position: 0 }
    }

    /// The token at the current position, if any.
    fn current_token(&self) -> (r: Option<&Token>)
        requires
            self.wf(),
        ensures
            r matches Some(t) ==> self.pos() < self.token_views().len() && t@
                == self.token_views()[self.pos()],
            r is None ==> self.pos() >= self.token_views().len(),
    {
        if self.position < self.tokens.len() {
            Some(&self.tokens[self.position])
        } else {
            None
        }
    }

    /// Whether position `i` holds the token with code `code`.
    fn sym_at(&self, i: usize, code: u8) -> (b: bool)
        ensures
            b == is_sym(self.token_views(), i as int, code),
    {
        if i < self.tokens.len() {
            match code_of(&self.tokens[i]) {
                Some(c) => c == code,
                None => false,
            }
        } else {
            false
        }
    }

    /// Consumes the token with code `code`; `false` where the current token
    /// is another one, on which the parser panics.
    fn consume_token(&mut self, code: u8) -> (b: bool)
        requires
            old(self).wf(),
        ensures
            final(self).wf(),
            final(self).token_views() == old(self).token_views(),
            b == is_sym(old(self).token_views(), old(self).pos(), code),
            b ==> final(self).pos() == old(self).pos() + 1,
    {
        let n = self.tokens.len();
        if self.sym_at(self.position, code) {
            assert(self.position < n);
            self.position = self.position + 1;
            true
        } else {
            false
        }
    }

    /// Consumes a string literal and hands back its text; `None` where the
    /// current token is something else, on which the parser panics.
    fn consume_string(&mut self) -> (r: Option<String>)
        requires
            old(self).wf(),
        ensures
            final(self).wf(),
            final(self).token_views() == old(self).token_views(),
            match r {
                Some(s) => old(self).pos() < old(self).token_views().len() && old(self).token_views()[old(self).pos()] == TokenV::Str(s@) && final(self).pos() == old(self).pos() + 1,
                None => !(old(self).pos() < old(self).token_views().len() && old(self).token_views()[old(self).pos()] is Str),
            },
    {
        let n = self.tokens.len();
        let p = self.position;
        if p < n {
            match &self.tokens[p] {
                Token::String(s) => {
                    let v = s.clone();
                    self.position = p + 1;
                    Some(v)
                },
                _ => None,
            }
        } else {
            None
        }
    }

    /// Consumes an identifier and hands back its name.
    fn consume_identifier(&mut self) -> (name: String)
        requires
            old(self).wf(),
            old(self).pos() < old(self).token_views().len(),
            old(self).token_views()[old(self).pos()] is Identifier,
        ensures
            final(self).wf(),
            final(self).token_views() == old(self).token_views(),
            old(self).token_views()[old(self).pos()] == TokenV::Identifier(name@),
            final(self).pos() == old(self).pos() + 1,
    {
        let n = self.tokens.len();
        let p = self.position;
        assert(p < n);
        match &self.tokens[p] {
            Token::Identifier(s) => {
                let v = s.clone();
                self.position = p + 1;
                v
            },
            _ => {
                proof {
                    assert(false);
                }
                String::new()
            },
        }
    }

    /// Whether the expression being passed over, `depth` brackets deep,
    /// ends at the current position.
    fn at_expression_end(&self, depth: usize) -> (b: bool)
        requires
            self.wf(),
        ensures
            b == (self.pos() >= self.token_views().len() || (depth == 0 && (is_sym(
                self.token_views(),
                self.pos(),
                SYM_SEMICOLON,
            ) || is_sym(self.token_views(), self.pos(), SYM_COMMA) || is_sym(
                self.token_views(),
                self.pos(),
                SYM_R_PAREN,
            )))),
    {
        if self.position >= self.tokens.len() {
            return true;
        }
        depth == 0 && (self.sym_at(self.position, SYM_SEMICOLON) || self.sym_at(
            self.position,
            SYM_COMMA,
        ) || self.sym_at(self.position, SYM_R_PAREN))
    }

    /// Passes over an expression: expressions compile to nothing.
    fn parse_expression(&mut self) -> (ops: Vec<Opcode>)
        requires
            old(self).wf(),
        ensures
            final(self).wf(),
            final(self).token_views() == old(self).token_views(),
            final(self).pos() == expression_end(old(self).token_views(), old(self).pos(), 0),
            ops@ == Seq::<Opcode>::empty(),
    {
        let ghost ts = self.token_views();
        let ghost p0 = self.pos();
        let n = self.tokens.len();
        let mut depth: usize = 0;
        while !self.at_expression_end(depth)
            invariant
                self.wf(),
                self.token_views() == ts,
                ts == old(self).token_views(),
                n == self.tokens@.len(),
                p0 == old(self).pos(),
                p0 <= self.pos() <= n,
                depth <= self.pos() - p0,
                expression_end(ts, p0, 0) == expression_end(ts, self.pos(), depth as nat),
            decreases n - self.position,
        {
            if self.sym_at(self.position, SYM_L_PAREN) {
                depth = depth + 1;
            } else if self.sym_at(self.position, SYM_R_PAREN) {
                depth = depth - 1;
            }
            self.position = self.position + 1;
        }
        Vec::new()
    }

    /// `return expr;`
    fn parse_return_statement(&mut self) -> (r: Option<Vec<Opcode>>)
        requires
            old(self).wf(),
            is_sym(old(self).token_views(), old(self).pos(), SYM_RETURN),
        ensures
            final(self).wf(),
            final(self).token_views() == old(self).token_views(),
            statement_result(old(self).token_views(), old(self).pos(), r, final(self).pos()),
    {
        self.consume_token(SYM_RETURN);
        let mut ops = self.parse_expression();
        ops.push(Opcode::Return);
        if !self.consume_token(SYM_SEMICOLON) {
            return None;
        }
        proof {
            assert(opcodes_view(ops@) =~= seq![OpcodeV::Return]);
        }
        Some(ops)
    }

    /// `name = expr;`
    fn parse_assignment(&mut self, identifier: String) -> (r: Option<Vec<Opcode>>)
        requires
            old(self).wf(),
            is_sym(old(self).token_views(), old(self).pos(), SYM_EQUALS),
        ensures
            final(self).wf(),
            final(self).token_views() == old(self).token_views(),
            ({
                let q = expression_end(old(self).token_views(), old(self).pos() + 1, 0);
                match r {
                    Some(ops) => is_sym(old(self).token_views(), q, SYM_SEMICOLON) && opcodes_view(ops@)
                        == seq![OpcodeV::Store(identifier@)] && final(self).pos() == q + 1,
                    None => !is_sym(old(self).token_views(), q, SYM_SEMICOLON),
                }
            }),
    {
        self.consume_token(SYM_EQUALS);
        let mut ops = self.parse_expression();
        ops.push(Opcode::Store(identifier));
        if !self.consume_token(SYM_SEMICOLON) {
            return None;
        }
        proof {
            assert(opcodes_view(ops@) =~= seq![OpcodeV::Store(identifier@)]);
        }
        Some(ops)
    }

    /// `name(expr, expr, ...);`: an argument followed by neither a comma
    /// nor `)` keeps the parser waiting for `)` forever.
    fn parse_function_call(&mut self, identifier: String) -> (r: Option<Vec<Opcode>>)
        requires
            old(self).wf(),
            is_sym(old(self).token_views(), old(self).pos(), SYM_L_PAREN),
        ensures
            final(self).wf(),
            final(self).token_views() == old(self).token_views(),
            ({
                let ts = old(self).token_views();
                match r {
                    Some(ops) => arguments_end(ts, old(self).pos() + 1) matches Some(q) && is_sym(
                        ts,
                        q + 1,
                        SYM_SEMICOLON,
                    ) && opcodes_view(ops@) == seq![OpcodeV::Call(identifier@)] && final(self).pos()
                        == q + 2,
                    None => !(arguments_end(ts, old(self).pos() + 1) matches Some(q) && is_sym(
                        ts,
                        q + 1,
                        SYM_SEMICOLON,
                    )),
                }
            }),
    {
        self.consume_token(SYM_L_PAREN);
        let ghost ts = self.token_views();
        let ghost start = self.position as int;
        let n = self.tokens.len();
        let mut ops: Vec<Opcode> = Vec::new();
        while !self.sym_at(self.position, SYM_R_PAREN)
            invariant
                self.wf(),
                self.token_views() == ts,
                ts == old(self).token_views(),
                n == self.tokens@.len(),
                start == old(self).pos() + 1,
                start <= self.position,
                arguments_end(ts, self.position as int) == arguments_end(ts, start),
                ops@ == Seq::<Opcode>::empty(),
            decreases n - self.position,
        {
            let before = self.position;
            let mut more = self.parse_expression();
            ops.append(&mut more);
            if self.sym_at(self.position, SYM_COMMA) {
                self.consume_token(SYM_COMMA);
            }
            proof {
                lemma_expression_end(ts, before as int, 0);
            }
            if self.position <= before {
                return None;
            }
        }
        proof {
            assert(arguments_end(ts, self.position as int) == Some(self.position as int));
        }
        self.consume_token(SYM_R_PAREN);
        ops.push(Opcode::Call(identifier));
        if !self.consume_token(SYM_SEMICOLON) {
            return None;
        }
        proof {
            assert(opcodes_view(ops@) =~= seq![OpcodeV::Call(identifier@)]);
        }
        Some(ops)
    }

    /// A statement that starts with a name: an assignment, a call, or else
    /// just the name, which compiles to nothing.
    fn parse_assignment_or_function_call(&mut self) -> (r: Option<Vec<Opcode>>)
        requires
            old(self).wf(),
            old(self).pos() < old(self).token_views().len(),
            old(self).token_views()[old(self).pos()] is Identifier,
        ensures
            final(self).wf(),
            final(self).token_views() == old(self).token_views(),
            statement_result(old(self).token_views(), old(self).pos(), r, final(self).pos()),
    {
        let ghost ts = self.token_views();
        let ghost p = self.pos();
        let identifier = self.consume_identifier();
        assert(ts[p] == TokenV::Identifier(identifier@));
        if self.sym_at(self.position, SYM_EQUALS) {
            self.parse_assignment(identifier)
        } else if self.sym_at(self.position, SYM_L_PAREN) {
            self.parse_function_call(identifier)
        } else {
            let v: Vec<Opcode> = Vec::new();
            assert(opcodes_view(v@) =~= Seq::<OpcodeV>::empty());
            Some(v)
        }
    }

    /// `kw("text", expr);` for the four statements that name a proposal,
    /// resource, address or event.
    fn parse_string_statement(&mut self, code: u8) -> (r: Option<String>)
        requires
            old(self).wf(),
            is_sym(old(self).token_views(), old(self).pos(), code),
        ensures
            final(self).wf(),
            final(self).token_views() == old(self).token_views(),
            r matches Some(s) ==> string_statement(old(self).token_views(), old(self).pos()) == Some(
                (s@, final(self).pos()),
            ),
            r is None ==> string_statement(old(self).token_views(), old(self).pos()) is None,
    {
        self.consume_token(code);
        if !self.consume_token(SYM_L_PAREN) {
            return None;
        }
        let text = match self.consume_string() {
            Some(t) => t,
            None => {
                return None;
            },
        };
        if !self.consume_token(SYM_COMMA) {
            return None;
        }
        let _ops = self.parse_expression();
        if !self.consume_token(SYM_R_PAREN) {
            return None;
        }
        if !self.consume_token(SYM_SEMICOLON) {
            return None;
        }
        Some(text)
    }

    /// `vote("proposal", expr);`
    fn parse_vote_statement(&mut self) -> (r: Option<Vec<Opcode>>)
        requires
            old(self).wf(),
            is_sym(old(self).token_views(), old(self).pos(), SYM_VOTE),
        ensures
            final(self).wf(),
            final(self).token_views() == old(self).token_views(),
            statement_result(old(self).token_views(), old(self).pos(), r, final(self).pos()),
    {
        match self.parse_string_statement(SYM_VOTE) {
            Some(text) => Some(single(Opcode::Vote(text))),
            None => None,
        }
    }

    /// `allocate_resource("resource", expr);`
    fn parse_allocate_resource_statement(&mut self) -> (r: Option<Vec<Opcode>>)
        requires
            old(self).wf(),
            is_sym(old(self).token_views(), old(self).pos(), SYM_ALLOCATE_RESOURCE),
        ensures
            final(self).wf(),
            final(self).token_views() == old(self).token_views(),
            statement_result(old(self).token_views(), old(self).pos(), r, final(self).pos()),
    {
        match self.parse_string_statement(SYM_ALLOCATE_RESOURCE) {
            Some(text) => Some(single(Opcode::AllocateResource(text))),
            None => None,
        }
    }

    /// `update_reputation("address", expr);`
    fn parse_update_reputation_statement(&mut self) -> (r: Option<Vec<Opcode>>)
        requires
            old(self).wf(),
            is_sym(old(self).token_views(), old(self).pos(), SYM_UPDATE_REPUTATION),
        ensures
            final(self).wf(),
            final(self).token_views() == old(self).token_views(),
            statement_result(old(self).token_views(), old(self).pos(), r, final(self).pos()),
    {
        match self.parse_string_statement(SYM_UPDATE_REPUTATION) {
            Some(text) => Some(single(Opcode::UpdateReputation(text))),
            None => None,
        }
    }

    /// `emit("event", expr);`
    fn parse_emit_statement(&mut self) -> (r: Option<Vec<Opcode>>)
        requires
            old(self).wf(),
            is_sym(old(self).token_views(), old(self).pos(), SYM_EMIT),
        ensures
            final(self).wf(),
            final(self).token_views() == old(self).token_views(),
            statement_result(old(self).token_views(), old(self).pos(), r, final(self).pos()),
    {
        match self.parse_string_statement(SYM_EMIT) {
            Some(text) => Some(single(Opcode::Emit(text))),
            None => None,
        }
    }

    /// `kw(expr);` for the two statements without a string argument.
    fn parse_bracket_statement(&mut self, code: u8) -> (b: bool)
        requires
            old(self).wf(),
            is_sym(old(self).token_views(), old(self).pos(), code),
        ensures
            final(self).wf(),
            final(self).token_views() == old(self).token_views(),
            b == bracket_statement(old(self).token_views(), old(self).pos()) is Some,
            b ==> bracket_statement(old(self).token_views(), old(self).pos()) == Some(
                final(self).pos(),
            ),
    {
        self.consume_token(code);
        if !self.consume_token(SYM_L_PAREN) {
            return false;
        }
        let _ops = self.parse_expression();
        if !self.consume_token(SYM_R_PAREN) {
            return false;
        }
        self.consume_token(SYM_SEMICOLON)
    }

    /// `create_proposal(expr);`
    fn parse_create_proposal_statement(&mut self) -> (r: Option<Vec<Opcode>>)
        requires
            old(self).wf(),
            is_sym(old(self).token_views(), old(self).pos(), SYM_CREATE_PROPOSAL),
        ensures
            final(self).wf(),
            final(self).token_views() == old(self).token_views(),
            statement_result(old(self).token_views(), old(self).pos(), r, final(self).pos()),
    {
        if self.parse_bracket_statement(SYM_CREATE_PROPOSAL) {
            Some(single(Opcode::CreateProposal))
        } else {
            None
        }
    }

    /// `get_proposal_status(expr);`
    fn parse_get_proposal_status_statement(&mut self) -> (r: Option<Vec<Opcode>>)
        requires
            old(self).wf(),
            is_sym(old(self).token_views(), old(self).pos(), SYM_GET_PROPOSAL_STATUS),
        ensures
            final(self).wf(),
            final(self).token_views() == old(self).token_views(),
            statement_result(old(self).token_views(), old(self).pos(), r, final(self).pos()),
    {
        if self.parse_bracket_statement(SYM_GET_PROPOSAL_STATUS) {
            Some(single(Opcode::GetProposalStatus))
        } else {
            None
        }
    }

    /// One statement; `None` where the parser panics, or never returns
    /// because the statement consumes no token (`if`, `while`, `function`,
    /// or any token that starts no statement).
    fn parse_statement(&mut self) -> (r: Option<Vec<Opcode>>)
        requires
            old(self).wf(),
            old(self).pos() < old(self).token_views().len(),
        ensures
            final(self).wf(),
            final(self).token_views() == old(self).token_views(),
            statement_result(old(self).token_views(), old(self).pos(), r, final(self).pos()),
    {
        let ghost ts = self.token_views();
        let ghost p = self.pos();
        let code = match self.current_token() {
            Some(Token::Identifier(_)) => {
                return self.parse_assignment_or_function_call();
            },
            Some(t) => code_of(t),
            None => None,
        };
        match code {
            Some(c) => {
                if c == SYM_RETURN {
                    self.parse_return_statement()
                } else if c == SYM_VOTE {
                    self.parse_vote_statement()
                } else if c == SYM_ALLOCATE_RESOURCE {
                    self.parse_allocate_resource_statement()
                } else if c == SYM_UPDATE_REPUTATION {
                    self.parse_update_reputation_statement()
                } else if c == SYM_CREATE_PROPOSAL {
                    self.parse_create_proposal_statement()
                } else if c == SYM_GET_PROPOSAL_STATUS {
                    self.parse_get_proposal_status_statement()
                } else if c == SYM_EMIT {
                    self.parse_emit_statement()
                } else {
                    None
                }
            },
            None => None,
        }
    }

    /// The opcodes of all remaining statements; `None` where the parser
    /// panics or never returns.
    pub fn try_parse(&mut self) -> (r: Option<Vec<Opcode>>)
        requires
            old(self).wf(),
        ensures
            final(self).wf(),
            final(self).token_views() == old(self).token_views(),
            match parse_from(old(self).token_views(), old(self).pos()) {
                Some(ops) => r matches Some(v) && opcodes_view(v@) == ops,
                None => r is None,
            },
    {
        let ghost ts = self.token_views();
        let ghost p0 = self.pos();
        let mut opcodes: Vec<Opcode> = Vec::new();
        while self.position < self.tokens.len()
            invariant
                self.wf(),
                self.token_views() == ts,
                ts == old(self).token_views(),
                p0 == old(self).pos(),
                parse_from(ts, p0) == match parse_from(ts, self.pos()) {
                    Some(rest) => Some(opcodes_view(opcodes@) + rest),
                    None => None::<Seq<OpcodeV>>,
                },
            decreases ts.len() - self.position,
        {
            let ghost p = self.pos();
            proof {
                lemma_statement_progress(ts, p);
            }
            match self.parse_statement() {
                Some(mut ops) => {
                    let ghost before = opcodes@;
                    let ghost added = ops@;
                    opcodes.append(&mut ops);
                    proof {
                        assert(opcodes_view(opcodes@) =~= opcodes_view(before) + opcodes_view(added));
                        match parse_from(ts, self.pos()) {
                            Some(rest) => {
                                assert(opcodes_view(before) + (opcodes_view(added) + rest)
                                    =~= opcodes_view(opcodes@) + rest);
                            },
                            None => {},
                        }
                    }
                },
                None => {
                    return None;
                },
            }
        }
        proof {
            assert(opcodes_view(opcodes@) + Seq::<OpcodeV>::empty() =~= opcodes_view(opcodes@));
        }
        Some(opcodes)
    }

    /// The opcodes of all remaining statements, which must parse.
    pub fn parse(&mut self) -> (ops: Vec<Opcode>)
        requires
            old(self).wf(),
            parse_from(old(self).token_views(), old(self).pos()) is Some,
        ensures
            final(self).wf(),
            final(self).token_views() == old(self).token_views(),
            opcodes_view(ops@) == parse_from(old(self).token_views(), old(self).pos()).unwrap(),
    {
        match self.try_parse() {
            Some(ops) => ops,
            None => Vec::new(),
        }
    }
}

/// How a statement parse at `p` relates to `parse_statement`.
pub open spec fn statement_result(
    ts: Seq<TokenV>,
    p: int,
    r: Option<Vec<Opcode>>,
    after: int,
) -> bool {
    match parse_statement(ts, p) {
        Some((ops, q)) => r matches Some(v) && opcodes_view(v@) == ops && after == q,
        None => r is None,
    }
}

/// A vector holding just `op`.
fn single(op: Opcode) -> (v: Vec<Opcode>)
    ensures
        v@ == seq![op],
        opcodes_view(v@) == seq![op@],
{
    let mut v = Vec::new();
    v.push(op);
    assert(v@ =~= seq![op]);
    assert(opcodes_view(v@) =~= seq![op@]);
    v
}

/// The compiler: a lexer over the source text and a parser over its tokens.
pub struct CSCLCompiler {
    lexer: Lexer,
    parser: Parser,
}

impl CSCLCompiler {
    /// The tokens the parser works on.
    pub closed spec fn token_views(&self) -> Seq<TokenV> {
        self.parser.token_views()
    }

    /// The parser's position.
    pub closed spec fn pos(&self) -> int {
        self.parser.pos()
    }

    pub closed spec fn wf(&self) -> bool {
        self.parser.wf()
    }

    /// Lexes `input`, whose number literals must all parse.
    pub fn new(input: &str) -> (c: CSCLCompiler)
        requires
            input@.len() + 8 < usize::MAX,
            lex(input@) is Some,
        ensures
            c.wf(),
            c.token_views() == lex(input@).unwrap(),
            c.pos() == 0,
    {
        let mut lexer = Lexer::new(input);
        let tokens = lexer.tokens();
        proof {
            lemma_lex_length(input@, 0);
        }
        let parser = Parser::new(tokens);
        CSCLCompiler { lexer, parser }
    }

    /// Compiles the remaining statements, which must parse.
    pub fn compile(&mut self) -> (ops: Vec<Opcode>)
        requires
            old(self).wf(),
            parse_from(old(self).token_views(), old(self).pos()) is Some,
        ensures
            final(self).wf(),
            opcodes_view(ops@) == parse_from(old(self).token_views(), old(self).pos()).unwrap(),
    {
        self.parser.parse()
    }

    /// Compiles the remaining statements; `None` where the compiler panics
    /// or never returns.
    pub fn try_compile(&mut self) -> (r: Option<Vec<Opcode>>)
        requires
            old(self).wf(),
        ensures
            final(self).wf(),
            match parse_from(old(self).token_views(), old(self).pos()) {
                Some(ops) => r matches Some(v) && opcodes_view(v@) == ops,
                None => r is None,
            },
    {
        self.parser.try_parse()
    }
}

/// Lexing yields no more tokens than there are characters, plus one.
proof fn lemma_lex_length(s: Seq<char>, p: int)
    requires
        0 <= p <= s.len() + 1,
        lex_from(s, p) is Some,
    ensures
        lex_from(s, p).unwrap().len() <= s.len() + 2 - p,
    decreases s.len() + 2 - p,
{
    super::lexer::lemma_lex_step_progress(s, p);
    match super::lexer::lex_step(s, p) {
        super::lexer::LexStep::Token(t, q) => {
            lemma_lex_length(s, q);
        },
        _ => {},
    }
}

/// Compiles a source text: `None` exactly where compiling it panics or never
/// returns, and otherwise the opcodes of its statements.
pub fn compile_source(input: &str) -> (r: Option<Vec<Opcode>>)
    requires
        input@.len() + 8 < usize::MAX,
    ensures
        match compile_text(input@) {
            Some(ops) => r matches Some(v) && opcodes_view(v@) == ops,
            None => r is None,
        },
{
    let mut probe = Lexer::new(input);
    if probe.try_tokens().is_none() {
        return None;
    }
    let mut compiler = CSCLCompiler::new(input);
    compiler.try_compile()
}

} // verus!
