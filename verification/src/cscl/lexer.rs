//! The lexer of the contract language.
use vstd::prelude::*;
use crate::text::{
    char_alphabetic, char_is_alphabetic, char_is_alphanumeric, char_is_decimal_digit,
    char_is_whitespace, char_numeric, chars_of, is_ascii_letter, is_decimal_digit, is_text, is_white_space, push_char,
};
use super::token::{tokens_view, Token, TokenV, SYM_TRUE, SYM_FALSE, SYM_IF, SYM_ELSE, SYM_WHILE, SYM_FUNCTION, SYM_RETURN, SYM_VOTE, SYM_ALLOCATE_RESOURCE, SYM_UPDATE_REPUTATION, SYM_CREATE_PROPOSAL, SYM_GET_PROPOSAL_STATUS, SYM_EMIT, SYM_L_PAREN, SYM_R_PAREN, SYM_L_BRACE, SYM_R_BRACE, SYM_SEMICOLON, SYM_COMMA, SYM_EQUALS, SYM_PLUS, SYM_MINUS, SYM_MULTIPLY, SYM_DIVIDE, SYM_MODULO, SYM_DOUBLE_EQUALS, SYM_NOT_EQUALS, SYM_GREATER_THAN, SYM_LESS_THAN, SYM_GREATER_THAN_EQUALS, SYM_LESS_THAN_EQUALS, SYM_AND, SYM_OR, SYM_NOT};

verus! {

/// Characters that continue an identifier.
pub open spec fn is_ident_char(c: char) -> bool {
    char_alphabetic(c) || char_numeric(c) || c == '_'
}

/// Characters that continue a number.
pub open spec fn is_number_char(c: char) -> bool {
    is_decimal_digit(c) || c == '.'
}

/// The first position at or after `p` that holds no white space.
pub open spec fn skip_white(s: Seq<char>, p: int) -> int
    decreases s.len() - p,
{
    if 0 <= p < s.len() && is_white_space(s[p]) {
        skip_white(s, p + 1)
    } else {
        p
    }
}

/// The first position at or after `p` that holds a double quote (or the end).
pub open spec fn string_end(s: Seq<char>, p: int) -> int
    decreases s.len() - p,
{
    if 0 <= p < s.len() && s[p] != '"' {
        string_end(s, p + 1)
    } else {
        p
    }
}

/// The first position at or after `p` that does not continue an identifier.
pub open spec fn ident_end(s: Seq<char>, p: int) -> int
    decreases s.len() - p,
{
    if 0 <= p < s.len() && is_ident_char(s[p]) {
        ident_end(s, p + 1)
    } else {
        p
    }
}

/// The first position at or after `p` that does not continue a number.
pub open spec fn number_end(s: Seq<char>, p: int) -> int
    decreases s.len() - p,
{
    if 0 <= p < s.len() && is_number_char(s[p]) {
        number_end(s, p + 1)
    } else {
        p
    }
}

/// The number of dots in `t`.
pub open spec fn dot_count(t: Seq<char>) -> nat
    decreases t.len(),
{
    if t.len() == 0 {
        0
    } else {
        dot_count(t.drop_last()) + if t.last() == '.' {
            1nat
        } else {
            0nat
        }
    }
}

/// The value of a string of decimal digits.
pub open spec fn decimal_value(t: Seq<char>) -> nat
    decreases t.len(),
{
    if t.len() == 0 {
        0
    } else {
        decimal_value(t.drop_last()) * 10 + ((t.last() as int) - ('0' as int)) as nat
    }
}

/// The token that a word makes: a keyword, or else an identifier.
pub open spec fn word_token(w: Seq<char>) -> TokenV {
    if w == "true"@ {
        TokenV::Sym(SYM_TRUE)
    } else if w == "false"@ {
        TokenV::Sym(SYM_FALSE)
    } else if w == "if"@ {
        TokenV::Sym(SYM_IF)
    } else if w == "else"@ {
        TokenV::Sym(SYM_ELSE)
    } else if w == "while"@ {
        TokenV::Sym(SYM_WHILE)
    } else if w == "function"@ {
        TokenV::Sym(SYM_FUNCTION)
    } else if w == "return"@ {
        TokenV::Sym(SYM_RETURN)
    } else if w == "vote"@ {
        TokenV::Sym(SYM_VOTE)
    } else if w == "allocate_resource"@ {
        TokenV::Sym(SYM_ALLOCATE_RESOURCE)
    } else if w == "update_reputation"@ {
        TokenV::Sym(SYM_UPDATE_REPUTATION)
    } else if w == "create_proposal"@ {
        TokenV::Sym(SYM_CREATE_PROPOSAL)
    } else if w == "get_proposal_status"@ {
        TokenV::Sym(SYM_GET_PROPOSAL_STATUS)
    } else if w == "emit"@ {
        TokenV::Sym(SYM_EMIT)
    } else {
        TokenV::Identifier(w)
    }
}

/// What one step of the lexer does at position `p`.
pub enum LexStep {
    /// No further token: the end of the input, or a character that starts none.
    Done,
    /// A token, and the position after it.
    Token(TokenV, int),
    /// A number literal that does not parse (more than one dot, or an
    /// integer beyond `i64::MAX`); lexing it panics.
    Fault,
}

/// The token at position `p` after white space, if a two-character operator
/// `c` followed by `next` is there; otherwise the one-character token `single`.
pub open spec fn pair_or(s: Seq<char>, q: int, next: char, pair: u8, single: u8) -> LexStep {
    if q + 1 < s.len() && s[q + 1] == next {
        LexStep::Token(TokenV::Sym(pair), q + 2)
    } else {
        LexStep::Token(TokenV::Sym(single), q + 1)
    }
}

/// One step of the lexer from position `p`.
pub open spec fn lex_step(s: Seq<char>, p: int) -> LexStep {
    let q = skip_white(s, p);
    if q < 0 || q >= s.len() {
        LexStep::Done
    } else {
        let c = s[q];
        if c == '(' {
            LexStep::Token(TokenV::Sym(SYM_L_PAREN), q + 1)
        } else if c == ')' {
            LexStep::Token(TokenV::Sym(SYM_R_PAREN), q + 1)
        } else if c == '{' {
            LexStep::Token(TokenV::Sym(SYM_L_BRACE), q + 1)
        } else if c == '}' {
            LexStep::Token(TokenV::Sym(SYM_R_BRACE), q + 1)
        } else if c == ';' {
            LexStep::Token(TokenV::Sym(SYM_SEMICOLON), q + 1)
        } else if c == ',' {
            LexStep::Token(TokenV::Sym(SYM_COMMA), q + 1)
        } else if c == '+' {
            LexStep::Token(TokenV::Sym(SYM_PLUS), q + 1)
        } else if c == '-' {
            LexStep::Token(TokenV::Sym(SYM_MINUS), q + 1)
        } else if c == '*' {
            LexStep::Token(TokenV::Sym(SYM_MULTIPLY), q + 1)
        } else if c == '/' {
            LexStep::Token(TokenV::Sym(SYM_DIVIDE), q + 1)
        } else if c == '%' {
            LexStep::Token(TokenV::Sym(SYM_MODULO), q + 1)
        } else if c == '=' {
            pair_or(s, q, '=', SYM_DOUBLE_EQUALS, SYM_EQUALS)
        } else if c == '!' {
            pair_or(s, q, '=', SYM_NOT_EQUALS, SYM_NOT)
        } else if c == '>' {
            pair_or(s, q, '=', SYM_GREATER_THAN_EQUALS, SYM_GREATER_THAN)
        } else if c == '<' {
            pair_or(s, q, '=', SYM_LESS_THAN_EQUALS, SYM_LESS_THAN)
        } else if c == '&' {
            if q + 1 < s.len() && s[q + 1] == '&' {
                LexStep::Token(TokenV::Sym(SYM_AND), q + 2)
            } else {
                LexStep::Done
            }
        } else if c == '|' {
            if q + 1 < s.len() && s[q + 1] == '|' {
                LexStep::Token(TokenV::Sym(SYM_OR), q + 2)
            } else {
                LexStep::Done
            }
        } else if c == '"' {
            let e = string_end(s, q + 1);
            LexStep::Token(TokenV::Str(s.subrange(q + 1, e)), e + 1)
        } else if char_alphabetic(c) {
            let e = ident_end(s, q);
            LexStep::Token(word_token(s.subrange(q, e)), e)
        } else if is_decimal_digit(c) {
            let e = number_end(s, q);
            let t = s.subrange(q, e);
            if dot_count(t) == 0 {
                if decimal_value(t) <= i64::MAX {
                    LexStep::Token(TokenV::Integer(decimal_value(t) as i64), e)
                } else {
                    LexStep::Fault
                }
            } else if dot_count(t) == 1 {
                LexStep::Token(TokenV::Float(t), e)
            } else {
                LexStep::Fault
            }
        } else {
            LexStep::Done
        }
    }
}

/// The tokens of `s` from position `p` on, or `None` when lexing panics.
pub open spec fn lex_from(s: Seq<char>, p: int) -> Option<Seq<TokenV>>
    decreases s.len() + 2 - p,
{
    if p < 0 || p > s.len() + 1 {
        None
    } else {
        match lex_step(s, p) {
            LexStep::Done => Some(Seq::empty()),
            LexStep::Fault => None,
            LexStep::Token(t, q) => if p < q <= s.len() + 1 {
                match lex_from(s, q) {
                    Some(rest) => Some(seq![t] + rest),
                    None => None,
                }
            } else {
                None
            },
        }
    }
}

/// The tokens of a whole source text, or `None` when lexing it panics.
pub open spec fn lex(s: Seq<char>) -> Option<Seq<TokenV>> {
    lex_from(s, 0)
}

proof fn lemma_skip_white(s: Seq<char>, p: int)
    requires
        0 <= p,
    ensures
        p <= skip_white(s, p),
        p <= s.len() ==> skip_white(s, p) <= s.len(),
        p > s.len() ==> skip_white(s, p) == p,
        0 <= skip_white(s, p) < s.len() ==> !is_white_space(s[skip_white(s, p)]),
    decreases s.len() - p,
{
    if 0 <= p < s.len() && is_white_space(s[p]) {
        lemma_skip_white(s, p + 1);
    }
}

proof fn lemma_string_end(s: Seq<char>, p: int)
    requires
        0 <= p <= s.len(),
    ensures
        p <= string_end(s, p) <= s.len(),
        forall|i: int| p <= i < string_end(s, p) ==> s[i] != '"',
        string_end(s, p) < s.len() ==> s[string_end(s, p)] == '"',
    decreases s.len() - p,
{
    if 0 <= p < s.len() && s[p] != '"' {
        lemma_string_end(s, p + 1);
    }
}

proof fn lemma_ident_end(s: Seq<char>, p: int)
    requires
        0 <= p <= s.len(),
    ensures
        p <= ident_end(s, p) <= s.len(),
        ident_end(s, p) < s.len() ==> !is_ident_char(s[ident_end(s, p)]),
    decreases s.len() - p,
{
    if 0 <= p < s.len() && is_ident_char(s[p]) {
        lemma_ident_end(s, p + 1);
    }
}

proof fn lemma_number_end(s: Seq<char>, p: int)
    requires
        0 <= p <= s.len(),
    ensures
        p <= number_end(s, p) <= s.len(),
        number_end(s, p) < s.len() ==> !is_number_char(s[number_end(s, p)]),
    decreases s.len() - p,
{
    if 0 <= p < s.len() && is_number_char(s[p]) {
        lemma_number_end(s, p + 1);
    }
}

/// Every token step moves forward, and never past one beyond the end.
pub proof fn lemma_lex_step_progress(s: Seq<char>, p: int)
    requires
        0 <= p <= s.len() + 1,
    ensures
        lex_step(s, p) matches LexStep::Token(_, q) ==> p < q <= s.len() + 1,
{
    lemma_skip_white(s, p);
    let q = skip_white(s, p);
    if 0 <= q < s.len() {
        let c = s[q];
        if c == '"' {
            lemma_string_end(s, q + 1);
        } else if char_alphabetic(c) {
            lemma_ident_end(s, q);
            assert(is_ident_char(s[q]));
            assert(ident_end(s, q) == ident_end(s, q + 1));
            lemma_ident_end(s, q + 1);
        } else if is_decimal_digit(c) {
            lemma_number_end(s, q + 1);
            assert(number_end(s, q) == number_end(s, q + 1));
        }
    }
}

/// `rest` with the token `t` in front, when lexing goes through.
pub open spec fn token_then(t: TokenV, rest: Option<Seq<TokenV>>) -> Option<Seq<TokenV>> {
    match rest {
        Some(r) => Some(seq![t] + r),
        None => None,
    }
}

/// The comparison operators. After white space, `<=`, `>=`, `==` and `!=`
/// are one token each (`LessThanEquals`, `GreaterThanEquals`,
/// `DoubleEquals`, `NotEquals`) and lexing goes on after both characters;
/// `<`, `>`, `=` and `!` not followed by `=` are the one-character tokens
/// `LessThan`, `GreaterThan`, `Equals` and `Not`, and lexing goes on after
/// that one character.
pub proof fn lemma_comparison_operators(s: Seq<char>, p: int)
    requires
        0 <= p <= s.len(),
    ensures
        ({
            let q = skip_white(s, p);
            let paired = q + 1 < s.len() && s[q + 1] == '=';
            &&& q < s.len() && s[q] == '<' && paired ==> lex_from(s, p) == token_then(
                Token::LessThanEquals@,
                lex_from(s, q + 2),
            )
            &&& q < s.len() && s[q] == '>' && paired ==> lex_from(s, p) == token_then(
                Token::GreaterThanEquals@,
                lex_from(s, q + 2),
            )
            &&& q < s.len() && s[q] == '=' && paired ==> lex_from(s, p) == token_then(
                Token::DoubleEquals@,
                lex_from(s, q + 2),
            )
            &&& q < s.len() && s[q] == '!' && paired ==> lex_from(s, p) == token_then(
                Token::NotEquals@,
                lex_from(s, q + 2),
            )
            &&& q < s.len() && s[q] == '<' && !paired ==> lex_from(s, p) == token_then(
                Token::LessThan@,
                lex_from(s, q + 1),
            )
            &&& q < s.len() && s[q] == '>' && !paired ==> lex_from(s, p) == token_then(
                Token::GreaterThan@,
                lex_from(s, q + 1),
            )
            &&& q < s.len() && s[q] == '=' && !paired ==> lex_from(s, p) == token_then(
                Token::Equals@,
                lex_from(s, q + 1),
            )
            &&& q < s.len() && s[q] == '!' && !paired ==> lex_from(s, p) == token_then(
                Token::Not@,
                lex_from(s, q + 1),
            )
        }),
{
    lemma_skip_white(s, p);
}

/// The punctuation. After white space, each of `( ) { } ; , + - * / %` is
/// one token (`LParen`, `RParen`, `LBrace`, `RBrace`, `Semicolon`,
/// `Comma`, `Plus`, `Minus`, `Multiply`, `Divide`, `Modulo`) and lexing
/// goes on after it; `&&` and `||` are `And` and `Or`, and lexing goes on
/// after both characters.
pub proof fn lemma_punctuation(s: Seq<char>, p: int)
    requires
        0 <= p <= s.len(),
    ensures
        ({
            let q = skip_white(s, p);
            let next = lex_from(s, q + 1);
            &&& q < s.len() && s[q] == '(' ==> lex_from(s, p) == token_then(Token::LParen@, next)
            &&& q < s.len() && s[q] == ')' ==> lex_from(s, p) == token_then(Token::RParen@, next)
            &&& q < s.len() && s[q] == '{' ==> lex_from(s, p) == token_then(Token::LBrace@, next)
            &&& q < s.len() && s[q] == '}' ==> lex_from(s, p) == token_then(Token::RBrace@, next)
            &&& q < s.len() && s[q] == ';' ==> lex_from(s, p) == token_then(Token::Semicolon@, next)
            &&& q < s.len() && s[q] == ',' ==> lex_from(s, p) == token_then(Token::Comma@, next)
            &&& q < s.len() && s[q] == '+' ==> lex_from(s, p) == token_then(Token::Plus@, next)
            &&& q < s.len() && s[q] == '-' ==> lex_from(s, p) == token_then(Token::Minus@, next)
            &&& q < s.len() && s[q] == '*' ==> lex_from(s, p) == token_then(Token::Multiply@, next)
            &&& q < s.len() && s[q] == '/' ==> lex_from(s, p) == token_then(Token::Divide@, next)
            &&& q < s.len() && s[q] == '%' ==> lex_from(s, p) == token_then(Token::Modulo@, next)
            &&& q + 1 < s.len() && s[q] == '&' && s[q + 1] == '&' ==> lex_from(s, p) == token_then(
                Token::And@,
                lex_from(s, q + 2),
            )
            &&& q + 1 < s.len() && s[q] == '|' && s[q + 1] == '|' ==> lex_from(s, p) == token_then(
                Token::Or@,
                lex_from(s, q + 2),
            )
        }),
{
    lemma_skip_white(s, p);
}

/// White space separates tokens and is otherwise passed over: lexing from
/// a blank gives what lexing from the next character gives.
pub proof fn lemma_white_space_is_skipped(s: Seq<char>, p: int)
    requires
        0 <= p < s.len(),
        is_white_space(s[p]),
    ensures
        lex_from(s, p) == lex_from(s, p + 1),
{
    lemma_skip_white(s, p + 1);
    lemma_lex_step_progress(s, p + 1);
}

/// String literals. After white space, a double quote, text without a
/// double quote, and a closing double quote make one `String` token
/// holding the text, and lexing goes on after the closing quote.
pub proof fn lemma_string_literal(s: Seq<char>, p: int, e: int)
    requires
        0 <= p <= s.len(),
        skip_white(s, p) < e < s.len(),
        s[skip_white(s, p)] == '"',
        s[e] == '"',
        forall|i: int| skip_white(s, p) < i < e ==> s[i] != '"',
    ensures
        lex_from(s, p) == token_then(TokenV::Str(s.subrange(skip_white(s, p) + 1, e)), lex_from(s, e + 1)),
{
    lemma_skip_white(s, p);
    lemma_string_end_at(s, skip_white(s, p) + 1, e);
}

/// The closing quote is the first double quote.
proof fn lemma_string_end_at(s: Seq<char>, p: int, e: int)
    requires
        0 <= p <= e < s.len(),
        s[e] == '"',
        forall|i: int| p <= i < e ==> s[i] != '"',
    ensures
        string_end(s, p) == e,
    decreases e - p,
{
    if p < e {
        lemma_string_end_at(s, p + 1, e);
    }
}

/// The first position at or after `p` not in an identifier is `e`, when
/// every character from `p` to `e` continues one and the one at `e` does not.
proof fn lemma_ident_end_at(s: Seq<char>, p: int, e: int)
    requires
        0 <= p <= e <= s.len(),
        forall|i: int| p <= i < e ==> is_ident_char(#[trigger] s[i]),
        e < s.len() ==> !is_ident_char(s[e]),
    ensures
        ident_end(s, p) == e,
    decreases e - p,
{
    if p < e {
        lemma_ident_end_at(s, p + 1, e);
    }
}

/// Words. After white space, a word that starts with a letter (ASCII, or
/// alphabetic beyond ASCII) and runs on
/// with letters, digits or underscores up to `e` is one token: the keyword
/// it spells (`vote`, `allocate_resource`, `update_reputation`, `emit`,
/// `create_proposal`, `get_proposal_status`, `return`, `if`, `else`,
/// `while`, `function`, `true`, `false`), or else an identifier naming it;
/// lexing goes on at `e`.
pub proof fn lemma_words(s: Seq<char>, p: int, e: int)
    requires
        0 <= p <= s.len(),
        skip_white(s, p) < e <= s.len(),
        char_alphabetic(s[skip_white(s, p)]),
        is_ascii_letter(s[skip_white(s, p)]) || '\x7f' < s[skip_white(s, p)],
        forall|i: int| skip_white(s, p) <= i < e ==> is_ident_char(#[trigger] s[i]),
        e < s.len() ==> !is_ident_char(s[e]),
    ensures
        ({
            let w = s.subrange(skip_white(s, p), e);
            let next = lex_from(s, e);
            &&& w == "vote"@ ==> lex_from(s, p) == token_then(Token::Vote@, next)
            &&& w == "allocate_resource"@ ==> lex_from(s, p) == token_then(Token::AllocateResource@, next)
            &&& w == "update_reputation"@ ==> lex_from(s, p) == token_then(Token::UpdateReputation@, next)
            &&& w == "emit"@ ==> lex_from(s, p) == token_then(Token::Emit@, next)
            &&& w == "create_proposal"@ ==> lex_from(s, p) == token_then(Token::CreateProposal@, next)
            &&& w == "get_proposal_status"@ ==> lex_from(s, p) == token_then(Token::GetProposalStatus@, next)
            &&& w == "return"@ ==> lex_from(s, p) == token_then(Token::Return@, next)
            &&& w == "if"@ ==> lex_from(s, p) == token_then(Token::If@, next)
            &&& w == "else"@ ==> lex_from(s, p) == token_then(Token::Else@, next)
            &&& w == "while"@ ==> lex_from(s, p) == token_then(Token::While@, next)
            &&& w == "function"@ ==> lex_from(s, p) == token_then(Token::Function@, next)
            &&& w == "true"@ ==> lex_from(s, p) == token_then(Token::True@, next)
            &&& w == "false"@ ==> lex_from(s, p) == token_then(Token::False@, next)
            &&& !(w == "vote"@ || w == "allocate_resource"@ || w == "update_reputation"@ || w == "emit"@
                || w == "create_proposal"@ || w == "get_proposal_status"@ || w == "return"@ || w == "if"@
                || w == "else"@ || w == "while"@ || w == "function"@ || w == "true"@ || w == "false"@)
                ==> lex_from(s, p) == token_then(TokenV::Identifier(w), next)
        }),
{
    lemma_skip_white(s, p);
    lemma_ident_end_at(s, skip_white(s, p), e);
    let w = s.subrange(skip_white(s, p), e);
    assert(lex_step(s, p) == LexStep::Token(word_token(w), e));
    lemma_keyword_tokens();
}

/// Each keyword's spelling lexes to that keyword.
proof fn lemma_keyword_tokens()
    ensures
        word_token("vote"@) == Token::Vote@,
        word_token("allocate_resource"@) == Token::AllocateResource@,
        word_token("update_reputation"@) == Token::UpdateReputation@,
        word_token("emit"@) == Token::Emit@,
        word_token("create_proposal"@) == Token::CreateProposal@,
        word_token("get_proposal_status"@) == Token::GetProposalStatus@,
        word_token("return"@) == Token::Return@,
        word_token("if"@) == Token::If@,
        word_token("else"@) == Token::Else@,
        word_token("while"@) == Token::While@,
        word_token("function"@) == Token::Function@,
        word_token("true"@) == Token::True@,
        word_token("false"@) == Token::False@,
{
    reveal_strlit("true");
    reveal_strlit("false");
    reveal_strlit("if");
    reveal_strlit("else");
    reveal_strlit("while");
    reveal_strlit("function");
    reveal_strlit("return");
    reveal_strlit("vote");
    reveal_strlit("allocate_resource");
    reveal_strlit("update_reputation");
    reveal_strlit("create_proposal");
    reveal_strlit("get_proposal_status");
    reveal_strlit("emit");
    assert("true"@.len() == 4 && "false"@.len() == 5 && "if"@.len() == 2 && "else"@.len() == 4);
    assert("while"@.len() == 5 && "function"@.len() == 8 && "return"@.len() == 6 && "vote"@.len() == 4);
    assert("allocate_resource"@.len() == 17 && "update_reputation"@.len() == 17);
    assert("create_proposal"@.len() == 15 && "get_proposal_status"@.len() == 19 && "emit"@.len() == 4);
    assert("true"@[0] != "else"@[0] && "true"@[0] != "vote"@[0] && "true"@[0] != "emit"@[0]);
    assert("else"@[0] != "vote"@[0] && "else"@[1] != "emit"@[1] && "vote"@[0] != "emit"@[0]);
    assert("false"@[0] != "while"@[0]);
    assert("allocate_resource"@[0] != "update_reputation"@[0]);
}

/// The first position at or after `p` not in a number is `e`, when every
/// character from `p` to `e` continues one and the one at `e` does not.
proof fn lemma_number_end_at(s: Seq<char>, p: int, e: int)
    requires
        0 <= p <= e <= s.len(),
        forall|i: int| p <= i < e ==> is_number_char(#[trigger] s[i]),
        e < s.len() ==> !is_number_char(s[e]),
    ensures
        number_end(s, p) == e,
    decreases e - p,
{
    if p < e {
        lemma_number_end_at(s, p + 1, e);
    }
}

/// A run of digits with no dot cannot hold one.
proof fn lemma_no_dots(t: Seq<char>)
    requires
        forall|i: int| 0 <= i < t.len() ==> is_decimal_digit(#[trigger] t[i]),
    ensures
        dot_count(t) == 0,
    decreases t.len(),
{
    if t.len() > 0 {
        assert forall|i: int| 0 <= i < t.drop_last().len() implies is_decimal_digit(#[trigger] t.drop_last()[i]) by {
            assert(t.drop_last()[i] == t[i]);
        }
        lemma_no_dots(t.drop_last());
        assert(is_decimal_digit(t[t.len() - 1]));
    }
}

/// Integer literals. After white space, a run of decimal digits up to `e`
/// (the first of which `char::is_alphabetic` rejects, as it does every digit)
/// (not followed by a digit or a dot) whose value fits in an `i64` is one
/// `Integer` token of that value, and lexing goes on at `e`.
pub proof fn lemma_integer_literal(s: Seq<char>, p: int, e: int)
    requires
        0 <= p <= s.len(),
        skip_white(s, p) < e <= s.len(),
        forall|i: int| skip_white(s, p) <= i < e ==> is_decimal_digit(#[trigger] s[i]),
        !char_alphabetic(s[skip_white(s, p)]),
        e < s.len() ==> !is_number_char(s[e]),
        decimal_value(s.subrange(skip_white(s, p), e)) <= i64::MAX,
    ensures
        lex_from(s, p) == token_then(
            TokenV::Integer(decimal_value(s.subrange(skip_white(s, p), e)) as i64),
            lex_from(s, e),
        ),
{
    let q = skip_white(s, p);
    lemma_skip_white(s, p);
    assert(is_decimal_digit(s[q]));
    lemma_number_end_at(s, q, e);
    let t = s.subrange(q, e);
    assert forall|i: int| 0 <= i < t.len() implies is_decimal_digit(#[trigger] t[i]) by {
        assert(t[i] == s[q + i]);
    }
    lemma_no_dots(t);
}

/// A source text that is just a comparison operator lexes to that one token.
pub proof fn lemma_lone_comparison_operator(s: Seq<char>)
    ensures
        s == seq!['<', '='] ==> lex(s) == Some(seq![Token::LessThanEquals@]),
        s == seq!['>', '='] ==> lex(s) == Some(seq![Token::GreaterThanEquals@]),
        s == seq!['=', '='] ==> lex(s) == Some(seq![Token::DoubleEquals@]),
        s == seq!['!', '='] ==> lex(s) == Some(seq![Token::NotEquals@]),
{
    if s.len() == 2 {
        assert(!is_white_space('<') && !is_white_space('>') && !is_white_space('=') && !is_white_space('!'));
        assert(skip_white(s, 2) == 2);
        lemma_comparison_operators(s, 0);
        assert(lex_from(s, 2) == Some(Seq::<TokenV>::empty()));
        assert(seq![Token::LessThanEquals@] + Seq::<TokenV>::empty() =~= seq![Token::LessThanEquals@]);
        assert(seq![Token::GreaterThanEquals@] + Seq::<TokenV>::empty() =~= seq![Token::GreaterThanEquals@]);
        assert(seq![Token::DoubleEquals@] + Seq::<TokenV>::empty() =~= seq![Token::DoubleEquals@]);
        assert(seq![Token::NotEquals@] + Seq::<TokenV>::empty() =~= seq![Token::NotEquals@]);
    }
}

/// What the lexer hands back from one step.
pub enum LexOutcome {
    Done,
    Token(Token),
    Fault,
}

/// The lexer: a source text as characters, and the position reached.
pub struct Lexer {
    input: Vec<char>,
    position: usize,
}

impl Lexer {
    /// The characters of the source text.
    pub closed spec fn chars(&self) -> Seq<char> {
        self.input@
    }

    /// The position reached.
    pub closed spec fn pos(&self) -> int {
        self.position as int
    }

    pub closed spec fn wf(&self) -> bool {
        &&& self.input@.len() + 2 < usize::MAX
        &&& self.position <= self.input@.len() + 1
    }

    /// A lexer at the start of `input`.
    pub fn new(input: &str) -> (l: Lexer)
        requires
            input@.len() + 2 < usize::MAX,
        ensures
            l.wf(),
            l.chars() == input@,
            l.pos() == 0,
    {
        Lexer { input: chars_of(input), position: 0 }
    }

    /// Moves past white space.
    fn skip_whitespace(&mut self)
        requires
            old(self).wf(),
        ensures
            final(self).wf(),
            final(self).input == old(self).input,
            final(self).pos() == skip_white(old(self).chars(), old(self).pos()),
    {
        proof {
            lemma_skip_white(self.input@, self.position as int);
        }
        while self.position < self.input.len() && char_is_whitespace(self.input[self.position])
            invariant
                self.wf(),
                self.input == old(self).input,
                skip_white(self.input@, self.position as int) == skip_white(
                    old(self).input@,
                    old(self).position as int,
                ),
            decreases self.input@.len() - self.position,
        {
            self.position = self.position + 1;
        }
    }

    /// The character after the current one, if any.
    fn peek_next(&self) -> (r: Option<char>)
        requires
            self.wf(),
        ensures
            r == if self.pos() + 1 < self.chars().len() {
                Some(self.chars()[self.pos() + 1])
            } else {
                None
            },
    {
        if self.position + 1 < self.input.len() {
            Some(self.input[self.position + 1])
        } else {
            None
        }
    }

    /// Reads a string literal that starts at the current position.
    fn read_string(&mut self) -> (t: Token)
        requires
            old(self).wf(),
            old(self).pos() < old(self).chars().len(),
            old(self).chars()[old(self).pos()] == '"',
        ensures
            final(self).wf(),
            final(self).input == old(self).input,
            t@ == TokenV::Str(
                old(self).chars().subrange(
                    old(self).pos() + 1,
                    string_end(old(self).chars(), old(self).pos() + 1),
                ),
            ),
            final(self).pos() == string_end(old(self).chars(), old(self).pos() + 1) + 1,
    {
        self.position = self.position + 1;
        let start = self.position;
        proof {
            lemma_string_end(self.input@, start as int);
        }
        let mut value = String::new();
        while self.position < self.input.len() && self.input[self.position] != '"'
            invariant
                self.input == old(self).input,
                start <= self.position <= self.input@.len(),
                self.input@.len() + 2 < usize::MAX,
                string_end(self.input@, self.position as int) == string_end(
                    self.input@,
                    start as int,
                ),
                value@ == self.input@.subrange(start as int, self.position as int),
            decreases self.input@.len() - self.position,
        {
            let c = self.input[self.position];
            push_char(&mut value, c);
            self.position = self.position + 1;
            assert(value@ =~= self.input@.subrange(start as int, self.position as int));
        }
        self.position = self.position + 1;
        Token::String(value)
    }

    /// Reads an identifier or keyword that starts at the current position.
    fn read_identifier(&mut self) -> (t: Token)
        requires
            old(self).wf(),
            old(self).pos() < old(self).chars().len(),
        ensures
            final(self).wf(),
            final(self).input == old(self).input,
            t@ == word_token(
                old(self).chars().subrange(old(self).pos(), ident_end(old(self).chars(), old(self).pos())),
            ),
            final(self).pos() == ident_end(old(self).chars(), old(self).pos()),
    {
        let start = self.position;
        proof {
            lemma_ident_end(self.input@, start as int);
        }
        let mut value = String::new();
        while self.position < self.input.len() && (char_is_alphanumeric(self.input[self.position])
            || self.input[self.position] == '_')
            invariant
                self.input == old(self).input,
                start <= self.position <= self.input@.len(),
                self.input@.len() + 2 < usize::MAX,
                ident_end(self.input@, self.position as int) == ident_end(self.input@, start as int),
                value@ == self.input@.subrange(start as int, self.position as int),
            decreases self.input@.len() - self.position,
        {
            let c = self.input[self.position];
            push_char(&mut value, c);
            self.position = self.position + 1;
            assert(value@ =~= self.input@.subrange(start as int, self.position as int));
        }
        word_to_token(value)
    }

    /// Reads a number that starts at the current position; `None` where the
    /// literal does not parse.
    fn read_number(&mut self) -> (t: Option<Token>)
        requires
            old(self).wf(),
            old(self).pos() < old(self).chars().len(),
        ensures
            final(self).wf(),
            final(self).input == old(self).input,
            final(self).pos() == number_end(old(self).chars(), old(self).pos()),
            ({
                let txt = old(self).chars().subrange(
                    old(self).pos(),
                    number_end(old(self).chars(), old(self).pos()),
                );
                if dot_count(txt) == 0 {
                    if decimal_value(txt) <= i64::MAX {
                        t == Some(Token::Integer(decimal_value(txt) as i64))
                    } else {
                        t is None
                    }
                } else if dot_count(txt) == 1 {
                    t matches Some(tok) && tok@ == TokenV::Float(txt)
                } else {
                    t is None
                }
            }),
    {
        let start = self.position;
        proof {
            lemma_number_end(self.input@, start as int);
        }
        let mut value = String::new();
        let mut dots: usize = 0;
        let mut n: i64 = 0;
        let mut overflow = false;
        while self.position < self.input.len() && (char_is_decimal_digit(self.input[self.position])
            || self.input[self.position] == '.')
            invariant
                self.input == old(self).input,
                start <= self.position <= self.input@.len(),
                self.input@.len() + 2 < usize::MAX,
                number_end(self.input@, self.position as int) == number_end(self.input@, start as int),
                value@ == self.input@.subrange(start as int, self.position as int),
                dots == dot_count(value@),
                dots <= self.position - start,
                dots == 0 && !overflow ==> n == decimal_value(value@),
                0 <= n,
                dots == 0 && overflow ==> decimal_value(value@) > i64::MAX,
            decreases self.input@.len() - self.position,
        {
            let c = self.input[self.position];
            let ghost before = value@;
            push_char(&mut value, c);
            self.position = self.position + 1;
            assert(value@ =~= self.input@.subrange(start as int, self.position as int));
            assert(value@.drop_last() =~= before);
            if c == '.' {
                dots = dots + 1;
            } else if !overflow {
                let d: u32 = (c as u32) - ('0' as u32);
                let next: u128 = (n as u128) * 10 + (d as u128);
                if next > 0x7fff_ffff_ffff_ffffu128 {
                    overflow = true;
                } else {
                    n = next as i64;
                }
            }
        }
        if dots == 0 {
            if overflow {
                None
            } else {
                Some(Token::Integer(n))
            }
        } else if dots == 1 {
            Some(Token::Float(value))
        } else {
            None
        }
    }

    /// One step of the lexer.
    pub fn step(&mut self) -> (r: LexOutcome)
        requires
            old(self).wf(),
        ensures
            final(self).wf(),
            final(self).chars() == old(self).chars(),
            match lex_step(old(self).chars(), old(self).pos()) {
                LexStep::Done => r is Done,
                LexStep::Fault => r is Fault,
                LexStep::Token(tv, q) => r matches LexOutcome::Token(t) && t@ == tv && final(self).pos() == q,
            },
    {
        self.skip_whitespace();
        if self.position >= self.input.len() {
            return LexOutcome::Done;
        }
        let c = self.input[self.position];
        let next = self.peek_next();
        if c == '(' {
            self.position = self.position + 1;
            LexOutcome::Token(Token::LParen)
        } else if c == ')' {
            self.position = self.position + 1;
            LexOutcome::Token(Token::RParen)
        } else if c == '{' {
            self.position = self.position + 1;
            LexOutcome::Token(Token::LBrace)
        } else if c == '}' {
            self.position = self.position + 1;
            LexOutcome::Token(Token::RBrace)
        } else if c == ';' {
            self.position = self.position + 1;
            LexOutcome::Token(Token::Semicolon)
        } else if c == ',' {
            self.position = self.position + 1;
            LexOutcome::Token(Token::Comma)
        } else if c == '+' {
            self.position = self.position + 1;
            LexOutcome::Token(Token::Plus)
        } else if c == '-' {
            self.position = self.position + 1;
            LexOutcome::Token(Token::Minus)
        } else if c == '*' {
            self.position = self.position + 1;
            LexOutcome::Token(Token::Multiply)
        } else if c == '/' {
            self.position = self.position + 1;
            LexOutcome::Token(Token::Divide)
        } else if c == '%' {
            self.position = self.position + 1;
            LexOutcome::Token(Token::Modulo)
        } else if c == '=' {
            if next == Some('=') {
                self.position = self.position + 2;
                LexOutcome::Token(Token::DoubleEquals)
            } else {
                self.position = self.position + 1;
                LexOutcome::Token(Token::Equals)
            }
        } else if c == '!' {
            if next == Some('=') {
                self.position = self.position + 2;
                LexOutcome::Token(Token::NotEquals)
            } else {
                self.position = self.position + 1;
                LexOutcome::Token(Token::Not)
            }
        } else if c == '>' {
            if next == Some('=') {
                self.position = self.position + 2;
                LexOutcome::Token(Token::GreaterThanEquals)
            } else {
                self.position = self.position + 1;
                LexOutcome::Token(Token::GreaterThan)
            }
        } else if c == '<' {
            if next == Some('=') {
                self.position = self.position + 2;
                LexOutcome::Token(Token::LessThanEquals)
            } else {
                self.position = self.position + 1;
                LexOutcome::Token(Token::LessThan)
            }
        } else if c == '&' {
            if next == Some('&') {
                self.position = self.position + 2;
                LexOutcome::Token(Token::And)
            } else {
                LexOutcome::Done
            }
        } else if c == '|' {
            if next == Some('|') {
                self.position = self.position + 2;
                LexOutcome::Token(Token::Or)
            } else {
                LexOutcome::Done
            }
        } else if c == '"' {
            LexOutcome::Token(self.read_string())
        } else if char_is_alphabetic(c) {
            LexOutcome::Token(self.read_identifier())
        } else if char_is_decimal_digit(c) {
            match self.read_number() {
                Some(t) => LexOutcome::Token(t),
                None => LexOutcome::Fault,
            }
        } else {
            LexOutcome::Done
        }
    }

    /// The next token, if any. The number literal ahead, if any, must parse.
    pub fn next_token(&mut self) -> (r: Option<Token>)
        requires
            old(self).wf(),
            !(lex_step(old(self).chars(), old(self).pos()) is Fault),
        ensures
            final(self).wf(),
            final(self).chars() == old(self).chars(),
            match lex_step(old(self).chars(), old(self).pos()) {
                LexStep::Token(tv, q) => r matches Some(t) && t@ == tv && final(self).pos() == q,
                _ => r is None,
            },
    {
        match self.step() {
            LexOutcome::Token(t) => Some(t),
            _ => None,
        }
    }

    /// All remaining tokens, or `None` where lexing would panic.
    pub fn try_tokens(&mut self) -> (r: Option<Vec<Token>>)
        requires
            old(self).wf(),
        ensures
            final(self).wf(),
            final(self).chars() == old(self).chars(),
            match lex_from(old(self).chars(), old(self).pos()) {
                Some(tv) => r matches Some(ts) && tokens_view(ts@) == tv,
                None => r is None,
            },
    {
        let mut tokens: Vec<Token> = Vec::new();
        let ghost s = self.input@;
        let ghost p0 = self.position as int;
        loop
            invariant
                self.wf(),
                self.input@ == s,
                s == old(self).chars(),
                p0 == old(self).pos(),
                p0 <= self.position,
                lex_from(s, p0) == match lex_from(s, self.position as int) {
                    Some(rest) => Some(tokens_view(tokens@) + rest),
                    None => None::<Seq<TokenV>>,
                },
            decreases s.len() + 2 - self.position,
        {
            let ghost p = self.position as int;
            proof {
                lemma_lex_step_progress(s, p);
            }
            match self.step() {
                LexOutcome::Token(t) => {
                    let ghost before = tokens@;
                    tokens.push(t);
                    proof {
                        assert(tokens_view(tokens@) =~= tokens_view(before).push(t@));
                        match lex_from(s, self.position as int) {
                            Some(rest) => {
                                assert(tokens_view(before) + (seq![t@] + rest) =~= tokens_view(
                                    tokens@,
                                ) + rest);
                            },
                            None => {},
                        }
                    }
                },
                LexOutcome::Done => {
                    proof {
                        assert(lex_from(s, p) == Some(Seq::<TokenV>::empty()));
                        assert(tokens_view(tokens@) + Seq::<TokenV>::empty() =~= tokens_view(
                            tokens@,
                        ));
                    }
                    return Some(tokens);
                },
                LexOutcome::Fault => {
                    assert(lex_from(s, p) is None);
                    return None;
                },
            }
        }
    }

    /// All remaining tokens. Every number literal ahead must parse.
    pub fn tokens(&mut self) -> (r: Vec<Token>)
        requires
            old(self).wf(),
            lex_from(old(self).chars(), old(self).pos()) is Some,
        ensures
            final(self).wf(),
            final(self).chars() == old(self).chars(),
            tokens_view(r@) == lex_from(old(self).chars(), old(self).pos()).unwrap(),
    {
        let mut tokens: Vec<Token> = Vec::new();
        let ghost s = self.input@;
        let ghost p0 = self.position as int;
        loop
            invariant
                self.wf(),
                self.input@ == s,
                s == old(self).chars(),
                p0 == old(self).pos(),
                lex_from(s, self.position as int) is Some,
                lex_from(s, p0) == Some(tokens_view(tokens@) + lex_from(s, self.position as int).unwrap()),
            decreases s.len() + 2 - self.position,
        {
            let ghost p = self.position as int;
            proof {
                lemma_lex_step_progress(s, p);
            }
            match self.next_token() {
                Some(t) => {
                    let ghost before = tokens@;
                    tokens.push(t);
                    proof {
                        assert(tokens_view(tokens@) =~= tokens_view(before).push(t@));
                        let rest = lex_from(s, self.position as int).unwrap();
                        assert(tokens_view(before) + (seq![t@] + rest) =~= tokens_view(tokens@) + rest);
                    }
                },
                None => {
                    proof {
                        assert(lex_from(s, p) == Some(Seq::<TokenV>::empty()));
                        assert(tokens_view(tokens@) + Seq::<TokenV>::empty() =~= tokens_view(tokens@));
                    }
                    return tokens;
                },
            }
        }
    }
}

/// The token a word makes: a keyword, or else an identifier.
fn word_to_token(w: String) -> (t: Token)
    ensures
        t@ == word_token(w@),
{
    if is_text(&w, "true") {
        Token::True
    } else if is_text(&w, "false") {
        Token::False
    } else if is_text(&w, "if") {
        Token::If
    } else if is_text(&w, "else") {
        Token::Else
    } else if is_text(&w, "while") {
        Token::While
    } else if is_text(&w, "function") {
        Token::Function
    } else if is_text(&w, "return") {
        Token::Return
    } else if is_text(&w, "vote") {
        Token::Vote
    } else if is_text(&w, "allocate_resource") {
        Token::AllocateResource
    } else if is_text(&w, "update_reputation") {
        Token::UpdateReputation
    } else if is_text(&w, "create_proposal") {
        Token::CreateProposal
    } else if is_text(&w, "get_proposal_status") {
        Token::GetProposalStatus
    } else if is_text(&w, "emit") {
        Token::Emit
    } else {
        Token::Identifier(w)
    }
}

} // verus!
