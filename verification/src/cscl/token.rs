//! Tokens of the contract language and the opcodes it compiles to.
use vstd::prelude::*;

verus! {

/// A token of the contract language.
#[derive(Debug, Clone, PartialEq)]
pub enum Token {
    Identifier(String),
    Integer(i64),
    /// A decimal literal with a fractional part, kept as written.
    Float(String),
    String(String),
    True,
    False,
    If,
    Else,
    While,
    Function,
    Return,
    Vote,
    AllocateResource,
    UpdateReputation,
    CreateProposal,
    GetProposalStatus,
    Emit,
    LParen,
    RParen,
    LBrace,
    RBrace,
    Semicolon,
    Comma,
    Equals,
    Plus,
    Minus,
    Multiply,
    Divide,
    Modulo,
    DoubleEquals,
    NotEquals,
    GreaterThan,
    LessThan,
    GreaterThanEquals,
    LessThanEquals,
    And,
    Or,
    Not,
}

// The code of each token that carries no text or number.
pub const SYM_TRUE: u8 = 0;
pub const SYM_FALSE: u8 = 1;
pub const SYM_IF: u8 = 2;
pub const SYM_ELSE: u8 = 3;
pub const SYM_WHILE: u8 = 4;
pub const SYM_FUNCTION: u8 = 5;
pub const SYM_RETURN: u8 = 6;
pub const SYM_VOTE: u8 = 7;
pub const SYM_ALLOCATE_RESOURCE: u8 = 8;
pub const SYM_UPDATE_REPUTATION: u8 = 9;
pub const SYM_CREATE_PROPOSAL: u8 = 10;
pub const SYM_GET_PROPOSAL_STATUS: u8 = 11;
pub const SYM_EMIT: u8 = 12;
pub const SYM_L_PAREN: u8 = 13;
pub const SYM_R_PAREN: u8 = 14;
pub const SYM_L_BRACE: u8 = 15;
pub const SYM_R_BRACE: u8 = 16;
pub const SYM_SEMICOLON: u8 = 17;
pub const SYM_COMMA: u8 = 18;
pub const SYM_EQUALS: u8 = 19;
pub const SYM_PLUS: u8 = 20;
pub const SYM_MINUS: u8 = 21;
pub const SYM_MULTIPLY: u8 = 22;
pub const SYM_DIVIDE: u8 = 23;
pub const SYM_MODULO: u8 = 24;
pub const SYM_DOUBLE_EQUALS: u8 = 25;
pub const SYM_NOT_EQUALS: u8 = 26;
pub const SYM_GREATER_THAN: u8 = 27;
pub const SYM_LESS_THAN: u8 = 28;
pub const SYM_GREATER_THAN_EQUALS: u8 = 29;
pub const SYM_LESS_THAN_EQUALS: u8 = 30;
pub const SYM_AND: u8 = 31;
pub const SYM_OR: u8 = 32;
pub const SYM_NOT: u8 = 33;


/// A token seen mathematically: text as character sequences, and every token
/// without a payload as its code.
pub enum TokenV {
    Identifier(Seq<char>),
    Integer(i64),
    Float(Seq<char>),
    Str(Seq<char>),
    Sym(u8),
}

impl View for Token {
    type V = TokenV;

    open spec fn view(&self) -> TokenV {
        match self {
            Token::Identifier(s) => TokenV::Identifier(s@),
            Token::Integer(n) => TokenV::Integer(*n),
            Token::Float(s) => TokenV::Float(s@),
            Token::String(s) => TokenV::Str(s@),
            Token::True => TokenV::Sym(SYM_TRUE),
            Token::False => TokenV::Sym(SYM_FALSE),
            Token::If => TokenV::Sym(SYM_IF),
            Token::Else => TokenV::Sym(SYM_ELSE),
            Token::While => TokenV::Sym(SYM_WHILE),
            Token::Function => TokenV::Sym(SYM_FUNCTION),
            Token::Return => TokenV::Sym(SYM_RETURN),
            Token::Vote => TokenV::Sym(SYM_VOTE),
            Token::AllocateResource => TokenV::Sym(SYM_ALLOCATE_RESOURCE),
            Token::UpdateReputation => TokenV::Sym(SYM_UPDATE_REPUTATION),
            Token::CreateProposal => TokenV::Sym(SYM_CREATE_PROPOSAL),
            Token::GetProposalStatus => TokenV::Sym(SYM_GET_PROPOSAL_STATUS),
            Token::Emit => TokenV::Sym(SYM_EMIT),
            Token::LParen => TokenV::Sym(SYM_L_PAREN),
            Token::RParen => TokenV::Sym(SYM_R_PAREN),
            Token::LBrace => TokenV::Sym(SYM_L_BRACE),
            Token::RBrace => TokenV::Sym(SYM_R_BRACE),
            Token::Semicolon => TokenV::Sym(SYM_SEMICOLON),
            Token::Comma => TokenV::Sym(SYM_COMMA),
            Token::Equals => TokenV::Sym(SYM_EQUALS),
            Token::Plus => TokenV::Sym(SYM_PLUS),
            Token::Minus => TokenV::Sym(SYM_MINUS),
            Token::Multiply => TokenV::Sym(SYM_MULTIPLY),
            Token::Divide => TokenV::Sym(SYM_DIVIDE),
            Token::Modulo => TokenV::Sym(SYM_MODULO),
            Token::DoubleEquals => TokenV::Sym(SYM_DOUBLE_EQUALS),
            Token::NotEquals => TokenV::Sym(SYM_NOT_EQUALS),
            Token::GreaterThan => TokenV::Sym(SYM_GREATER_THAN),
            Token::LessThan => TokenV::Sym(SYM_LESS_THAN),
            Token::GreaterThanEquals => TokenV::Sym(SYM_GREATER_THAN_EQUALS),
            Token::LessThanEquals => TokenV::Sym(SYM_LESS_THAN_EQUALS),
            Token::And => TokenV::Sym(SYM_AND),
            Token::Or => TokenV::Sym(SYM_OR),
            Token::Not => TokenV::Sym(SYM_NOT),
        }
    }
}

/// The views of a sequence of tokens.
pub open spec fn tokens_view(ts: Seq<Token>) -> Seq<TokenV> {
    ts.map_values(|t: Token| t@)
}

/// The code of a token without payload; `None` for identifiers, numbers and strings.
pub fn code_of(t: &Token) -> (r: Option<u8>)
    ensures
        r matches Some(c) ==> t@ == TokenV::Sym(c),
        r is None ==> !(t@ is Sym),
{
    match t {
            Token::Identifier(_) => None,
            Token::Integer(_) => None,
            Token::Float(_) => None,
            Token::String(_) => None,
            Token::True => Some(SYM_TRUE),
            Token::False => Some(SYM_FALSE),
            Token::If => Some(SYM_IF),
            Token::Else => Some(SYM_ELSE),
            Token::While => Some(SYM_WHILE),
            Token::Function => Some(SYM_FUNCTION),
            Token::Return => Some(SYM_RETURN),
            Token::Vote => Some(SYM_VOTE),
            Token::AllocateResource => Some(SYM_ALLOCATE_RESOURCE),
            Token::UpdateReputation => Some(SYM_UPDATE_REPUTATION),
            Token::CreateProposal => Some(SYM_CREATE_PROPOSAL),
            Token::GetProposalStatus => Some(SYM_GET_PROPOSAL_STATUS),
            Token::Emit => Some(SYM_EMIT),
            Token::LParen => Some(SYM_L_PAREN),
            Token::RParen => Some(SYM_R_PAREN),
            Token::LBrace => Some(SYM_L_BRACE),
            Token::RBrace => Some(SYM_R_BRACE),
            Token::Semicolon => Some(SYM_SEMICOLON),
            Token::Comma => Some(SYM_COMMA),
            Token::Equals => Some(SYM_EQUALS),
            Token::Plus => Some(SYM_PLUS),
            Token::Minus => Some(SYM_MINUS),
            Token::Multiply => Some(SYM_MULTIPLY),
            Token::Divide => Some(SYM_DIVIDE),
            Token::Modulo => Some(SYM_MODULO),
            Token::DoubleEquals => Some(SYM_DOUBLE_EQUALS),
            Token::NotEquals => Some(SYM_NOT_EQUALS),
            Token::GreaterThan => Some(SYM_GREATER_THAN),
            Token::LessThan => Some(SYM_LESS_THAN),
            Token::GreaterThanEquals => Some(SYM_GREATER_THAN_EQUALS),
            Token::LessThanEquals => Some(SYM_LESS_THAN_EQUALS),
            Token::And => Some(SYM_AND),
            Token::Or => Some(SYM_OR),
            Token::Not => Some(SYM_NOT),
    }
}

/// An instruction of the cooperative virtual machine.
#[derive(Debug, Clone, PartialEq)]
pub enum Opcode {
    Return,
    Store(String),
    Call(String),
    Vote(String),
    AllocateResource(String),
    UpdateReputation(String),
    CreateProposal,
    GetProposalStatus,
    Emit(String),
}

/// An opcode seen mathematically.
pub enum OpcodeV {
    Return,
    Store(Seq<char>),
    Call(Seq<char>),
    Vote(Seq<char>),
    AllocateResource(Seq<char>),
    UpdateReputation(Seq<char>),
    CreateProposal,
    GetProposalStatus,
    Emit(Seq<char>),
}

impl View for Opcode {
    type V = OpcodeV;

    open spec fn view(&self) -> OpcodeV {
        match self {
            Opcode::Return => OpcodeV::Return,
            Opcode::Store(s) => OpcodeV::Store(s@),
            Opcode::Call(s) => OpcodeV::Call(s@),
            Opcode::Vote(s) => OpcodeV::Vote(s@),
            Opcode::AllocateResource(s) => OpcodeV::AllocateResource(s@),
            Opcode::UpdateReputation(s) => OpcodeV::UpdateReputation(s@),
            Opcode::CreateProposal => OpcodeV::CreateProposal,
            Opcode::GetProposalStatus => OpcodeV::GetProposalStatus,
            Opcode::Emit(s) => OpcodeV::Emit(s@),
        }
    }
}

/// The views of a sequence of opcodes.
pub open spec fn opcodes_view(os: Seq<Opcode>) -> Seq<OpcodeV> {
    os.map_values(|o: Opcode| o@)
}

} // verus!
