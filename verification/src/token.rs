//! Lexical token kinds, tokens, and their mathematical models.

use vstd::prelude::*;

verus! {

/// The closed set of lexical token kinds. The fixed numeric code of each kind
/// (see [`spec_kind_code`]) is part of the cross-implementation contract and
/// is produced by [`TokenKind::code`].
#[derive(Clone, Copy, PartialEq, Eq, Structural, Debug)]
pub enum TokenKind {
    Eof,
    Var,
    If,
    Else,
    While,
    LParen,
    RParen,
    LBrace,
    RBrace,
    Semicolon,
    Plus,
    Minus,
    Multiply,
    Divide,
    Greater,
    Less,
    Equal,
    Number,
    StringLit,
    Identifier,
}

/// The fixed numeric code of a token kind.
pub open spec fn spec_kind_code(k: TokenKind) -> u8 {
    match k {
        TokenKind::Eof => 0,
        TokenKind::Var => 1,
        TokenKind::If => 2,
        TokenKind::Else => 3,
        TokenKind::While => 4,
        TokenKind::LParen => 5,
        TokenKind::RParen => 6,
        TokenKind::LBrace => 7,
        TokenKind::RBrace => 8,
        TokenKind::Semicolon => 9,
        TokenKind::Plus => 10,
        TokenKind::Minus => 11,
        TokenKind::Multiply => 12,
        TokenKind::Divide => 13,
        TokenKind::Greater => 14,
        TokenKind::Less => 15,
        TokenKind::Equal => 16,
        TokenKind::Number => 17,
        TokenKind::StringLit => 18,
        TokenKind::Identifier => 19,
    }
}

impl TokenKind {
    /// The fixed numeric code of this kind.
    pub fn code(self) -> (r: u8)
        ensures
            r == spec_kind_code(self),
    {
        match self {
            TokenKind::Eof => 0,
            TokenKind::Var => 1,
            TokenKind::If => 2,
            TokenKind::Else => 3,
            TokenKind::While => 4,
            TokenKind::LParen => 5,
            TokenKind::RParen => 6,
            TokenKind::LBrace => 7,
            TokenKind::RBrace => 8,
            TokenKind::Semicolon => 9,
            TokenKind::Plus => 10,
            TokenKind::Minus => 11,
            TokenKind::Multiply => 12,
            TokenKind::Divide => 13,
            TokenKind::Greater => 14,
            TokenKind::Less => 15,
            TokenKind::Equal => 16,
            TokenKind::Number => 17,
            TokenKind::StringLit => 18,
            TokenKind::Identifier => 19,
        }
    }

    /// The kind whose fixed numeric code is `value`, or `None` when no kind
    /// has that code.
    pub fn from_code(value: u8) -> (r: Option<TokenKind>)
        ensures
            r matches Some(k) ==> spec_kind_code(k) == value,
            r is None <==> value > 19,
    {
        match value {
            0 => Some(TokenKind::Eof),
            1 => Some(TokenKind::Var),
            2 => Some(TokenKind::If),
            3 => Some(TokenKind::Else),
            4 => Some(TokenKind::While),
            5 => Some(TokenKind::LParen),
            6 => Some(TokenKind::RParen),
            7 => Some(TokenKind::LBrace),
            8 => Some(TokenKind::RBrace),
            9 => Some(TokenKind::Semicolon),
            10 => Some(TokenKind::Plus),
            11 => Some(TokenKind::Minus),
            12 => Some(TokenKind::Multiply),
            13 => Some(TokenKind::Divide),
            14 => Some(TokenKind::Greater),
            15 => Some(TokenKind::Less),
            16 => Some(TokenKind::Equal),
            17 => Some(TokenKind::Number),
            18 => Some(TokenKind::StringLit),
            19 => Some(TokenKind::Identifier),
            _ => None,
        }
    }
}

/// The mathematical model of a token: its kind, its text as a sequence of
/// characters, and its 1-based source position.
pub struct TokenModel {
    pub kind: TokenKind,
    pub text: Seq<char>,
    pub line: int,
    pub column: int,
}

/// One lexical unit: a kind, the text it was scanned from, and the 1-based
/// line and column of its first character.
#[derive(Debug)]
pub struct Token {
    pub kind: TokenKind,
    pub text: String,
    pub line: usize,
    pub column: usize,
}

impl View for Token {
    type V = TokenModel;

    open spec fn view(&self) -> TokenModel {
        TokenModel {
            kind: self.kind,
            text: self.text@,
            line: self.line as int,
            column: self.column as int,
        }
    }
}

impl Clone for Token {
    fn clone(&self) -> (r: Token)
        ensures
            r@ == self@,
    {
        Token { kind: self.kind, text: self.text.clone(), line: self.line, column: self.column }
    }
}

/// The model of a sequence of tokens.
pub open spec fn tokens_model(toks: Seq<Token>) -> Seq<TokenModel> {
    toks.map_values(|t: Token| t@)
}

/// A well-formed token sequence, as the tokenizer produces it: non-empty,
/// ending in the one EOF token, with no EOF token anywhere earlier.
pub open spec fn wf_tokens(toks: Seq<TokenModel>) -> bool {
    &&& toks.len() >= 1
    &&& toks[toks.len() - 1].kind == TokenKind::Eof
    &&& forall|k: int| 0 <= k < toks.len() - 1 ==> toks[k].kind != TokenKind::Eof
}

/// Relies on `String::push`: appends exactly the given character to the end
/// of the string.
#[verifier::external_body]
pub(crate) fn push_char(s: &mut String, c: char)
    ensures
        final(s)@ == old(s)@.push(c),
{
    s.push(c);
}

} // verus!
