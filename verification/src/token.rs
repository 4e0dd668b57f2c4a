//! Tokens, their lexical categories, and the errors of tokenization.

use vstd::prelude::*;

verus! {

/// The lexical categories a token can belong to.
#[derive(Debug, Clone, Copy, PartialEq, Eq, Structural)]
pub enum TokenType {
    /// `<`
    LeftParentheses,
    /// A tag name.
    JSXIdentifier,
    /// An attribute name.
    AttributeKey,
    /// The body of a quoted attribute value.
    AttributeStringValue,
    /// `>`
    RightParentheses,
    /// A run of text between tags.
    JSXText,
    /// `/`
    BackSlash,
    /// The body of a braced attribute value.
    AttributeExpressionValue,
}

impl TokenType {
    /// The category's name, as it is written on the wire.
    pub open spec fn name(self) -> Seq<char> {
        match self {
            TokenType::LeftParentheses => "LeftParentheses"@,
            TokenType::JSXIdentifier => "JSXIdentifier"@,
            TokenType::AttributeKey => "AttributeKey"@,
            TokenType::AttributeStringValue => "AttributeStringValue"@,
            TokenType::RightParentheses => "RightParentheses"@,
            TokenType::JSXText => "JSXText"@,
            TokenType::BackSlash => "BackSlash"@,
            TokenType::AttributeExpressionValue => "AttributeExpressionValue"@,
        }
    }

    /// True of the three categories that stand for a single punctuation
    /// character.
    pub open spec fn is_structural(self) -> bool {
        self == TokenType::LeftParentheses || self == TokenType::RightParentheses || self
            == TokenType::BackSlash
    }

    /// The category's name as an owned string.
    pub fn to_string(&self) -> (s: String)
        ensures
            s@ == self.name(),
    {
        let name = match self {
            TokenType::LeftParentheses => "LeftParentheses",
            TokenType::JSXIdentifier => "JSXIdentifier",
            TokenType::AttributeKey => "AttributeKey",
            TokenType::AttributeStringValue => "AttributeStringValue",
            TokenType::RightParentheses => "RightParentheses",
            TokenType::JSXText => "JSXText",
            TokenType::BackSlash => "BackSlash",
            TokenType::AttributeExpressionValue => "AttributeExpressionValue",
        };
        name.to_string()
    }
}

/// A token: a lexical category together with the exact text it captured.
#[derive(Debug, PartialEq, Eq)]
pub struct Token {
    pub token_type: TokenType,
    pub value: String,
}

/// The mathematical content of a [`Token`].
pub struct TokenView {
    pub token_type: TokenType,
    pub value: Seq<char>,
}

impl View for Token {
    type V = TokenView;

    open spec fn view(&self) -> TokenView {
        TokenView { token_type: self.token_type, value: self.value@ }
    }
}

impl Token {
    /// A token of category `token_type` with the text `value`.
    pub fn new(token_type: TokenType, value: String) -> (token: Self)
        ensures
            token.token_type == token_type,
            token.value == value,
    {
        Self { token_type, value }
    }
}

impl Clone for Token {
    /// A copy with the same category and the same text.
    fn clone(&self) -> (token: Self)
        ensures
            token == *self,
    {
        Token { token_type: self.token_type, value: self.value.clone() }
    }
}

/// The views of a sequence of tokens, in the same order.
pub open spec fn token_views(tokens: Seq<Token>) -> Seq<TokenView> {
    tokens.map_values(|t: Token| t@)
}

/// Why an input has no token stream.
#[derive(Debug, Clone, Copy, PartialEq, Eq, Structural)]
pub enum TokenizerError {
    /// The input's first character is not `<`.
    InvalidFirstCharacter,
    /// The character is not allowed where it stands.
    UnexpectedCharacter(char),
    /// The input ends inside an open construct.
    UnexpectedEndOfInput,
}

impl TokenizerError {
    /// The message that describes the error.
    pub open spec fn message(self) -> Seq<char> {
        match self {
            TokenizerError::InvalidFirstCharacter => "第一个字符必须是<"@,
            TokenizerError::UnexpectedCharacter(ch) => "Unexpected character: "@.push(ch),
            TokenizerError::UnexpectedEndOfInput => "Unexpected end of input"@,
        }
    }

    /// The error's message as an owned string.
    pub fn to_string(&self) -> (s: String)
        ensures
            s@ == self.message(),
    {
        match self {
            TokenizerError::InvalidFirstCharacter => "第一个字符必须是<".to_string(),
            TokenizerError::UnexpectedCharacter(ch) => {
                let mut s = "Unexpected character: ".to_string();
                s.push(*ch);
                s
            },
            TokenizerError::UnexpectedEndOfInput => "Unexpected end of input".to_string(),
        }
    }
}

} // verus!
