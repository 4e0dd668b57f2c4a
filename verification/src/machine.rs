//! The tokenizer as a mathematical object: a finite-state machine over
//! characters, and the token stream it assigns to every input.

use vstd::prelude::*;

use crate::token::{TokenType, TokenView, TokenizerError};

verus! {

/// The states of the machine. Exactly one is active at any time.
#[derive(Debug, Clone, Copy, PartialEq, Eq, Structural)]
pub enum State {
    /// Nothing has been read yet.
    Start,
    /// Just after `<`, and after each `/` that follows it.
    FoundLeftParentheses,
    /// Inside a tag name.
    JSXIdentifier,
    /// Between attributes, where a key may begin.
    Attribute,
    /// Inside an attribute key.
    AttributeKey,
    /// Just after `=`.
    AttributeValue,
    /// Inside a quoted attribute value.
    AttributeStringValue,
    /// Inside a braced attribute value.
    AttributeExpressionValue,
    /// Just after the closing delimiter of an attribute value.
    TryLeaveAttribute,
    /// Just after `>`.
    FoundRightParentheses,
    /// Inside a run of text.
    JSXText,
}

impl State {
    /// True of the states between a `<` and the `>` that closes its tag.
    pub open spec fn in_tag(self) -> bool {
        self != State::Start && self != State::FoundRightParentheses && self != State::JSXText
    }

    /// The category of the token whose text the buffer collects in this
    /// state, if the state collects any.
    pub open spec fn collects(self) -> Option<TokenType> {
        match self {
            State::JSXIdentifier => Some(TokenType::JSXIdentifier),
            State::AttributeKey => Some(TokenType::AttributeKey),
            State::AttributeStringValue => Some(TokenType::AttributeStringValue),
            State::AttributeExpressionValue => Some(TokenType::AttributeExpressionValue),
            State::JSXText => Some(TokenType::JSXText),
            _ => None,
        }
    }
}

/// ASCII letters and digits: the only characters of names, keys and
/// attribute values.
pub open spec fn is_letter_or_digit(c: char) -> bool {
    ('a' <= c <= 'z') || ('A' <= c <= 'Z') || ('0' <= c <= '9')
}

/// The token for one punctuation character.
pub open spec fn punctuation(token_type: TokenType, c: char) -> TokenView {
    TokenView { token_type, value: seq![c] }
}

/// A configuration of the machine: the active state, the tokens emitted so
/// far in emission order, and the text of the token in progress.
pub struct Machine {
    pub state: State,
    pub tokens: Seq<TokenView>,
    pub buffer: Seq<char>,
}

impl Machine {
    /// The configuration every tokenization starts from.
    pub open spec fn initial() -> Machine {
        Machine { state: State::Start, tokens: Seq::empty(), buffer: Seq::empty() }
    }

    /// The same configuration in another state.
    pub open spec fn enter(self, state: State) -> Machine {
        Machine { state, ..self }
    }

    /// The buffer starts a new token with `c`.
    pub open spec fn begin(self, c: char) -> Machine {
        Machine { buffer: seq![c], ..self }
    }

    /// The buffer grows by `c`.
    pub open spec fn extend(self, c: char) -> Machine {
        Machine { buffer: self.buffer.push(c), ..self }
    }

    /// The buffer is emptied without emitting anything.
    pub open spec fn reset(self) -> Machine {
        Machine { buffer: Seq::empty(), ..self }
    }

    /// `token` joins the output, and the buffer is empty afterwards.
    pub open spec fn emit(self, token: TokenView) -> Machine {
        Machine { tokens: self.tokens.push(token), buffer: Seq::empty(), ..self }
    }

    /// The buffered text is emitted as a token of category `token_type`.
    pub open spec fn flush(self, token_type: TokenType) -> Machine {
        self.emit(TokenView { token_type, value: self.buffer })
    }

    /// One transition: the configuration after reading `c`, or the error
    /// that `c` raises in the active state.
    pub open spec fn step(self, c: char) -> Result<Machine, TokenizerError> {
        match self.state {
            State::Start => {
                if c == '<' {
                    Ok(
                        self.emit(punctuation(TokenType::LeftParentheses, '<')).enter(
                            State::FoundLeftParentheses,
                        ),
                    )
                } else {
                    Err(TokenizerError::InvalidFirstCharacter)
                }
            },
            State::FoundLeftParentheses => {
                if is_letter_or_digit(c) {
                    Ok(self.begin(c).enter(State::JSXIdentifier))
                } else if c == '/' {
                    Ok(
                        self.emit(punctuation(TokenType::BackSlash, '/')).enter(
                            State::FoundLeftParentheses,
                        ),
                    )
                } else {
                    Err(TokenizerError::UnexpectedCharacter(c))
                }
            },
            State::JSXIdentifier => {
                if is_letter_or_digit(c) {
                    Ok(self.extend(c))
                } else if c == ' ' {
                    Ok(self.flush(TokenType::JSXIdentifier).enter(State::Attribute))
                } else if c == '>' {
                    Ok(
                        self.flush(TokenType::JSXIdentifier).emit(
                            punctuation(TokenType::RightParentheses, '>'),
                        ).enter(State::FoundRightParentheses),
                    )
                } else {
                    Err(TokenizerError::UnexpectedCharacter(c))
                }
            },
            State::Attribute => {
                if is_letter_or_digit(c) {
                    Ok(self.begin(c).enter(State::AttributeKey))
                } else if c == '=' {
                    Ok(self.flush(TokenType::AttributeKey).enter(State::AttributeValue))
                } else {
                    Err(TokenizerError::UnexpectedCharacter(c))
                }
            },
            State::AttributeKey => {
                if is_letter_or_digit(c) {
                    Ok(self.extend(c))
                } else if c == '=' {
                    Ok(self.flush(TokenType::AttributeKey).enter(State::AttributeValue))
                } else {
                    Err(TokenizerError::UnexpectedCharacter(c))
                }
            },
            State::AttributeValue => {
                if c == '"' {
                    Ok(self.reset().enter(State::AttributeStringValue))
                } else if c == '{' {
                    Ok(self.reset().enter(State::AttributeExpressionValue))
                } else {
                    Err(TokenizerError::UnexpectedCharacter(c))
                }
            },
            State::AttributeStringValue => {
                if is_letter_or_digit(c) {
                    Ok(self.extend(c))
                } else if c == '"' {
                    Ok(
                        self.flush(TokenType::AttributeStringValue).enter(
                            State::TryLeaveAttribute,
                        ),
                    )
                } else {
                    Err(TokenizerError::UnexpectedCharacter(c))
                }
            },
            State::AttributeExpressionValue => {
                if is_letter_or_digit(c) {
                    Ok(self.extend(c))
                } else if c == '}' {
                    Ok(
                        self.flush(TokenType::AttributeExpressionValue).enter(
                            State::TryLeaveAttribute,
                        ),
                    )
                } else {
                    Err(TokenizerError::UnexpectedCharacter(c))
                }
            },
            State::TryLeaveAttribute => {
                if c == ' ' {
                    Ok(self.enter(State::Attribute))
                } else if c == '>' {
                    Ok(
                        self.emit(punctuation(TokenType::RightParentheses, '>')).enter(
                            State::FoundRightParentheses,
                        ),
                    )
                } else {
                    Err(TokenizerError::UnexpectedCharacter(c))
                }
            },
            State::FoundRightParentheses => {
                if c == '<' {
                    Ok(
                        self.emit(punctuation(TokenType::LeftParentheses, '<')).enter(
                            State::FoundLeftParentheses,
                        ),
                    )
                } else {
                    Ok(self.begin(c).enter(State::JSXText))
                }
            },
            State::JSXText => {
                if c == '<' {
                    Ok(
                        self.flush(TokenType::JSXText).emit(
                            punctuation(TokenType::LeftParentheses, '<'),
                        ).enter(State::FoundLeftParentheses),
                    )
                } else {
                    Ok(self.extend(c))
                }
            },
        }
    }

    /// The configuration after reading all of `input` from left to right,
    /// or the error of the first character that raises one.
    pub open spec fn run(self, input: Seq<char>) -> Result<Machine, TokenizerError>
        decreases input.len(),
    {
        if input.len() == 0 {
            Ok(self)
        } else {
            match self.step(input.first()) {
                Ok(next) => next.run(input.drop_first()),
                Err(e) => Err(e),
            }
        }
    }
}

/// The token stream of `input`: what the machine has emitted when the input
/// is exhausted, or the error that stopped it. An input that ends inside an
/// open construct is accepted with the tokens emitted up to there.
pub open spec fn spec_tokenize(input: Seq<char>) -> Result<Seq<TokenView>, TokenizerError> {
    match Machine::initial().run(input) {
        Ok(end) => Ok(end.tokens),
        Err(e) => Err(e),
    }
}

} // verus!
