//! The executable tokenizer: one handler per state, each proved to make
//! exactly the transition that [`Machine::step`] prescribes.

use vstd::prelude::*;

pub use crate::machine::State;
use crate::machine::{is_letter_or_digit, punctuation, spec_tokenize, Machine};
pub use crate::token::{Token, TokenType, TokenizerError};
use crate::token::{token_views, TokenView};

verus! {

/// The buffer as it stands right after an emission.
pub open spec fn empty_text() -> TokenView {
    TokenView { token_type: TokenType::JSXText, value: Seq::empty() }
}

/// What a tokenization returned, over the views of its tokens.
pub open spec fn outcome(r: Result<Vec<Token>, TokenizerError>) -> Result<
    Seq<TokenView>,
    TokenizerError,
> {
    match r {
        Ok(tokens) => Ok(token_views(tokens@)),
        Err(e) => Err(e),
    }
}

/// JSX tokenizer: the state machine together with its output and the
/// token in progress.
pub struct Tokenizer {
    tokens: Vec<Token>,
    current_token: Token,
    state: State,
}

impl View for Tokenizer {
    type V = Machine;

    closed spec fn view(&self) -> Machine {
        Machine {
            state: self.state,
            tokens: token_views(self.tokens@),
            buffer: self.current_token.value@,
        }
    }
}

impl Tokenizer {
    /// The token in progress suits `state`: it has the category that the
    /// state collects, or is the empty text token where the state collects
    /// nothing.
    spec fn buffer_suits(&self, state: State) -> bool {
        match state.collects() {
            Some(token_type) => self.current_token.token_type == token_type,
            None => self.current_token@ == empty_text(),
        }
    }

    /// The token in progress suits the active state.
    pub closed spec fn wf(&self) -> bool {
        self.buffer_suits(self.state)
    }

    /// What the handler of the active state owes: called on `before` with
    /// `ch`, it returned `r` and left `self`. Where the machine moves, `r` is
    /// the state it moves to, and output and buffer are those of the
    /// transition; the state field is left for the caller to assign. Where
    /// the machine rejects `ch`, `r` is its error and nothing has changed.
    spec fn handled(&self, before: Tokenizer, ch: char, r: Result<State, TokenizerError>) -> bool {
        match before@.step(ch) {
            Ok(next) => {
                &&& r == Ok::<State, TokenizerError>(next.state)
                &&& self.state == before.state
                &&& token_views(self.tokens@) == next.tokens
                &&& self.current_token.value@ == next.buffer
                &&& self.buffer_suits(next.state)
            },
            Err(e) => r == Err::<State, TokenizerError>(e) && *self == before,
        }
    }

    /// A tokenizer that has read nothing: in the start state, with no
    /// output and an empty buffer.
    pub fn new() -> (tokenizer: Self)
        ensures
            tokenizer@ == Machine::initial(),
            tokenizer.wf(),
    {
        let tokenizer = Self {
            tokens: Vec::new(),
            current_token: Token::new(TokenType::JSXText, String::new()),
            state: State::Start,
        };
        assert(tokenizer@.tokens =~= Machine::initial().tokens);
        tokenizer
    }

    /// Emit a token and reset current token
    fn emit(&mut self, token: Token)
        ensures
            final(self).state == old(self).state,
            final(self).tokens@ == old(self).tokens@.push(token),
            token_views(final(self).tokens@) == token_views(old(self).tokens@).push(token@),
            final(self).current_token@ == empty_text(),
    {
        self.current_token = Token::new(TokenType::JSXText, String::new());
        self.tokens.push(token);
    }

    /// Check if character is a letter or digit
    fn is_letter_or_digit(ch: char) -> (b: bool)
        ensures
            b == is_letter_or_digit(ch),
    {
        ('a' <= ch && ch <= 'z') || ('A' <= ch && ch <= 'Z') || ('0' <= ch && ch <= '9')
    }

    /// The token for the punctuation character that `text` spells.
    fn punctuation_token(token_type: TokenType, text: &str) -> (token: Token)
        requires
            text@.len() == 1,
        ensures
            token@ == punctuation(token_type, text@[0]),
    {
        let token = Token::new(token_type, text.to_string());
        assert(token.value@ =~= seq![text@[0]]);
        token
    }

    /// Process a character in the current state
    fn process_char(&mut self, ch: char) -> (r: Result<(), TokenizerError>)
        requires
            old(self).wf(),
        ensures
            match old(self)@.step(ch) {
                Ok(next) => r is Ok && final(self)@ == next && final(self).wf(),
                Err(e) => r == Err::<(), TokenizerError>(e) && *final(self) == *old(self),
            },
    {
        self.state = match self.state {
            State::Start => self.handle_start(ch)?,
            State::FoundLeftParentheses => self.handle_found_left_parentheses(ch)?,
            State::JSXIdentifier => self.handle_jsx_identifier(ch)?,
            State::Attribute => self.handle_attribute(ch)?,
            State::AttributeKey => self.handle_attribute_key(ch)?,
            State::AttributeValue => self.handle_attribute_value(ch)?,
            State::AttributeStringValue => self.handle_attribute_string_value(ch)?,
            State::AttributeExpressionValue => self.handle_attribute_expression_value(ch)?,
            State::TryLeaveAttribute => self.handle_try_leave_attribute(ch)?,
            State::FoundRightParentheses => self.handle_found_right_parentheses(ch)?,
            State::JSXText => self.handle_jsx_text(ch)?,
        };
        Ok(())
    }

    /// Initial state - expects '<'
    fn handle_start(&mut self, ch: char) -> (r: Result<State, TokenizerError>)
        requires
            old(self).wf(),
            old(self).state == State::Start,
        ensures
            final(self).handled(*old(self), ch, r),
    {
        if ch == '<' {
            proof {
                reveal_strlit("<");
            }
            self.emit(Self::punctuation_token(TokenType::LeftParentheses, "<"));
            Ok(State::FoundLeftParentheses)
        } else {
            Err(TokenizerError::InvalidFirstCharacter)
        }
    }

    /// After finding '<', expect identifier or '/'
    fn handle_found_left_parentheses(&mut self, ch: char) -> (r: Result<State, TokenizerError>)
        requires
            old(self).wf(),
            old(self).state == State::FoundLeftParentheses,
        ensures
            final(self).handled(*old(self), ch, r),
    {
        if Self::is_letter_or_digit(ch) {
            self.current_token.token_type = TokenType::JSXIdentifier;
            self.current_token.value.push(ch);
            Ok(State::JSXIdentifier)
        } else if ch == '/' {
            proof {
                reveal_strlit("/");
            }
            self.emit(Self::punctuation_token(TokenType::BackSlash, "/"));
            Ok(State::FoundLeftParentheses)
        } else {
            Err(TokenizerError::UnexpectedCharacter(ch))
        }
    }

    /// Collecting JSX identifier characters
    fn handle_jsx_identifier(&mut self, ch: char) -> (r: Result<State, TokenizerError>)
        requires
            old(self).wf(),
            old(self).state == State::JSXIdentifier,
        ensures
            final(self).handled(*old(self), ch, r),
    {
        if Self::is_letter_or_digit(ch) {
            self.current_token.value.push(ch);
            Ok(State::JSXIdentifier)
        } else if ch == ' ' {
            let token = self.current_token.clone();
            self.emit(token);
            Ok(State::Attribute)
        } else if ch == '>' {
            proof {
                reveal_strlit(">");
            }
            let token = self.current_token.clone();
            self.emit(token);
            self.emit(Self::punctuation_token(TokenType::RightParentheses, ">"));
            Ok(State::FoundRightParentheses)
        } else {
            Err(TokenizerError::UnexpectedCharacter(ch))
        }
    }

    /// Looking for attribute key
    fn handle_attribute(&mut self, ch: char) -> (r: Result<State, TokenizerError>)
        requires
            old(self).wf(),
            old(self).state == State::Attribute,
        ensures
            final(self).handled(*old(self), ch, r),
    {
        if Self::is_letter_or_digit(ch) {
            self.current_token.token_type = TokenType::AttributeKey;
            self.current_token.value.push(ch);
            Ok(State::AttributeKey)
        } else if ch == '=' {
            self.current_token.token_type = TokenType::AttributeKey;
            let token = self.current_token.clone();
            self.emit(token);
            Ok(State::AttributeValue)
        } else {
            Err(TokenizerError::UnexpectedCharacter(ch))
        }
    }

    /// Collecting attribute key characters
    fn handle_attribute_key(&mut self, ch: char) -> (r: Result<State, TokenizerError>)
        requires
            old(self).wf(),
            old(self).state == State::AttributeKey,
        ensures
            final(self).handled(*old(self), ch, r),
    {
        if Self::is_letter_or_digit(ch) {
            self.current_token.value.push(ch);
            Ok(State::AttributeKey)
        } else if ch == '=' {
            let token = self.current_token.clone();
            self.emit(token);
            Ok(State::AttributeValue)
        } else {
            Err(TokenizerError::UnexpectedCharacter(ch))
        }
    }

    /// Expecting attribute value (string or expression)
    fn handle_attribute_value(&mut self, ch: char) -> (r: Result<State, TokenizerError>)
        requires
            old(self).wf(),
            old(self).state == State::AttributeValue,
        ensures
            final(self).handled(*old(self), ch, r),
    {
        if ch == '"' {
            self.current_token.token_type = TokenType::AttributeStringValue;
            self.current_token.value = String::new();
            Ok(State::AttributeStringValue)
        } else if ch == '{' {
            self.current_token.token_type = TokenType::AttributeExpressionValue;
            self.current_token.value = String::new();
            Ok(State::AttributeExpressionValue)
        } else {
            Err(TokenizerError::UnexpectedCharacter(ch))
        }
    }

    /// Collecting string attribute value
    fn handle_attribute_string_value(&mut self, ch: char) -> (r: Result<State, TokenizerError>)
        requires
            old(self).wf(),
            old(self).state == State::AttributeStringValue,
        ensures
            final(self).handled(*old(self), ch, r),
    {
        if Self::is_letter_or_digit(ch) {
            self.current_token.value.push(ch);
            Ok(State::AttributeStringValue)
        } else if ch == '"' {
            let token = self.current_token.clone();
            self.emit(token);
            Ok(State::TryLeaveAttribute)
        } else {
            Err(TokenizerError::UnexpectedCharacter(ch))
        }
    }

    /// Collecting expression attribute value
    fn handle_attribute_expression_value(&mut self, ch: char) -> (r: Result<State, TokenizerError>)
        requires
            old(self).wf(),
            old(self).state == State::AttributeExpressionValue,
        ensures
            final(self).handled(*old(self), ch, r),
    {
        if Self::is_letter_or_digit(ch) {
            self.current_token.value.push(ch);
            Ok(State::AttributeExpressionValue)
        } else if ch == '}' {
            let token = self.current_token.clone();
            self.emit(token);
            Ok(State::TryLeaveAttribute)
        } else {
            Err(TokenizerError::UnexpectedCharacter(ch))
        }
    }

    /// After attribute value, decide next state
    fn handle_try_leave_attribute(&mut self, ch: char) -> (r: Result<State, TokenizerError>)
        requires
            old(self).wf(),
            old(self).state == State::TryLeaveAttribute,
        ensures
            final(self).handled(*old(self), ch, r),
    {
        if ch == ' ' {
            Ok(State::Attribute)
        } else if ch == '>' {
            proof {
                reveal_strlit(">");
            }
            self.emit(Self::punctuation_token(TokenType::RightParentheses, ">"));
            Ok(State::FoundRightParentheses)
        } else {
            Err(TokenizerError::UnexpectedCharacter(ch))
        }
    }

    /// After '>', expect text or new element
    fn handle_found_right_parentheses(&mut self, ch: char) -> (r: Result<State, TokenizerError>)
        requires
            old(self).wf(),
            old(self).state == State::FoundRightParentheses,
        ensures
            final(self).handled(*old(self), ch, r),
    {
        if ch == '<' {
            proof {
                reveal_strlit("<");
            }
            self.emit(Self::punctuation_token(TokenType::LeftParentheses, "<"));
            Ok(State::FoundLeftParentheses)
        } else {
            self.current_token.token_type = TokenType::JSXText;
            self.current_token.value.push(ch);
            Ok(State::JSXText)
        }
    }

    /// Collecting JSX text content
    fn handle_jsx_text(&mut self, ch: char) -> (r: Result<State, TokenizerError>)
        requires
            old(self).wf(),
            old(self).state == State::JSXText,
        ensures
            final(self).handled(*old(self), ch, r),
    {
        if ch == '<' {
            proof {
                reveal_strlit("<");
            }
            let token = self.current_token.clone();
            self.emit(token);
            self.emit(Self::punctuation_token(TokenType::LeftParentheses, "<"));
            Ok(State::FoundLeftParentheses)
        } else {
            self.current_token.value.push(ch);
            Ok(State::JSXText)
        }
    }

    /// Tokenize the input string
    pub fn tokenize(input: &str) -> (r: Result<Vec<Token>, TokenizerError>)
        ensures
            outcome(r) == spec_tokenize(input@),
    {
        let mut tokenizer = Tokenizer::new();
        let chars = input.chars();
        assert(input@.skip(0) == input@);
        for ch in it: chars
            invariant
                it.seq() == input@,
                tokenizer.wf(),
                Machine::initial().run(input@) == tokenizer@.run(input@.skip(it.index())),
        {
            assert(input@.skip(it.index()).drop_first() == input@.skip(it.index() + 1));
            tokenizer.process_char(ch)?;
        }
        Ok(tokenizer.tokens)
    }
}

/// Tokenizes `input`: its token stream, or the error of the first character
/// that the grammar does not allow where it stands.
pub fn tokenizer(input: &str) -> (r: Result<Vec<Token>, TokenizerError>)
    ensures
        outcome(r) == spec_tokenize(input@),
{
    Tokenizer::tokenize(input)
}

} // verus!
