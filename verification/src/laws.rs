//! What holds of every tokenization, proved about [`spec_tokenize`], the
//! function that the tokenizer's contract is stated over.

use vstd::prelude::*;

use crate::machine::{is_letter_or_digit, spec_tokenize, Machine, State};
use crate::token::{token_views, Token, TokenType, TokenView, TokenizerError};
use crate::tokenizer::outcome;

verus! {

/// The texts of the structural tokens of `tokens`, concatenated in order.
pub open spec fn structural_text(tokens: Seq<TokenView>) -> Seq<char>
    decreases tokens.len(),
{
    if tokens.len() == 0 {
        Seq::empty()
    } else if tokens.last().token_type.is_structural() {
        structural_text(tokens.drop_last()) + tokens.last().value
    } else {
        structural_text(tokens.drop_last())
    }
}

/// What `c` adds to the skeleton: itself if it delimits a tag, nothing
/// otherwise. A `<` always delimits; `/` and `>` do inside a tag.
pub open spec fn delimiter(c: char, in_tag: bool) -> Seq<char> {
    if c == '<' || (in_tag && (c == '/' || c == '>')) {
        seq![c]
    } else {
        Seq::empty()
    }
}

/// Whether the character after `c` stands inside a tag: `<` opens one, and
/// `>` closes the one it stands in.
pub open spec fn in_tag_after(c: char, in_tag: bool) -> bool {
    if c == '<' {
        true
    } else if c == '>' {
        false
    } else {
        in_tag
    }
}

/// The structural skeleton of `input`, read from a position inside a tag
/// or outside one: the tag delimiters of `input`, in order.
pub open spec fn skeleton_from(input: Seq<char>, in_tag: bool) -> Seq<char>
    decreases input.len(),
{
    if input.len() == 0 {
        Seq::empty()
    } else {
        delimiter(input.first(), in_tag) + skeleton_from(
            input.drop_first(),
            in_tag_after(input.first(), in_tag),
        )
    }
}

/// The structural skeleton of a whole input, which begins outside any tag.
pub open spec fn skeleton(input: Seq<char>) -> Seq<char> {
    skeleton_from(input, false)
}

/// Every character of `s` is an ASCII letter or digit.
pub open spec fn all_letters_or_digits(s: Seq<char>) -> bool {
    forall|i: int| 0 <= i < s.len() ==> is_letter_or_digit(#[trigger] s[i])
}

/// The token's text is one that its category admits: the punctuation
/// character itself, a non-empty name, letters and digits for keys and
/// values, a non-empty run without `<` for text.
pub open spec fn fits_category(token: TokenView) -> bool {
    match token.token_type {
        TokenType::LeftParentheses => token.value == seq!['<'],
        TokenType::RightParentheses => token.value == seq!['>'],
        TokenType::BackSlash => token.value == seq!['/'],
        TokenType::JSXIdentifier => token.value.len() > 0 && all_letters_or_digits(token.value),
        TokenType::AttributeKey => all_letters_or_digits(token.value),
        TokenType::AttributeStringValue => all_letters_or_digits(token.value),
        TokenType::AttributeExpressionValue => all_letters_or_digits(token.value),
        TokenType::JSXText => token.value.len() > 0 && !token.value.contains('<'),
    }
}

/// Every token emitted so far fits its category, and so would the buffer
/// if it were emitted now; outside a token the buffer is empty.
spec fn sound(m: Machine) -> bool {
    &&& forall|i: int| 0 <= i < m.tokens.len() ==> fits_category(#[trigger] m.tokens[i])
    &&& match m.state.collects() {
        Some(token_type) => fits_category(TokenView { token_type, value: m.buffer }),
        None => m.buffer.len() == 0,
    }
}

proof fn lemma_structural_text_push(tokens: Seq<TokenView>, token: TokenView)
    ensures
        structural_text(tokens.push(token)) == if token.token_type.is_structural() {
            structural_text(tokens) + token.value
        } else {
            structural_text(tokens)
        },
{
    assert(tokens.push(token).drop_last() =~= tokens);
}

proof fn lemma_step_delimiter(m: Machine, c: char)
    requires
        m.step(c) is Ok,
    ensures
        structural_text(m.step(c)->Ok_0.tokens) == structural_text(m.tokens) + delimiter(
            c,
            m.state.in_tag(),
        ),
        m.step(c)->Ok_0.state.in_tag() == in_tag_after(c, m.state.in_tag()),
{
    let next = m.step(c)->Ok_0;
    if next.tokens.len() == m.tokens.len() {
        assert(next.tokens == m.tokens);
        assert(structural_text(m.tokens) + Seq::<char>::empty() =~= structural_text(m.tokens));
    } else if next.tokens.len() == m.tokens.len() + 1 {
        let token = next.tokens.last();
        assert(next.tokens =~= m.tokens.push(token));
        lemma_structural_text_push(m.tokens, token);
        assert(structural_text(m.tokens) + Seq::<char>::empty() =~= structural_text(m.tokens));
    } else {
        let first = next.tokens[m.tokens.len() as int];
        let second = next.tokens.last();
        assert(next.tokens =~= m.tokens.push(first).push(second));
        lemma_structural_text_push(m.tokens, first);
        lemma_structural_text_push(m.tokens.push(first), second);
    }
}

proof fn lemma_run_skeleton(m: Machine, input: Seq<char>)
    requires
        m.run(input) is Ok,
    ensures
        structural_text(m.run(input)->Ok_0.tokens) == structural_text(m.tokens) + skeleton_from(
            input,
            m.state.in_tag(),
        ),
    decreases input.len(),
{
    if input.len() == 0 {
        assert(structural_text(m.tokens) + Seq::<char>::empty() =~= structural_text(m.tokens));
    } else {
        let next = m.step(input.first())->Ok_0;
        lemma_step_delimiter(m, input.first());
        lemma_run_skeleton(next, input.drop_first());
        let d = delimiter(input.first(), m.state.in_tag());
        let rest = skeleton_from(input.drop_first(), next.state.in_tag());
        assert((structural_text(m.tokens) + d) + rest =~= structural_text(m.tokens) + (d + rest));
    }
}

/// Structural tokens are lossless with respect to punctuation: the texts of
/// the `<`, `/` and `>` tokens of a tokenization, concatenated in emission
/// order, are exactly the structural skeleton of the input.
pub proof fn lemma_structural_tokens_spell_skeleton(input: Seq<char>)
    requires
        spec_tokenize(input) is Ok,
    ensures
        structural_text(spec_tokenize(input)->Ok_0) == skeleton(input),
{
    lemma_run_skeleton(Machine::initial(), input);
    assert(structural_text(Seq::<TokenView>::empty()) + skeleton(input) =~= skeleton(input));
}

proof fn lemma_step_sound(m: Machine, c: char)
    requires
        sound(m),
        m.step(c) is Ok,
    ensures
        sound(m.step(c)->Ok_0),
{
    let next = m.step(c)->Ok_0;
    assert forall|i: int| 0 <= i < next.tokens.len() implies fits_category(
        #[trigger] next.tokens[i],
    ) by {
        if i < m.tokens.len() {
            assert(next.tokens[i] == m.tokens[i]);
        }
    }
    if m.state == State::JSXText && c != '<' {
        assert forall|i: int| 0 <= i < next.buffer.len() implies next.buffer[i] != '<' by {
            if i < m.buffer.len() {
                assert(m.buffer.contains(m.buffer[i]));
            }
        }
    }
}

proof fn lemma_run_sound(m: Machine, input: Seq<char>)
    requires
        sound(m),
        m.run(input) is Ok,
    ensures
        sound(m.run(input)->Ok_0),
    decreases input.len(),
{
    if input.len() > 0 {
        lemma_step_sound(m, input.first());
        lemma_run_sound(m.step(input.first())->Ok_0, input.drop_first());
    }
}

/// Every token of a tokenization fits its category: punctuation tokens hold
/// their own character, names are non-empty, names, keys and attribute
/// values hold ASCII letters and digits only, and text is a non-empty run
/// without `<`.
pub proof fn lemma_tokens_fit_categories(input: Seq<char>)
    requires
        spec_tokenize(input) is Ok,
    ensures
        forall|i: int|
            0 <= i < spec_tokenize(input)->Ok_0.len() ==> fits_category(
                #[trigger] spec_tokenize(input)->Ok_0[i],
            ),
{
    lemma_run_sound(Machine::initial(), input);
}

proof fn lemma_run_concat(m: Machine, head: Seq<char>, tail: Seq<char>)
    ensures
        m.run(head + tail) == match m.run(head) {
            Ok(middle) => middle.run(tail),
            Err(e) => Err(e),
        },
    decreases head.len(),
{
    if head.len() == 0 {
        assert(head + tail =~= tail);
    } else {
        assert((head + tail).first() == head.first());
        assert((head + tail).drop_first() =~= head.drop_first() + tail);
        match m.step(head.first()) {
            Ok(next) => lemma_run_concat(next, head.drop_first(), tail),
            Err(_) => {},
        }
    }
}

proof fn lemma_run_extends_output(m: Machine, input: Seq<char>)
    requires
        m.run(input) is Ok,
    ensures
        m.tokens.is_prefix_of(m.run(input)->Ok_0.tokens),
    decreases input.len(),
{
    if input.len() > 0 {
        let next = m.step(input.first())->Ok_0;
        lemma_run_extends_output(next, input.drop_first());
    }
}

/// Errors are terminal: an input that fails keeps failing with the same
/// error however it is continued.
pub proof fn lemma_error_survives_continuation(input: Seq<char>, more: Seq<char>)
    requires
        spec_tokenize(input) is Err,
    ensures
        spec_tokenize(input + more) == spec_tokenize(input),
{
    lemma_run_concat(Machine::initial(), input, more);
}

/// Tokens are emitted from left to right and never taken back: the tokens
/// of an input begin the tokens of each of its continuations that
/// tokenizes.
pub proof fn lemma_output_grows_with_input(input: Seq<char>, more: Seq<char>)
    requires
        spec_tokenize(input + more) is Ok,
    ensures
        spec_tokenize(input) is Ok,
        spec_tokenize(input)->Ok_0.is_prefix_of(spec_tokenize(input + more)->Ok_0),
{
    lemma_run_concat(Machine::initial(), input, more);
    lemma_run_extends_output(Machine::initial().run(input)->Ok_0, more);
}

proof fn lemma_run_past_start(m: Machine, input: Seq<char>)
    requires
        m.state != State::Start,
    ensures
        m.run(input) matches Err(e) ==> e matches TokenizerError::UnexpectedCharacter(c)
            && input.contains(c),
    decreases input.len(),
{
    if input.len() > 0 {
        match m.step(input.first()) {
            Ok(next) => {
                lemma_run_past_start(next, input.drop_first());
                if let Err(TokenizerError::UnexpectedCharacter(c)) = next.run(input.drop_first()) {
                    let i: int = choose|i: int|
                        0 <= i < input.drop_first().len() && input.drop_first()[i] == c;
                    assert(input[i + 1] == c);
                }
            },
            Err(_) => {
                assert(input[0] == input.first());
            },
        }
    }
}

/// Which error comes when. The first character alone decides whether the
/// input fails as a whole: it does exactly when there is one and it is not
/// `<`. Every other failure names a character of the input after the
/// first. No input fails for ending early.
pub proof fn lemma_errors(input: Seq<char>)
    ensures
        spec_tokenize(input) == Err::<Seq<TokenView>, _>(TokenizerError::InvalidFirstCharacter)
            <==> input.len() > 0 && input[0] != '<',
        spec_tokenize(input) matches Err(TokenizerError::UnexpectedCharacter(c)) ==> input.len()
            > 0 && input[0] == '<' && input.drop_first().contains(c),
        spec_tokenize(input) != Err::<Seq<TokenView>, _>(TokenizerError::UnexpectedEndOfInput),
{
    if input.len() > 0 {
        if let Ok(next) = Machine::initial().step(input.first()) {
            lemma_run_past_start(next, input.drop_first());
        }
    }
}

/// The empty input tokenizes to no tokens: with nothing to read, nothing
/// is rejected.
pub proof fn lemma_empty_input()
    ensures
        spec_tokenize(Seq::empty()) == Ok::<Seq<TokenView>, TokenizerError>(Seq::empty()),
{
}

/// Tokenization is a function of the input alone: two results for the same
/// input hold the same tokens in the same order.
pub proof fn lemma_same_input_same_tokens(
    input: Seq<char>,
    first: Result<Vec<Token>, TokenizerError>,
    second: Result<Vec<Token>, TokenizerError>,
)
    requires
        outcome(first) == spec_tokenize(input),
        outcome(second) == spec_tokenize(input),
    ensures
        outcome(first) == outcome(second),
        first matches Ok(a) ==> second matches Ok(b) && a@.len() == b@.len() && forall|i: int|
            0 <= i < a@.len() ==> a@[i]@ == b@[i]@,
{
    if let Ok(a) = first {
        let b = second->Ok_0;
        assert(token_views(a@) == token_views(b@));
        assert(token_views(a@).len() == a@.len());
        assert(token_views(b@).len() == b@.len());
        assert forall|i: int| 0 <= i < a@.len() implies a@[i]@ == b@[i]@ by {
            assert(token_views(a@)[i] == a@[i]@);
            assert(token_views(b@)[i] == b@[i]@);
        }
    }
}

/// An input that fails once fails always, with the same error.
pub proof fn lemma_same_input_same_error(
    input: Seq<char>,
    first: Result<Vec<Token>, TokenizerError>,
    second: Result<Vec<Token>, TokenizerError>,
)
    requires
        outcome(first) == spec_tokenize(input),
        outcome(second) == spec_tokenize(input),
        first is Err,
    ensures
        second is Err,
        second->Err_0 == first->Err_0,
{
}

} // verus!
