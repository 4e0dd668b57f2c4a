use jsx_compilation_rs::tokenizer::{tokenizer, Token, TokenType, TokenizerError};

const VALID: [&str; 8] = [
    "",
    "<div>content</div>",
    "<div class=\"container\">content</div>",
    "<div onClick={handleClick}>x</div>",
    "<h1 id=\"title\" name={name}><span>hello</span>world</h1>",
    "<a>1 > 0 / 2</a><b c=\"\">/>/</b>",
    "<//a =\"x\">",
    "<a>text",
];

const INVALID: [&str; 8] = [
    "invalid",
    "<img/>",
    "<>",
    "<div@>",
    "<div-test>",
    "<a b=c>",
    "<a>x</a b>",
    " ",
];

fn is_structural(token: &Token) -> bool {
    matches!(
        token.token_type,
        TokenType::LeftParentheses | TokenType::RightParentheses | TokenType::BackSlash
    )
}

fn structural_text(tokens: &[Token]) -> String {
    let mut text = String::new();
    for token in tokens {
        if is_structural(token) {
            text.push_str(&token.value);
        }
    }
    text
}

fn skeleton(input: &str) -> String {
    let mut text = String::new();
    let mut in_tag = false;
    for c in input.chars() {
        if c == '<' || (in_tag && (c == '/' || c == '>')) {
            text.push(c);
        }
        if c == '<' {
            in_tag = true;
        } else if c == '>' {
            in_tag = false;
        }
    }
    text
}

#[test]
fn structural_tokens_spell_the_skeleton_of_the_input() {
    for input in VALID {
        let tokens = tokenizer(input).unwrap();
        assert_eq!(structural_text(&tokens), skeleton(input));
    }
}

#[test]
fn skeleton_of_a_known_input() {
    let tokens = tokenizer("<a>1 > 0 / 2</a><b c=\"\">/>/</b>").unwrap();
    assert_eq!(structural_text(&tokens), "<></><></>");
    let tokens = tokenizer("<div class=\"container\">content</div>").unwrap();
    assert_eq!(structural_text(&tokens), "<></>");
}

#[test]
fn structural_tokens_hold_their_own_character() {
    for input in VALID {
        for token in tokenizer(input).unwrap() {
            match token.token_type {
                TokenType::LeftParentheses => assert_eq!(token.value, "<"),
                TokenType::RightParentheses => assert_eq!(token.value, ">"),
                TokenType::BackSlash => assert_eq!(token.value, "/"),
                TokenType::JSXIdentifier => {
                    assert!(!token.value.is_empty());
                    assert!(token.value.chars().all(|c| c.is_ascii_alphanumeric()));
                }
                TokenType::AttributeKey
                | TokenType::AttributeStringValue
                | TokenType::AttributeExpressionValue => {
                    assert!(token.value.chars().all(|c| c.is_ascii_alphanumeric()));
                }
                TokenType::JSXText => {
                    assert!(!token.value.is_empty());
                    assert!(!token.value.contains('<'));
                }
            }
        }
    }
}

#[test]
fn same_input_gives_same_tokens() {
    for input in VALID {
        let first = tokenizer(input);
        let second = tokenizer(input);
        assert!(first.is_ok());
        assert_eq!(first, second);
    }
}

#[test]
fn other_calls_in_between_do_not_leak_state() {
    let before = tokenizer("<div class=\"a\">text</div>");
    for input in INVALID {
        assert!(tokenizer(input).is_err());
    }
    for input in VALID {
        assert!(tokenizer(input).is_ok());
    }
    let after = tokenizer("<div class=\"a\">text</div>");
    assert_eq!(before, after);
    assert_eq!(after.unwrap().len(), 10);
}

#[test]
fn same_invalid_input_gives_same_error() {
    for input in INVALID {
        let first = tokenizer(input);
        let second = tokenizer(input);
        assert!(first.is_err());
        assert_eq!(first, second);
    }
    assert_eq!(tokenizer("<img/>"), Err(TokenizerError::UnexpectedCharacter('/')));
    assert_eq!(tokenizer("<img/>"), Err(TokenizerError::UnexpectedCharacter('/')));
    assert_eq!(tokenizer(" "), Err(TokenizerError::InvalidFirstCharacter));
    assert_eq!(tokenizer(" "), Err(TokenizerError::InvalidFirstCharacter));
}

#[test]
fn an_error_survives_every_continuation() {
    for input in INVALID {
        let error = tokenizer(input).unwrap_err();
        for more in ["", ">", "<a>", " x=\"y\"></a>"] {
            let longer = format!("{}{}", input, more);
            assert_eq!(tokenizer(&longer), Err(error.clone()));
        }
    }
}

#[test]
fn tokens_of_a_prefix_begin_the_tokens_of_the_input() {
    for input in VALID {
        let all = tokenizer(input).unwrap();
        for (end, _) in input.char_indices() {
            let part = tokenizer(&input[..end]).unwrap();
            assert!(part.len() <= all.len());
            assert_eq!(part[..], all[..part.len()]);
        }
    }
}

#[test]
fn no_input_fails_for_ending_early() {
    let input = "<h1 id=\"title\" name={name}><span>hello</span>world</h1>";
    for (end, _) in input.char_indices() {
        assert_ne!(tokenizer(&input[..end]), Err(TokenizerError::UnexpectedEndOfInput));
        assert!(tokenizer(&input[..end]).is_ok());
    }
    for input in INVALID {
        assert_ne!(tokenizer(input), Err(TokenizerError::UnexpectedEndOfInput));
    }
}

#[test]
fn unexpected_character_is_a_character_of_the_input() {
    for input in INVALID {
        match tokenizer(input) {
            Err(TokenizerError::UnexpectedCharacter(c)) => {
                assert!(input.starts_with('<'));
                assert!(input[1..].contains(c));
            }
            Err(TokenizerError::InvalidFirstCharacter) => {
                assert!(!input.is_empty());
                assert!(!input.starts_with('<'));
            }
            other => panic!("unexpected result {:?}", other),
        }
    }
}
