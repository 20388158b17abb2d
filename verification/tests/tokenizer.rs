use purple_dino::{scan, tokenizer, ScanError, Token};

#[test]
#[should_panic]
fn it_terminates_program() {
    let line_stmt = "12";
    tokenizer(line_stmt);
}

#[test]
fn it_test_possible_paths_for_numeric_chars() {
    let mut program = "12;";
    let mut tokens = tokenizer(program);
    assert_eq!(2, tokens.len(), "an int literal is a valid program");

    let mut expected_int_val = match tokens.get(0).unwrap() {
        Token::Int(data) => data,
        _ => panic!("Unexpected not number type."),
    };
    assert_eq!(12, *expected_int_val, "an int literal is stored properly");

    program = ";12;";
    tokens = tokenizer(program);
    assert_eq!(3, tokens.len(), "an int literal is a valid program statement");

    expected_int_val = match tokens.get(1).unwrap() {
        Token::Int(data) => data,
        _ => panic!("Unexpected not number type."),
    };
    assert_eq!(12, *expected_int_val, "an int literal statement is stored properly");
}

#[test]
fn digit_run_is_read_in_base_ten() {
    assert_eq!(tokenizer("12;"), vec![Token::Int(12), Token::Empty]);
    assert_eq!(tokenizer("0;"), vec![Token::Int(0), Token::Empty]);
    assert_eq!(tokenizer("007;"), vec![Token::Int(7), Token::Empty]);
    assert_eq!(
        tokenizer("9223372036854775807;"),
        vec![Token::Int(i64::MAX), Token::Empty]
    );
}

#[test]
fn leading_terminator_commits_empty_token_first() {
    let tokens = tokenizer(";12;");
    assert_eq!(tokens, vec![Token::Empty, Token::Int(12), Token::Empty]);
    assert_eq!(tokens.len(), 3);
}

#[test]
fn leading_terminator_prepends_to_any_program() {
    for rest in ["", ";", "12;", "1;2;;3;"] {
        let mut expected = vec![Token::Empty];
        expected.extend(tokenizer(rest));
        let program = format!(";{}", rest);
        assert_eq!(tokenizer(&program), expected);
    }
    assert_eq!(scan(";12"), scan("12"));
    assert_eq!(scan(";1x"), scan("1x"));
}

#[test]
fn missing_trailing_terminator_is_rejected() {
    assert_eq!(scan("12"), Err(ScanError::MissingTerminator));
    assert_eq!(scan("1;2"), Err(ScanError::MissingTerminator));
    assert_eq!(scan(";0"), Err(ScanError::MissingTerminator));
}

#[test]
fn empty_input_yields_single_empty_token() {
    assert_eq!(scan(""), Ok(vec![Token::Empty]));
    assert_eq!(tokenizer(""), vec![Token::Empty]);
}

#[test]
fn foreign_characters_are_rejected_at_every_position() {
    let foreign = [
        'a', 'Z', '+', '-', '*', '/', '%', '(', ')', '.', '"', '\'', ' ', '\t', '\n', ':', '<',
        'é', '٣',
    ];
    for c in foreign {
        for program in [
            format!("{}", c),
            format!("{}12;", c),
            format!("1{}2;", c),
            format!("12{};", c),
            format!("12;{}", c),
            format!(";;{};", c),
        ] {
            assert_eq!(scan(&program), Err(ScanError::UnhandledCharacter(c)));
        }
    }
}

#[test]
fn first_foreign_character_is_the_one_reported() {
    assert_eq!(scan("1a2b;"), Err(ScanError::UnhandledCharacter('a')));
    assert_eq!(scan("12 + 3;"), Err(ScanError::UnhandledCharacter(' ')));
    assert_eq!(scan("x"), Err(ScanError::UnhandledCharacter('x')));
    assert_eq!(scan("12x"), Err(ScanError::UnhandledCharacter('x')));
}

#[test]
fn digits_accumulate_left_to_right() {
    assert_eq!(tokenizer("102;"), vec![Token::Int(102), Token::Empty]);
    assert_ne!(tokenizer("102;"), vec![Token::Int(120), Token::Empty]);
    assert_ne!(tokenizer("102;"), vec![Token::Int(12), Token::Empty]);
    assert_eq!(tokenizer("120;"), vec![Token::Int(120), Token::Empty]);
    assert_eq!(tokenizer("1234567890;"), vec![Token::Int(1234567890), Token::Empty]);
}

#[test]
fn rescanning_yields_identical_output() {
    for program in ["", ";", "12;", ";12;", "1;22;333;", "12", "1a;"] {
        let first = scan(program);
        let second = scan(program);
        assert_eq!(first, second);
        let copy = String::from(program);
        assert_eq!(scan(&copy), first);
    }
    let before = tokenizer("7;");
    let _ = scan("99;99;");
    let _ = scan("oops");
    assert_eq!(tokenizer("7;"), before);
}

#[test]
fn one_token_per_terminator_then_closing_marker() {
    assert_eq!(tokenizer(";"), vec![Token::Empty, Token::Empty]);
    assert_eq!(
        tokenizer(";;;"),
        vec![Token::Empty, Token::Empty, Token::Empty, Token::Empty]
    );
    assert_eq!(
        tokenizer("1;;22;"),
        vec![Token::Int(1), Token::Empty, Token::Int(22), Token::Empty]
    );
    let tokens = tokenizer("5;6;7;8;");
    assert_eq!(tokens.len(), 5);
    assert_eq!(tokens.last(), Some(&Token::Empty));
}

#[test]
fn terminator_never_becomes_a_token() {
    for program in [";", "1;", ";;1;;", "12;34;"] {
        for token in tokenizer(program) {
            assert!(matches!(token, Token::Empty | Token::Int(_)));
        }
    }
}

#[test]
fn programs_concatenate() {
    let first = "1;22;";
    let rest = ";333;";
    let mut expected = tokenizer(first);
    expected.pop();
    expected.extend(tokenizer(rest));
    assert_eq!(tokenizer("1;22;;333;"), expected);
    assert_eq!(scan("1;22;4"), Err(ScanError::MissingTerminator));
    assert_eq!(scan("1;22;4x"), Err(ScanError::UnhandledCharacter('x')));
}

#[test]
fn long_digit_runs_wrap_around() {
    assert_eq!(
        tokenizer("9223372036854775808;"),
        vec![Token::Int(i64::MIN), Token::Empty]
    );
    assert_eq!(
        tokenizer("18446744073709551616;"),
        vec![Token::Int(0), Token::Empty]
    );
    assert_eq!(
        tokenizer("18446744073709551621;"),
        vec![Token::Int(5), Token::Empty]
    );
    assert_eq!(
        tokenizer("18446744073709551615;"),
        vec![Token::Int(-1), Token::Empty]
    );
}

#[test]
fn scan_agrees_with_tokenizer_on_accepted_programs() {
    for program in ["", ";", "12;", ";12;", "1;22;333;"] {
        assert_eq!(scan(program), Ok(tokenizer(program)));
    }
}
