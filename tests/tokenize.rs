use simple_vm::{tokenize, StackOperation, StackValue};

fn tokens(text: &str) -> Vec<StackValue> {
    tokenize(text).unwrap()
}

#[test]
fn test_tokenize() {
    let empty: Vec<StackValue> = vec![];
    assert_eq!(empty, tokens("# whatever man"));
    assert_eq!(empty, tokens("# \"sup\" println read"));
    assert_eq!(empty, tokens("      "));
    assert_eq!(vec![StackValue::String("#".to_owned())], tokens("\"#\""));
    assert_eq!(vec![StackValue::Num(0)], tokens("0"));
    assert_eq!(vec![StackValue::Num(0), StackValue::Num(1)], tokens("0 1"));
    assert_eq!(vec![StackValue::String("hi".to_owned())], tokens("\"hi\""));
}

#[test]
fn test_stack_operations_are_tiny() {
    assert_eq!(1, std::mem::size_of::<StackOperation>());
}

#[test]
fn tokenize_recognizes_each_kind_of_value() {
    let expected = vec![
        StackValue::Bool(true),
        StackValue::Bool(false),
        StackValue::Num(-12),
        StackValue::Num(7),
        StackValue::Operation(StackOperation::Duplicate),
        StackValue::String("a b".to_owned()),
        StackValue::Label("start".to_owned()),
        StackValue::PossibleLabel("start".to_owned()),
    ];
    assert_eq!(expected, tokens("true false -12 +7 dup \"a b\" start: start"));
}

#[test]
fn tokenize_comment_ends_at_line_break() {
    assert_eq!(
        vec![StackValue::Num(1), StackValue::Num(2)],
        tokens("1 # ignored 3 4\n2")
    );
}

#[test]
fn tokenize_escaped_quote_stays_in_string() {
    assert_eq!(
        vec![StackValue::String("say \"hi\"".to_owned())],
        tokens("\"say \\\"hi\\\"\"")
    );
}

#[test]
fn tokenize_separators_tab_and_carriage_return() {
    assert_eq!(
        vec![StackValue::Num(1), StackValue::Num(2), StackValue::Num(3)],
        tokens("1\t2\r\n3")
    );
}

#[test]
fn tokenize_integer_out_of_range_is_a_symbol() {
    assert_eq!(
        vec![StackValue::PossibleLabel("99999999999999999999999".to_owned())],
        tokens("99999999999999999999999")
    );
}

#[test]
fn tokenize_lone_signs_and_colon_are_symbols() {
    assert_eq!(
        vec![
            StackValue::Operation(StackOperation::Minus),
            StackValue::PossibleLabel("+5x".to_owned()),
            StackValue::PossibleLabel(":".to_owned()),
        ],
        tokens("- +5x :")
    );
}

#[test]
fn tokenize_round_trip_of_rendered_values() {
    let values = vec![
        StackValue::Num(-42),
        StackValue::Bool(true),
        StackValue::String("two words".to_owned()),
        StackValue::Num(0),
        StackValue::Bool(false),
        StackValue::String("".to_owned()),
    ];
    let text = "-42 true \"two words\" 0 false \"\"";
    assert_eq!(values, tokens(text));
    let rendered: Vec<String> = values
        .iter()
        .map(|v| match v {
            StackValue::String(s) => format!("\"{}\"", s),
            other => other.render(),
        })
        .collect();
    assert_eq!(values, tokens(&rendered.join(" ")));
}

#[test]
fn parse_single_token() {
    assert_eq!(StackValue::Num(12), StackValue::parse("12"));
    assert_eq!(StackValue::Label("x".to_owned()), StackValue::parse("x:"));
    let parsed: StackValue = "\"q\"".parse().unwrap();
    assert_eq!(StackValue::String("q".to_owned()), parsed);
}

#[test]
fn operation_from_unknown_name_is_invalid() {
    match StackOperation::parse("nope") {
        Err(simple_vm::StackError::InvalidOperation { name }) => assert_eq!("nope", name),
        other => panic!("unexpected {:?}", other),
    }
    assert_eq!(StackOperation::Over, StackOperation::parse("over").unwrap());
    let parsed: StackOperation = "sleep_ms".parse().unwrap();
    assert_eq!(StackOperation::SleepMS, parsed);
}

#[test]
fn render_values_in_text_form() {
    assert_eq!("-9223372036854775808", StackValue::Num(isize::MIN).render());
    assert_eq!("1234", StackValue::Num(1234).render());
    assert_eq!("here:", StackValue::Label("here".to_owned()).render());
    assert_eq!("<op:Plus>", StackValue::Operation(StackOperation::Plus).render());
}

#[test]
fn tokenize_backslash_escapes_only_the_next_character() {
    assert_eq!(
        vec![
            StackValue::String("ab".to_owned()),
            StackValue::PossibleLabel("c\"".to_owned()),
        ],
        tokens("\"a\\b\" c\"")
    );
    assert_eq!(
        vec![StackValue::PossibleLabel("a#b".to_owned())],
        tokens("a\\#b")
    );
}

#[test]
fn tokenize_joined_rendered_values_without_trailing_space() {
    let values = vec![
        StackValue::Num(5),
        StackValue::String("x y".to_owned()),
    ];
    assert_eq!(values, tokens("5 \"x y\""));
}
