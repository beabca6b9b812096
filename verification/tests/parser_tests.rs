use taskman::parser::{process_input, tokenize, Command, ParseError};
use taskman::task::{Priority, Status};

fn tokens(input: &str) -> Vec<String> {
    tokenize(input).expect("tokenize failed")
}

#[test]
fn tokenizer_quoted_spans() {
    assert_eq!(
        tokens("add \"a b\" \"c d\" high done"),
        vec![
            "add".to_string(),
            "a b".to_string(),
            "c d".to_string(),
            "high".to_string(),
            "done".to_string(),
        ]
    );
}

#[test]
fn tokenizer_plain_words() {
    assert_eq!(tokens("help"), vec!["help".to_string()]);
    assert_eq!(
        tokens("  status   3   doing  "),
        vec!["status".to_string(), "3".to_string(), "doing".to_string()]
    );
}

#[test]
fn tokenizer_empty_line() {
    assert_eq!(tokens(""), Vec::<String>::new());
    assert_eq!(tokens("   \t "), Vec::<String>::new());
}

#[test]
fn tokenizer_keeps_empty_quoted_token() {
    // A bare pair of quotes strips to nothing but still stands as an
    // argument: it is how an empty description is passed.
    assert_eq!(
        tokens("add \"\" x"),
        vec!["add".to_string(), "".to_string(), "x".to_string()]
    );
}

#[test]
fn tokenizer_unterminated_quote_is_an_error() {
    // Documented policy: a quoted span still open at end of line is a
    // hard parse error, not silently swallowed input.
    assert!(tokenize("add \"oops").is_err());
    assert!(matches!(tokenize("add \"a b"), Err(ParseError::UnterminatedQuote)));
}

#[test]
fn tokenizer_multi_fragment_quote_collapses_whitespace() {
    assert_eq!(tokens("\"a   b\""), vec!["a b".to_string()]);
}

#[test]
fn tokenizer_quote_closes_only_at_fragment_end() {
    // The closing quote counts only when it ends a fragment, so the span
    // here swallows the rest of the line and never closes.
    assert!(matches!(tokenize("add \"abc\"def x"), Err(ParseError::UnterminatedQuote)));
}

#[test]
fn tokenizer_keeps_quote_inside_a_plain_token() {
    assert_eq!(tokens("a\"b"), vec!["a\"b".to_string()]);
}

#[test]
fn parse_empty_line_is_noop() {
    assert!(matches!(process_input(""), Ok(Command::NoOp)));
}

#[test]
fn parse_help_save_quit() {
    assert!(matches!(process_input("help"), Ok(Command::Help)));
    assert!(matches!(process_input("save"), Ok(Command::Save)));
    assert!(matches!(process_input("quit"), Ok(Command::Quit)));
}

#[test]
fn parse_help_rejects_arguments() {
    let e = process_input("help me").unwrap_err();
    assert_eq!(e.message(), "Unexpected arguments for command 'help'...");
    let e = process_input("quit now").unwrap_err();
    assert_eq!(e.message(), "Unexpected arguments for command 'quit'...");
}

#[test]
fn parse_show() {
    match process_input("show 17") {
        Ok(Command::Show(17)) => {}
        other => panic!("unexpected parse: {:?}", other.map(|_| ())),
    }
}

#[test]
fn parse_show_accepts_plus_sign() {
    // u32 parsing follows the standard numeral form: an optional '+'.
    assert!(matches!(process_input("show +3"), Ok(Command::Show(3))));
}

#[test]
fn parse_show_id_bounds() {
    assert!(matches!(process_input("show 4294967295"), Ok(Command::Show(4294967295))));
    let e = process_input("show 4294967296").unwrap_err();
    assert_eq!(e.message(), "Invalid <task_id> argument...");
}

#[test]
fn parse_show_leading_zeros_and_signs() {
    assert!(matches!(process_input("show 007"), Ok(Command::Show(7))));
    let e = process_input("show -1").unwrap_err();
    assert_eq!(e.message(), "Invalid <task_id> argument...");
}

#[test]
fn parse_show_missing_and_invalid_id() {
    let e = process_input("show").unwrap_err();
    assert_eq!(e.message(), "Missing <task_id> argument...");
    let e = process_input("show abc").unwrap_err();
    assert_eq!(e.message(), "Invalid <task_id> argument...");
}

#[test]
fn parse_add_full() {
    match process_input("add \"Buy milk\" \"from the store\" high doing") {
        Ok(Command::Add(title, description, priority, status)) => {
            assert_eq!(title, "Buy milk");
            assert_eq!(description, "from the store");
            assert_eq!(priority, Priority::High);
            assert_eq!(status, Status::Doing);
        }
        _ => panic!("expected an add command"),
    }
}

#[test]
fn parse_add_defaults() {
    match process_input("add Chores") {
        Ok(Command::Add(title, description, priority, status)) => {
            assert_eq!(title, "Chores");
            assert_eq!(description, "");
            assert_eq!(priority, Priority::Low);
            assert_eq!(status, Status::ToDo);
        }
        _ => panic!("expected an add command"),
    }
}

#[test]
fn parse_add_missing_title() {
    let e = process_input("add").unwrap_err();
    assert_eq!(e.message(), "Missing <title> argument...");
}

#[test]
fn parse_add_bad_enums() {
    let e = process_input("add t d urgent").unwrap_err();
    assert_eq!(e.message(), "Invalid priority argument...");
    let e = process_input("add t d high later").unwrap_err();
    assert_eq!(e.message(), "Invalid status argument...");
}

#[test]
fn parse_remove() {
    assert!(matches!(process_input("remove 0"), Ok(Command::Remove(0))));
    let e = process_input("remove x").unwrap_err();
    assert_eq!(e.message(), "Invalid <task_id> argument...");
}

#[test]
fn parse_priority_command() {
    match process_input("priority 2 HIGH") {
        Ok(Command::Priority(2, Priority::High)) => {}
        _ => panic!("expected a priority command"),
    }
    let e = process_input("priority 2").unwrap_err();
    assert_eq!(e.message(), "Missing <new_priority> argument...");
    let e = process_input("priority 2 nope").unwrap_err();
    assert_eq!(e.message(), "Invalid <new_priority> argument...");
}

#[test]
fn parse_status_command() {
    match process_input("status 0 doing") {
        Ok(Command::Status(0, Status::Doing)) => {}
        _ => panic!("expected a status command"),
    }
    let e = process_input("status 0").unwrap_err();
    assert_eq!(e.message(), "Missing <new_status> argument...");
    let e = process_input("status 0 nope").unwrap_err();
    assert_eq!(e.message(), "Invalid <new_status> argument...");
}

#[test]
fn parse_description_not_implemented() {
    let e = process_input("description 0 text").unwrap_err();
    assert_eq!(e.message(), "Command 'description' not implemented yet...");
}

#[test]
fn parse_unknown_command() {
    let e = process_input("frobnicate").unwrap_err();
    assert_eq!(e.message(), "Invalid command 'frobnicate'...");
}

#[test]
fn priority_parsing_is_case_insensitive() {
    assert_eq!(Priority::from_str("low"), Ok(Priority::Low));
    assert_eq!(Priority::from_str("Medium"), Ok(Priority::Medium));
    assert_eq!(Priority::from_str("HIGH"), Ok(Priority::High));
    assert!(Priority::from_str("highest").is_err());
    assert!(Priority::from_str("").is_err());
}

#[test]
fn status_parsing_is_case_insensitive() {
    assert_eq!(Status::from_str("todo"), Ok(Status::ToDo));
    assert_eq!(Status::from_str("DoInG"), Ok(Status::Doing));
    assert_eq!(Status::from_str("DONE"), Ok(Status::Done));
    assert!(Status::from_str("finished").is_err());
}
