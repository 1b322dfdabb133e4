use tolliver::cli::command::{
    join_from, parse_command, same_text, Command, CommandError, CommandName,
};
use tolliver::cli::parser::{parse_function, Function};
use tolliver::cli::type_parsing::decimal_to_number;

fn command(line: &str) -> Result<Command, CommandError> {
    parse_command(&parse_function(line.chars()).unwrap())
}

#[test]
fn quit() {
    assert!(matches!(command("q"), Ok(Command::Quit)));
    assert!(matches!(command("q now"), Ok(Command::Quit)));
}

#[test]
fn connect_with_address_and_key() {
    let key = "01".repeat(32);
    match command(&format!("connect 127.0.0.1:8080 {}", key)) {
        Ok(Command::Connect { addr, api_key }) => {
            assert_eq!(addr, "127.0.0.1:8080");
            assert_eq!(api_key, [1u8; 32]);
        }
        other => panic!("expected a connect command, got {:?}", other),
    }
}

#[test]
fn connect_without_key_is_a_usage_error() {
    assert!(matches!(
        command("connect"),
        Err(CommandError::Usage(CommandName::Connect))
    ));
    assert!(matches!(
        command("connect 127.0.0.1:8080"),
        Err(CommandError::Usage(CommandName::Connect))
    ));
}

#[test]
fn connect_with_bad_key() {
    match command("connect 127.0.0.1:8080 0g") {
        Err(CommandError::ApiKey(reason)) => assert_eq!(reason, "Invalid character: g"),
        other => panic!("expected a key error, got {:?}", other),
    }
    assert!(matches!(
        command("connect 127.0.0.1:8080 0011"),
        Err(CommandError::ApiKeyLength)
    ));
    let long = "00".repeat(33);
    assert!(matches!(
        command(&format!("connect 127.0.0.1:8080 {}", long)),
        Err(CommandError::ApiKeyLength)
    ));
}

#[test]
fn send_joins_the_values() {
    match command("send proto_files/items.proto Shirt color: \"Red\" size: LARGE") {
        Ok(Command::Send {
            proto_id,
            proto_path,
            message_name,
            message_values,
        }) => {
            assert_eq!(proto_id, 0);
            assert_eq!(proto_path, "proto_files/items.proto");
            assert_eq!(message_name, "Shirt");
            assert_eq!(message_values, "color: \"Red\" size: LARGE");
        }
        other => panic!("expected a send command, got {:?}", other),
    }
}

#[test]
fn send_without_values_sends_the_empty_message() {
    match command("send items.proto Shirt") {
        Ok(Command::Send { message_values, .. }) => assert_eq!(message_values, ""),
        other => panic!("expected a send command, got {:?}", other),
    }
    assert!(matches!(
        command("send items.proto"),
        Err(CommandError::Usage(CommandName::Send))
    ));
    assert!(matches!(
        command("send"),
        Err(CommandError::Usage(CommandName::Send))
    ));
}

#[test]
fn id_send_reads_the_schema_id() {
    match command("id_send proto_files/items.proto Shirt 3 color: \"Red\" size: LARGE") {
        Ok(Command::Send {
            proto_id,
            proto_path,
            message_name,
            message_values,
        }) => {
            assert_eq!(proto_id, 3);
            assert_eq!(proto_path, "proto_files/items.proto");
            assert_eq!(message_name, "Shirt");
            assert_eq!(message_values, "color: \"Red\" size: LARGE");
        }
        other => panic!("expected a send command, got {:?}", other),
    }
    match command("id_send items.proto Shirt three") {
        Err(CommandError::ProtoId(text)) => assert_eq!(text, "three"),
        other => panic!("expected a schema id error, got {:?}", other),
    }
    assert!(matches!(
        command("id_send items.proto Shirt"),
        Err(CommandError::Usage(CommandName::IdSend))
    ));
}

#[test]
fn start_with_and_without_address() {
    match command("start 0.0.0.0:9000") {
        Ok(Command::Start { listen }) => assert_eq!(listen, Some("0.0.0.0:9000".to_string())),
        other => panic!("expected a start command, got {:?}", other),
    }
    assert!(matches!(
        command("start"),
        Ok(Command::Start { listen: None })
    ));
}

#[test]
fn receive_with_and_without_schema() {
    assert!(matches!(
        command("receive"),
        Ok(Command::Receive { proto: None })
    ));
    match command("receive items.proto Shirt") {
        Ok(Command::Receive { proto }) => assert_eq!(
            proto,
            Some(("items.proto".to_string(), "Shirt".to_string()))
        ),
        other => panic!("expected a receive command, got {:?}", other),
    }
    assert!(matches!(
        command("receive items.proto"),
        Err(CommandError::Usage(CommandName::Receive))
    ));
}

#[test]
fn unknown_command() {
    match command("dance fast") {
        Err(CommandError::Unknown(name)) => assert_eq!(name, "dance"),
        other => panic!("expected an unknown command, got {:?}", other),
    }
    match command("Q") {
        Err(CommandError::Unknown(name)) => assert_eq!(name, "Q"),
        other => panic!("expected an unknown command, got {:?}", other),
    }
    match command("") {
        Err(CommandError::Unknown(name)) => assert_eq!(name, ""),
        other => panic!("expected an unknown command, got {:?}", other),
    }
}

#[test]
fn texts_compare() {
    assert!(same_text("", ""));
    assert!(same_text("send", "send"));
    assert!(!same_text("send", "sent"));
    assert!(!same_text("send", "sen"));
    assert!(!same_text("sen", "send"));
    assert!(!same_text("", "q"));
}

#[test]
fn joining_words() {
    let words = vec!["a".to_string(), "".to_string(), "b c".to_string(), "d".to_string()];
    assert_eq!(join_from(&words, 0), "a  b c d");
    assert_eq!(join_from(&words, 1), " b c d");
    assert_eq!(join_from(&words, 3), "d");
    assert_eq!(join_from(&words, 4), "");
    assert_eq!(join_from(&words, 0), words.join(" "));
}

#[test]
fn decimal_numbers() {
    assert_eq!(decimal_to_number("0"), Some(0));
    assert_eq!(decimal_to_number("3"), Some(3));
    assert_eq!(decimal_to_number("007"), Some(7));
    assert_eq!(decimal_to_number("+12"), Some(12));
    assert_eq!(decimal_to_number("1234567890"), Some(1234567890));
    assert_eq!(decimal_to_number("18446744073709551615"), Some(u64::MAX));
    assert_eq!(decimal_to_number("18446744073709551616"), None);
    assert_eq!(decimal_to_number("99999999999999999999999"), None);
    assert_eq!(decimal_to_number(""), None);
    assert_eq!(decimal_to_number("+"), None);
    assert_eq!(decimal_to_number("-1"), None);
    assert_eq!(decimal_to_number("++1"), None);
    assert_eq!(decimal_to_number("1+"), None);
    assert_eq!(decimal_to_number("12a"), None);
    assert_eq!(decimal_to_number(" 12"), None);
    assert_eq!(decimal_to_number("12 "), None);
}

#[test]
fn decimal_numbers_agree_with_the_standard_library() {
    for text in [
        "0", "1", "10", "0010", "+5", "+", "", "-", "-0", "abc", "18446744073709551615",
        "18446744073709551616", "184467440737095516150", "+18446744073709551615", "1_000", "１２",
    ] {
        assert_eq!(decimal_to_number(text), text.parse::<u64>().ok(), "{:?}", text);
    }
}

#[test]
fn functions_can_be_built_by_hand() {
    let function = Function {
        name: "start".to_string(),
        args: vec![],
    };
    assert!(matches!(
        parse_command(&function),
        Ok(Command::Start { listen: None })
    ));
}
