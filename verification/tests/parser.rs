use tolliver::cli::parser::parse_function;

#[test]
fn name_and_arguments() {
    let function = parse_function("connect 127.0.0.1:8080 00ff".chars()).unwrap();
    assert_eq!(function.name, "connect");
    assert_eq!(function.args, vec!["127.0.0.1:8080".to_string(), "00ff".to_string()]);
}

#[test]
fn name_alone() {
    let function = parse_function("q".chars()).unwrap();
    assert_eq!(function.name, "q");
    assert!(function.args.is_empty());
}

#[test]
fn empty_line_is_the_empty_command() {
    let function = parse_function("".chars()).unwrap();
    assert_eq!(function.name, "");
    assert!(function.args.is_empty());
}

#[test]
fn spaces_that_meet_give_empty_words() {
    let function = parse_function("send  a ".chars()).unwrap();
    assert_eq!(function.name, "send");
    assert_eq!(function.args, vec!["".to_string(), "a".to_string(), "".to_string()]);
}

#[test]
fn leading_space_gives_an_empty_name() {
    let function = parse_function(" start".chars()).unwrap();
    assert_eq!(function.name, "");
    assert_eq!(function.args, vec!["start".to_string()]);
}

#[test]
fn only_the_space_splits() {
    let function = parse_function("a\tb,c d".chars()).unwrap();
    assert_eq!(function.name, "a\tb,c");
    assert_eq!(function.args, vec!["d".to_string()]);
}

#[test]
fn words_joined_by_spaces_are_the_line() {
    let line = "send proto_files/items.proto Shirt color: \"Red\" size: LARGE";
    let function = parse_function(line.chars()).unwrap();
    let mut words = vec![function.name];
    words.extend(function.args);
    assert_eq!(words.len(), 7);
    assert_eq!(words.join(" "), line);
    assert!(words.iter().all(|word| !word.contains(' ')));
}
