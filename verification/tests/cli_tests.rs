use adduce::cli::{parse_command, Command};
use adduce::decimal::i64_to_string;
use adduce::paths::{
    conf_path, document_path, export_path, feed_output_path, initial_document_content,
};

fn args(list: &[&str]) -> Vec<String> {
    list.iter().map(|s| s.to_string()).collect()
}

#[test]
fn no_command_asks_for_help() {
    assert!(matches!(parse_command(&args(&["adduce"])), Command::Help));
    assert!(matches!(parse_command(&args(&[])), Command::Help));
}

#[test]
fn bare_commands_parse() {
    assert!(matches!(
        parse_command(&args(&["adduce", "establish"])),
        Command::Establish
    ));
    assert!(matches!(parse_command(&args(&["adduce", "rss"])), Command::Rss));
}

#[test]
fn commands_with_argument_parse() {
    match parse_command(&args(&["adduce", "create", "post"])) {
        Command::Create(n) => assert_eq!(n, "post"),
        _ => panic!("create takes its argument"),
    }
    match parse_command(&args(&["adduce", "export", "post"])) {
        Command::Export(n) => assert_eq!(n, "post"),
        _ => panic!("export takes its argument"),
    }
    match parse_command(&args(&["adduce", "search", "needle"])) {
        Command::Search(n) => assert_eq!(n, "needle"),
        _ => panic!("search takes its argument"),
    }
    match parse_command(&args(&["adduce", "remove", "post"])) {
        Command::Remove(n) => assert_eq!(n, "post"),
        _ => panic!("remove takes its argument"),
    }
    match parse_command(&args(&["adduce", "edit", "post"])) {
        Command::Edit(n) => assert_eq!(n, "post"),
        _ => panic!("edit takes its argument"),
    }
}

#[test]
fn missing_argument_asks_for_help() {
    assert!(matches!(
        parse_command(&args(&["adduce", "create"])),
        Command::Help
    ));
    assert!(matches!(
        parse_command(&args(&["adduce", "unknown"])),
        Command::Help
    ));
}

#[test]
fn derived_paths() {
    assert_eq!(document_path("post"), "feed/documents/post.md");
    assert_eq!(export_path("post"), "feed/export/post.html");
    assert_eq!(conf_path(), "feed/conf.toml");
    assert_eq!(feed_output_path(), "feed/export/feed.xml");
}

#[test]
fn initial_content_is_a_heading_of_the_name() {
    assert_eq!(initial_document_content("post"), "# post\n");
}

#[test]
fn decimal_rendering() {
    assert_eq!(i64_to_string(0), "0");
    assert_eq!(i64_to_string(123), "123");
    assert_eq!(i64_to_string(-45), "-45");
    assert_eq!(i64_to_string(i64::MAX), "9223372036854775807");
    assert_eq!(i64_to_string(i64::MIN), "-9223372036854775808");
}

#[test]
fn search_filters_names_keeping_order() {
    let names = vec![
        "alpha.md".to_string(),
        "beta.md".to_string(),
        "alphabet.md".to_string(),
    ];
    assert_eq!(
        adduce::search::search_names(&names, "alpha"),
        vec!["alpha.md".to_string(), "alphabet.md".to_string()]
    );
    assert_eq!(
        adduce::search::search_names(&names, "nothing"),
        Vec::<String>::new()
    );
    assert_eq!(adduce::search::search_names(&names, ""), names);
}
