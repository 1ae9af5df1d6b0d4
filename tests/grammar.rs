use gossip_node::command::{parse_command, same_text, split_tokens, Command};

#[test]
fn split_on_single_spaces() {
    assert_eq!(split_tokens("a  b"), vec!["a", "", "b"]);
    assert_eq!(split_tokens(""), vec![""]);
    assert_eq!(split_tokens(" x "), vec!["", "x", ""]);
    assert_eq!(split_tokens("é ü"), vec!["é", "ü"]);
}

#[test]
fn parse_each_verb() {
    assert_eq!(parse_command("id"), Command::Id);
    assert_eq!(parse_command("id extra"), Command::Id);
    assert_eq!(parse_command("random"), Command::Random);
    assert_eq!(
        parse_command("cache_get 1 k extra"),
        Command::CacheGet { request_id: "1".to_string(), key: "k".to_string() }
    );
    assert_eq!(
        parse_command("swarm x y"),
        Command::Swarm { payload: "x y".to_string() }
    );
    assert_eq!(parse_command(""), Command::Malformed);
    assert_eq!(parse_command("nope"), Command::Unrecognized);
}

#[test]
fn same_text_compares_characters() {
    assert!(same_text("abc", "abc"));
    assert!(!same_text("abc", "abd"));
    assert!(!same_text("ab", "abc"));
}
