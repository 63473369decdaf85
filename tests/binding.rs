use ircbot::binder::{bind, BindError, CommandArg};
use ircbot::command::{Command, Handler};
use ircbot::text::{join_from, split_words};

fn arg(required: bool, name: &str) -> CommandArg {
    CommandArg { required, name: name.to_string() }
}

fn pairs(b: &ircbot::binder::Bindings) -> Vec<(String, String)> {
    b.entries.clone()
}

#[test]
fn trailing_words_go_to_last_argument() {
    let args = vec![arg(true, "nick"), arg(false, "reason")];
    let b = bind(&args, "bob please leave now").unwrap();
    assert_eq!(b.get("nick"), Some(&"bob".to_string()));
    assert_eq!(b.get("reason"), Some(&"please leave now".to_string()));
    assert_eq!(b.entries.len(), 2);
}

#[test]
fn empty_tail_with_only_optional_arguments_binds_nothing() {
    let args = vec![arg(false, "a"), arg(false, "b")];
    let b = bind(&args, "").unwrap();
    assert!(b.entries.is_empty());
}

#[test]
fn empty_tail_with_a_required_argument_fails() {
    let args = vec![arg(false, "a"), arg(true, "b")];
    assert_eq!(bind(&args, ""), Err(BindError::MissingArgument("b".to_string())));
}

#[test]
fn too_few_words_names_first_unfilled_required() {
    let args = vec![arg(true, "a"), arg(false, "b"), arg(true, "c"), arg(true, "d")];
    assert_eq!(bind(&args, "x y"), Err(BindError::MissingArgument("c".to_string())));
    assert_eq!(bind(&args, "x"), Err(BindError::MissingArgument("c".to_string())));
}

#[test]
fn no_declared_arguments_ignore_the_tail() {
    let b = bind(&Vec::new(), "anything at all").unwrap();
    assert!(b.entries.is_empty());
}

#[test]
fn optional_argument_without_word_is_absent() {
    let args = vec![arg(true, "nick"), arg(false, "reason")];
    let b = bind(&args, "  bob ").unwrap();
    assert_eq!(pairs(&b), vec![("nick".to_string(), "bob".to_string())]);
    assert_eq!(b.get("reason"), None);
}

#[test]
fn slurp_collapses_inner_whitespace() {
    let args = vec![arg(true, "text")];
    let b = bind(&args, "hello \t  big\nworld").unwrap();
    assert_eq!(b.get("text"), Some(&"hello big world".to_string()));
}

#[test]
fn middle_arguments_take_one_word() {
    let args = vec![arg(true, "a"), arg(true, "b"), arg(true, "c")];
    let b = bind(&args, "1 2 3 4 5").unwrap();
    assert_eq!(
        pairs(&b),
        vec![
            ("a".to_string(), "1".to_string()),
            ("b".to_string(), "2".to_string()),
            ("c".to_string(), "3 4 5".to_string()),
        ]
    );
}

#[test]
fn arguments_method_binds_like_bind() {
    let cmd = Command::new(true, "admin".to_string(), vec![arg(true, "nick"), arg(false, "reason")], Handler::Kick);
    let b = cmd.arguments("bob be nice".to_string()).unwrap();
    assert_eq!(b.get("reason"), Some(&"be nice".to_string()));
    assert_eq!(
        cmd.arguments(String::new()),
        Err(BindError::MissingArgument("nick".to_string()))
    );
}

#[test]
fn help_lists_arguments_in_order() {
    let cmd = Command::new(true, "admin".to_string(), vec![arg(true, "nick"), arg(false, "reason")], Handler::Kick);
    assert_eq!(cmd.help(), "USAGE <nick> [reason]");
    let none = Command::new(false, String::new(), Vec::new(), Handler::Say);
    assert_eq!(none.help(), "USAGE");
}

#[test]
fn split_words_on_unicode_whitespace() {
    let ws = split_words("  a\u{3000}bc \u{a0}d  ");
    assert_eq!(ws, vec!["a".to_string(), "bc".to_string(), "d".to_string()]);
    assert!(split_words(" \t\n ").is_empty());
}

#[test]
fn join_from_skips_the_first_words() {
    let ws = vec!["say".to_string(), "hello".to_string(), "world".to_string()];
    assert_eq!(join_from(&ws, 1), "hello world");
    assert_eq!(join_from(&ws, 3), "");
}
