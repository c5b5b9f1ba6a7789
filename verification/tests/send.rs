use attentio::cli::commands::send::quote_args_for_shell;

#[test]
fn test_quote_args_single_word() {
    let args = vec!["echo".to_string(), "test".to_string()];
    assert_eq!(quote_args_for_shell(&args), "echo test");
}

#[test]
fn test_quote_args_with_spaces() {
    let args = vec!["echo".to_string(), "test this".to_string()];
    assert_eq!(quote_args_for_shell(&args), "echo \"test this\"");
}

#[test]
fn test_quote_args_multiple_with_spaces() {
    let args = vec![
        "cmd".to_string(),
        "arg one".to_string(),
        "arg two".to_string(),
    ];
    assert_eq!(quote_args_for_shell(&args), "cmd \"arg one\" \"arg two\"");
}

#[test]
fn test_quote_args_mixed() {
    let args = vec![
        "led".to_string(),
        "pulse".to_string(),
        "bright red".to_string(),
    ];
    assert_eq!(quote_args_for_shell(&args), "led pulse \"bright red\"");
}

#[test]
fn test_quote_args_with_tabs() {
    let args = vec!["echo".to_string(), "test\tthis".to_string()];
    assert_eq!(quote_args_for_shell(&args), "echo \"test\tthis\"");
}

#[test]
fn test_quote_args_with_embedded_quotes() {
    let args = vec!["echo".to_string(), "He said \"hello\"".to_string()];
    assert_eq!(
        quote_args_for_shell(&args),
        "echo \"He said \\\"hello\\\"\""
    );
}

#[test]
fn test_quote_args_empty() {
    let args: Vec<String> = vec![];
    assert_eq!(quote_args_for_shell(&args), "");
}

#[test]
fn test_quote_args_single_command() {
    let args = vec!["help".to_string()];
    assert_eq!(quote_args_for_shell(&args), "help");
}

#[test]
fn quote_args_quotes_without_whitespace_are_kept() {
    let args = vec!["say".to_string(), "\"hi\"".to_string()];
    assert_eq!(quote_args_for_shell(&args), "say \"hi\"");
}

#[test]
fn quote_args_unicode_whitespace() {
    let args = vec!["a\u{00A0}b".to_string()];
    assert_eq!(quote_args_for_shell(&args), "\"a\u{00A0}b\"");
}
