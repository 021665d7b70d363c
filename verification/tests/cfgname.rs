use syn_file_expand::cfgname::{
    cli_literal_of, decide_cfg, env_literal_of, env_text, get_cli_name, get_env_name,
    to_ascii_upper, uppercased,
};
use syn_file_expand::{Delimiter, LiteralValue, Token};

fn ident(text: &str) -> Token {
    Token::Ident(text.to_owned())
}

fn raw(text: &str) -> Token {
    Token::Literal(text.to_owned())
}

fn group(d: Delimiter, inner: Vec<Token>) -> Token {
    Token::Group(d, inner)
}

fn s(text: &str) -> String {
    text.to_owned()
}

#[test]
fn capitals_of_ascii_letters_only() {
    assert_eq!(to_ascii_upper('a'), 'A');
    assert_eq!(to_ascii_upper('z'), 'Z');
    assert_eq!(to_ascii_upper('A'), 'A');
    assert_eq!(to_ascii_upper('`'), '`');
    assert_eq!(to_ascii_upper('{'), '{');
    assert_eq!(to_ascii_upper('é'), 'é');
    assert_eq!(uppercased(&s("target_os-é9")), "TARGET_OS-é9");
    assert_eq!(env_text(&s("my feature-x é")), "MY_FEATURE_X_é");
    assert_eq!(env_text(&s("")), "");
}

#[test]
fn cli_name_of_a_feature_guard() {
    let cfg = vec![ident("feature"), Token::Punct('='), raw("\"lol\"")];
    assert_eq!(get_cli_name(&cfg), "feature=lol");
    assert_eq!(get_cli_name(&vec![ident("windows")]), "windows");
    assert_eq!(get_cli_name(&vec![]), "");
}

#[test]
fn cli_name_keeps_brackets_and_punctuation() {
    let cfg = vec![
        ident("all"),
        group(
            Delimiter::Parenthesis,
            vec![
                ident("unix"),
                Token::Punct(','),
                ident("not"),
                group(Delimiter::Parenthesis, vec![ident("a"), Token::Punct('='), raw("\"b c\"")]),
            ],
        ),
        group(Delimiter::Bracket, vec![raw("1u8")]),
        group(Delimiter::Brace, vec![raw("'x'")]),
        group(Delimiter::Invisible, vec![ident("q")]),
    ];
    assert_eq!(get_cli_name(&cfg), "all(unix,not(a=b c))[1u8]{x}q");
}

#[test]
fn cli_name_drops_literals_without_a_text() {
    let cfg = vec![raw("b\"bytes\""), raw("b'x'"), raw("1.5"), raw("\"kept\""), raw("12")];
    assert_eq!(get_cli_name(&cfg), "kept12");
}

#[test]
fn env_name_of_a_feature_guard() {
    let cfg = vec![ident("feature"), Token::Punct('='), raw("\"my-cool feature\"")];
    assert_eq!(get_env_name(&cfg), "FEATURE_MY_COOL_FEATURE");
    assert_eq!(get_env_name(&vec![ident("windows")]), "WINDOWS");
    assert_eq!(get_env_name(&vec![]), "");
    assert_eq!(get_env_name(&vec![Token::Punct('=')]), "");
}

#[test]
fn env_name_joins_with_underscores_across_groups() {
    let cfg = vec![
        ident("all"),
        group(
            Delimiter::Parenthesis,
            vec![
                ident("unix"),
                Token::Punct(','),
                group(Delimiter::Parenthesis, vec![]),
                ident("target_os"),
                Token::Punct('='),
                raw("\"linux\""),
            ],
        ),
        raw("7"),
        raw("'c'"),
        raw("2.5"),
        raw("\"\""),
        ident("end"),
    ];
    assert_eq!(get_env_name(&cfg), "ALL_UNIX_TARGET_OS_LINUX_7_c_END");
}

#[test]
fn contributions_of_literals_for_given_readings() {
    assert_eq!(cli_literal_of(LiteralValue::Str(s("a b"))), "a b");
    assert_eq!(cli_literal_of(LiteralValue::Char('x')), "x");
    assert_eq!(cli_literal_of(LiteralValue::Int(s("12u8"))), "12u8");
    assert_eq!(cli_literal_of(LiteralValue::Bool(true)), "true");
    assert_eq!(cli_literal_of(LiteralValue::Bool(false)), "false");
    assert_eq!(cli_literal_of(LiteralValue::ByteStr), "");
    assert_eq!(cli_literal_of(LiteralValue::CStr), "");
    assert_eq!(cli_literal_of(LiteralValue::Byte), "");
    assert_eq!(cli_literal_of(LiteralValue::Float), "");
    assert_eq!(cli_literal_of(LiteralValue::Verbatim), "");
    assert_eq!(cli_literal_of(LiteralValue::Unreadable), "");

    assert_eq!(env_literal_of(LiteralValue::Str(s("a b-c"))), "A_B_C");
    assert_eq!(env_literal_of(LiteralValue::Char('x')), "x");
    assert_eq!(env_literal_of(LiteralValue::Char('-')), "-");
    assert_eq!(env_literal_of(LiteralValue::Int(s("0x1f"))), "0x1f");
    assert_eq!(env_literal_of(LiteralValue::Bool(true)), "true");
    assert_eq!(env_literal_of(LiteralValue::Bool(false)), "false");
    assert_eq!(env_literal_of(LiteralValue::ByteStr), "");
    assert_eq!(env_literal_of(LiteralValue::CStr), "");
    assert_eq!(env_literal_of(LiteralValue::Byte), "");
    assert_eq!(env_literal_of(LiteralValue::Float), "");
    assert_eq!(env_literal_of(LiteralValue::Verbatim), "");
    assert_eq!(env_literal_of(LiteralValue::Unreadable), "");
}

#[test]
fn names_tell_the_kinds_of_literals_apart() {
    let cfg = vec![
        raw("\"s\""),
        raw("'c'"),
        raw("7i64"),
        raw("b\"bytes\""),
        raw("c\"cstr\""),
        raw("b'x'"),
        raw("1.5"),
        raw("\"unterminated"),
    ];
    assert_eq!(get_cli_name(&cfg), "sc7i64");
    assert_eq!(get_env_name(&cfg), "S_c_7i64");
}

#[test]
fn verdict_on_a_guard_from_outside() {
    // named as holding
    assert!(decide_cfg(false, true, false, None, false));
    assert!(!decide_cfg(false, true, true, Some(s("1")), true));
    // all hold by default
    assert!(decide_cfg(true, false, false, Some(s("0")), false));
    assert!(!decide_cfg(true, false, true, None, true));
    // the environment decides
    assert!(decide_cfg(false, false, false, Some(s("1")), false));
    assert!(!decide_cfg(false, false, true, Some(s("0")), true));
    assert!(!decide_cfg(false, false, false, Some(s("true")), true));
    assert!(!decide_cfg(false, false, false, Some(s("")), true));
    // nothing is set
    assert!(decide_cfg(false, false, true, None, true));
    assert!(!decide_cfg(false, false, false, None, false));
}
