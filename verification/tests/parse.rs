use irc_core::command::{parse_line, Command};

#[test]
fn parse_nick() {
    assert_eq!(parse_line("NICK alice"), Command::Nick("alice".to_string()));
}

#[test]
fn parse_nick_empty() {
    assert_eq!(parse_line("NICK"), Command::Nick(String::new()));
    assert_eq!(parse_line("NICK "), Command::Nick(String::new()));
}

#[test]
fn parse_user_ignores_rest() {
    assert_eq!(parse_line("USER u 0 * :Real Name"), Command::User);
    assert_eq!(parse_line("USER"), Command::User);
}

#[test]
fn parse_join() {
    assert_eq!(parse_line("JOIN #Main"), Command::Join("#Main".to_string()));
    assert_eq!(parse_line("JOIN #other"), Command::Join("#other".to_string()));
}

#[test]
fn parse_privmsg() {
    assert_eq!(
        parse_line("PRIVMSG #Main :hello world"),
        Command::Privmsg("#Main".to_string(), "hello world".to_string())
    );
}

#[test]
fn parse_privmsg_keeps_inner_colons() {
    assert_eq!(
        parse_line("PRIVMSG #Main :a:b c"),
        Command::Privmsg("#Main".to_string(), "a:b c".to_string())
    );
}

#[test]
fn parse_privmsg_missing_marker_is_empty_text() {
    assert_eq!(
        parse_line("PRIVMSG #Main hello"),
        Command::Privmsg("#Main".to_string(), String::new())
    );
    assert_eq!(
        parse_line("PRIVMSG #Main"),
        Command::Privmsg("#Main".to_string(), String::new())
    );
    assert_eq!(
        parse_line("PRIVMSG"),
        Command::Privmsg(String::new(), String::new())
    );
}

#[test]
fn parse_quit() {
    assert_eq!(parse_line("QUIT"), Command::Quit);
    assert_eq!(parse_line("QUIT :bye"), Command::Quit);
}

#[test]
fn parse_cap() {
    assert_eq!(parse_line("CAP LS 302"), Command::Cap);
}

#[test]
fn parse_unknown_verb() {
    assert_eq!(
        parse_line("USERHOST alice"),
        Command::Unknown("USERHOST".to_string())
    );
    assert_eq!(parse_line("FOO"), Command::Unknown("FOO".to_string()));
}

#[test]
fn parse_is_case_sensitive() {
    assert_eq!(parse_line("nick alice"), Command::Unknown("nick".to_string()));
}

#[test]
fn parse_empty_line() {
    assert_eq!(parse_line(""), Command::Unknown(String::new()));
}
