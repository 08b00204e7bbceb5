use irc_core::broadcast::{broadcast_all, broadcast_except, Delivery};
use irc_core::dispatch::{handle_disconnect, handle_line};
use irc_core::registry::Registry;
use irc_core::Stage;

/// The lines addressed to one session, in order.
fn lines_for(out: &[Delivery], to: u64) -> Vec<String> {
    out.iter()
        .filter(|d| d.to == to)
        .map(|d| d.line.clone())
        .collect()
}

/// A registry with two fully registered sessions, `alice` and `bob`.
fn alice_and_bob() -> (Registry, u64, u64) {
    let mut reg = Registry::new();
    let a = reg.connect().unwrap();
    let b = reg.connect().unwrap();
    handle_line(&mut reg, a, "NICK alice");
    handle_line(&mut reg, a, "USER x 0 * :A");
    handle_line(&mut reg, b, "NICK bob");
    handle_line(&mut reg, b, "USER x 0 * :B");
    (reg, a, b)
}

#[test]
fn nick_reply_and_stage() {
    let mut reg = Registry::new();
    let a = reg.connect().unwrap();
    let out = handle_line(&mut reg, a, "NICK alice");
    assert_eq!(
        lines_for(&out.deliveries, a),
        vec![":server 001 alice :Your nickname is now alice".to_string()]
    );
    assert!(!out.closed);
    assert_eq!(reg.get(a).unwrap().stage, Stage::NickSet);
}

#[test]
fn empty_nick_rejected() {
    let mut reg = Registry::new();
    let a = reg.connect().unwrap();
    let out = handle_line(&mut reg, a, "NICK");
    assert_eq!(
        lines_for(&out.deliveries, a),
        vec![":server 431 * :No nickname given".to_string()]
    );
    assert_eq!(reg.get(a).unwrap().stage, Stage::Unregistered);
}

#[test]
fn registration_welcome_and_join_notice() {
    let mut reg = Registry::new();
    let b = reg.connect().unwrap();
    handle_line(&mut reg, b, "NICK bob");
    handle_line(&mut reg, b, "USER x 0 * :B");
    let a = reg.connect().unwrap();
    handle_line(&mut reg, a, "NICK alice");
    let out = handle_line(&mut reg, a, "USER x 0 * :A");
    assert_eq!(
        lines_for(&out.deliveries, a),
        vec![":server 001 alice :Welcome, alice!".to_string()]
    );
    assert_eq!(
        lines_for(&out.deliveries, b),
        vec![":alice JOIN #Main".to_string()]
    );
    assert_eq!(reg.get(a).unwrap().stage, Stage::Registered);
}

#[test]
fn user_before_nick_rejected() {
    let mut reg = Registry::new();
    let a = reg.connect().unwrap();
    let out = handle_line(&mut reg, a, "USER x 0 * :A");
    assert_eq!(
        lines_for(&out.deliveries, a),
        vec![":server 451 * :You have not registered".to_string()]
    );
    assert_eq!(reg.get(a).unwrap().stage, Stage::Unregistered);
}

#[test]
fn user_twice_rejected() {
    let (mut reg, a, _b) = alice_and_bob();
    let out = handle_line(&mut reg, a, "USER x 0 * :A");
    assert_eq!(
        lines_for(&out.deliveries, a),
        vec![":server 462 * :You are already registered".to_string()]
    );
    assert_eq!(reg.get(a).unwrap().stage, Stage::Registered);
}

#[test]
fn nick_collision_rejected_and_winner_keeps_name() {
    // Session A registers as alice; B tries the same nickname.
    let mut reg = Registry::new();
    let a = reg.connect().unwrap();
    let b = reg.connect().unwrap();
    handle_line(&mut reg, a, "NICK alice");
    handle_line(&mut reg, a, "USER x 0 * :A");
    let out = handle_line(&mut reg, b, "NICK alice");
    assert_eq!(
        lines_for(&out.deliveries, b),
        vec![":server 433 alice :Nickname is already in use".to_string()]
    );
    assert!(lines_for(&out.deliveries, a).is_empty());
    let sa = reg.get(a).unwrap();
    assert_eq!(sa.nick, "alice");
    assert_eq!(sa.stage, Stage::Registered);
    assert_eq!(reg.get(b).unwrap().stage, Stage::Unregistered);
}

#[test]
fn nick_change_announced_to_others() {
    let (mut reg, a, b) = alice_and_bob();
    let out = handle_line(&mut reg, a, "NICK alicia");
    assert_eq!(
        lines_for(&out.deliveries, a),
        vec![":server 001 alicia :Your nickname is now alicia".to_string()]
    );
    assert_eq!(
        lines_for(&out.deliveries, b),
        vec![":alice NICK :alicia".to_string()]
    );
    assert_eq!(reg.get(a).unwrap().nick, "alicia");
}

#[test]
fn privmsg_reaches_everyone_but_sender() {
    let (mut reg, a, b) = alice_and_bob();
    let out = handle_line(&mut reg, a, "PRIVMSG #Main :hi");
    assert_eq!(
        lines_for(&out.deliveries, b),
        vec![":alice PRIVMSG #Main :hi".to_string()]
    );
    // No echo to the sender.
    assert!(lines_for(&out.deliveries, a).is_empty());
    assert_eq!(out.deliveries.len(), 1);
}

#[test]
fn privmsg_before_registration_rejected() {
    let mut reg = Registry::new();
    let b = reg.connect().unwrap();
    handle_line(&mut reg, b, "NICK bob");
    handle_line(&mut reg, b, "USER x 0 * :B");
    let a = reg.connect().unwrap();
    let out = handle_line(&mut reg, a, "PRIVMSG #Main :hi");
    assert_eq!(
        lines_for(&out.deliveries, a),
        vec![":server 451 * :You have not registered".to_string()]
    );
    // No broadcast happened.
    assert!(lines_for(&out.deliveries, b).is_empty());
    assert_eq!(out.deliveries.len(), 1);
}

#[test]
fn privmsg_nick_only_still_rejected() {
    // NICK without USER is not enough to chat.
    let mut reg = Registry::new();
    let a = reg.connect().unwrap();
    handle_line(&mut reg, a, "NICK alice");
    let out = handle_line(&mut reg, a, "PRIVMSG #Main :hi");
    assert_eq!(
        lines_for(&out.deliveries, a),
        vec![":server 451 * :You have not registered".to_string()]
    );
}

#[test]
fn privmsg_empty_text_rejected() {
    let (mut reg, a, b) = alice_and_bob();
    let out = handle_line(&mut reg, a, "PRIVMSG #Main :");
    assert_eq!(
        lines_for(&out.deliveries, a),
        vec![":server 412 alice :No text to send".to_string()]
    );
    assert!(lines_for(&out.deliveries, b).is_empty());
}

#[test]
fn privmsg_wrong_channel_rejected() {
    let (mut reg, a, b) = alice_and_bob();
    let out = handle_line(&mut reg, a, "PRIVMSG #other :hi");
    assert_eq!(
        lines_for(&out.deliveries, a),
        vec![":server 403 alice :No such channel".to_string()]
    );
    assert!(lines_for(&out.deliveries, b).is_empty());
}

#[test]
fn join_reannounces() {
    let (mut reg, a, b) = alice_and_bob();
    let out = handle_line(&mut reg, a, "JOIN #Main");
    assert_eq!(
        lines_for(&out.deliveries, a),
        vec![":alice JOIN #Main".to_string()]
    );
    assert_eq!(
        lines_for(&out.deliveries, b),
        vec![":alice JOIN #Main".to_string()]
    );
}

#[test]
fn join_wrong_channel_rejected() {
    let (mut reg, a, _b) = alice_and_bob();
    let out = handle_line(&mut reg, a, "JOIN #else");
    assert_eq!(
        lines_for(&out.deliveries, a),
        vec![":server 403 alice :No such channel".to_string()]
    );
}

#[test]
fn join_before_nick_rejected() {
    let mut reg = Registry::new();
    let a = reg.connect().unwrap();
    let out = handle_line(&mut reg, a, "JOIN #Main");
    assert_eq!(
        lines_for(&out.deliveries, a),
        vec![":server 451 * :You have not registered".to_string()]
    );
}

#[test]
fn quit_announces_and_frees_name() {
    let (mut reg, a, b) = alice_and_bob();
    let out = handle_line(&mut reg, a, "QUIT :bye");
    assert!(out.closed);
    assert_eq!(
        lines_for(&out.deliveries, a),
        vec![":alice QUIT :Goodbye!".to_string()]
    );
    assert_eq!(
        lines_for(&out.deliveries, b),
        vec![":alice QUIT :Goodbye!".to_string()]
    );
    assert!(reg.get(a).is_none());
    // A later connection can claim the freed nickname.
    let c = reg.connect().unwrap();
    let out2 = handle_line(&mut reg, c, "NICK alice");
    assert_eq!(
        lines_for(&out2.deliveries, c),
        vec![":server 001 alice :Your nickname is now alice".to_string()]
    );
    assert_eq!(reg.get(c).unwrap().nick, "alice");
}

#[test]
fn cap_is_ignored() {
    let (mut reg, a, _b) = alice_and_bob();
    let out = handle_line(&mut reg, a, "CAP LS 302");
    assert!(out.deliveries.is_empty());
    assert!(!out.closed);
}

#[test]
fn unknown_command_names_the_verb() {
    let (mut reg, a, _b) = alice_and_bob();
    let out = handle_line(&mut reg, a, "USERHOST alice");
    assert_eq!(
        lines_for(&out.deliveries, a),
        vec![":server 421 alice :Unknown command (USERHOST)".to_string()]
    );
}

#[test]
fn unknown_command_before_nick_uses_placeholder() {
    let mut reg = Registry::new();
    let a = reg.connect().unwrap();
    let out = handle_line(&mut reg, a, "FOO");
    assert_eq!(
        lines_for(&out.deliveries, a),
        vec![":server 421 * :Unknown command (FOO)".to_string()]
    );
}

#[test]
fn disconnect_cleans_up_exactly_once() {
    let (mut reg, a, b) = alice_and_bob();
    let out = handle_disconnect(&mut reg, a);
    assert_eq!(
        lines_for(&out, b),
        vec![":alice QUIT :Goodbye!".to_string()]
    );
    assert!(reg.get(a).is_none());
    // Racing second cleanup: nothing left to do, nobody told twice.
    let again = handle_disconnect(&mut reg, a);
    assert!(again.is_empty());
    assert_eq!(reg.len(), 1);
}

#[test]
fn disconnect_of_unregistered_is_silent() {
    let (mut reg, _a, b) = alice_and_bob();
    let c = reg.connect().unwrap();
    let out = handle_disconnect(&mut reg, c);
    assert!(out.is_empty());
    assert!(lines_for(&out, b).is_empty());
    assert!(reg.get(c).is_none());
}

#[test]
fn broadcast_except_skips_excluded() {
    let (mut reg, a, b) = alice_and_bob();
    let c = reg.connect().unwrap();  // unregistered: no deliveries
    let msg = "hello".to_string();
    let out = broadcast_except(&reg, &msg, a);
    assert_eq!(lines_for(&out, b), vec!["hello".to_string()]);
    assert!(lines_for(&out, a).is_empty());
    assert!(lines_for(&out, c).is_empty());
    assert_eq!(out.len(), 1);
}

#[test]
fn broadcast_all_reaches_every_member() {
    let (reg, a, b) = alice_and_bob();
    let msg = "ping".to_string();
    let out = broadcast_all(&reg, &msg);
    assert_eq!(lines_for(&out, a), vec!["ping".to_string()]);
    assert_eq!(lines_for(&out, b), vec!["ping".to_string()]);
    assert_eq!(out.len(), 2);
}
