use ircbot::action::Action;
use ircbot::bot::{Bot, Event};
use ircbot::command::{authorize, Command, Handler};
use ircbot::binder::CommandArg;

fn s(x: &str) -> String {
    x.to_string()
}

fn bot() -> Bot {
    Bot::new(vec![s("owner")], vec![s("#a"), s("#b")])
}

fn msg(target: &str, text: &str, sender: &str) -> Event {
    Event::Message { target: s(target), text: s(text), sender: s(sender) }
}

const ME: &str = "botnick";

fn denied(to: &str) -> Action {
    Action::Notice { target: s(to), text: s("You don't have permission to use that command.") }
}

#[test]
fn private_say_replies_to_sender() {
    let mut b = bot();
    let r = b.handle_event(&msg(ME, "!say hello world", "alice"), &s(ME));
    assert_eq!(r, vec![Action::Message { target: s("alice"), text: s("hello world") }]);
}

#[test]
fn private_say_without_trigger() {
    let mut b = bot();
    let r = b.handle_event(&msg(ME, "echo  hi   there", "alice"), &s(ME));
    assert_eq!(r, vec![Action::Message { target: s("alice"), text: s("hi there") }]);
}

#[test]
fn channel_say_replies_to_channel() {
    let mut b = bot();
    let r = b.handle_event(&msg("#x", "!say hi", "alice"), &s(ME));
    assert_eq!(r, vec![Action::Message { target: s("#x"), text: s("hi") }]);
}

#[test]
fn channel_text_without_trigger_is_ignored() {
    let mut b = bot();
    assert!(b.handle_event(&msg("#x", "say hi", "alice"), &s(ME)).is_empty());
}

#[test]
fn lone_trigger_is_ignored() {
    let mut b = bot();
    assert!(b.handle_event(&msg("#x", "!", "alice"), &s(ME)).is_empty());
    assert!(b.handle_event(&msg(ME, "!", "alice"), &s(ME)).is_empty());
}

#[test]
fn non_owner_kick_in_channel_is_denied() {
    let mut b = bot();
    let r = b.handle_event(&msg("#x", "!kick bob spamming too much", "alice"), &s(ME));
    assert_eq!(r, vec![denied("alice")]);
}

#[test]
fn owner_kick_with_reason() {
    let mut b = bot();
    let r = b.handle_event(&msg("#x", "!kick bob spamming too much", "owner"), &s(ME));
    assert_eq!(
        r,
        vec![Action::Kick { channel: s("#x"), nick: s("bob"), reason: s("spamming too much") }]
    );
}

#[test]
fn owner_kick_default_reason() {
    let mut b = bot();
    let r = b.handle_event(&msg("#x", "!kick bob", "owner"), &s(ME));
    assert_eq!(r, vec![Action::Kick { channel: s("#x"), nick: s("bob"), reason: s("Requested") }]);
}

#[test]
fn kick_of_the_bot_turns_on_sender() {
    let mut b = bot();
    let r = b.handle_event(&msg("#x", "!kick botnick", "owner"), &s(ME));
    assert_eq!(r, vec![Action::Kick { channel: s("#x"), nick: s("owner"), reason: s("No you.") }]);
}

#[test]
fn kick_in_private_is_refused() {
    let mut b = bot();
    let r = b.handle_event(&msg(ME, "kick bob", "owner"), &s(ME));
    assert_eq!(
        r,
        vec![Action::Notice { target: s("owner"), text: s("You can't kick people from a private chat...") }]
    );
}

#[test]
fn kick_without_nick_gets_usage() {
    let mut b = bot();
    let r = b.handle_event(&msg("#x", "!kick", "owner"), &s(ME));
    assert_eq!(r, vec![Action::Notice { target: s("owner"), text: s("USAGE <nick> [reason]") }]);
}

#[test]
fn unknown_command_in_channel_is_silent() {
    let mut b = bot();
    assert!(b.handle_event(&msg("#x", "!frobnicate", "alice"), &s(ME)).is_empty());
}

#[test]
fn unknown_command_in_private_gets_one_reply() {
    let mut b = bot();
    let r = b.handle_event(&msg(ME, "!frobnicate", "alice"), &s(ME));
    assert_eq!(r, vec![Action::Notice { target: s("alice"), text: s("frobnicate: Unknown command") }]);
}

#[test]
fn join_twice_keeps_one_entry_last() {
    let mut b = bot();
    let r1 = b.handle_event(&msg(ME, "join #a", "owner"), &s(ME));
    assert_eq!(
        r1,
        vec![Action::Join { channel: s("#a") }, Action::SaveChannels { channels: vec![s("#b"), s("#a")] }]
    );
    let r2 = b.handle_event(&msg(ME, "join #a", "owner"), &s(ME));
    assert_eq!(
        r2,
        vec![Action::Join { channel: s("#a") }, Action::SaveChannels { channels: vec![s("#b"), s("#a")] }]
    );
    assert_eq!(b.channels, vec![s("#b"), s("#a")]);
}

#[test]
fn join_new_channel_appends() {
    let mut b = bot();
    b.handle_event(&msg("#x", "!join #c", "owner"), &s(ME));
    assert_eq!(b.channels, vec![s("#a"), s("#b"), s("#c")]);
}

#[test]
fn join_invalid_channel_is_refused() {
    let mut b = bot();
    let r = b.handle_event(&msg(ME, "join #a,#b", "owner"), &s(ME));
    assert_eq!(r, vec![Action::Notice { target: s("owner"), text: s("#a,#b is not a valid channel.") }]);
    let r = b.handle_event(&msg(ME, "join lobby", "owner"), &s(ME));
    assert_eq!(r, vec![Action::Notice { target: s("owner"), text: s("lobby is not a valid channel.") }]);
    assert_eq!(b.channels, vec![s("#a"), s("#b")]);
}

#[test]
fn join_without_channel_gets_usage() {
    let mut b = bot();
    let r = b.handle_event(&msg(ME, "join", "owner"), &s(ME));
    assert_eq!(r, vec![Action::Notice { target: s("owner"), text: s("USAGE <channel>") }]);
}

#[test]
fn part_member_persists_then_leaves() {
    let mut b = bot();
    let r = b.handle_event(&msg(ME, "part #a", "owner"), &s(ME));
    assert_eq!(
        r,
        vec![Action::SaveChannels { channels: vec![s("#b")] }, Action::Part { channel: s("#a") }]
    );
    assert_eq!(b.channels, vec![s("#b")]);
}

#[test]
fn part_non_member_persists_nothing() {
    let mut b = bot();
    let r = b.handle_event(&msg(ME, "part #zzz", "owner"), &s(ME));
    assert_eq!(r, vec![Action::Part { channel: s("#zzz") }]);
    assert_eq!(b.channels, vec![s("#a"), s("#b")]);
}

#[test]
fn part_defaults_to_current_channel() {
    let mut b = bot();
    let r = b.handle_event(&msg("#b", "!part", "owner"), &s(ME));
    assert_eq!(
        r,
        vec![Action::SaveChannels { channels: vec![s("#a")] }, Action::Part { channel: s("#b") }]
    );
}

#[test]
fn part_in_private_without_channel_gets_usage() {
    let mut b = bot();
    let r = b.handle_event(&msg(ME, "part", "owner"), &s(ME));
    assert_eq!(r, vec![Action::Notice { target: s("owner"), text: s("USAGE [channel]") }]);
}

#[test]
fn invite_from_owner_joins() {
    let mut b = bot();
    let ev = Event::Invite { nickname: s(ME), channel: s("#new"), sender: s("owner") };
    let r = b.handle_event(&ev, &s(ME));
    assert_eq!(
        r,
        vec![
            Action::Join { channel: s("#new") },
            Action::SaveChannels { channels: vec![s("#a"), s("#b"), s("#new")] },
        ]
    );
}

#[test]
fn invite_from_non_owner_is_denied() {
    let mut b = bot();
    let ev = Event::Invite { nickname: s(ME), channel: s("#new"), sender: s("alice") };
    assert_eq!(b.handle_event(&ev, &s(ME)), vec![denied("alice")]);
}

#[test]
fn other_events_are_ignored() {
    let mut b = bot();
    assert!(b.handle_event(&Event::Other, &s(ME)).is_empty());
}

#[test]
fn owner_only_command_never_runs_for_non_owner() {
    let cmd = Command::new(true, s("admin"), vec![CommandArg { required: true, name: s("text") }], Handler::Say);
    let owners = vec![s("owner")];
    let mut channels = vec![s("#a")];
    let r = cmd.execute(s("hello"), &owners, &s(ME), &mut channels, s("#x"), s("alice"));
    assert_eq!(r, vec![denied("alice")]);
    assert_eq!(channels, vec![s("#a")]);
    let r = cmd.execute(s("hello"), &owners, &s(ME), &mut channels, s("#x"), s("owner"));
    assert_eq!(r, vec![Action::Message { target: s("#x"), text: s("hello") }]);
}

#[test]
fn authorize_matches_owner_names_exactly() {
    let open = Command::new(false, String::new(), Vec::new(), Handler::Say);
    let closed = Command::new(true, s("admin"), Vec::new(), Handler::Say);
    let owners = vec![s("Owner")];
    assert!(authorize(&open, &s("anyone"), &owners));
    assert!(authorize(&closed, &s("Owner"), &owners));
    assert!(!authorize(&closed, &s("owner"), &owners));
}

#[test]
fn say_missing_text_gets_usage() {
    let mut b = bot();
    let r = b.handle_event(&msg("#x", "!say", "alice"), &s(ME));
    assert_eq!(r, vec![Action::Notice { target: s("alice"), text: s("USAGE <text>") }]);
}

#[test]
fn say_handler_gets_text_binding() {
    let b = bot();
    let say = b.commands.get(&s("say")).unwrap();
    let bound = say.arguments(s("hello world")).unwrap();
    assert_eq!(bound.entries, vec![(s("text"), s("hello world"))]);
    assert!(b.commands.get(&s("frobnicate")).is_none());
}

#[test]
fn bot_never_kicks_itself_when_it_is_the_sender() {
    let mut b = Bot::new(vec![s(ME)], Vec::new());
    let r = b.handle_event(&msg("#x", "!kick botnick", ME), &s(ME));
    assert_eq!(r, vec![Action::Notice { target: s(ME), text: s("No you.") }]);
}
