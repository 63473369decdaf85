//! The behaviours behind the commands: say, kick, join and part.
use vstd::prelude::*;

use crate::action::{actions_model, Action, ActionModel};
use crate::binder::lookup;
use crate::command::{usage_of, CommandParameters, Handler};
use crate::membership::{after_join, after_part, remove_channel};
use crate::text::{contains_char, contains_string, starts_with_char};

verus! {

/// `say`: the `text` argument goes to the reply target.
pub open spec fn say_actions(b: Seq<(Seq<char>, Seq<char>)>, target: Seq<char>) -> Seq<ActionModel> {
    match lookup(b, "text"@) {
        Some(t) => seq![ActionModel::Message { target, text: t }],
        None => seq![],
    }
}

/// The notice for a kick asked for in a private chat.
pub open spec fn private_kick_text() -> Seq<char> {
    "You can't kick people from a private chat..."@
}

/// The notice for a kick without a nick.
pub open spec fn kick_usage_text() -> Seq<char> {
    "Command arguments are !kick <nick> [reason]"@
}

/// The deflecting reply to a kick aimed at the bot itself.
pub open spec fn self_kick_text() -> Seq<char> {
    "No you."@
}

/// `kick`: refused in a private chat; a kick of the bot itself is refused
/// and turned on the sender, or, when the sender is the bot, answered with a
/// notice; else `nick` is kicked with `reason`, or "Requested".
pub open spec fn kick_actions(
    b: Seq<(Seq<char>, Seq<char>)>,
    target: Seq<char>,
    sender: Seq<char>,
    nickname: Seq<char>,
) -> Seq<ActionModel> {
    if sender == target {
        seq![ActionModel::Notice { target: sender, text: private_kick_text() }]
    } else {
        match lookup(b, "nick"@) {
            Some(nick) => if nick == nickname {
                if sender == nickname {
                    seq![ActionModel::Notice { target: sender, text: self_kick_text() }]
                } else {
                    seq![ActionModel::Kick { channel: target, nick: sender, reason: self_kick_text() }]
                }
            } else {
                let reason = match lookup(b, "reason"@) {
                    Some(r) => r,
                    None => "Requested"@,
                };
                seq![ActionModel::Kick { channel: target, nick, reason }]
            },
            None => seq![ActionModel::Notice { target: sender, text: kick_usage_text() }],
        }
    }
}

/// The channel that join or part acts on: the `channel` argument, or else
/// the reply target.
pub open spec fn channel_arg(b: Seq<(Seq<char>, Seq<char>)>, target: Seq<char>) -> Seq<char> {
    match lookup(b, "channel"@) {
        Some(c) => c,
        None => target,
    }
}

/// A channel name begins with `#` and holds no comma.
pub open spec fn valid_channel(c: Seq<char>) -> bool {
    c.len() > 0 && c[0] == '#' && !c.contains(',')
}

/// The notice for a name that is no channel.
pub open spec fn invalid_channel_text(c: Seq<char>) -> Seq<char> {
    c + " is not a valid channel."@
}

/// `join`: the channel is joined, then moved to the end of the membership
/// and the membership persisted.
pub open spec fn join_outcome(
    usage: Seq<char>,
    b: Seq<(Seq<char>, Seq<char>)>,
    target: Seq<char>,
    sender: Seq<char>,
    channels: Seq<Seq<char>>,
) -> (Seq<ActionModel>, Seq<Seq<char>>) {
    let c = channel_arg(b, target);
    if c == sender {
        (seq![ActionModel::Notice { target: sender, text: usage }], channels)
    } else if valid_channel(c) {
        let m = after_join(channels, c);
        (seq![ActionModel::Join { channel: c }, ActionModel::SaveChannels { channels: m }], m)
    } else {
        (seq![ActionModel::Notice { target: sender, text: invalid_channel_text(c) }], channels)
    }
}

/// `part`: a member channel is dropped from the membership, which is
/// persisted, and then left; a channel that was no member is only left.
pub open spec fn part_outcome(
    usage: Seq<char>,
    b: Seq<(Seq<char>, Seq<char>)>,
    target: Seq<char>,
    sender: Seq<char>,
    channels: Seq<Seq<char>>,
) -> (Seq<ActionModel>, Seq<Seq<char>>) {
    let c = channel_arg(b, target);
    if c == sender {
        (seq![ActionModel::Notice { target: sender, text: usage }], channels)
    } else if valid_channel(c) {
        if channels.contains(c) {
            let m = after_part(channels, c);
            (seq![ActionModel::SaveChannels { channels: m }, ActionModel::Part { channel: c }], m)
        } else {
            (seq![ActionModel::Part { channel: c }], channels)
        }
    } else {
        (seq![ActionModel::Notice { target: sender, text: invalid_channel_text(c) }], channels)
    }
}

/// What a handler does with its bound arguments: the actions, and the
/// membership afterwards.
pub open spec fn handler_outcome(
    h: Handler,
    usage: Seq<char>,
    b: Seq<(Seq<char>, Seq<char>)>,
    target: Seq<char>,
    sender: Seq<char>,
    nickname: Seq<char>,
    channels: Seq<Seq<char>>,
) -> (Seq<ActionModel>, Seq<Seq<char>>) {
    match h {
        Handler::Say => (say_actions(b, target), channels),
        Handler::Kick => (kick_actions(b, target, sender, nickname), channels),
        Handler::Join => join_outcome(usage, b, target, sender, channels),
        Handler::Part => part_outcome(usage, b, target, sender, channels),
    }
}

/// Runs `say`.
pub fn cmd_say(params: &CommandParameters) -> (r: Vec<Action>)
    ensures
        actions_model(r@) == say_actions(params.args@, params.target@),
{
    let mut r: Vec<Action> = Vec::new();
    if let Some(text) = params.args.get("text") {
        r.push(Action::Message { target: params.target.clone(), text: text.clone() });
    }
    assert(actions_model(r@) =~= say_actions(params.args@, params.target@));
    r
}

/// Runs `kick`; no kick it asks for names the bot itself.
pub fn cmd_kick(params: &CommandParameters, nickname: &String) -> (r: Vec<Action>)
    ensures
        actions_model(r@) == kick_actions(params.args@, params.target@, params.sender@, nickname@),
        forall|i: int|
            0 <= i < r@.len() ==> (#[trigger] actions_model(r@)[i] matches ActionModel::Kick {
                nick,
                ..
            } ==> nick != nickname@),
{
    let r = if params.sender != params.target {
        match params.args.get("nick") {
            Some(nick) => {
                if *nick == *nickname {
                    if params.sender == *nickname {
                        vec![Action::Notice {
                            target: params.sender.clone(),
                            text: String::from_str("No you."),
                        }]
                    } else {
                        vec![Action::Kick {
                            channel: params.target.clone(),
                            nick: params.sender.clone(),
                            reason: String::from_str("No you."),
                        }]
                    }
                } else {
                    let reason = match params.args.get("reason") {
                        Some(reason) => reason.clone(),
                        None => String::from_str("Requested"),
                    };
                    vec![Action::Kick { channel: params.target.clone(), nick: nick.clone(), reason }]
                }
            },
            None => vec![Action::Notice {
                target: params.sender.clone(),
                text: String::from_str("Command arguments are !kick <nick> [reason]"),
            }],
        }
    } else {
        vec![Action::Notice {
            target: params.sender.clone(),
            text: String::from_str("You can't kick people from a private chat..."),
        }]
    };
    assert(actions_model(r@) =~= kick_actions(params.args@, params.target@, params.sender@, nickname@));
    r
}

/// The channel that join or part acts on.
fn pick_channel(params: &CommandParameters) -> (r: String)
    ensures
        r@ == channel_arg(params.args@, params.target@),
{
    match params.args.get("channel") {
        Some(c) => c.clone(),
        None => params.target.clone(),
    }
}

/// Whether `c` names a channel: it begins with `#` and holds no comma.
pub fn is_valid_channel(c: &String) -> (r: bool)
    ensures
        r == valid_channel(c@),
{
    starts_with_char(c.as_str(), '#') && !contains_char(c.as_str(), ',')
}

fn invalid_channel_notice(sender: &String, channel: &String) -> (r: Action)
    ensures
        r@ == (ActionModel::Notice { target: sender@, text: invalid_channel_text(channel@) }),
{
    let mut text = channel.clone();
    text.append(" is not a valid channel.");
    Action::Notice { target: sender.clone(), text }
}

/// Runs `join`.
pub fn cmd_join(params: &CommandParameters, channels: &mut Vec<String>) -> (r: Vec<Action>)
    ensures
        (actions_model(r@), final(channels).deep_view()) == join_outcome(
            usage_of(params.command@.args),
            params.args@,
            params.target@,
            params.sender@,
            old(channels).deep_view(),
        ),
{
    let channel = pick_channel(params);
    let r = if channel == params.sender {
        vec![Action::Notice { target: params.sender.clone(), text: params.command.help() }]
    } else if is_valid_channel(&channel) {
        let mut m = remove_channel(channels, &channel);
        let ghost kept = m.deep_view();
        m.push(channel.clone());
        assert(m.deep_view() =~= kept.push(channel@));
        *channels = m.clone();
        vec![Action::Join { channel }, Action::SaveChannels { channels: m }]
    } else {
        vec![invalid_channel_notice(&params.sender, &channel)]
    };
    assert(actions_model(r@) =~= join_outcome(
        usage_of(params.command@.args),
        params.args@,
        params.target@,
        params.sender@,
        old(channels).deep_view(),
    ).0);
    r
}

/// Runs `part`.
pub fn cmd_part(params: &CommandParameters, channels: &mut Vec<String>) -> (r: Vec<Action>)
    ensures
        (actions_model(r@), final(channels).deep_view()) == part_outcome(
            usage_of(params.command@.args),
            params.args@,
            params.target@,
            params.sender@,
            old(channels).deep_view(),
        ),
{
    let channel = pick_channel(params);
    let r = if channel == params.sender {
        vec![Action::Notice { target: params.sender.clone(), text: params.command.help() }]
    } else if is_valid_channel(&channel) {
        if contains_string(channels, &channel) {
            let m = remove_channel(channels, &channel);
            *channels = m.clone();
            vec![Action::SaveChannels { channels: m }, Action::Part { channel }]
        } else {
            vec![Action::Part { channel }]
        }
    } else {
        vec![invalid_channel_notice(&params.sender, &channel)]
    };
    assert(actions_model(r@) =~= part_outcome(
        usage_of(params.command@.args),
        params.args@,
        params.target@,
        params.sender@,
        old(channels).deep_view(),
    ).0);
    r
}

/// Runs the handler of `params.command` on its bound arguments.
pub fn run_handler(params: &CommandParameters, nickname: &String, channels: &mut Vec<String>) -> (r:
    Vec<Action>)
    ensures
        (actions_model(r@), final(channels).deep_view()) == handler_outcome(
            params.command.handler,
            usage_of(params.command@.args),
            params.args@,
            params.target@,
            params.sender@,
            nickname@,
            old(channels).deep_view(),
        ),
{
    match params.command.handler {
        Handler::Say => cmd_say(params),
        Handler::Kick => cmd_kick(params, nickname),
        Handler::Join => cmd_join(params, channels),
        Handler::Part => cmd_part(params, channels),
    }
}

} // verus!
