//! The bot: its registry, owners and channel membership, and the routing of
//! inbound events to commands.
use vstd::prelude::*;

use crate::action::{actions_model, Action, ActionModel};
use crate::binder::{ArgModel, CommandArg};
use crate::command::{execute_spec, Command, CommandModel, Handler};
use crate::registry::{find_command, Registry};
use crate::text::{join_from, join_words, split_words, starts_with_char, words_of};

verus! {

/// An inbound protocol event.
#[derive(Debug, PartialEq, Eq)]
pub enum Event {
    /// `text` sent to `target` (a channel, or the bot itself) by `sender`.
    Message { target: String, text: String, sender: String },
    /// `sender` invited `nickname` to `channel`.
    Invite { nickname: String, channel: String, sender: String },
    /// Anything else; ignored.
    Other,
}

/// An event, with its strings as character sequences.
pub enum EventModel {
    Message { target: Seq<char>, text: Seq<char>, sender: Seq<char> },
    Invite { nickname: Seq<char>, channel: Seq<char>, sender: Seq<char> },
    Other,
}

impl View for Event {
    type V = EventModel;

    open spec fn view(&self) -> EventModel {
        match self {
            Event::Message { target, text, sender } => EventModel::Message {
                target: target@,
                text: text@,
                sender: sender@,
            },
            Event::Invite { nickname, channel, sender } => EventModel::Invite {
                nickname: nickname@,
                channel: channel@,
                sender: sender@,
            },
            Event::Other => EventModel::Other,
        }
    }
}

/// Whether a reply target is a channel.
pub open spec fn is_channel_target(t: Seq<char>) -> bool {
    t.len() > 0 && t[0] == '#'
}

/// The reply to a command name that is not registered.
pub open spec fn unknown_text(name: Seq<char>) -> Seq<char> {
    name + ": Unknown command"@
}

/// A command line (trigger already stripped): its first word names the
/// command, the rest, joined by single spaces, is the tail. An unknown name
/// gets one notice when the reply target is no channel, and nothing in a
/// channel.
pub open spec fn command_spec(
    reg: Seq<(Seq<char>, CommandModel)>,
    text: Seq<char>,
    target: Seq<char>,
    sender: Seq<char>,
    nickname: Seq<char>,
    owners: Seq<Seq<char>>,
    channels: Seq<Seq<char>>,
) -> (Seq<ActionModel>, Seq<Seq<char>>) {
    let ws = words_of(text);
    if ws.len() == 0 {
        (seq![], channels)
    } else {
        match find_command(reg, ws[0]) {
            Some(cmd) => execute_spec(
                cmd,
                join_words(ws.drop_first()),
                owners,
                nickname,
                channels,
                target,
                sender,
            ),
            None => if is_channel_target(target) {
                (seq![], channels)
            } else {
                (seq![ActionModel::Notice { target, text: unknown_text(ws[0]) }], channels)
            },
        }
    }
}

/// Whether text begins with the trigger character `!`.
pub open spec fn is_bang(text: Seq<char>) -> bool {
    text.len() > 0 && text[0] == '!'
}

/// A text message: a command when sent to the bot itself (private) or when
/// it begins with `!`, which is stripped. Replies go to the sender when
/// private, else to the channel. A lone `!` is ignored.
pub open spec fn message_spec(
    reg: Seq<(Seq<char>, CommandModel)>,
    target: Seq<char>,
    text: Seq<char>,
    sender: Seq<char>,
    nickname: Seq<char>,
    owners: Seq<Seq<char>>,
    channels: Seq<Seq<char>>,
) -> (Seq<ActionModel>, Seq<Seq<char>>) {
    let private = nickname == target;
    if !(private || is_bang(text)) || (is_bang(text) && text.len() == 1) {
        (seq![], channels)
    } else {
        let line = if is_bang(text) {
            text.drop_first()
        } else {
            text
        };
        let reply_to = if private {
            sender
        } else {
            target
        };
        command_spec(reg, line, reply_to, sender, nickname, owners, channels)
    }
}

/// An inbound event: a message as above; an invitation as the message
/// `join <channel>` from the inviter to the invited.
pub open spec fn event_spec(
    reg: Seq<(Seq<char>, CommandModel)>,
    event: EventModel,
    nickname: Seq<char>,
    owners: Seq<Seq<char>>,
    channels: Seq<Seq<char>>,
) -> (Seq<ActionModel>, Seq<Seq<char>>) {
    match event {
        EventModel::Message { target, text, sender } => message_spec(
            reg,
            target,
            text,
            sender,
            nickname,
            owners,
            channels,
        ),
        EventModel::Invite { nickname: invited, channel, sender } => message_spec(
            reg,
            invited,
            "join "@ + channel,
            sender,
            nickname,
            owners,
            channels,
        ),
        EventModel::Other => (seq![], channels),
    }
}

/// `say` and `echo`: anyone may send one required `text`.
pub open spec fn say_command() -> CommandModel {
    CommandModel {
        owner_only: false,
        group: ""@,
        args: seq![ArgModel { required: true, name: "text"@ }],
        handler: Handler::Say,
    }
}

/// `kick`: owners only, a required `nick` and an optional `reason`.
pub open spec fn kick_command() -> CommandModel {
    CommandModel {
        owner_only: true,
        group: "admin"@,
        args: seq![
            ArgModel { required: true, name: "nick"@ },
            ArgModel { required: false, name: "reason"@ },
        ],
        handler: Handler::Kick,
    }
}

/// `join`: owners only, a required `channel`.
pub open spec fn join_command() -> CommandModel {
    CommandModel {
        owner_only: true,
        group: "admin"@,
        args: seq![ArgModel { required: true, name: "channel"@ }],
        handler: Handler::Join,
    }
}

/// `part`: owners only, an optional `channel`.
pub open spec fn part_command() -> CommandModel {
    CommandModel {
        owner_only: true,
        group: "admin"@,
        args: seq![ArgModel { required: false, name: "channel"@ }],
        handler: Handler::Part,
    }
}

/// The bot's commands, in the order registered.
pub open spec fn standard_registry() -> Seq<(Seq<char>, CommandModel)> {
    seq![
        ("say"@, say_command()),
        ("echo"@, say_command()),
        ("kick"@, kick_command()),
        ("join"@, join_command()),
        ("part"@, part_command()),
    ]
}

fn arg(required: bool, name: &str) -> (r: CommandArg)
    ensures
        r@ == (ArgModel { required, name: name@ }),
{
    CommandArg { required, name: String::from_str(name) }
}

/// The dispatch core: its commands, the owners, and the channel membership
/// that join and part keep and have persisted.
pub struct Bot {
    pub commands: Registry,
    pub owners: Vec<String>,
    pub channels: Vec<String>,
}

impl Bot {
    /// A bot with the standard commands, the given owners and the given
    /// channel membership.
    pub fn new(owners: Vec<String>, channels: Vec<String>) -> (r: Bot)
        ensures
            r.commands@ == standard_registry(),
            r.owners == owners,
            r.channels == channels,
    {
        let mut commands = Registry::new();
        let say = Command::new(false, String::from_str(""), vec![arg(true, "text")], Handler::Say);
        assert(say@.args =~= say_command().args);
        commands.register(String::from_str("say"), say);
        let echo = Command::new(false, String::from_str(""), vec![arg(true, "text")], Handler::Say);
        assert(echo@.args =~= say_command().args);
        commands.register(String::from_str("echo"), echo);
        let kick = Command::new(
            true,
            String::from_str("admin"),
            vec![arg(true, "nick"), arg(false, "reason")],
            Handler::Kick,
        );
        assert(kick@.args =~= kick_command().args);
        commands.register(String::from_str("kick"), kick);
        let join = Command::new(
            true,
            String::from_str("admin"),
            vec![arg(true, "channel")],
            Handler::Join,
        );
        assert(join@.args =~= join_command().args);
        commands.register(String::from_str("join"), join);
        let part = Command::new(
            true,
            String::from_str("admin"),
            vec![arg(false, "channel")],
            Handler::Part,
        );
        assert(part@.args =~= part_command().args);
        commands.register(String::from_str("part"), part);
        assert(commands@ =~= standard_registry());
        Bot { commands, owners, channels }
    }

    /// Handles one inbound event, given the bot's current nickname: the
    /// actions to perform, in order; the membership follows join and part.
    pub fn handle_event(&mut self, event: &Event, nickname: &String) -> (r: Vec<Action>)
        ensures
            (actions_model(r@), final(self).channels.deep_view()) == event_spec(
                old(self).commands@,
                event@,
                nickname@,
                old(self).owners.deep_view(),
                old(self).channels.deep_view(),
            ),
            final(self).commands == old(self).commands,
            final(self).owners == old(self).owners,
    {
        match event {
            Event::Message { target, text, sender } => self.handle_privmsg(
                target.clone(),
                text.clone(),
                sender.clone(),
                nickname,
            ),
            Event::Invite { nickname: invited, channel, sender } => {
                let mut text = String::from_str("join ");
                text.append(channel.as_str());
                self.handle_privmsg(invited.clone(), text, sender.clone(), nickname)
            },
            Event::Other => Vec::new(),
        }
    }

    fn handle_privmsg(&mut self, target: String, text: String, sender: String, nickname: &String) -> (r:
        Vec<Action>)
        ensures
            (actions_model(r@), final(self).channels.deep_view()) == message_spec(
                old(self).commands@,
                target@,
                text@,
                sender@,
                nickname@,
                old(self).owners.deep_view(),
                old(self).channels.deep_view(),
            ),
            final(self).commands == old(self).commands,
            final(self).owners == old(self).owners,
    {
        let is_private = *nickname == target;
        let is_bang = starts_with_char(text.as_str(), '!');
        if !(is_private || is_bang) || (is_bang && text.as_str().unicode_len() == 1) {
            return Vec::new();
        }
        let line = if is_bang {
            let n = text.as_str().unicode_len();
            String::from_str(text.as_str().substring_char(1, n))
        } else {
            text
        };
        assert(is_bang ==> line@ =~= text@.drop_first());
        let reply_to = if is_private {
            sender.clone()
        } else {
            target
        };
        self.handle_command(line, reply_to, sender, nickname)
    }

    fn handle_command(&mut self, text: String, target: String, sender: String, nickname: &String) -> (r:
        Vec<Action>)
        ensures
            (actions_model(r@), final(self).channels.deep_view()) == command_spec(
                old(self).commands@,
                text@,
                target@,
                sender@,
                nickname@,
                old(self).owners.deep_view(),
                old(self).channels.deep_view(),
            ),
            final(self).commands == old(self).commands,
            final(self).owners == old(self).owners,
    {
        let words = split_words(text.as_str());
        if words.len() == 0 {
            return Vec::new();
        }
        let name = &words[0];
        let input = join_from(&words, 1);
        assert(words.deep_view().subrange(1, words.len() as int) =~= words.deep_view().drop_first());
        match self.commands.get(name) {
            Some(cmd) => cmd.execute(input, &self.owners, nickname, &mut self.channels, target, sender),
            None => {
                if starts_with_char(target.as_str(), '#') {
                    Vec::new()
                } else {
                    let mut text = name.clone();
                    text.append(": Unknown command");
                    vec![Action::Notice { target, text }]
                }
            },
        }
    }
}

} // verus!
