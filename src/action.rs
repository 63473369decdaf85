//! The protocol actions that the core decides on and the host performs.
use vstd::prelude::*;

verus! {

/// One thing for the host to do, in the order given.
#[derive(Debug, PartialEq, Eq)]
pub enum Action {
    /// Send `text` to `target` as an ordinary message.
    Message { target: String, text: String },
    /// Send `text` to `target` as a notice.
    Notice { target: String, text: String },
    /// Kick `nick` from `channel`, giving `reason`.
    Kick { channel: String, nick: String, reason: String },
    /// Join `channel`.
    Join { channel: String },
    /// Leave `channel`.
    Part { channel: String },
    /// Persist `channels` as the channel membership.
    SaveChannels { channels: Vec<String> },
}

/// An action, with its strings as character sequences.
pub enum ActionModel {
    Message { target: Seq<char>, text: Seq<char> },
    Notice { target: Seq<char>, text: Seq<char> },
    Kick { channel: Seq<char>, nick: Seq<char>, reason: Seq<char> },
    Join { channel: Seq<char> },
    Part { channel: Seq<char> },
    SaveChannels { channels: Seq<Seq<char>> },
}

impl View for Action {
    type V = ActionModel;

    open spec fn view(&self) -> ActionModel {
        match self {
            Action::Message { target, text } => ActionModel::Message { target: target@, text: text@ },
            Action::Notice { target, text } => ActionModel::Notice { target: target@, text: text@ },
            Action::Kick { channel, nick, reason } => ActionModel::Kick {
                channel: channel@,
                nick: nick@,
                reason: reason@,
            },
            Action::Join { channel } => ActionModel::Join { channel: channel@ },
            Action::Part { channel } => ActionModel::Part { channel: channel@ },
            Action::SaveChannels { channels } => ActionModel::SaveChannels {
                channels: channels.deep_view(),
            },
        }
    }
}

/// A list of actions as models.
pub open spec fn actions_model(v: Seq<Action>) -> Seq<ActionModel> {
    v.map_values(|a: Action| a@)
}

/// Whether an action model persists the channel membership.
pub open spec fn is_save(a: ActionModel) -> bool {
    a is SaveChannels
}

} // verus!
