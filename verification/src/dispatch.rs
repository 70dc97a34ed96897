//! Choosing the command that answers a chat message and writing its
//! reply.

use vstd::prelude::*;
use vstd::string::StrSliceExecFns;
use crate::command::command_views;
use crate::command::lemma_upsert_new_id_appends;
use crate::command::table_upsert;
use crate::control::join_target;
use crate::command::Command;
use crate::command::CommandTable;
use crate::command::CommandView;
use crate::command::TableView;
use crate::message::MessageView;
use crate::message::TwitchMessage;
use crate::text::index_of;
use crate::text::lemma_index_of_unique;
use crate::text::replace_all;
use crate::text::starts_with;
use crate::text::substitute;

verus! {

/// A channel's name as the table stores it: the protocol's name without
/// its first character.
pub open spec fn strip_sigil(channel: Seq<char>) -> Seq<char> {
    if channel.len() > 0 {
        channel.skip(1)
    } else {
        channel
    }
}

/// For each command of a list, whether its prefix begins `text`.
pub open spec fn prefix_matches(cmds: Seq<CommandView>, text: Seq<char>) -> Seq<bool> {
    cmds.map_values(|c: CommandView| c.prefix.is_prefix_of(text))
}

/// The first command of a list whose prefix begins `text`.
pub open spec fn first_match(cmds: Seq<CommandView>, text: Seq<char>) -> Option<CommandView> {
    let i = index_of(prefix_matches(cmds, text), true);
    if 0 <= i < cmds.len() {
        Some(cmds[i])
    } else {
        None
    }
}

/// A reply template with every `{sender.name}` replaced by the sender's
/// display name, or by nothing where the sender has none.
pub open spec fn reply_text(template: Seq<char>, display_name: Option<Seq<char>>) -> Seq<char> {
    substitute(
        template,
        "{sender.name}"@,
        match display_name {
            Some(name) => name,
            None => Seq::empty(),
        },
    )
}

/// The reply to a message sent to `channel`: that of the first command
/// of the channel whose prefix begins the message's text, and none where
/// no prefix does.
pub open spec fn route_spec(channel: Seq<char>, message: MessageView, table: TableView) -> Option<
    Seq<char>,
> {
    match first_match(table[strip_sigil(channel)], message.text) {
        Some(command) => Some(reply_text(command.reply, message.display_name)),
        None => None,
    }
}

/// Of a list of commands, the first whose prefix begins `text` is the one
/// chosen, whatever the commands behind it are.
pub proof fn lemma_first_match_is_first(cmds: Seq<CommandView>, text: Seq<char>, i: int)
    requires
        0 <= i < cmds.len(),
        cmds[i].prefix.is_prefix_of(text),
        forall|k: int| 0 <= k < i ==> !cmds[k].prefix.is_prefix_of(text),
    ensures
        first_match(cmds, text) == Some(cmds[i]),
{
    lemma_index_of_unique(prefix_matches(cmds, text), true, i);
}

/// Where no prefix of a list begins `text`, no command is chosen.
pub proof fn lemma_first_match_none(cmds: Seq<CommandView>, text: Seq<char>)
    requires
        forall|k: int| 0 <= k < cmds.len() ==> !cmds[k].prefix.is_prefix_of(text),
    ensures
        first_match(cmds, text) is None,
{
    lemma_index_of_unique(prefix_matches(cmds, text), true, cmds.len() as int);
}

/// Once a command is registered for a channel that had none, a message
/// sent to that channel under its protocol name is answered with the
/// command's reply exactly where the command's prefix begins the text.
pub proof fn lemma_route_after_first_upsert(
    table: TableView,
    stored: Seq<char>,
    command: CommandView,
    message: MessageView,
)
    requires
        table[stored].len() == 0,
    ensures
        route_spec(join_target(stored), message, table_upsert(table, stored, command))
            == if command.prefix.is_prefix_of(message.text) {
            Some(reply_text(command.reply, message.display_name))
        } else {
            None
        },
{
    assert(strip_sigil(join_target(stored)) =~= stored);
    let cmds = table_upsert(table, stored, command)[stored];
    lemma_upsert_new_id_appends(table[stored], command);
    assert(cmds =~= seq![command]);
    if command.prefix.is_prefix_of(message.text) {
        lemma_first_match_is_first(cmds, message.text, 0);
    } else {
        lemma_first_match_none(cmds, message.text);
    }
}

/// Removes the first character of a channel's protocol name.
pub fn stored_channel_name(channel: &str) -> (r: &str)
    ensures
        r@ == strip_sigil(channel@),
{
    let n = channel.unicode_len();
    if n > 0 {
        let r = channel.substring_char(1, n);
        assert(channel@.subrange(1, n as int) =~= channel@.skip(1));
        r
    } else {
        channel
    }
}

/// Writes the reply that a template gives for a message.
pub fn message_format(fmt: &str, twitch_msg: &TwitchMessage) -> (r: String)
    ensures
        r@ == reply_text(fmt@, twitch_msg@.display_name),
{
    match &twitch_msg.display_name {
        Some(name) => replace_all(fmt, "{sender.name}", name.as_str()),
        None => {
            let empty = String::new();
            replace_all(fmt, "{sender.name}", empty.as_str())
        },
    }
}

/// Finds the first command whose prefix begins `text`.
pub fn find_match<'a>(cmds: &'a [Command], text: &str) -> (r: Option<&'a Command>)
    ensures
        match r {
            Some(c) => first_match(command_views(cmds@), text@) == Some(c@),
            None => first_match(command_views(cmds@), text@) is None,
        },
{
    let mut i: usize = 0;
    while i < cmds.len()
        invariant
            i <= cmds.len(),
            forall|k: int| 0 <= k < i ==> !cmds@[k]@.prefix.is_prefix_of(text@),
        decreases cmds.len() - i,
    {
        if starts_with(text, cmds[i].prefix.as_str()) {
            proof {
                lemma_first_match_is_first(command_views(cmds@), text@, i as int);
            }
            return Some(&cmds[i]);
        }
        i += 1;
    }
    proof {
        lemma_first_match_none(command_views(cmds@), text@);
    }
    None
}

/// Answers a message sent to `channel` from the commands of `table`.
///
/// The channel is looked up without its first character. The commands
/// are tried in the order of the table, and the first whose prefix
/// begins the text gives the reply; `None` where none does.
pub fn route(channel: &str, message: &TwitchMessage, table: &CommandTable) -> (r: Option<String>)
    ensures
        match r {
            Some(reply) => route_spec(channel@, message@, table@) == Some(reply@),
            None => route_spec(channel@, message@, table@) is None,
        },
{
    let cmds = table.lookup(stored_channel_name(channel));
    match find_match(cmds, message.text.as_str()) {
        Some(command) => Some(message_format(command.reply.as_str(), message)),
        None => None,
    }
}

} // verus!
