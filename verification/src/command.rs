//! Commands and the per-channel table that holds them in the order in
//! which they were registered.

use vstd::prelude::*;
use crate::text::str_equal;
use crate::text::index_of;
use crate::text::lemma_index_of_is_first;
use crate::text::lemma_index_of_push;
use crate::text::lemma_index_of_unique;

verus! {

/// A custom command of one channel. Cooldowns, permissions and the
/// enabled flag are carried as data; dispatch does not read them.
#[derive(Debug)]
pub struct Command {
    pub id: i32,
    pub name: String,
    pub prefix: String,
    pub description: Option<String>,
    pub reply: String,
    pub user_cooldown: Option<i32>,
    pub global_cooldown: Option<i32>,
    pub permissionbits: Option<u64>,
    pub enabled: Option<bool>,
    pub channel: i32,
}

/// A command with its texts as sequences of characters.
pub struct CommandView {
    pub id: i32,
    pub name: Seq<char>,
    pub prefix: Seq<char>,
    pub description: Option<Seq<char>>,
    pub reply: Seq<char>,
    pub user_cooldown: Option<i32>,
    pub global_cooldown: Option<i32>,
    pub permissionbits: Option<u64>,
    pub enabled: Option<bool>,
    pub channel: i32,
}

impl View for Command {
    type V = CommandView;

    open spec fn view(&self) -> CommandView {
        CommandView {
            id: self.id,
            name: self.name@,
            prefix: self.prefix@,
            description: match self.description {
                Some(d) => Some(d@),
                None => None,
            },
            reply: self.reply@,
            user_cooldown: self.user_cooldown,
            global_cooldown: self.global_cooldown,
            permissionbits: self.permissionbits,
            enabled: self.enabled,
            channel: self.channel,
        }
    }
}

impl Clone for Command {
    fn clone(&self) -> (r: Self)
        ensures
            r@ == self@,
    {
        Command {
            id: self.id,
            name: self.name.clone(),
            prefix: self.prefix.clone(),
            description: match &self.description {
                Some(d) => Some(d.clone()),
                None => None,
            },
            reply: self.reply.clone(),
            user_cooldown: self.user_cooldown,
            global_cooldown: self.global_cooldown,
            permissionbits: self.permissionbits,
            enabled: self.enabled,
            channel: self.channel,
        }
    }
}

/// The views of a list of commands.
pub open spec fn command_views(cmds: Seq<Command>) -> Seq<CommandView> {
    cmds.map_values(|c: Command| c@)
}

/// The ids of a list of commands, in the order of the list.
pub open spec fn command_ids(cmds: Seq<CommandView>) -> Seq<i32> {
    cmds.map_values(|c: CommandView| c.id)
}

/// A list after `command` was merged into it by id: it takes the place of
/// the first command with its id, or goes to the end where none has it.
pub open spec fn upsert_spec(cmds: Seq<CommandView>, command: CommandView) -> Seq<CommandView> {
    let i = index_of(command_ids(cmds), command.id);
    if 0 <= i < cmds.len() {
        cmds.update(i, command)
    } else {
        cmds.push(command)
    }
}

/// A list without its first command of the given id; the list itself
/// where none has it.
pub open spec fn remove_spec(cmds: Seq<CommandView>, id: i32) -> Seq<CommandView> {
    let i = index_of(command_ids(cmds), id);
    if 0 <= i < cmds.len() {
        cmds.remove(i)
    } else {
        cmds
    }
}

/// Finds the first command with the given id; returns the length of the
/// list where none has it.
pub fn find_command(cmds: &Vec<Command>, id: i32) -> (i: usize)
    ensures
        i <= cmds.len(),
        i == index_of(command_ids(command_views(cmds@)), id),
{
    let mut i: usize = 0;
    while i < cmds.len() && cmds[i].id != id
        invariant
            i <= cmds.len(),
            forall|k: int| 0 <= k < i ==> cmds@[k].id != id,
        decreases cmds.len() - i,
    {
        i += 1;
    }
    proof {
        lemma_index_of_unique(command_ids(command_views(cmds@)), id, i as int);
    }
    i
}

/// Merges `command` into a list by id.
pub fn upsert_command(cmds: &mut Vec<Command>, command: Command)
    ensures
        command_views(final(cmds)@) == upsert_spec(command_views(old(cmds)@), command@),
{
    let i = find_command(cmds, command.id);
    if i < cmds.len() {
        cmds[i] = command;
        assert(command_views(cmds@) =~= upsert_spec(command_views(old(cmds)@), command@));
    } else {
        cmds.push(command);
        assert(command_views(cmds@) =~= upsert_spec(command_views(old(cmds)@), command@));
    }
}

/// Takes the first command with the given id out of a list.
pub fn remove_command(cmds: &mut Vec<Command>, id: i32)
    ensures
        command_views(final(cmds)@) == remove_spec(command_views(old(cmds)@), id),
{
    let i = find_command(cmds, id);
    if i < cmds.len() {
        let _ = cmds.remove(i);
        assert(command_views(cmds@) =~= remove_spec(command_views(old(cmds)@), id));
    }
}

/// The commands of one channel.
#[derive(Debug)]
struct ChannelCommands {
    name: String,
    commands: Vec<Command>,
}

/// The names of a list of channel entries, in the order of the list.
spec fn channel_names(entries: Seq<ChannelCommands>) -> Seq<Seq<char>> {
    entries.map_values(|e: ChannelCommands| e.name@)
}

/// The commands that the first entry named `channel` holds; none where
/// no entry has the name.
spec fn commands_in(entries: Seq<ChannelCommands>, channel: Seq<char>) -> Seq<
    CommandView,
> {
    let i = index_of(channel_names(entries), channel);
    if 0 <= i < entries.len() {
        command_views(entries[i].commands@)
    } else {
        Seq::empty()
    }
}

/// A table as a mapping from every channel name to its commands, in the
/// order in which they are tried.
pub type TableView = Map<Seq<char>, Seq<CommandView>>;

/// The table in which no channel has a command.
pub open spec fn empty_table() -> TableView {
    Map::total(|channel: Seq<char>| Seq::<CommandView>::empty())
}

/// A table after `command` was merged into the commands of `channel`.
pub open spec fn table_upsert(table: TableView, channel: Seq<char>, command: CommandView)
    -> TableView {
    table.insert(channel, upsert_spec(table[channel], command))
}

/// A table after the command with the given id was taken out of the
/// commands of `channel`.
pub open spec fn table_remove(table: TableView, channel: Seq<char>, id: i32) -> TableView {
    table.insert(channel, remove_spec(table[channel], id))
}

/// The commands of every channel. Its view maps each channel name to the
/// list of its commands, the empty list for a channel that has none.
/// Channels are few, so they are kept in a vector in the order in which
/// they were first named, and found by their name.
#[derive(Debug)]
pub struct CommandTable {
    channels: Vec<ChannelCommands>,
}

impl View for CommandTable {
    type V = TableView;

    closed spec fn view(&self) -> TableView {
        Map::total(|channel: Seq<char>| commands_in(self.channels@, channel))
    }
}

impl CommandTable {
    /// A table without commands.
    pub fn new() -> (t: Self)
        ensures
            t@ == empty_table(),
    {
        let t = CommandTable { channels: Vec::new() };
        assert(t@ =~= empty_table());
        t
    }

    fn find_channel(&self, channel: &str) -> (i: usize)
        ensures
            i <= self.channels.len(),
            i == index_of(channel_names(self.channels@), channel@),
    {
        let mut i: usize = 0;
        while i < self.channels.len() && !str_equal(self.channels[i].name.as_str(), channel)
            invariant
                i <= self.channels.len(),
                forall|k: int| 0 <= k < i ==> self.channels@[k].name@ != channel@,
            decreases self.channels.len() - i,
        {
            i += 1;
        }
        proof {
            lemma_index_of_unique(channel_names(self.channels@), channel@, i as int);
        }
        i
    }

    /// Registers `command` for `channel`: it replaces, in place, the
    /// command of that channel with its id, or is added behind the
    /// channel's other commands. No other channel changes.
    pub fn upsert(&mut self, channel: String, command: Command)
        ensures
            final(self)@ == table_upsert(old(self)@, channel@, command@),
    {
        let i = self.find_channel(channel.as_str());
        let ghost before = self.channels@;
        if i < self.channels.len() {
            upsert_command(&mut self.channels[i].commands, command);
            proof {
                assert(channel_names(self.channels@) =~= channel_names(before));
                assert forall|ch: Seq<char>|
                    commands_in(self.channels@, ch) == #[trigger] table_upsert(
                        old(self)@,
                        channel@,
                        command@,
                    )[ch] by {
                    lemma_index_of_is_first(channel_names(before), ch);
                    lemma_index_of_is_first(channel_names(before), channel@);
                    let k = index_of(channel_names(before), ch);
                    if 0 <= k < before.len() && k != i {
                        assert(self.channels@[k] == before[k]);
                        assert(channel_names(before)[k] == ch);
                    }
                }
            }
        } else {
            let mut commands: Vec<Command> = Vec::new();
            upsert_command(&mut commands, command);
            self.channels.push(ChannelCommands { name: channel, commands });
            proof {
                assert(channel_names(self.channels@) =~= channel_names(before).push(channel@));
                assert forall|ch: Seq<char>|
                    commands_in(self.channels@, ch) == #[trigger] table_upsert(
                        old(self)@,
                        channel@,
                        command@,
                    )[ch] by {
                    lemma_index_of_push(channel_names(before), channel@, ch);
                }
            }
        }
        assert(self@ =~= table_upsert(old(self)@, channel@, command@));
    }

    /// Takes the first command with the given id out of the commands of
    /// `channel`. Nothing changes where the channel has no such command.
    pub fn remove(&mut self, channel: &str, id: i32)
        ensures
            final(self)@ == table_remove(old(self)@, channel@, id),
    {
        let i = self.find_channel(channel);
        let ghost before = self.channels@;
        if i < self.channels.len() {
            remove_command(&mut self.channels[i].commands, id);
            proof {
                assert(channel_names(self.channels@) =~= channel_names(before));
                assert forall|ch: Seq<char>|
                    commands_in(self.channels@, ch) == #[trigger] table_remove(
                        old(self)@,
                        channel@,
                        id,
                    )[ch] by {
                    lemma_index_of_is_first(channel_names(before), ch);
                    lemma_index_of_is_first(channel_names(before), channel@);
                    let k = index_of(channel_names(before), ch);
                    if 0 <= k < before.len() && k != i {
                        assert(self.channels@[k] == before[k]);
                        assert(channel_names(before)[k] == ch);
                    }
                }
            }
        } else {
            proof {
                assert(remove_spec(Seq::<CommandView>::empty(), id) =~= Seq::empty());
            }
        }
        assert(self@ =~= table_remove(old(self)@, channel@, id));
    }

    /// The commands of `channel` in the order in which they are tried;
    /// empty where the channel has none.
    pub fn lookup(&self, channel: &str) -> (r: &[Command])
        ensures
            command_views(r@) == self@[channel@],
    {
        let i = self.find_channel(channel);
        if i < self.channels.len() {
            self.channels[i].commands.as_slice()
        } else {
            let r: &[Command] = &[];
            assert(command_views(r@) =~= Seq::empty());
            r
        }
    }
}

/// Merging a command a second time changes nothing.
pub proof fn lemma_upsert_idempotent(cmds: Seq<CommandView>, command: CommandView)
    ensures
        upsert_spec(upsert_spec(cmds, command), command) == upsert_spec(cmds, command),
{
    let ids = command_ids(cmds);
    let once = upsert_spec(cmds, command);
    let i = index_of(ids, command.id);
    lemma_index_of_is_first(ids, command.id);
    if i < cmds.len() {
        assert(command_ids(once) =~= ids);
        assert(once.update(i, command) =~= once);
    } else {
        assert(command_ids(once) =~= ids.push(command.id));
        lemma_index_of_push(ids, command.id, command.id);
        assert(once.update(cmds.len() as int, command) =~= once);
    }
}

/// A command whose id no command of the list has goes to the end of the
/// list, and every command of the list stays where it was.
pub proof fn lemma_upsert_new_id_appends(cmds: Seq<CommandView>, command: CommandView)
    requires
        forall|i: int| 0 <= i < cmds.len() ==> (#[trigger] cmds[i]).id != command.id,
    ensures
        upsert_spec(cmds, command) == cmds.push(command),
{
    lemma_index_of_unique(command_ids(cmds), command.id, cmds.len() as int);
}

/// A command whose id a command of the list has takes the place of the
/// first such command, and the list keeps its length.
pub proof fn lemma_upsert_known_id_replaces(cmds: Seq<CommandView>, command: CommandView, i: int)
    requires
        0 <= i < cmds.len(),
        cmds[i].id == command.id,
        forall|k: int| 0 <= k < i ==> (#[trigger] cmds[k]).id != command.id,
    ensures
        upsert_spec(cmds, command) == cmds.update(i, command),
{
    lemma_index_of_unique(command_ids(cmds), command.id, i);
}

/// Removing an id that no command of the list has leaves the list as it
/// is.
pub proof fn lemma_remove_absent_id(cmds: Seq<CommandView>, id: i32)
    requires
        forall|i: int| 0 <= i < cmds.len() ==> (#[trigger] cmds[i]).id != id,
    ensures
        remove_spec(cmds, id) == cmds,
{
    lemma_index_of_unique(command_ids(cmds), id, cmds.len() as int);
}

/// A table has an entry for every channel name: the commands of the
/// channel, or the empty list.
pub proof fn lemma_table_is_total(table: CommandTable)
    ensures
        forall|channel: Seq<char>| table@.dom().contains(channel),
{
}

/// Registering a command a second time leaves the whole table as the
/// first registration left it.
pub proof fn lemma_table_upsert_idempotent(
    table: CommandTable,
    channel: Seq<char>,
    command: CommandView,
)
    ensures
        table_upsert(table_upsert(table@, channel, command), channel, command) == table_upsert(
            table@,
            channel,
            command,
        ),
{
    lemma_upsert_idempotent(table@[channel], command);
    assert(table_upsert(table_upsert(table@, channel, command), channel, command)
        =~= table_upsert(table@, channel, command));
}

/// Removing from a channel an id that none of its commands has leaves
/// the whole table as it is.
pub proof fn lemma_table_remove_absent_id(table: CommandTable, channel: Seq<char>, id: i32)
    requires
        forall|i: int| 0 <= i < table@[channel].len() ==> (#[trigger] table@[channel][i]).id != id,
    ensures
        table_remove(table@, channel, id) == table@,
{
    lemma_remove_absent_id(table@[channel], id);
    assert(table_remove(table@, channel, id) =~= table@);
}

/// Registering or removing a command in one channel leaves the commands
/// of every other channel as they are.
pub proof fn lemma_other_channels_unchanged(
    table: CommandTable,
    channel: Seq<char>,
    other: Seq<char>,
    command: CommandView,
)
    requires
        other != channel,
    ensures
        table_upsert(table@, channel, command)[other] == table@[other],
        table_remove(table@, channel, command.id)[other] == table@[other],
{
}

} // verus!
