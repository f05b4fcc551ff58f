//! Commands for a player, and the channel that carries them.
use std::path::{Path, PathBuf};
use std::sync::mpsc::{SendError, Sender};

use vstd::prelude::*;

verus! {

/// `std::path::Path`, the place of a file.
#[verifier::external_type_specification]
#[verifier::external_body]
pub struct ExPath(Path);

/// `std::path::PathBuf`, an owned path.
#[verifier::external_type_specification]
#[verifier::external_body]
pub struct ExPathBuf(PathBuf);

/// `std::sync::mpsc::Sender`, the sending end of a channel.
#[verifier::external_type_specification]
#[verifier::external_body]
#[verifier::reject_recursive_types(T)]
pub struct ExSender<T>(Sender<T>);

/// `std::sync::mpsc::SendError`, which hands back what could not be sent.
#[verifier::external_type_specification]
#[verifier::external_body]
#[verifier::reject_recursive_types(T)]
pub struct ExSendError<T>(SendError<T>);

/// `PathBuf::clone` copies the path.
pub assume_specification[ <PathBuf as Clone>::clone ](path: &PathBuf) -> (r: PathBuf)
    ensures
        r == *path,
;

/// Commands that can be sent to a player.
#[derive(Debug, Clone)]
pub enum Command {
    Pause,
    Stop,
    Play,
    Loop,
    NewFromFile(PathBuf),
    NewFromBuf(Vec<u8>),
}

/// What a command says.
pub enum CommandModel {
    Pause,
    Stop,
    Play,
    Loop,
    NewFromFile(PathBuf),
    NewFromBuf(Seq<u8>),
}

impl CommandModel {
    /// The command brings a new song.
    pub open spec fn is_load(self) -> bool {
        self is NewFromFile || self is NewFromBuf
    }
}

impl View for Command {
    type V = CommandModel;

    open spec fn view(&self) -> CommandModel {
        match *self {
            Command::Pause => CommandModel::Pause,
            Command::Stop => CommandModel::Stop,
            Command::Play => CommandModel::Play,
            Command::Loop => CommandModel::Loop,
            Command::NewFromFile(path) => CommandModel::NewFromFile(path),
            Command::NewFromBuf(buf) => CommandModel::NewFromBuf(buf@),
        }
    }
}

/// The owned form of a path, which `Path::to_owned` gives.
pub uninterp spec fn owned_path(path: &Path) -> PathBuf;

/// The commands that were handed to `Sender::send` on one sender, in order, each with whether it went
/// into the channel.
pub uninterp spec fn handed(sender: Sender<Command>) -> Seq<(CommandModel, bool)>;

/// Of the commands that were handed over, those that went into the channel.
pub open spec fn arrived(handed: Seq<(CommandModel, bool)>) -> Seq<CommandModel>
    decreases handed.len(),
{
    if handed.len() == 0 {
        seq![]
    } else if handed.last().1 {
        arrived(handed.drop_last()).push(handed.last().0)
    } else {
        arrived(handed.drop_last())
    }
}

/// The commands that went into a channel through one sender.
pub open spec fn sent(sender: Sender<Command>) -> Seq<CommandModel> {
    arrived(handed(sender))
}

/// The command that an error hands back.
pub uninterp spec fn unsent(error: SendError<Command>) -> CommandModel;

/// Calls `Path::to_owned`.
#[verifier::external_body]
pub(crate) fn to_owned(path: &Path) -> (r: PathBuf)
    ensures
        r == owned_path(path),
{
    path.to_owned()
}

/// Calls `Sender::send`, which fails where the receiver is gone and then hands the command back.
/// Whether it is gone is up to the other end, and is not said.
#[verifier::external_body]
pub(crate) fn send(sender: &mut Sender<Command>, command: Command) -> (r: Result<
    (),
    SendError<Command>,
>)
    ensures
        handed(*final(sender)) == handed(*old(sender)).push((command@, r is Ok)),
        r matches Err(e) ==> unsent(e) == command@,
{
    sender.send(command)
}

/// One command more arrives or does not.
pub proof fn lemma_one_more_arrived(handed: Seq<(CommandModel, bool)>, command: CommandModel)
    ensures
        arrived(handed.push((command, true))) == arrived(handed).push(command),
        arrived(handed.push((command, false))) == arrived(handed),
{
    assert(handed.push((command, true)).drop_last() =~= handed);
    assert(handed.push((command, false)).drop_last() =~= handed);
}

/// A command says what it is, and a new song brings its own bytes or its own file.
pub proof fn law_commands_say_what_they_are(command: Command)
    ensures
        command is Pause <==> command@ is Pause,
        command is Stop <==> command@ is Stop,
        command is Play <==> command@ is Play,
        command is Loop <==> command@ is Loop,
        command matches Command::NewFromFile(path) ==> command@ == CommandModel::NewFromFile(path),
        command matches Command::NewFromBuf(buf) ==> command@ == CommandModel::NewFromBuf(buf@),
        command@.is_load() <==> command is NewFromFile || command is NewFromBuf,
{
}

/// What arrived is made of those commands, and only those, that went into the channel, in order.
pub proof fn law_arrived_are_those_that_went_in(handed: Seq<(CommandModel, bool)>)
    ensures
        arrived(handed) == handed.filter(|h: (CommandModel, bool)| h.1).map_values(
            |h: (CommandModel, bool)| h.0,
        ),
    decreases handed.len(),
{
    reveal(Seq::filter);
    let in_channel = |h: (CommandModel, bool)| h.1;
    let name = |h: (CommandModel, bool)| h.0;
    if handed.len() > 0 {
        law_arrived_are_those_that_went_in(handed.drop_last());
        let before = handed.drop_last().filter(in_channel);
        if handed.last().1 {
            assert(before.push(handed.last()).map_values(name) =~= before.map_values(name).push(
                handed.last().0,
            ));
        }
    } else {
        assert(handed.filter(in_channel).map_values(name) =~= seq![]);
    }
}

} // verus!
