//! The remote control of a player.
use std::path::Path;
use std::sync::mpsc::{SendError, Sender};

use vstd::prelude::*;

use crate::command::{
    handed, lemma_one_more_arrived, owned_path, send, sent, to_owned, unsent, Command, CommandModel,
};

verus! {

/// The player is gone, and the command did not reach it.
#[derive(Debug)]
pub struct MidiPlayerControllerCommunicationError(SendError<Command>);

impl MidiPlayerControllerCommunicationError {
    /// The command that did not reach the player.
    pub closed spec fn command(&self) -> CommandModel {
        unsent(self.0)
    }

    /// The error that stands for `e`.
    pub closed spec fn of(e: SendError<Command>) -> Self {
        MidiPlayerControllerCommunicationError(e)
    }
}

impl From<SendError<Command>> for MidiPlayerControllerCommunicationError {
    fn from(e: SendError<Command>) -> (r: Self) {
        MidiPlayerControllerCommunicationError(e)
    }
}

impl vstd::std_specs::convert::FromSpecImpl<SendError<Command>>
    for MidiPlayerControllerCommunicationError {
    open spec fn obeys_from_spec() -> bool {
        true
    }

    open spec fn from_spec(e: SendError<Command>) -> Self {
        MidiPlayerControllerCommunicationError::of(e)
    }
}

/// Gives commands to a player that runs elsewhere.
pub struct MidiPlayerController {
    sender: Sender<Command>,
}

impl View for MidiPlayerController {
    type V = Seq<CommandModel>;

    /// The commands that were given so far.
    closed spec fn view(&self) -> Seq<CommandModel> {
        sent(self.sender)
    }
}

/// What giving one command comes to: it is the last one given, or an error brings it back.
pub open spec fn gives(
    before: Seq<CommandModel>,
    after: Seq<CommandModel>,
    command: CommandModel,
    r: Result<(), MidiPlayerControllerCommunicationError>,
) -> bool {
    match r {
        Ok(()) => after == before.push(command),
        Err(e) => after == before && e.command() == command,
    }
}

impl MidiPlayerController {
    /// A controller that gives its commands to `sender`.
    pub fn new(sender: Sender<Command>) -> (r: Self)
        ensures
            r@ == sent(sender),
    {
        MidiPlayerController { sender }
    }

    /// Gives a command.
    fn give(&mut self, command: Command) -> (r: Result<(), MidiPlayerControllerCommunicationError>)
        ensures
            gives(old(self)@, final(self)@, command@, r),
    {
        proof {
            lemma_one_more_arrived(handed(self.sender), command@);
        }
        match send(&mut self.sender, command) {
            Ok(()) => Ok(()),
            Err(e) => Err(MidiPlayerControllerCommunicationError::from(e)),
        }
    }

    /// Loads the song in a file.
    pub fn load_from_file(&mut self, filepath: &Path) -> (r: Result<
        (),
        MidiPlayerControllerCommunicationError,
    >)
        ensures
            gives(old(self)@, final(self)@, CommandModel::NewFromFile(owned_path(filepath)), r),
    {
        self.give(Command::NewFromFile(to_owned(filepath)))
    }

    /// Loads the song in `buf`, the bytes of a MIDI file.
    pub fn load_from_buf(&mut self, buf: &Vec<u8>) -> (r: Result<
        (),
        MidiPlayerControllerCommunicationError,
    >)
        ensures
            gives(old(self)@, final(self)@, CommandModel::NewFromBuf(buf@), r),
    {
        let copy = buf.clone();
        assert(copy@ =~= buf@);
        self.give(Command::NewFromBuf(copy))
    }

    /// Starts the song, or goes on with it after a pause.
    pub fn play(&mut self) -> (r: Result<(), MidiPlayerControllerCommunicationError>)
        ensures
            gives(old(self)@, final(self)@, CommandModel::Play, r),
    {
        self.give(Command::Play)
    }

    /// Pauses the song.
    pub fn pause(&mut self) -> (r: Result<(), MidiPlayerControllerCommunicationError>)
        ensures
            gives(old(self)@, final(self)@, CommandModel::Pause, r),
    {
        self.give(Command::Pause)
    }

    /// Stops the song.
    pub fn stop(&mut self) -> (r: Result<(), MidiPlayerControllerCommunicationError>)
        ensures
            gives(old(self)@, final(self)@, CommandModel::Stop, r),
    {
        self.give(Command::Stop)
    }

    /// Turns looping on or off.
    pub fn toggle_loop(&mut self) -> (r: Result<(), MidiPlayerControllerCommunicationError>)
        ensures
            gives(old(self)@, final(self)@, CommandModel::Loop, r),
    {
        self.give(Command::Loop)
    }
}

/// Commands that are given one after the other and all reach the channel are there in the order in which
/// they were given: none is lost, repeated or merged, and nothing else is there. `given[i]` is what the
/// controller has given before command `i`.
pub proof fn law_commands_keep_their_order(
    given: Seq<Seq<CommandModel>>,
    commands: Seq<CommandModel>,
    results: Seq<Result<(), MidiPlayerControllerCommunicationError>>,
)
    requires
        given.len() == commands.len() + 1,
        results.len() == commands.len(),
        forall|i: int|
            0 <= i < commands.len() ==> gives(
                given[i],
                given[i + 1],
                #[trigger] commands[i],
                results[i],
            ) && results[i] is Ok,
    ensures
        given.last() == given.first() + commands,
    decreases commands.len(),
{
    if commands.len() == 0 {
        assert(given.last() =~= given.first() + commands);
    } else {
        let fewer = commands.drop_last();
        let earlier = given.drop_last();
        let before = results.drop_last();
        assert forall|i: int| 0 <= i < fewer.len() implies gives(
            earlier[i],
            earlier[i + 1],
            #[trigger] fewer[i],
            before[i],
        ) && before[i] is Ok by {
            assert(fewer[i] == commands[i]);
        }
        law_commands_keep_their_order(earlier, fewer, before);
        let last = commands.len() - 1;
        assert(gives(given[last], given[last + 1], commands[last], results[last]));
        assert(given.last() =~= given.first() + commands);
    }
}

/// A command that does not reach the channel is reported and leaves no trace there.
pub proof fn law_lost_commands_leave_no_trace(
    before: Seq<CommandModel>,
    after: Seq<CommandModel>,
    command: CommandModel,
    r: Result<(), MidiPlayerControllerCommunicationError>,
)
    requires
        gives(before, after, command, r),
    ensures
        r is Ok <==> after == before.push(command),
        r is Err <==> after == before,
{
    assert(before.push(command).len() != before.len());
}

} // verus!
