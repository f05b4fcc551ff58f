//! The remote control of a player.
use std::path::Path;
use std::sync::mpsc::Sender;

use vstd::prelude::*;

use crate::command::{
    arrived, handed, lemma_one_more_arrived, owned_path, send, to_owned, Command, CommandModel,
};

verus! {

/// Gives commands to a player that runs elsewhere, and does not mind where the player is gone.
pub struct MidiPlayerController {
    sender: Sender<Command>,
}

impl View for MidiPlayerController {
    type V = Seq<CommandModel>;

    /// The commands that reached the channel so far.
    open spec fn view(&self) -> Seq<CommandModel> {
        arrived(self.given())
    }
}

/// What giving one command comes to: it is the last one given, and it arrives or is lost.
pub open spec fn gives_or_loses(
    before: MidiPlayerController,
    after: MidiPlayerController,
    command: CommandModel,
) -> bool {
    ||| after.given() == before.given().push((command, true)) && after@ == before@.push(command)
    ||| after.given() == before.given().push((command, false)) && after@ == before@
}

impl MidiPlayerController {
    /// The commands that were given so far, each with whether it reached the channel.
    pub closed spec fn given(&self) -> Seq<(CommandModel, bool)> {
        handed(self.sender)
    }

    /// A controller that gives its commands to `sender`.
    pub fn new(sender: Sender<Command>) -> (r: Self)
        ensures
            r.given() == handed(sender),
    {
        MidiPlayerController { sender }
    }

    /// Gives a command.
    fn give(&mut self, command: Command)
        ensures
            gives_or_loses(*old(self), *final(self), command@),
    {
        proof {
            lemma_one_more_arrived(handed(self.sender), command@);
        }
        let _ = send(&mut self.sender, command);
    }

    /// Loads the song in a file.
    pub fn load_from_file(&mut self, filepath: &Path)
        ensures
            gives_or_loses(
                *old(self),
                *final(self),
                CommandModel::NewFromFile(owned_path(filepath)),
            ),
    {
        self.give(Command::NewFromFile(to_owned(filepath)));
    }

    /// Loads the song in `buf`, the bytes of a MIDI file.
    pub fn load_from_buf(&mut self, buf: &Vec<u8>)
        ensures
            gives_or_loses(*old(self), *final(self), CommandModel::NewFromBuf(buf@)),
    {
        let copy = buf.clone();
        assert(copy@ =~= buf@);
        self.give(Command::NewFromBuf(copy));
    }

    /// Starts the song, or goes on with it after a pause.
    pub fn play(&mut self)
        ensures
            gives_or_loses(*old(self), *final(self), CommandModel::Play),
    {
        self.give(Command::Play);
    }

    /// Pauses the song.
    pub fn pause(&mut self)
        ensures
            gives_or_loses(*old(self), *final(self), CommandModel::Pause),
    {
        self.give(Command::Pause);
    }

    /// Stops the song.
    pub fn stop(&mut self)
        ensures
            gives_or_loses(*old(self), *final(self), CommandModel::Stop),
    {
        self.give(Command::Stop);
    }

    /// Turns looping on or off.
    pub fn toggle_loop(&mut self)
        ensures
            gives_or_loses(*old(self), *final(self), CommandModel::Loop),
    {
        self.give(Command::Loop);
    }
}

/// Commands that are given one after the other are given in that order, and those that are not lost are in
/// the channel in that order.
pub proof fn law_commands_keep_their_order(
    controllers: Seq<MidiPlayerController>,
    commands: Seq<CommandModel>,
)
    requires
        controllers.len() == commands.len() + 1,
        forall|i: int|
            0 <= i < commands.len() ==> gives_or_loses(
                controllers[i],
                controllers[i + 1],
                #[trigger] commands[i],
            ),
    ensures
        ({
            let start = controllers.first();
            let end = controllers.last();
            let new = end.given().skip(start.given().len() as int);
            &&& end.given() == start.given() + new
            &&& new.map_values(|g: (CommandModel, bool)| g.0) == commands
            &&& end@ == start@ + arrived(new)
        }),
    decreases commands.len(),
{
    let start = controllers.first();
    let end = controllers.last();
    let new = end.given().skip(start.given().len() as int);
    if commands.len() == 0 {
        assert(new =~= seq![]);
        assert(end.given() =~= start.given() + new);
        assert(new.map_values(|g: (CommandModel, bool)| g.0) =~= commands);
        assert(end@ =~= start@ + arrived(new));
    } else {
        let fewer = commands.drop_last();
        let earlier = controllers.drop_last();
        assert forall|i: int| 0 <= i < fewer.len() implies gives_or_loses(
            earlier[i],
            earlier[i + 1],
            #[trigger] fewer[i],
        ) by {
            assert(fewer[i] == commands[i]);
        }
        law_commands_keep_their_order(earlier, fewer);
        let middle = earlier.last();
        let before = middle.given().skip(start.given().len() as int);
        let command = commands[commands.len() - 1];
        assert(gives_or_loses(middle, end, command));
        lemma_one_more_arrived(before, command);
        assert(new =~= before.push(end.given().last()));
        assert(end.given() =~= start.given() + new);
        let names = new.map_values(|g: (CommandModel, bool)| g.0);
        let names_before = before.map_values(|g: (CommandModel, bool)| g.0);
        assert forall|i: int| 0 <= i < commands.len() implies names[i] == commands[i] by {
            if i < fewer.len() {
                assert(fewer[i] == names_before[i]);
                assert(new[i] == before[i]);
            }
        }
        assert(names =~= commands);
        assert(end@ =~= start@ + arrived(new));
    }
}

} // verus!
