//! What the commands make of a player: which song is loaded, and whether it plays.
use std::path::PathBuf;

use vstd::prelude::*;

use crate::command::{Command, CommandModel};

verus! {

/// The state of a player as far as commands change it.
#[derive(Debug)]
pub struct Transport {
    /// A command that ended a song and is to be obeyed before any other.
    pub pending: Option<Command>,
    /// The bytes of the song that is loaded.
    pub song: Option<Vec<u8>>,
    /// Whether the song is to be played.
    pub playing: bool,
    /// Whether the song starts over when it is through.
    pub looping: bool,
    /// Whether the song rests.
    pub paused: bool,
    /// Whether the song gives way to a new one.
    pub unload: bool,
}

/// What a transport stands for.
pub struct TransportModel {
    pub pending: Option<CommandModel>,
    pub song: Option<Seq<u8>>,
    pub playing: bool,
    pub looping: bool,
    pub paused: bool,
    pub unload: bool,
}

impl View for Transport {
    type V = TransportModel;

    open spec fn view(&self) -> TransportModel {
        TransportModel {
            pending: match self.pending {
                Some(command) => Some(command@),
                None => None,
            },
            song: match self.song {
                Some(bytes) => Some(bytes@),
                None => None,
            },
            playing: self.playing,
            looping: self.looping,
            paused: self.paused,
            unload: self.unload,
        }
    }
}

impl TransportModel {
    /// Only a command that brings a new song is kept for later.
    pub open spec fn wf(self) -> bool {
        self.pending matches Some(command) ==> command.is_load()
    }

    /// Nothing is loaded and nothing plays.
    pub open spec fn fresh() -> TransportModel {
        TransportModel {
            pending: None,
            song: None,
            playing: false,
            looping: false,
            paused: false,
            unload: false,
        }
    }

    /// A song is loaded and is to be played.
    pub open spec fn ready(self) -> bool {
        self.song is Some && self.playing
    }

    /// Before a song starts it neither rests nor gives way to another.
    pub open spec fn rewound(self) -> TransportModel {
        TransportModel { paused: false, unload: false, ..self }
    }

    /// What a command does while no song plays. Pause and stop mean nothing there, and a file is
    /// loaded once it has been read.
    pub open spec fn obeying_at_rest(self, command: CommandModel) -> TransportModel {
        match command {
            CommandModel::NewFromBuf(bytes) => TransportModel { song: Some(bytes), ..self },
            CommandModel::Play => TransportModel { playing: true, ..self },
            CommandModel::Loop => TransportModel { looping: !self.looping, ..self },
            CommandModel::NewFromFile(_) | CommandModel::Pause | CommandModel::Stop => self,
        }
    }

    /// The bytes of a file take the place of the song. A file that could not be read counts as empty.
    pub open spec fn having_read(self, bytes: Option<Seq<u8>>) -> TransportModel {
        TransportModel {
            song: match bytes {
                Some(b) => Some(b),
                None => Some(seq![]),
            },
            ..self
        }
    }

    /// What a command does while a song plays.
    pub open spec fn obeying_in_song(self, command: CommandModel) -> TransportModel {
        match command {
            CommandModel::NewFromFile(_) | CommandModel::NewFromBuf(_) => TransportModel {
                pending: Some(command),
                unload: true,
                ..self
            },
            CommandModel::Pause => TransportModel { paused: true, ..self },
            CommandModel::Stop => TransportModel { playing: false, ..self },
            CommandModel::Play => TransportModel { paused: false, ..self },
            CommandModel::Loop => TransportModel { looping: !self.looping, ..self },
        }
    }

    /// When a song ends, one that gives way is unloaded, and only a song that loops plays on.
    pub open spec fn ended(self) -> TransportModel {
        TransportModel {
            song: if self.unload {
                None
            } else {
                self.song
            },
            playing: self.playing && !self.unload && self.looping,
            ..self
        }
    }
}

/// A command that ends the song which is playing: stop, or a new song.
pub open spec fn ends_song(command: CommandModel) -> bool {
    command is Stop || command.is_load()
}

impl Transport {
    /// A player with nothing loaded.
    pub fn new() -> (r: Self)
        ensures
            r@ == TransportModel::fresh(),
            r@.wf(),
    {
        Transport {
            pending: None,
            song: None,
            playing: false,
            looping: false,
            paused: false,
            unload: false,
        }
    }

    /// Whether a song is loaded and is to be played.
    pub fn is_ready(&self) -> (r: bool)
        ensures
            r == self@.ready(),
    {
        self.song.is_some() && self.playing
    }

    /// Gets ready for the next song.
    pub fn rewind(&mut self)
        ensures
            final(self)@ == old(self)@.rewound(),
    {
        self.paused = false;
        self.unload = false;
    }

    /// Takes the command that was kept, if there is one.
    pub fn take_pending(&mut self) -> (r: Option<Command>)
        ensures
            final(self)@ == (TransportModel { pending: None, ..old(self)@ }),
            r is Some <==> old(self)@.pending is Some,
            r matches Some(command) ==> old(self)@.pending == Some(command@),
    {
        self.pending.take()
    }

    /// Obeys a command while no song plays. Returns the file that is to be read, if it names one.
    pub fn obey_at_rest(&mut self, command: Command) -> (r: Option<PathBuf>)
        ensures
            final(self)@ == old(self)@.obeying_at_rest(command@),
            r == match command@ {
                CommandModel::NewFromFile(path) => Some(path),
                _ => None,
            },
    {
        match command {
            Command::NewFromFile(path) => {
                return Some(path);
            },
            Command::NewFromBuf(buf) => {
                self.song = Some(buf);
            },
            Command::Play => {
                self.playing = true;
            },
            Command::Loop => {
                self.looping = !self.looping;
            },
            Command::Pause | Command::Stop => {},
        }
        None
    }

    /// Takes over the bytes of a file, or none where it could not be read.
    pub fn file_read(&mut self, bytes: Option<Vec<u8>>)
        ensures
            final(self)@ == old(self)@.having_read(
                match bytes {
                    Some(b) => Some(b@),
                    None => None,
                },
            ),
    {
        match bytes {
            Some(b) => {
                self.song = Some(b);
            },
            None => {
                let empty: Vec<u8> = Vec::new();
                assert(empty@ =~= seq![]);
                self.song = Some(empty);
            },
        }
    }

    /// Obeys a command while a song plays. Returns whether it ends the song.
    pub fn obey_in_song(&mut self, command: Command) -> (r: bool)
        ensures
            final(self)@ == old(self)@.obeying_in_song(command@),
            r == ends_song(command@),
    {
        match command {
            Command::NewFromFile(path) => {
                self.pending = Some(Command::NewFromFile(path));
                self.unload = true;
                true
            },
            Command::NewFromBuf(buf) => {
                self.pending = Some(Command::NewFromBuf(buf));
                self.unload = true;
                true
            },
            Command::Pause => {
                self.paused = true;
                false
            },
            Command::Stop => {
                self.playing = false;
                true
            },
            Command::Play => {
                self.paused = false;
                false
            },
            Command::Loop => {
                self.looping = !self.looping;
                false
            },
        }
    }

    /// Settles what becomes of a song that ended.
    pub fn end_song(&mut self)
        ensures
            final(self)@ == old(self)@.ended(),
    {
        if self.unload {
            self.song = None;
            self.playing = false;
        }
        if !self.looping {
            self.playing = false;
        }
    }
}

/// Toggling the loop twice leaves everything as it was, at rest and in a song.
pub proof fn law_loop_toggles(t: TransportModel)
    ensures
        t.obeying_at_rest(CommandModel::Loop).obeying_at_rest(CommandModel::Loop) == t,
        t.obeying_in_song(CommandModel::Loop).obeying_in_song(CommandModel::Loop) == t,
        t.obeying_at_rest(CommandModel::Loop) == t.obeying_in_song(CommandModel::Loop),
{
}

/// Play undoes pause in a song that did not rest before.
pub proof fn law_play_resumes(t: TransportModel)
    requires
        !t.paused,
    ensures
        t.obeying_in_song(CommandModel::Pause).paused,
        t.obeying_in_song(CommandModel::Pause).obeying_in_song(CommandModel::Play) == t,
{
}

/// A song that is stopped stays loaded, even where it loops, and plays again at the next play.
pub proof fn law_stop_keeps_song(t: TransportModel)
    requires
        t.song is Some,
        !t.unload,
    ensures
        ends_song(CommandModel::Stop),
        ({
            let stopped = t.obeying_in_song(CommandModel::Stop).ended();
            &&& stopped.song == t.song
            &&& !stopped.ready()
            &&& stopped.obeying_at_rest(CommandModel::Play).ready()
        }),
{
}

/// A new song ends the one that plays, takes its place and waits for play.
pub proof fn law_new_song_waits(t: TransportModel, bytes: Seq<u8>)
    ensures
        ends_song(CommandModel::NewFromBuf(bytes)),
        ({
            let ended = t.obeying_in_song(CommandModel::NewFromBuf(bytes)).ended();
            &&& ended.pending == Some(CommandModel::NewFromBuf(bytes))
            &&& ended.song is None
            &&& ended.obeying_at_rest(CommandModel::NewFromBuf(bytes)).song == Some(bytes)
            &&& !ended.obeying_at_rest(CommandModel::NewFromBuf(bytes)).ready()
        }),
{
}

/// A song that runs to its end plays again if it loops, and stays loaded in either case.
pub proof fn law_only_loops_repeat(t: TransportModel)
    requires
        t.ready(),
        !t.unload,
    ensures
        t.ended().song == t.song,
        t.ended().ready() <==> t.looping,
{
}

/// A buffer that is loaded while no song plays is the song from then on, whatever was loaded before, and
/// nothing else changes.
pub proof fn law_loaded_buffer_is_the_song(t: TransportModel, bytes: Seq<u8>)
    ensures
        t.obeying_at_rest(CommandModel::NewFromBuf(bytes)).song == Some(bytes),
        t.obeying_at_rest(CommandModel::NewFromBuf(bytes)).playing == t.playing,
        t.obeying_at_rest(CommandModel::NewFromBuf(bytes)).looping == t.looping,
        t.obeying_at_rest(CommandModel::NewFromBuf(bytes)).paused == t.paused,
        t.obeying_at_rest(CommandModel::NewFromBuf(bytes)).unload == t.unload,
        t.obeying_at_rest(CommandModel::NewFromBuf(bytes)).pending == t.pending,
{
}

/// A file that was read is the song from then on, whatever was loaded before; one that could not be read
/// is an empty song. Nothing else changes.
pub proof fn law_file_that_was_read_is_the_song(t: TransportModel, bytes: Seq<u8>)
    ensures
        t.having_read(Some(bytes)).song == Some(bytes),
        t.having_read(None).song is Some,
        t.having_read(None).song->0.len() == 0,
        forall|read: Option<Seq<u8>>|
            {
                let after = #[trigger] t.having_read(read);
                &&& after.playing == t.playing
                &&& after.looping == t.looping
                &&& after.paused == t.paused
                &&& after.unload == t.unload
                &&& after.pending == t.pending
            },
{
}

/// The song that is loaded last is the one that plays, in whichever order load and play come.
pub proof fn law_last_song_plays(t: TransportModel, first: Seq<u8>, second: Seq<u8>)
    ensures
        ({
            let loaded = t.obeying_at_rest(CommandModel::NewFromBuf(first)).obeying_at_rest(
                CommandModel::NewFromBuf(second),
            ).obeying_at_rest(CommandModel::Play);
            loaded.ready() && loaded.song == Some(second)
        }),
        ({
            let loaded = t.obeying_at_rest(CommandModel::Play).obeying_at_rest(
                CommandModel::NewFromBuf(second),
            );
            loaded.ready() && loaded.song == Some(second)
        }),
{
}

/// While no song plays, play and loop change one thing each, and pause, stop and a file that is not read yet
/// change nothing.
pub proof fn law_at_rest_one_thing_changes(t: TransportModel, command: CommandModel)
    requires
        !(command is NewFromBuf),
    ensures
        ({
            let after = t.obeying_at_rest(command);
            &&& after.song == t.song
            &&& after.pending == t.pending
            &&& after.paused == t.paused
            &&& after.unload == t.unload
            &&& command is Play ==> after.playing
            &&& !(command is Play) ==> after.playing == t.playing
            &&& command is Loop <==> after.looping != t.looping
        }),
{
}

/// In a song each command changes what it is about and nothing else; above all, none changes the bytes of the
/// song that plays.
pub proof fn law_in_song_one_thing_changes(t: TransportModel, command: CommandModel)
    ensures
        ({
            let after = t.obeying_in_song(command);
            &&& after.song == t.song
            &&& command is Loop <==> after.looping != t.looping
            &&& command is Stop ==> !after.playing
            &&& !(command is Stop) ==> after.playing == t.playing
            &&& command is Pause ==> after.paused
            &&& command is Play ==> !after.paused
            &&& !(command is Pause || command is Play) ==> after.paused == t.paused
            &&& command is NewFromFile || command is NewFromBuf ==> after.unload && after.pending
                == Some(command)
            &&& !(command is NewFromFile || command is NewFromBuf) ==> after.unload == t.unload
                && after.pending == t.pending
        }),
        ends_song(command) <==> command is Stop || command is NewFromFile || command is NewFromBuf,
{
}

/// When a song ends, it stays loaded unless it gives way; it plays on only where it was still to be played,
/// loops and does not give way.
pub proof fn law_end_of_a_song(t: TransportModel)
    ensures
        t.unload ==> t.ended().song is None,
        !t.unload ==> t.ended().song == t.song,
        t.ended().playing <==> t.playing && t.looping && !t.unload,
        t.ended().looping == t.looping,
        t.ended().pending == t.pending,
        t.ended().paused == t.paused,
        t.ended().unload == t.unload,
{
}

/// A new start keeps the song and what was to become of it; it only does away with a pause and with giving
/// way.
pub proof fn law_new_start(t: TransportModel)
    ensures
        !t.rewound().paused,
        !t.rewound().unload,
        t.rewound().song == t.song,
        t.rewound().playing == t.playing,
        t.rewound().looping == t.looping,
        t.rewound().pending == t.pending,
{
}

/// There is something to play exactly where a song is loaded and play was given.
pub proof fn law_ready_means_loaded_and_playing(t: TransportModel)
    ensures
        t.ready() <==> t.song is Some && t.playing,
        !TransportModel::fresh().ready(),
        TransportModel::fresh().song is None,
        !TransportModel::fresh().playing,
        !TransportModel::fresh().looping,
        !TransportModel::fresh().paused,
        !TransportModel::fresh().unload,
        TransportModel::fresh().pending is None,
{
}

/// A transport shows the bytes of its song, the command that it keeps, and what is set.
pub proof fn law_transports_show_what_they_hold(t: Transport)
    ensures
        t.song matches Some(bytes) ==> t@.song == Some(bytes@),
        t.song is None ==> t@.song is None,
        t.pending matches Some(command) ==> t@.pending == Some(command@),
        t.pending is None ==> t@.pending is None,
        t@.playing == t.playing,
        t@.looping == t.looping,
        t@.paused == t.paused,
        t@.unload == t.unload,
{
}

} // verus!
