//! The player as a machine: it says what is to be done next, and is told what came of it.
use std::path::PathBuf;

use vstd::prelude::*;

use crate::command::{Command, CommandModel};
use crate::transport::{ends_song, Transport, TransportModel};

verus! {

/// What the player waits for.
#[derive(Clone, Copy, Debug, PartialEq, Eq, Structural)]
pub enum Phase {
    /// No song plays.
    AtRest,
    /// A file is being read.
    Reading,
    /// A song is being opened.
    Opening,
    /// In a song, commands are looked for.
    Listening,
    /// In a song, which rests, silence is being filled in.
    Hushing,
    /// In a song, frames are being generated.
    Rendering,
    /// In a song, the next event may be due.
    Counting,
    /// In a song, the next event is being taken.
    Taking,
    /// The player is done.
    Over,
}

/// What is to be done next.
#[derive(Debug)]
pub enum Action {
    /// Wait for a command.
    AwaitCommand,
    /// Read a file.
    ReadFile(PathBuf),
    /// Open the song that is loaded.
    OpenSong,
    /// See whether a command is there.
    PollCommand,
    /// Fill the output with silence.
    FillSilence,
    /// Generate frames, and count down the wait for the next event.
    Render,
    /// See whether the next event is due.
    CheckDue,
    /// Take the next event.
    TakeEvent,
    /// Leave.
    Finish,
}

/// What came of it.
#[derive(Debug)]
pub enum Event {
    /// A command came in.
    Command(Command),
    /// No command came in.
    NoCommand,
    /// No command will ever come in again.
    Disconnected,
    /// The bytes of the file.
    FileRead(Vec<u8>),
    /// The song is open.
    SongOpened,
    /// The output is filled.
    Filled,
    /// Frames were generated.
    Rendered,
    /// Whether the next event is due.
    Due(bool),
    /// Whether there was an event.
    Taken(bool),
}

/// What an event says.
pub enum EventModel {
    Command(CommandModel),
    NoCommand,
    Disconnected,
    FileRead(Seq<u8>),
    SongOpened,
    Filled,
    Rendered,
    Due(bool),
    Taken(bool),
}

impl View for Event {
    type V = EventModel;

    open spec fn view(&self) -> EventModel {
        match *self {
            Event::Command(command) => EventModel::Command(command@),
            Event::NoCommand => EventModel::NoCommand,
            Event::Disconnected => EventModel::Disconnected,
            Event::FileRead(bytes) => EventModel::FileRead(bytes@),
            Event::SongOpened => EventModel::SongOpened,
            Event::Filled => EventModel::Filled,
            Event::Rendered => EventModel::Rendered,
            Event::Due(b) => EventModel::Due(b),
            Event::Taken(b) => EventModel::Taken(b),
        }
    }
}

/// The events that answer what is done in a phase.
pub open spec fn answers(phase: Phase, event: EventModel) -> bool {
    match phase {
        Phase::AtRest => event is Command || event is Disconnected,
        Phase::Reading => event is FileRead,
        Phase::Opening => event is SongOpened,
        Phase::Listening => event is Command || event is NoCommand,
        Phase::Hushing => event is Filled,
        Phase::Rendering => event is Rendered,
        Phase::Counting => event is Due,
        Phase::Taking => event is Taken,
        Phase::Over => false,
    }
}

/// A player.
#[derive(Debug)]
pub struct Player {
    pub transport: Transport,
    pub phase: Phase,
}

/// What a player stands for.
pub struct PlayerModel {
    pub transport: TransportModel,
    pub phase: Phase,
}

impl View for Player {
    type V = PlayerModel;

    open spec fn view(&self) -> PlayerModel {
        PlayerModel { transport: self.transport@, phase: self.phase }
    }
}

impl PlayerModel {
    /// No command is kept for later and no song gives way to another. At rest nothing is to be
    /// played, and in a song, there is one that is. A song rests only once it has started.
    pub open spec fn wf(self) -> bool {
        let t = self.transport;
        &&& t.pending is None
        &&& !t.unload
        &&& match self.phase {
            Phase::AtRest | Phase::Reading => !t.paused && !t.ready(),
            Phase::Opening => !t.paused && t.ready(),
            Phase::Listening | Phase::Hushing | Phase::Rendering | Phase::Counting
            | Phase::Taking => t.ready(),
            Phase::Over => true,
        }
    }

    /// Opens the song if there is one to be played, and else waits for commands.
    pub open spec fn open_or_wait(t: TransportModel) -> (PlayerModel, Action) {
        if t.ready() {
            (PlayerModel { transport: t, phase: Phase::Opening }, Action::OpenSong)
        } else {
            (PlayerModel { transport: t, phase: Phase::AtRest }, Action::AwaitCommand)
        }
    }

    /// Obeys a command while no song plays.
    pub open spec fn obey_at_rest(t: TransportModel, command: CommandModel) -> (
        PlayerModel,
        Action,
    ) {
        match command {
            CommandModel::NewFromFile(path) => (
                PlayerModel { transport: t, phase: Phase::Reading },
                Action::ReadFile(path),
            ),
            _ => Self::open_or_wait(t.obeying_at_rest(command)),
        }
    }

    /// Leaves the song. A command that was kept comes first then.
    pub open spec fn leave(t: TransportModel) -> (PlayerModel, Action) {
        let after = t.ended().rewound();
        match after.pending {
            Some(command) if !after.ready() => Self::obey_at_rest(
                TransportModel { pending: None, ..after },
                command,
            ),
            _ => Self::open_or_wait(after),
        }
    }

    /// Looks for commands again.
    pub open spec fn listen(t: TransportModel) -> (PlayerModel, Action) {
        (PlayerModel { transport: t, phase: Phase::Listening }, Action::PollCommand)
    }

    /// The player after an event, and what is to be done next.
    pub open spec fn next(self, event: EventModel) -> (PlayerModel, Action) {
        let t = self.transport;
        match (self.phase, event) {
            (Phase::AtRest, EventModel::Command(command)) => Self::obey_at_rest(t, command),
            (Phase::Reading, EventModel::FileRead(bytes)) => Self::open_or_wait(
                t.having_read(Some(bytes)),
            ),
            (Phase::Opening, _) => Self::listen(t),
            (Phase::Listening, EventModel::Command(command)) => {
                let obeyed = t.obeying_in_song(command);
                if ends_song(command) {
                    Self::leave(obeyed)
                } else {
                    Self::listen(obeyed)
                }
            },
            (Phase::Listening, _) => if t.paused {
                (PlayerModel { phase: Phase::Hushing, ..self }, Action::FillSilence)
            } else {
                (PlayerModel { phase: Phase::Rendering, ..self }, Action::Render)
            },
            (Phase::Hushing, _) => Self::listen(t),
            (Phase::Rendering, _) => (
                PlayerModel { phase: Phase::Counting, ..self },
                Action::CheckDue,
            ),
            (Phase::Counting, EventModel::Due(true)) => (
                PlayerModel { phase: Phase::Taking, ..self },
                Action::TakeEvent,
            ),
            (Phase::Counting, _) => Self::listen(t),
            (Phase::Taking, EventModel::Taken(false)) => Self::leave(t),
            (Phase::Taking, _) => Self::listen(t),
            _ => (PlayerModel { phase: Phase::Over, ..self }, Action::Finish),
        }
    }
}

impl Player {
    /// A player with nothing loaded, and what is to be done first.
    pub fn new() -> (r: (Self, Action))
        ensures
            r.0@ == (PlayerModel { transport: TransportModel::fresh(), phase: Phase::AtRest }),
            r.0@.wf(),
            r.1 == Action::AwaitCommand,
    {
        (Player { transport: Transport::new(), phase: Phase::AtRest }, Action::AwaitCommand)
    }

    /// The song that is loaded.
    pub fn song(&self) -> (r: Option<&Vec<u8>>)
        ensures
            r is Some <==> self@.transport.song is Some,
            r matches Some(bytes) ==> self@.transport.song == Some(bytes@),
    {
        self.transport.song.as_ref()
    }

    /// Opens the song if there is one to be played, and else waits for commands.
    fn open_or_wait(&mut self) -> (action: Action)
        ensures
            (final(self)@, action) == PlayerModel::open_or_wait(old(self)@.transport),
    {
        if self.transport.is_ready() {
            self.phase = Phase::Opening;
            Action::OpenSong
        } else {
            self.phase = Phase::AtRest;
            Action::AwaitCommand
        }
    }

    /// Obeys a command while no song plays.
    fn obey_at_rest(&mut self, command: Command) -> (action: Action)
        ensures
            (final(self)@, action) == PlayerModel::obey_at_rest(old(self)@.transport, command@),
    {
        match self.transport.obey_at_rest(command) {
            Some(path) => {
                self.phase = Phase::Reading;
                Action::ReadFile(path)
            },
            None => self.open_or_wait(),
        }
    }

    /// Leaves the song. A command that was kept comes first then.
    fn leave(&mut self) -> (action: Action)
        ensures
            (final(self)@, action) == PlayerModel::leave(old(self)@.transport),
    {
        self.transport.end_song();
        self.transport.rewind();
        if self.transport.is_ready() {
            return self.open_or_wait();
        }
        match self.transport.take_pending() {
            Some(command) => self.obey_at_rest(command),
            None => self.open_or_wait(),
        }
    }

    /// Looks for commands again.
    fn listen(&mut self) -> (action: Action)
        ensures
            (final(self)@, action) == PlayerModel::listen(old(self)@.transport),
    {
        self.phase = Phase::Listening;
        Action::PollCommand
    }

    /// Takes in what came of the last action, and says what is to be done next.
    pub fn step(&mut self, event: Event) -> (action: Action)
        requires
            old(self)@.wf(),
            answers(old(self)@.phase, event@),
        ensures
            (final(self)@, action) == old(self)@.next(event@),
            final(self)@.wf(),
    {
        match (self.phase, event) {
            (Phase::AtRest, Event::Command(command)) => self.obey_at_rest(command),
            (Phase::Reading, Event::FileRead(bytes)) => {
                self.transport.file_read(Some(bytes));
                self.open_or_wait()
            },
            (Phase::Listening, Event::Command(command)) => {
                if self.transport.obey_in_song(command) {
                    self.leave()
                } else {
                    self.listen()
                }
            },
            (Phase::Listening, _) => {
                if self.transport.paused {
                    self.phase = Phase::Hushing;
                    Action::FillSilence
                } else {
                    self.phase = Phase::Rendering;
                    Action::Render
                }
            },
            (Phase::Rendering, _) => {
                self.phase = Phase::Counting;
                Action::CheckDue
            },
            (Phase::Counting, Event::Due(true)) => {
                self.phase = Phase::Taking;
                Action::TakeEvent
            },
            (Phase::Taking, Event::Taken(false)) => self.leave(),
            (Phase::Opening, _) | (Phase::Hushing, _) | (Phase::Counting, _) | (
                Phase::Taking,
                _,
            ) => self.listen(),
            _ => {
                self.phase = Phase::Over;
                Action::Finish
            },
        }
    }
}

/// A song that is paused is silence: no frame of it is made and no event taken until play is given.
pub proof fn law_pause_is_silence(p: PlayerModel)
    requires
        p.wf(),
        p.phase == Phase::Listening,
        p.transport.paused,
    ensures
        p.next(EventModel::NoCommand).1 == Action::FillSilence,
        p.next(EventModel::NoCommand).0.next(EventModel::Filled) == (p, Action::PollCommand),
        p.next(EventModel::Command(CommandModel::Play)).0.next(EventModel::NoCommand).1
            == Action::Render,
{
}

/// While a song plays, frames are made before each look at whether its next event is due, so that the
/// wait for it runs out.
pub proof fn law_frames_before_events(p: PlayerModel, event: EventModel)
    requires
        p.wf(),
        answers(p.phase, event),
    ensures
        p.next(event).1 == Action::TakeEvent ==> p.phase == Phase::Counting,
        p.next(event).0.phase == Phase::Counting ==> p.phase == Phase::Rendering,
        p.next(event).0.phase == Phase::Rendering <==> p.next(event).1 == Action::Render,
{
}

/// A song that is through starts over at once if it loops; else it stays loaded and play starts it
/// again.
pub proof fn law_through(p: PlayerModel)
    requires
        p.wf(),
        p.phase == Phase::Taking,
    ensures
        ({
            let (after, action) = p.next(EventModel::Taken(false));
            &&& after.transport.song == p.transport.song
            &&& action == if p.transport.looping {
                Action::OpenSong
            } else {
                Action::AwaitCommand
            }
            &&& !p.transport.looping ==> after.next(EventModel::Command(CommandModel::Play)).1
                == Action::OpenSong
        }),
{
}

/// A file that is loaded in the middle of a song is read at once, and waits for play.
pub proof fn law_file_in_song(p: PlayerModel, path: PathBuf, bytes: Seq<u8>)
    requires
        p.wf(),
        p.phase == Phase::Listening,
    ensures
        ({
            let (reading, action) = p.next(EventModel::Command(CommandModel::NewFromFile(path)));
            let (waiting, then) = reading.next(EventModel::FileRead(bytes));
            &&& action == Action::ReadFile(path)
            &&& then == Action::AwaitCommand
            &&& waiting.transport.song == Some(bytes)
            &&& waiting.next(EventModel::Command(CommandModel::Play)).1 == Action::OpenSong
        }),
{
}

/// The player ends only at rest, where no command can come in any more.
pub proof fn law_ends_only_when_let_go(p: PlayerModel, event: EventModel)
    requires
        p.wf(),
        answers(p.phase, event),
    ensures
        p.next(event).1 == Action::Finish <==> p.phase == Phase::AtRest && event is Disconnected,
{
}

/// A buffer that is loaded while no song plays is the song, whatever was loaded before. It is opened at once
/// where play was given before, and else waits.
pub proof fn law_loaded_buffer_is_the_song(p: PlayerModel, bytes: Seq<u8>)
    requires
        p.wf(),
        p.phase == Phase::AtRest,
    ensures
        ({
            let (q, action) = p.next(EventModel::Command(CommandModel::NewFromBuf(bytes)));
            &&& q.transport.song == Some(bytes)
            &&& q.transport.playing == p.transport.playing
            &&& q.transport.looping == p.transport.looping
            &&& action == if p.transport.playing {
                Action::OpenSong
            } else {
                Action::AwaitCommand
            }
        }),
{
}

/// Play at rest opens the song that is loaded, and where none is, is remembered; the loop toggle toggles the
/// loop; pause and stop mean nothing there.
pub proof fn law_commands_at_rest(p: PlayerModel, command: CommandModel)
    requires
        p.wf(),
        p.phase == Phase::AtRest,
        command is Play || command is Loop || command is Pause || command is Stop,
    ensures
        ({
            let (q, action) = p.next(EventModel::Command(command));
            &&& q.transport.song == p.transport.song
            &&& command is Play ==> q.transport.playing
            &&& !(command is Play) ==> q.transport.playing == p.transport.playing
            &&& command is Loop <==> q.transport.looping != p.transport.looping
            &&& command is Pause || command is Stop ==> q == p
            &&& action == if command is Play && p.transport.song is Some {
                Action::OpenSong
            } else {
                Action::AwaitCommand
            }
        }),
{
}

/// A file that is named at rest is read and is the song, whatever was loaded before.
pub proof fn law_file_at_rest(p: PlayerModel, path: PathBuf, bytes: Seq<u8>)
    requires
        p.wf(),
        p.phase == Phase::AtRest,
    ensures
        ({
            let (reading, action) = p.next(EventModel::Command(CommandModel::NewFromFile(path)));
            let (q, next_action) = reading.next(EventModel::FileRead(bytes));
            &&& action == Action::ReadFile(path)
            &&& q.transport.song == Some(bytes)
            &&& q.transport.playing == p.transport.playing
            &&& q.transport.looping == p.transport.looping
            &&& next_action == if p.transport.playing {
                Action::OpenSong
            } else {
                Action::AwaitCommand
            }
        }),
{
}

/// In a song, pause, play and the loop toggle change that one thing, and the player looks for more commands.
pub proof fn law_commands_in_a_song(p: PlayerModel, command: CommandModel)
    requires
        p.wf(),
        p.phase == Phase::Listening,
        command is Pause || command is Play || command is Loop,
    ensures
        ({
            let (q, action) = p.next(EventModel::Command(command));
            &&& action == Action::PollCommand
            &&& q.phase == Phase::Listening
            &&& q.transport.song == p.transport.song
            &&& q.transport.playing
            &&& command is Pause ==> q.transport.paused
            &&& command is Play ==> !q.transport.paused
            &&& command is Loop ==> q.transport.paused == p.transport.paused
            &&& command is Loop <==> q.transport.looping != p.transport.looping
        }),
{
}

/// A song that is stopped stays loaded, even where it loops, and starts over at the next play.
pub proof fn law_stopped(p: PlayerModel)
    requires
        p.wf(),
        p.phase == Phase::Listening,
    ensures
        ({
            let (q, action) = p.next(EventModel::Command(CommandModel::Stop));
            let (opening, then) = q.next(EventModel::Command(CommandModel::Play));
            &&& action == Action::AwaitCommand
            &&& q.transport.song == p.transport.song
            &&& q.transport.looping == p.transport.looping
            &&& then == Action::OpenSong
            &&& opening.transport.song == p.transport.song
            &&& !opening.transport.paused
        }),
{
}

/// A buffer that is loaded in the middle of a song ends it, is the song from then on and waits for play.
pub proof fn law_buffer_in_song(p: PlayerModel, bytes: Seq<u8>)
    requires
        p.wf(),
        p.phase == Phase::Listening,
    ensures
        ({
            let (q, action) = p.next(EventModel::Command(CommandModel::NewFromBuf(bytes)));
            let (opening, then) = q.next(EventModel::Command(CommandModel::Play));
            &&& action == Action::AwaitCommand
            &&& q.transport.song == Some(bytes)
            &&& q.transport.looping == p.transport.looping
            &&& then == Action::OpenSong
            &&& opening.transport.song == Some(bytes)
            &&& !opening.transport.paused
        }),
{
}

/// A round of a song: the player looks for commands, fills in silence or makes frames, takes the next event
/// where it is due, and begins again. None of this changes which song is loaded, whether it plays, loops or
/// rests.
pub proof fn law_rounds_go_in_order(p: PlayerModel)
    requires
        p.wf(),
    ensures
        p.phase == Phase::Opening ==> p.next(EventModel::SongOpened) == (
            PlayerModel { transport: p.transport, phase: Phase::Listening },
            Action::PollCommand,
        ),
        p.phase == Phase::Listening && p.transport.paused ==> p.next(EventModel::NoCommand) == (
            PlayerModel { transport: p.transport, phase: Phase::Hushing },
            Action::FillSilence,
        ),
        p.phase == Phase::Listening && !p.transport.paused ==> p.next(EventModel::NoCommand) == (
            PlayerModel { transport: p.transport, phase: Phase::Rendering },
            Action::Render,
        ),
        p.phase == Phase::Hushing ==> p.next(EventModel::Filled) == (
            PlayerModel { transport: p.transport, phase: Phase::Listening },
            Action::PollCommand,
        ),
        p.phase == Phase::Rendering ==> p.next(EventModel::Rendered) == (
            PlayerModel { transport: p.transport, phase: Phase::Counting },
            Action::CheckDue,
        ),
        p.phase == Phase::Counting ==> p.next(EventModel::Due(true)) == (
            PlayerModel { transport: p.transport, phase: Phase::Taking },
            Action::TakeEvent,
        ),
        p.phase == Phase::Counting ==> p.next(EventModel::Due(false)) == (
            PlayerModel { transport: p.transport, phase: Phase::Listening },
            Action::PollCommand,
        ),
        p.phase == Phase::Taking ==> p.next(EventModel::Taken(true)) == (
            PlayerModel { transport: p.transport, phase: Phase::Listening },
            Action::PollCommand,
        ),
{
}

/// A player begins at rest with nothing loaded.
pub proof fn law_beginning()
    ensures
        ({
            let first = PlayerModel { transport: TransportModel::fresh(), phase: Phase::AtRest };
            &&& first.wf()
            &&& first.transport.song is None
            &&& !first.transport.playing
            &&& !first.transport.looping
        }),
{
}

/// An event says what came of an action, and a player shows its transport and its phase.
pub proof fn law_events_say_what_happened(event: Event, p: Player)
    ensures
        event matches Event::Command(command) ==> event@ == EventModel::Command(command@),
        event is NoCommand <==> event@ is NoCommand,
        event is Disconnected <==> event@ is Disconnected,
        event matches Event::FileRead(bytes) ==> event@ == EventModel::FileRead(bytes@),
        event is SongOpened <==> event@ is SongOpened,
        event is Filled <==> event@ is Filled,
        event is Rendered <==> event@ is Rendered,
        event matches Event::Due(b) ==> event@ == EventModel::Due(b),
        event matches Event::Taken(b) ==> event@ == EventModel::Taken(b),
        p@.transport == p.transport@,
        p@.phase == p.phase,
{
}

} // verus!
