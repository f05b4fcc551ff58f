//! The player as a machine: it says what is to be done next, and is told what came of it.
use std::path::PathBuf;

use vstd::prelude::*;

use crate::command::{Command, CommandModel};
use crate::transport::{ends_song, Transport, TransportModel};

verus! {

/// What the player waits for.
#[derive(Clone, Copy, Debug, PartialEq, Eq, Structural)]
pub enum Phase {
    /// No song plays, and a song or a wait for commands may begin.
    BetweenSongs,
    /// No song plays.
    AtRest,
    /// A file is being read.
    Reading,
    /// A song is being opened.
    Opening,
    /// In a song, a new round begins.
    Checking,
    /// In a song, commands are looked for.
    Listening,
    /// In a song, which rests.
    Resting,
    /// In a song, frames are being generated.
    Rendering,
    /// In a song, an event happens.
    Firing,
    /// In a song, the output has frames enough.
    Throttling,
    /// The player is done.
    Over,
}

/// What is to be done next.
#[derive(Debug)]
pub enum Action {
    /// See whether the player is still wanted.
    CheckRunning,
    /// Wait a second at most for a command.
    AwaitCommand,
    /// Read a file.
    ReadFile(PathBuf),
    /// Open the song that is loaded, and reset the synthesizer.
    OpenSong,
    /// See whether a command is there.
    PollCommand,
    /// Sleep a moment.
    Rest,
    /// Generate frames.
    Render,
    /// Let the due event happen.
    Fire,
    /// Sleep until the output is half empty.
    Throttle,
    /// Leave.
    Finish,
}

/// What came of it.
#[derive(Debug)]
pub enum Event {
    /// Whether the player is still wanted.
    Running(bool),
    /// A command came in.
    Command(Command),
    /// No command came in.
    NoCommand,
    /// No command will ever come in again.
    Disconnected,
    /// The bytes of the file, or nothing where it could not be read.
    FileRead(Option<Vec<u8>>),
    /// The song is open.
    SongOpened,
    /// The player slept.
    Slept,
    /// Frames were generated; now the next event is due, or is not.
    Rendered(bool),
    /// The event happened; another one follows, or the song is through.
    Fired(bool),
}

/// What an event says.
pub enum EventModel {
    Running(bool),
    Command(CommandModel),
    NoCommand,
    Disconnected,
    FileRead(Option<Seq<u8>>),
    SongOpened,
    Slept,
    Rendered(bool),
    Fired(bool),
}

impl View for Event {
    type V = EventModel;

    open spec fn view(&self) -> EventModel {
        match *self {
            Event::Running(b) => EventModel::Running(b),
            Event::Command(command) => EventModel::Command(command@),
            Event::NoCommand => EventModel::NoCommand,
            Event::Disconnected => EventModel::Disconnected,
            Event::FileRead(Some(bytes)) => EventModel::FileRead(Some(bytes@)),
            Event::FileRead(None) => EventModel::FileRead(None),
            Event::SongOpened => EventModel::SongOpened,
            Event::Slept => EventModel::Slept,
            Event::Rendered(b) => EventModel::Rendered(b),
            Event::Fired(b) => EventModel::Fired(b),
        }
    }
}

/// The events that answer what is done in a phase.
pub open spec fn answers(phase: Phase, event: EventModel) -> bool {
    match phase {
        Phase::BetweenSongs => event is Running,
        Phase::AtRest => event is Command || event is NoCommand || event is Disconnected,
        Phase::Reading => event is FileRead,
        Phase::Opening => event is SongOpened,
        Phase::Checking => event is Running,
        Phase::Listening => event is Command || event is NoCommand,
        Phase::Resting => event is Slept,
        Phase::Rendering => event is Rendered,
        Phase::Firing => event is Fired,
        Phase::Throttling => event is Slept,
        Phase::Over => false,
    }
}

/// A player.
#[derive(Debug)]
pub struct Player {
    pub transport: Transport,
    pub phase: Phase,
}

/// What a player stands for.
pub struct PlayerModel {
    pub transport: TransportModel,
    pub phase: Phase,
}

impl View for Player {
    type V = PlayerModel;

    open spec fn view(&self) -> PlayerModel {
        PlayerModel { transport: self.transport@, phase: self.phase }
    }
}

impl PlayerModel {
    /// A command is kept for later, and a song gives way to another, only on the way from one song to
    /// the next. A kept command leaves nothing that is to be played. At rest nothing is to be played
    /// either, and in a song, there is one that is. A song rests only once it has started.
    pub open spec fn wf(self) -> bool {
        let t = self.transport;
        &&& t.wf()
        &&& match self.phase {
            Phase::BetweenSongs => t.pending is Some ==> !t.ready(),
            Phase::AtRest | Phase::Reading => {
                &&& t.pending is None
                &&& !t.unload
                &&& !t.paused
                &&& !t.ready()
            },
            Phase::Opening => t.pending is None && !t.unload && !t.paused && t.ready(),
            Phase::Checking | Phase::Listening | Phase::Resting | Phase::Rendering | Phase::Firing
            | Phase::Throttling => t.pending is None && !t.unload && t.ready(),
            Phase::Over => true,
        }
    }

    /// Opens the song if there is one to be played, and else waits for commands.
    pub open spec fn open_or_wait(t: TransportModel) -> (PlayerModel, Action) {
        if t.ready() {
            (PlayerModel { transport: t, phase: Phase::Opening }, Action::OpenSong)
        } else {
            (PlayerModel { transport: t, phase: Phase::AtRest }, Action::AwaitCommand)
        }
    }

    /// Obeys a command while no song plays.
    pub open spec fn obey_at_rest(t: TransportModel, command: CommandModel) -> (
        PlayerModel,
        Action,
    ) {
        match command {
            CommandModel::NewFromFile(path) => (
                PlayerModel { transport: t, phase: Phase::Reading },
                Action::ReadFile(path),
            ),
            _ => Self::open_or_wait(t.obeying_at_rest(command)),
        }
    }

    /// Goes on after a song: a command that was kept comes first.
    pub open spec fn settle(t: TransportModel) -> (PlayerModel, Action) {
        match t.pending {
            Some(command) if !t.ready() => Self::obey_at_rest(
                TransportModel { pending: None, ..t },
                command,
            ),
            _ => Self::open_or_wait(t),
        }
    }

    /// Leaves the song.
    pub open spec fn leave(t: TransportModel) -> (PlayerModel, Action) {
        (PlayerModel { transport: t.ended(), phase: Phase::BetweenSongs }, Action::CheckRunning)
    }

    /// Begins a new round of the song: first of all, the player may not be wanted any more.
    pub open spec fn go_round(t: TransportModel) -> (PlayerModel, Action) {
        (PlayerModel { transport: t, phase: Phase::Checking }, Action::CheckRunning)
    }

    /// Looks for commands.
    pub open spec fn listen(t: TransportModel) -> (PlayerModel, Action) {
        (PlayerModel { transport: t, phase: Phase::Listening }, Action::PollCommand)
    }

    /// The player after an event, and what is to be done next.
    pub open spec fn next(self, event: EventModel) -> (PlayerModel, Action) {
        let t = self.transport;
        let over = (PlayerModel { phase: Phase::Over, ..self }, Action::Finish);
        match (self.phase, event) {
            (Phase::BetweenSongs, EventModel::Running(true)) => Self::settle(t.rewound()),
            (Phase::BetweenSongs, _) => over,
            (Phase::AtRest, EventModel::Command(command)) => Self::obey_at_rest(t, command),
            (Phase::AtRest, EventModel::NoCommand) => (
                PlayerModel { phase: Phase::BetweenSongs, ..self },
                Action::CheckRunning,
            ),
            (Phase::AtRest, _) => over,
            (Phase::Reading, EventModel::FileRead(bytes)) => Self::open_or_wait(
                t.having_read(bytes),
            ),
            (Phase::Opening, _) => Self::go_round(t),
            (Phase::Checking, EventModel::Running(true)) => Self::listen(t),
            (Phase::Checking, _) => over,
            (Phase::Listening, EventModel::Command(command)) => {
                let obeyed = t.obeying_in_song(command);
                if ends_song(command) {
                    Self::leave(obeyed)
                } else {
                    Self::listen(obeyed)
                }
            },
            (Phase::Listening, _) => if t.paused {
                (PlayerModel { phase: Phase::Resting, ..self }, Action::Rest)
            } else {
                (PlayerModel { phase: Phase::Rendering, ..self }, Action::Render)
            },
            (Phase::Rendering, EventModel::Rendered(due)) => if due {
                (PlayerModel { phase: Phase::Firing, ..self }, Action::Fire)
            } else {
                (PlayerModel { phase: Phase::Throttling, ..self }, Action::Throttle)
            },
            (Phase::Firing, EventModel::Fired(false)) => Self::leave(t),
            (Phase::Firing, _) => Self::go_round(t),
            (Phase::Resting, _) => Self::go_round(t),
            (Phase::Throttling, _) => Self::go_round(t),
            _ => over,
        }
    }
}

impl Player {
    /// A player with nothing loaded, and what is to be done first.
    pub fn new() -> (r: (Self, Action))
        ensures
            r.0@ == (PlayerModel {
                transport: TransportModel::fresh(),
                phase: Phase::BetweenSongs,
            }),
            r.0@.wf(),
            r.1 == Action::CheckRunning,
    {
        (Player { transport: Transport::new(), phase: Phase::BetweenSongs }, Action::CheckRunning)
    }

    /// The song that is loaded.
    pub fn song(&self) -> (r: Option<&Vec<u8>>)
        ensures
            r is Some <==> self@.transport.song is Some,
            r matches Some(bytes) ==> self@.transport.song == Some(bytes@),
    {
        self.transport.song.as_ref()
    }

    /// Opens the song if there is one to be played, and else waits for commands.
    fn open_or_wait(&mut self) -> (action: Action)
        ensures
            (final(self)@, action) == PlayerModel::open_or_wait(old(self)@.transport),
    {
        if self.transport.is_ready() {
            self.phase = Phase::Opening;
            Action::OpenSong
        } else {
            self.phase = Phase::AtRest;
            Action::AwaitCommand
        }
    }

    /// Obeys a command while no song plays.
    fn obey_at_rest(&mut self, command: Command) -> (action: Action)
        ensures
            (final(self)@, action) == PlayerModel::obey_at_rest(old(self)@.transport, command@),
    {
        match self.transport.obey_at_rest(command) {
            Some(path) => {
                self.phase = Phase::Reading;
                Action::ReadFile(path)
            },
            None => self.open_or_wait(),
        }
    }

    /// Goes on after a song: a command that was kept comes first.
    fn settle(&mut self) -> (action: Action)
        ensures
            (final(self)@, action) == PlayerModel::settle(old(self)@.transport),
    {
        if self.transport.is_ready() {
            return self.open_or_wait();
        }
        match self.transport.take_pending() {
            Some(command) => self.obey_at_rest(command),
            None => self.open_or_wait(),
        }
    }

    /// Leaves the song.
    fn leave(&mut self) -> (action: Action)
        ensures
            (final(self)@, action) == PlayerModel::leave(old(self)@.transport),
    {
        self.transport.end_song();
        self.phase = Phase::BetweenSongs;
        Action::CheckRunning
    }

    /// Begins a new round of the song.
    fn go_round(&mut self) -> (action: Action)
        ensures
            (final(self)@, action) == PlayerModel::go_round(old(self)@.transport),
    {
        self.phase = Phase::Checking;
        Action::CheckRunning
    }

    /// Looks for commands.
    fn listen(&mut self) -> (action: Action)
        ensures
            (final(self)@, action) == PlayerModel::listen(old(self)@.transport),
    {
        self.phase = Phase::Listening;
        Action::PollCommand
    }

    /// Leaves for good.
    fn finish(&mut self) -> (action: Action)
        ensures
            (final(self)@, action) == (
                PlayerModel { phase: Phase::Over, ..old(self)@ },
                Action::Finish,
            ),
    {
        self.phase = Phase::Over;
        Action::Finish
    }

    /// Takes in what came of the last action, and says what is to be done next.
    pub fn step(&mut self, event: Event) -> (action: Action)
        requires
            old(self)@.wf(),
            answers(old(self)@.phase, event@),
        ensures
            (final(self)@, action) == old(self)@.next(event@),
            final(self)@.wf(),
    {
        match (self.phase, event) {
            (Phase::BetweenSongs, Event::Running(true)) => {
                self.transport.rewind();
                self.settle()
            },
            (Phase::AtRest, Event::Command(command)) => self.obey_at_rest(command),
            (Phase::AtRest, Event::NoCommand) => {
                self.phase = Phase::BetweenSongs;
                Action::CheckRunning
            },
            (Phase::Checking, Event::Running(true)) => self.listen(),
            (Phase::Reading, Event::FileRead(bytes)) => {
                self.transport.file_read(bytes);
                self.open_or_wait()
            },
            (Phase::Listening, Event::Command(command)) => {
                if self.transport.obey_in_song(command) {
                    self.leave()
                } else {
                    self.listen()
                }
            },
            (Phase::Listening, _) => {
                if self.transport.paused {
                    self.phase = Phase::Resting;
                    Action::Rest
                } else {
                    self.phase = Phase::Rendering;
                    Action::Render
                }
            },
            (Phase::Rendering, Event::Rendered(due)) => {
                if due {
                    self.phase = Phase::Firing;
                    Action::Fire
                } else {
                    self.phase = Phase::Throttling;
                    Action::Throttle
                }
            },
            (Phase::Firing, Event::Fired(false)) => self.leave(),
            (Phase::Opening, _) | (Phase::Firing, _) | (Phase::Resting, _) | (
                Phase::Throttling,
                _,
            ) => self.go_round(),
            _ => self.finish(),
        }
    }
}

/// The player opens a song only where one is loaded and is to be played, and starts it unpaused.
pub proof fn law_opens_only_what_plays(p: PlayerModel, event: EventModel)
    requires
        p.wf(),
        answers(p.phase, event),
        p.next(event).1 == Action::OpenSong,
    ensures
        p.next(event).0.transport.ready(),
        !p.next(event).0.transport.paused,
        p.next(event).0.phase == Phase::Opening,
{
}

/// A song that is paused makes no frames and no event of it happens until play is given: with no
/// command it rests and, where the player is still wanted, listens again.
pub proof fn law_pause_holds_the_song(p: PlayerModel)
    requires
        p.wf(),
        p.phase == Phase::Listening,
        p.transport.paused,
    ensures
        p.next(EventModel::NoCommand).1 == Action::Rest,
        p.next(EventModel::NoCommand).0.next(EventModel::Slept).1 == Action::CheckRunning,
        p.next(EventModel::NoCommand).0.next(EventModel::Slept).0.next(EventModel::Running(true)) == (
            p,
            Action::PollCommand,
        ),
        p.next(EventModel::Command(CommandModel::Play)).0.next(EventModel::NoCommand).1
            == Action::Render,
{
}

/// Pause, play and the loop toggle neither end the song nor change which one is loaded.
pub proof fn law_song_goes_on(p: PlayerModel, command: CommandModel)
    requires
        p.wf(),
        p.phase == Phase::Listening,
        !ends_song(command),
    ensures
        p.next(EventModel::Command(command)).0.phase == Phase::Listening,
        p.next(EventModel::Command(command)).0.transport.song == p.transport.song,
{
}

/// A song that is through starts over if it loops; else it stays loaded, and play starts it again.
pub proof fn law_through(p: PlayerModel)
    requires
        p.wf(),
        p.phase == Phase::Firing,
    ensures
        ({
            let (ended, _) = p.next(EventModel::Fired(false));
            let (settled, action) = ended.next(EventModel::Running(true));
            &&& settled.transport.song == p.transport.song
            &&& action == if p.transport.looping {
                Action::OpenSong
            } else {
                Action::AwaitCommand
            }
            &&& !p.transport.looping ==> settled.next(
                EventModel::Command(CommandModel::Play),
            ).1 == Action::OpenSong
        }),
{
}

/// A song that is stopped starts over at the next play and not before.
pub proof fn law_stopped(p: PlayerModel)
    requires
        p.wf(),
        p.phase == Phase::Listening,
    ensures
        ({
            let (ended, _) = p.next(EventModel::Command(CommandModel::Stop));
            let (settled, action) = ended.next(EventModel::Running(true));
            &&& action == Action::AwaitCommand
            &&& settled.transport.song == p.transport.song
            &&& settled.next(EventModel::Command(CommandModel::Play)).1 == Action::OpenSong
        }),
{
}

/// A file that is loaded in the middle of a song ends the song, is read before any other command is
/// taken, and waits for play.
pub proof fn law_file_in_song(p: PlayerModel, path: PathBuf, bytes: Option<Seq<u8>>)
    requires
        p.wf(),
        p.phase == Phase::Listening,
    ensures
        ({
            let (ended, _) = p.next(EventModel::Command(CommandModel::NewFromFile(path)));
            let (reading, action) = ended.next(EventModel::Running(true));
            let (waiting, then) = reading.next(EventModel::FileRead(bytes));
            &&& action == Action::ReadFile(path)
            &&& then == Action::AwaitCommand
            &&& waiting.transport == (TransportModel { playing: false, ..p.transport }).rewound().having_read(bytes)
            &&& waiting.next(EventModel::Command(CommandModel::Play)).1 == Action::OpenSong
        }),
{
}

/// Pause and stop mean nothing while no song plays.
pub proof fn law_idle_commands_ignored(p: PlayerModel, command: CommandModel)
    requires
        p.wf(),
        p.phase == Phase::AtRest,
        command is Pause || command is Stop,
    ensures
        p.next(EventModel::Command(command)) == (p, Action::AwaitCommand),
{
}

/// The player ends where it finds that it is no longer wanted, or where at rest no command can come in
/// any more, and nowhere else.
pub proof fn law_ends_only_when_let_go(p: PlayerModel, event: EventModel)
    requires
        p.wf(),
        answers(p.phase, event),
    ensures
        p.next(event).1 == Action::Finish <==> {
            ||| event == EventModel::Running(false)
            ||| p.phase == Phase::AtRest && event is Disconnected
        },
        p.next(event).0.phase == Phase::Over <==> p.next(event).1 == Action::Finish,
{
}

/// The player after some events.
pub open spec fn after(p: PlayerModel, events: Seq<EventModel>) -> PlayerModel
    decreases events.len(),
{
    if events.len() == 0 {
        p
    } else {
        after(p, events.drop_last()).next(events.last()).0
    }
}

/// What is to be done after some events, at least one.
pub open spec fn action_after(p: PlayerModel, events: Seq<EventModel>) -> Action {
    after(p, events.drop_last()).next(events.last()).1
}

/// Each event answers what was done before it.
pub open spec fn is_run(p: PlayerModel, events: Seq<EventModel>) -> bool {
    forall|i: int|
        0 <= i < events.len() ==> answers(after(p, events.take(i)).phase, #[trigger] events[i])
}

/// The player is not wanted any more: wherever it asks, that is the answer.
pub open spec fn let_go(events: Seq<EventModel>) -> bool {
    forall|i: int| 0 <= i < events.len() ==> #[trigger] events[i] != EventModel::Running(true)
}

/// In the middle of a round of the song: the player was wanted when the round began.
pub open spec fn in_round(phase: Phase) -> bool {
    phase == Phase::Listening || phase == Phase::Rendering
}

/// All but the last event of a run are a run.
proof fn lemma_shorter_run(p: PlayerModel, events: Seq<EventModel>)
    requires
        events.len() > 0,
        is_run(p, events),
    ensures
        is_run(p, events.drop_last()),
        answers(after(p, events.drop_last()).phase, events.last()),
{
    let shorter = events.drop_last();
    assert forall|i: int| 0 <= i < shorter.len() implies answers(
        after(p, shorter.take(i)).phase,
        #[trigger] shorter[i],
    ) by {
        assert(shorter[i] == events[i]);
        assert(shorter.take(i) =~= events.take(i));
    }
    assert(events[events.len() - 1] == events.last());
    assert(events.take(events.len() - 1) =~= shorter);
}

/// Every event keeps the player well-formed.
pub proof fn law_stays_well_formed(p: PlayerModel, events: Seq<EventModel>)
    requires
        p.wf(),
        is_run(p, events),
    ensures
        after(p, events).wf(),
    decreases events.len(),
{
    if events.len() > 0 {
        lemma_shorter_run(p, events);
        law_stays_well_formed(p, events.drop_last());
    }
}

/// Once the player is not wanted any more, no frame is made and no event happens before it ends, but for
/// a round of the song that is under way.
pub proof fn law_let_go_is_silent(p: PlayerModel, events: Seq<EventModel>)
    requires
        p.wf(),
        !in_round(p.phase),
        events.len() > 0,
        is_run(p, events),
        let_go(events),
    ensures
        action_after(p, events) != Action::Render,
        action_after(p, events) != Action::Fire,
        !in_round(after(p, events).phase),
    decreases events.len(),
{
    let shorter = events.drop_last();
    lemma_shorter_run(p, events);
    law_stays_well_formed(p, shorter);
    assert forall|i: int| 0 <= i < shorter.len() implies #[trigger] shorter[i]
        != EventModel::Running(true) by {
        assert(shorter[i] == events[i]);
    }
    if shorter.len() > 0 {
        law_let_go_is_silent(p, shorter);
    }
    assert(events[events.len() - 1] == events.last());
}

/// A round of the song makes frames once at most and lets one event happen at most; whatever it does, the
/// player asks whether it is still wanted before it does so again.
pub proof fn law_rounds_are_short(p: PlayerModel, due: bool, more: bool)
    requires
        p.wf(),
        p.phase == Phase::Rendering,
    ensures
        ({
            let (acting, action) = p.next(EventModel::Rendered(due));
            if due {
                &&& action == Action::Fire
                &&& acting.next(EventModel::Fired(more)).1 == Action::CheckRunning
            } else {
                &&& action == Action::Throttle
                &&& acting.next(EventModel::Slept).1 == Action::CheckRunning
            }
        }),
{
}

/// How many steps at most it takes a player to end that is not wanted any more and gets no command.
pub open spec fn steps_left(phase: Phase) -> nat {
    match phase {
        Phase::Over => 0,
        Phase::BetweenSongs | Phase::Checking => 1,
        Phase::AtRest | Phase::Opening | Phase::Resting | Phase::Firing | Phase::Throttling => 2,
        Phase::Reading | Phase::Rendering => 3,
        Phase::Listening => 4,
    }
}

/// Once the player is not wanted any more and no command comes in, it ends within four steps, whatever it
/// was doing.
pub proof fn law_let_go_ends_soon(p: PlayerModel, events: Seq<EventModel>)
    requires
        p.wf(),
        is_run(p, events),
        let_go(events),
        forall|i: int| 0 <= i < events.len() ==> !((#[trigger] events[i]) is Command),
    ensures
        events.len() + steps_left(after(p, events).phase) <= steps_left(p.phase) <= 4,
        events.len() == steps_left(p.phase) ==> after(p, events).phase == Phase::Over,
    decreases events.len(),
{
    if events.len() > 0 {
        let shorter = events.drop_last();
        lemma_shorter_run(p, events);
        law_stays_well_formed(p, shorter);
        assert forall|i: int| 0 <= i < shorter.len() implies #[trigger] shorter[i]
            != EventModel::Running(true) && !(shorter[i] is Command) by {
            assert(shorter[i] == events[i]);
        }
        law_let_go_ends_soon(p, shorter);
        assert(events[events.len() - 1] == events.last());
    }
}

/// A buffer that is loaded while no song plays is the song, whatever was loaded before. It is opened at once
/// where play was given before, and else waits.
pub proof fn law_loaded_buffer_is_the_song(p: PlayerModel, bytes: Seq<u8>)
    requires
        p.wf(),
        p.phase == Phase::AtRest,
    ensures
        ({
            let (q, action) = p.next(EventModel::Command(CommandModel::NewFromBuf(bytes)));
            &&& q.transport.song == Some(bytes)
            &&& q.transport.playing == p.transport.playing
            &&& q.transport.looping == p.transport.looping
            &&& action == if p.transport.playing {
                Action::OpenSong
            } else {
                Action::AwaitCommand
            }
        }),
{
}

/// The song that was loaded last is the one that play starts: whatever was loaded before and however it was
/// stopped, play opens exactly the bytes that were loaded.
pub proof fn law_play_starts_the_last_song(p: PlayerModel, bytes: Seq<u8>)
    requires
        p.wf(),
        p.phase == Phase::AtRest,
        !p.transport.playing,
    ensures
        ({
            let loaded = p.next(EventModel::Command(CommandModel::NewFromBuf(bytes))).0;
            let (playing, action) = loaded.next(EventModel::Command(CommandModel::Play));
            &&& loaded.phase == Phase::AtRest
            &&& action == Action::OpenSong
            &&& playing.transport.song == Some(bytes)
            &&& playing.transport.looping == p.transport.looping
        }),
{
}

/// Play at rest opens the song that is loaded, and where none is, is remembered.
pub proof fn law_play_at_rest(p: PlayerModel)
    requires
        p.wf(),
        p.phase == Phase::AtRest,
    ensures
        ({
            let (q, action) = p.next(EventModel::Command(CommandModel::Play));
            &&& q.transport.playing
            &&& q.transport.song == p.transport.song
            &&& q.transport.looping == p.transport.looping
            &&& action == if p.transport.song is Some {
                Action::OpenSong
            } else {
                Action::AwaitCommand
            }
        }),
{
}

/// The loop toggle at rest toggles the loop and starts nothing.
pub proof fn law_loop_at_rest(p: PlayerModel)
    requires
        p.wf(),
        p.phase == Phase::AtRest,
    ensures
        ({
            let (q, action) = p.next(EventModel::Command(CommandModel::Loop));
            &&& action == Action::AwaitCommand
            &&& q.phase == Phase::AtRest
            &&& q.transport.looping != p.transport.looping
            &&& q.transport.playing == p.transport.playing
            &&& q.transport.song == p.transport.song
        }),
{
}

/// A file that is named at rest is read, and what was read is the song, whatever was loaded before: the bytes
/// of the file, or none. It is opened at once where play was given before, and else waits.
pub proof fn law_file_at_rest(p: PlayerModel, path: PathBuf, read: Option<Seq<u8>>)
    requires
        p.wf(),
        p.phase == Phase::AtRest,
    ensures
        ({
            let (reading, action) = p.next(EventModel::Command(CommandModel::NewFromFile(path)));
            let (q, next_action) = reading.next(EventModel::FileRead(read));
            &&& action == Action::ReadFile(path)
            &&& reading.transport == p.transport
            &&& q.transport.song is Some
            &&& read matches Some(bytes) ==> q.transport.song == Some(bytes)
            &&& read is None ==> q.transport.song->0.len() == 0
            &&& q.transport.playing == p.transport.playing
            &&& q.transport.looping == p.transport.looping
            &&& next_action == if p.transport.playing {
                Action::OpenSong
            } else {
                Action::AwaitCommand
            }
        }),
{
}

/// A round of a song: the player asks whether it is wanted, then for commands, then rests or makes frames,
/// then lets an event happen where one is due and else waits for the output, and then asks again. None of
/// this changes which song is loaded, whether it plays, loops or rests.
pub proof fn law_rounds_go_in_order(p: PlayerModel)
    requires
        p.wf(),
    ensures
        p.phase == Phase::Opening ==> p.next(EventModel::SongOpened) == (
            PlayerModel { transport: p.transport, phase: Phase::Checking },
            Action::CheckRunning,
        ),
        p.phase == Phase::Checking ==> p.next(EventModel::Running(true)) == (
            PlayerModel { transport: p.transport, phase: Phase::Listening },
            Action::PollCommand,
        ),
        p.phase == Phase::Listening && p.transport.paused ==> p.next(EventModel::NoCommand) == (
            PlayerModel { transport: p.transport, phase: Phase::Resting },
            Action::Rest,
        ),
        p.phase == Phase::Listening && !p.transport.paused ==> p.next(EventModel::NoCommand) == (
            PlayerModel { transport: p.transport, phase: Phase::Rendering },
            Action::Render,
        ),
        p.phase == Phase::Rendering ==> p.next(EventModel::Rendered(true)) == (
            PlayerModel { transport: p.transport, phase: Phase::Firing },
            Action::Fire,
        ),
        p.phase == Phase::Rendering ==> p.next(EventModel::Rendered(false)) == (
            PlayerModel { transport: p.transport, phase: Phase::Throttling },
            Action::Throttle,
        ),
        p.phase == Phase::Firing ==> p.next(EventModel::Fired(true)) == (
            PlayerModel { transport: p.transport, phase: Phase::Checking },
            Action::CheckRunning,
        ),
        p.phase == Phase::Resting || p.phase == Phase::Throttling ==> p.next(EventModel::Slept) == (
            PlayerModel { transport: p.transport, phase: Phase::Checking },
            Action::CheckRunning,
        ),
{
}

/// In a song, pause, play and the loop toggle change that one thing, and the player looks for more commands.
pub proof fn law_commands_in_a_song(p: PlayerModel, command: CommandModel)
    requires
        p.wf(),
        p.phase == Phase::Listening,
        command is Pause || command is Play || command is Loop,
    ensures
        ({
            let (q, action) = p.next(EventModel::Command(command));
            &&& action == Action::PollCommand
            &&& q.phase == Phase::Listening
            &&& q.transport.song == p.transport.song
            &&& q.transport.playing
            &&& command is Pause ==> q.transport.paused
            &&& command is Play ==> !q.transport.paused
            &&& command is Loop ==> q.transport.paused == p.transport.paused
            &&& command is Loop <==> q.transport.looping != p.transport.looping
        }),
{
}

/// A buffer that is loaded in the middle of a song ends the song and is the song from then on; it waits for
/// play, even where the song before it looped.
pub proof fn law_buffer_in_song(p: PlayerModel, bytes: Seq<u8>)
    requires
        p.wf(),
        p.phase == Phase::Listening,
    ensures
        ({
            let (ended, action) = p.next(EventModel::Command(CommandModel::NewFromBuf(bytes)));
            let (waiting, then) = ended.next(EventModel::Running(true));
            let (opening, at_last) = waiting.next(EventModel::Command(CommandModel::Play));
            &&& action == Action::CheckRunning
            &&& then == Action::AwaitCommand
            &&& waiting.transport.song == Some(bytes)
            &&& waiting.transport.looping == p.transport.looping
            &&& !waiting.transport.playing
            &&& at_last == Action::OpenSong
            &&& opening.transport.song == Some(bytes)
            &&& !opening.transport.paused
        }),
{
}

/// With no command at rest, nothing changes but that the player asks whether it is still wanted.
pub proof fn law_waiting_changes_nothing(p: PlayerModel)
    requires
        p.wf(),
        p.phase == Phase::AtRest,
    ensures
        p.next(EventModel::NoCommand).1 == Action::CheckRunning,
        p.next(EventModel::NoCommand).0.next(EventModel::Running(true)) == (p, Action::AwaitCommand),
{
}

/// A player begins with nothing loaded, and waits for commands once it knows that it is wanted.
pub proof fn law_beginning()
    ensures
        ({
            let first = PlayerModel {
                transport: TransportModel::fresh(),
                phase: Phase::BetweenSongs,
            };
            let (q, action) = first.next(EventModel::Running(true));
            &&& first.wf()
            &&& action == Action::AwaitCommand
            &&& q.phase == Phase::AtRest
            &&& q.transport.song is None
            &&& !q.transport.playing
            &&& !q.transport.looping
        }),
{
}

/// An event says what came of an action, and a player shows its transport and its phase.
pub proof fn law_events_say_what_happened(event: Event, p: Player)
    ensures
        event matches Event::Running(b) ==> event@ == EventModel::Running(b),
        event matches Event::Command(command) ==> event@ == EventModel::Command(command@),
        event is NoCommand <==> event@ is NoCommand,
        event is Disconnected <==> event@ is Disconnected,
        event matches Event::FileRead(Some(bytes)) ==> event@ == EventModel::FileRead(Some(bytes@)),
        event matches Event::FileRead(None) ==> event@ == EventModel::FileRead(None),
        event is SongOpened <==> event@ is SongOpened,
        event is Slept <==> event@ is Slept,
        event matches Event::Rendered(b) ==> event@ == EventModel::Rendered(b),
        event matches Event::Fired(b) ==> event@ == EventModel::Fired(b),
        p@.transport == p.transport@,
        p@.phase == p.phase,
{
}

} // verus!
