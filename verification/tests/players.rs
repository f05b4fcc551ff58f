use std::path::PathBuf;

use rusty_sample_player::midi;
use rusty_sample_player::{Action, Command, Event, Player, Transport};

fn started() -> Player {
    let (mut player, action) = Player::new();
    assert!(matches!(action, Action::CheckRunning));
    assert!(matches!(player.step(Event::Running(true)), Action::AwaitCommand));
    player
}

/// A player that looks for commands in a song of three bytes.
fn in_song() -> Player {
    let mut player = started();
    let load = Command::NewFromBuf(vec![1, 2, 3]);
    assert!(matches!(player.step(Event::Command(load)), Action::AwaitCommand));
    assert!(matches!(player.step(Event::Command(Command::Play)), Action::OpenSong));
    assert!(matches!(player.step(Event::SongOpened), Action::CheckRunning));
    assert!(matches!(player.step(Event::Running(true)), Action::PollCommand));
    player
}

#[test]
fn player_that_is_not_wanted_leaves() {
    let (mut player, _) = Player::new();
    assert!(matches!(player.step(Event::Running(false)), Action::Finish));
}

#[test]
fn player_without_controller_leaves() {
    let mut player = started();
    assert!(matches!(player.step(Event::NoCommand), Action::CheckRunning));
    assert!(matches!(player.step(Event::Running(true)), Action::AwaitCommand));
    assert!(matches!(player.step(Event::Disconnected), Action::Finish));
}

#[test]
fn player_at_rest_leaves_once_it_is_not_wanted() {
    let mut player = started();
    assert!(matches!(player.step(Event::NoCommand), Action::CheckRunning));
    assert!(matches!(player.step(Event::Running(false)), Action::Finish));
}

#[test]
fn player_leaves_in_the_middle_of_a_song() {
    let mut player = in_song();
    assert!(matches!(player.step(Event::NoCommand), Action::Render));
    assert!(matches!(player.step(Event::Rendered(true)), Action::Fire));
    assert!(matches!(player.step(Event::Fired(true)), Action::CheckRunning));
    assert!(matches!(player.step(Event::Running(false)), Action::Finish));
}

#[test]
fn player_leaves_in_a_pause() {
    let mut player = in_song();
    player.step(Event::Command(Command::Pause));
    assert!(matches!(player.step(Event::NoCommand), Action::Rest));
    assert!(matches!(player.step(Event::Slept), Action::CheckRunning));
    assert!(matches!(player.step(Event::Running(false)), Action::Finish));
}

#[test]
fn song_and_play_open_in_either_order() {
    let mut player = started();
    assert!(player.song().is_none());
    assert!(matches!(player.step(Event::Command(Command::Play)), Action::AwaitCommand));
    let load = Command::NewFromBuf(vec![1]);
    assert!(matches!(player.step(Event::Command(load)), Action::OpenSong));
    assert_eq!(player.song(), Some(&vec![1]));
}

#[test]
fn files_are_read_before_they_are_opened() {
    let mut player = started();
    let load = Command::NewFromFile(PathBuf::from("one.mid"));
    assert!(matches!(
        player.step(Event::Command(load)),
        Action::ReadFile(path) if path == PathBuf::from("one.mid")
    ));
    assert!(matches!(player.step(Event::FileRead(Some(vec![7]))), Action::AwaitCommand));
    assert_eq!(player.song(), Some(&vec![7]));
    assert!(matches!(player.step(Event::Command(Command::Play)), Action::OpenSong));
}

#[test]
fn unreadable_file_counts_as_empty() {
    let mut player = started();
    player.step(Event::Command(Command::NewFromFile(PathBuf::from("gone.mid"))));
    assert!(matches!(player.step(Event::FileRead(None)), Action::AwaitCommand));
    assert_eq!(player.song(), Some(&Vec::new()));
}

#[test]
fn song_is_rendered_and_fired() {
    let mut player = in_song();
    assert!(matches!(player.step(Event::NoCommand), Action::Render));
    assert!(matches!(player.step(Event::Rendered(false)), Action::Throttle));
    assert!(matches!(player.step(Event::Slept), Action::CheckRunning));
    assert!(matches!(player.step(Event::Running(true)), Action::PollCommand));
    assert!(matches!(player.step(Event::NoCommand), Action::Render));
    assert!(matches!(player.step(Event::Rendered(true)), Action::Fire));
    assert!(matches!(player.step(Event::Fired(true)), Action::CheckRunning));
    assert!(matches!(player.step(Event::Running(true)), Action::PollCommand));
}

#[test]
fn paused_song_rests_until_play() {
    let mut player = in_song();
    assert!(matches!(player.step(Event::Command(Command::Pause)), Action::PollCommand));
    for _ in 0..3 {
        assert!(matches!(player.step(Event::NoCommand), Action::Rest));
        assert!(matches!(player.step(Event::Slept), Action::CheckRunning));
        assert!(matches!(player.step(Event::Running(true)), Action::PollCommand));
    }
    assert!(matches!(player.step(Event::Command(Command::Play)), Action::PollCommand));
    assert!(matches!(player.step(Event::NoCommand), Action::Render));
    assert_eq!(player.song(), Some(&vec![1, 2, 3]));
}

fn run_out(player: &mut Player) {
    assert!(matches!(player.step(Event::NoCommand), Action::Render));
    assert!(matches!(player.step(Event::Rendered(true)), Action::Fire));
    assert!(matches!(player.step(Event::Fired(false)), Action::CheckRunning));
}

#[test]
fn song_that_is_through_waits_for_play() {
    let mut player = in_song();
    run_out(&mut player);
    assert!(matches!(player.step(Event::Running(true)), Action::AwaitCommand));
    assert_eq!(player.song(), Some(&vec![1, 2, 3]));
    assert!(matches!(player.step(Event::Command(Command::Play)), Action::OpenSong));
}

#[test]
fn looping_song_starts_over() {
    let mut player = in_song();
    assert!(matches!(player.step(Event::Command(Command::Loop)), Action::PollCommand));
    run_out(&mut player);
    assert!(matches!(player.step(Event::Running(true)), Action::OpenSong));
    assert!(matches!(player.step(Event::SongOpened), Action::CheckRunning));
    assert!(matches!(player.step(Event::Running(true)), Action::PollCommand));
    run_out(&mut player);
    assert!(matches!(player.step(Event::Running(false)), Action::Finish));
}

#[test]
fn loop_toggled_twice_is_off() {
    let mut player = in_song();
    player.step(Event::Command(Command::Loop));
    player.step(Event::Command(Command::Loop));
    run_out(&mut player);
    assert!(matches!(player.step(Event::Running(true)), Action::AwaitCommand));
}

#[test]
fn stopped_song_stays_loaded() {
    let mut player = in_song();
    player.step(Event::Command(Command::Loop));
    assert!(matches!(player.step(Event::Command(Command::Stop)), Action::CheckRunning));
    assert!(matches!(player.step(Event::Running(true)), Action::AwaitCommand));
    assert_eq!(player.song(), Some(&vec![1, 2, 3]));
    assert!(matches!(player.step(Event::Command(Command::Play)), Action::OpenSong));
}

#[test]
fn new_song_ends_the_old_one_and_waits() {
    let mut player = in_song();
    player.step(Event::Command(Command::Loop));
    let load = Command::NewFromBuf(vec![9]);
    assert!(matches!(player.step(Event::Command(load)), Action::CheckRunning));
    assert!(player.song().is_none());
    assert!(matches!(player.step(Event::Running(true)), Action::AwaitCommand));
    assert_eq!(player.song(), Some(&vec![9]));
    assert!(matches!(player.step(Event::Command(Command::Play)), Action::OpenSong));
}

#[test]
fn new_file_in_a_song_is_read_first() {
    let mut player = in_song();
    let load = Command::NewFromFile(PathBuf::from("two.mid"));
    assert!(matches!(player.step(Event::Command(load)), Action::CheckRunning));
    assert!(matches!(
        player.step(Event::Running(true)),
        Action::ReadFile(path) if path == PathBuf::from("two.mid")
    ));
    assert!(matches!(player.step(Event::FileRead(Some(vec![4]))), Action::AwaitCommand));
    assert!(matches!(player.step(Event::Command(Command::Play)), Action::OpenSong));
    assert_eq!(player.song(), Some(&vec![4]));
}

#[test]
fn pause_and_stop_mean_nothing_at_rest() {
    let mut player = started();
    assert!(matches!(player.step(Event::Command(Command::Pause)), Action::AwaitCommand));
    assert!(matches!(player.step(Event::Command(Command::Stop)), Action::AwaitCommand));
    player.step(Event::Command(Command::NewFromBuf(vec![1])));
    assert!(matches!(player.step(Event::Command(Command::Play)), Action::OpenSong));
    player.step(Event::SongOpened);
    player.step(Event::Running(true));
    assert!(matches!(player.step(Event::NoCommand), Action::Render));
}

#[test]
fn transport_obeys() {
    let mut transport = Transport::new();
    assert!(!transport.is_ready());
    assert_eq!(transport.obey_at_rest(Command::NewFromBuf(vec![1])), None);
    assert_eq!(transport.obey_at_rest(Command::Play), None);
    assert!(transport.is_ready());
    assert!(!transport.obey_in_song(Command::Pause));
    assert!(transport.paused);
    assert!(!transport.obey_in_song(Command::Play));
    assert!(!transport.paused);
    assert!(transport.obey_in_song(Command::NewFromBuf(vec![2])));
    assert!(transport.unload);
    transport.end_song();
    assert!(transport.song.is_none());
    transport.rewind();
    assert!(!transport.unload);
    assert!(matches!(transport.take_pending(), Some(Command::NewFromBuf(b)) if b == vec![2]));
    assert!(transport.take_pending().is_none());
    transport.file_read(None);
    assert_eq!(transport.song, Some(Vec::new()));
}

fn simple_in_song() -> midi::Player {
    let (mut player, action) = midi::Player::new();
    assert!(matches!(action, midi::Action::AwaitCommand));
    let load = Command::NewFromBuf(vec![1, 2, 3]);
    let action = player.step(midi::Event::Command(load));
    assert!(matches!(action, midi::Action::AwaitCommand));
    let action = player.step(midi::Event::Command(Command::Play));
    assert!(matches!(action, midi::Action::OpenSong));
    assert!(matches!(player.step(midi::Event::SongOpened), midi::Action::PollCommand));
    player
}

#[test]
fn simple_player_takes_events_when_due() {
    let mut player = simple_in_song();
    assert!(matches!(player.step(midi::Event::NoCommand), midi::Action::Render));
    assert!(matches!(player.step(midi::Event::Rendered), midi::Action::CheckDue));
    assert!(matches!(player.step(midi::Event::Due(false)), midi::Action::PollCommand));
    assert!(matches!(player.step(midi::Event::NoCommand), midi::Action::Render));
    assert!(matches!(player.step(midi::Event::Rendered), midi::Action::CheckDue));
    assert!(matches!(player.step(midi::Event::Due(true)), midi::Action::TakeEvent));
    assert!(matches!(player.step(midi::Event::Taken(true)), midi::Action::PollCommand));
    player.step(midi::Event::NoCommand);
    player.step(midi::Event::Rendered);
    player.step(midi::Event::Due(true));
    assert!(matches!(player.step(midi::Event::Taken(false)), midi::Action::AwaitCommand));
    assert_eq!(player.song(), Some(&vec![1, 2, 3]));
    assert!(matches!(player.step(midi::Event::Disconnected), midi::Action::Finish));
}

#[test]
fn simple_player_is_silent_in_a_pause() {
    let mut player = simple_in_song();
    player.step(midi::Event::Command(Command::Pause));
    assert!(matches!(player.step(midi::Event::NoCommand), midi::Action::FillSilence));
    assert!(matches!(player.step(midi::Event::Filled), midi::Action::PollCommand));
    player.step(midi::Event::Command(Command::Play));
    assert!(matches!(player.step(midi::Event::NoCommand), midi::Action::Render));
    assert!(matches!(player.step(midi::Event::Rendered), midi::Action::CheckDue));
}

#[test]
fn simple_player_loops_at_once() {
    let mut player = simple_in_song();
    player.step(midi::Event::Command(Command::Loop));
    player.step(midi::Event::NoCommand);
    player.step(midi::Event::Rendered);
    player.step(midi::Event::Due(true));
    assert!(matches!(player.step(midi::Event::Taken(false)), midi::Action::OpenSong));
}

#[test]
fn simple_player_reads_a_new_file_at_once() {
    let mut player = simple_in_song();
    let load = Command::NewFromFile(PathBuf::from("two.mid"));
    assert!(matches!(
        player.step(midi::Event::Command(load)),
        midi::Action::ReadFile(path) if path == PathBuf::from("two.mid")
    ));
    assert!(matches!(player.step(midi::Event::FileRead(vec![4])), midi::Action::AwaitCommand));
    assert_eq!(player.song(), Some(&vec![4]));
    let action = player.step(midi::Event::Command(Command::Play));
    assert!(matches!(action, midi::Action::OpenSong));
}
