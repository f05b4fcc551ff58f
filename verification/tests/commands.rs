use std::path::{Path, PathBuf};
use std::sync::mpsc::channel;

use rusty_sample_player::console::{interpret, interpret_line, Request};
use rusty_sample_player::midi;
use rusty_sample_player::{Command, MidiPlayerController, MidiPlayerControllerCommunicationError};

#[test]
fn commands_reach_the_player_in_order() {
    let (sender, receiver) = channel();
    let mut controller = MidiPlayerController::new(sender);
    controller.load_from_file(Path::new("songs/one.mid")).unwrap();
    controller.load_from_buf(&vec![1, 2, 3]).unwrap();
    controller.play().unwrap();
    controller.pause().unwrap();
    controller.stop().unwrap();
    controller.toggle_loop().unwrap();
    let got: Vec<Command> = receiver.try_iter().collect();
    assert_eq!(got.len(), 6);
    assert!(matches!(&got[0], Command::NewFromFile(p) if *p == PathBuf::from("songs/one.mid")));
    assert!(matches!(&got[1], Command::NewFromBuf(b) if *b == vec![1, 2, 3]));
    assert!(matches!(got[2], Command::Play));
    assert!(matches!(got[3], Command::Pause));
    assert!(matches!(got[4], Command::Stop));
    assert!(matches!(got[5], Command::Loop));
}

#[test]
fn commands_to_nobody_are_reported() {
    let (sender, receiver) = channel();
    let mut controller = MidiPlayerController::new(sender);
    drop(receiver);
    assert!(controller.load_from_file(Path::new("one.mid")).is_err());
    assert!(controller.load_from_buf(&Vec::new()).is_err());
    assert!(controller.play().is_err());
    assert!(controller.pause().is_err());
    assert!(controller.stop().is_err());
    assert!(controller.toggle_loop().is_err());
}

#[test]
fn send_errors_convert() {
    let (sender, receiver) = channel();
    drop(receiver);
    let e = sender.send(Command::Play).unwrap_err();
    let text = format!("{:?}", MidiPlayerControllerCommunicationError::from(e));
    assert!(text.starts_with("MidiPlayerControllerCommunicationError"));
}

#[test]
fn simple_controller_does_not_mind() {
    let (sender, receiver) = channel();
    let mut controller = midi::MidiPlayerController::new(sender);
    controller.load_from_file(Path::new("one.mid"));
    controller.load_from_buf(&vec![9]);
    controller.play();
    controller.pause();
    controller.stop();
    controller.toggle_loop();
    let got: Vec<midi::Command> = receiver.try_iter().collect();
    assert_eq!(got.len(), 6);
    assert!(matches!(&got[0], midi::Command::NewFromFile(p) if *p == PathBuf::from("one.mid")));
    assert!(matches!(&got[1], midi::Command::NewFromBuf(b) if *b == vec![9]));
    assert!(matches!(got[5], midi::Command::Loop));
    drop(receiver);
    controller.play();
}

#[test]
fn commands_are_copied() {
    let command = Command::NewFromFile(PathBuf::from("one.mid"));
    assert!(matches!(command.clone(), Command::NewFromFile(p) if p == PathBuf::from("one.mid")));
}

#[test]
fn words_are_understood() {
    assert!(matches!(interpret("stop"), Request::Stop));
    assert!(matches!(interpret("play"), Request::Play));
    assert!(matches!(interpret("pause now"), Request::Pause));
    assert!(matches!(interpret("exit"), Request::Exit));
    assert!(matches!(interpret("load"), Request::LoadNothing));
    assert!(matches!(interpret("load one.mid"), Request::Load(name) if name == "one.mid"));
    assert!(matches!(interpret("load one two"), Request::Load(name) if name == "one"));
    assert!(matches!(interpret("load  one"), Request::Load(name) if name == ""));
    assert!(matches!(interpret("Stop"), Request::Invalid(word) if word == "Stop"));
    assert!(matches!(interpret(""), Request::Invalid(word) if word == ""));
    assert!(matches!(interpret(" play"), Request::Invalid(word) if word == ""));
}

#[test]
fn white_space_around_a_line_is_ignored() {
    assert!(matches!(interpret_line("  play \n"), Request::Play));
    assert!(matches!(interpret_line("\tload one.mid\r\n"), Request::Load(name) if name == "one.mid"));
    assert!(matches!(interpret_line("load \n"), Request::LoadNothing));
    assert!(matches!(interpret_line("\u{2003}stop\u{a0}"), Request::Stop));
    assert!(matches!(interpret_line(" \n"), Request::Invalid(word) if word == ""));
    assert!(matches!(interpret_line("play\tnow"), Request::Invalid(word) if word == "play\tnow"));
}

#[test]
fn every_command_arrives_once_and_in_order() {
    let (sender, receiver) = channel();
    let mut controller = MidiPlayerController::new(sender);
    for _ in 0..3 {
        controller.toggle_loop().unwrap();
        controller.play().unwrap();
    }
    controller.stop().unwrap();
    let got: Vec<Command> = receiver.try_iter().collect();
    assert_eq!(got.len(), 7);
    for i in 0..3 {
        assert!(matches!(got[2 * i], Command::Loop));
        assert!(matches!(got[2 * i + 1], Command::Play));
    }
    assert!(matches!(got[6], Command::Stop));
}

#[test]
fn white_space_is_what_unicode_says() {
    let mut ignored: Vec<u32> = Vec::new();
    for code in 0..0x110000u32 {
        if let Some(c) = char::from_u32(code) {
            if matches!(interpret_line(&format!("{}stop", c)), Request::Stop) {
                ignored.push(code);
            }
        }
    }
    let mut expected: Vec<u32> = (0x9..0xe).collect();
    expected.extend([0x20, 0x85, 0xa0, 0x1680]);
    expected.extend(0x2000..0x200b);
    expected.extend([0x2028, 0x2029, 0x202f, 0x205f, 0x3000]);
    assert_eq!(ignored, expected);
}
