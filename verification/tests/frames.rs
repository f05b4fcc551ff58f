use rusty_sample_player::frame::{frame_or_silence, read_frame};
use rusty_sample_player::midi;
use rusty_sample_player::midi::synth::micro_samples_per_tick;
use rusty_sample_player::ring::{create_ring, excess, frames_above_half};
use rusty_sample_player::synth::render;
use rusty_sample_player::{Frame, MidiMessage, MidiPlayerOutput, Synth};

/// Counts up, one number per sample.
struct Counter {
    next: u32,
    asked: Vec<(usize, usize, usize)>,
}

impl Counter {
    fn new() -> Self {
        Counter { next: 1, asked: Vec::new() }
    }
}

impl Synth for Counter {
    fn midi_message(&mut self, _channel: usize, _message: MidiMessage) {}

    fn gen_samples(&mut self, rate: usize, channels: usize, output: &mut [u32]) -> usize {
        self.asked.push((rate, channels, output.len()));
        for sample in output.iter_mut() {
            assert_eq!(*sample, 0);
            *sample = self.next;
            self.next += 1;
        }
        output.len()
    }

    fn reset(&mut self) {
        self.next = 1;
    }
}

#[test]
fn frames_come_out_in_the_order_they_went_in() {
    let (mut producer, consumer) = create_ring(8);
    let mut output = MidiPlayerOutput::new(consumer);
    let mut synth = Counter::new();
    assert_eq!(render(&mut synth, &mut producer, 44100, 1, 3), 3);
    assert_eq!(output.get_next_frame(), Frame::Mono(1));
    assert_eq!(render(&mut synth, &mut producer, 44100, 1, 2), 2);
    for sample in 2..6 {
        assert_eq!(output.get_next_frame(), Frame::Mono(sample));
    }
}

#[test]
fn empty_output_is_silent() {
    let (_producer, consumer) = create_ring(8);
    let mut output = MidiPlayerOutput::new(consumer);
    assert_eq!(output.get_next_frame(), Frame::Mono(0));
    assert_eq!(output.get_next_frame(), Frame::Mono(0));
}

#[test]
fn simple_output_tells_when_it_is_empty() {
    let (mut producer, consumer) = create_ring(8);
    let mut output = midi::MidiPlayerOutput::new(consumer);
    assert!(output.get_next_frame().is_none());
    let mut synth = Counter::new();
    render(&mut synth, &mut producer, 44100, 2, 1);
    assert_eq!(output.get_next_frame(), Some(Frame::Stereo(1, 2)));
    assert!(output.get_next_frame().is_none());
}

#[test]
fn no_more_is_rendered_than_there_is_room_for() {
    let (mut producer, _consumer) = create_ring(6);
    let mut synth = Counter::new();
    assert_eq!(render(&mut synth, &mut producer, 48000, 2, 10), 6);
    assert_eq!(synth.asked, vec![(48000, 2, 12)]);
    assert_eq!(render(&mut synth, &mut producer, 48000, 2, 10), 0);
    assert_eq!(synth.asked.len(), 1);
}

#[test]
fn nothing_is_rendered_where_nothing_is_due() {
    let (mut producer, _consumer) = create_ring(6);
    let mut synth = Counter::new();
    assert_eq!(render(&mut synth, &mut producer, 48000, 2, 0), 0);
    assert!(synth.asked.is_empty());
}

#[test]
fn long_stretches_are_rendered_in_chunks() {
    let (mut producer, consumer) = create_ring(5000);
    let mut output = MidiPlayerOutput::new(consumer);
    let mut synth = Counter::new();
    assert_eq!(render(&mut synth, &mut producer, 44100, 1, 5000), 5000);
    assert_eq!(synth.asked, vec![(44100, 1, 4096), (44100, 1, 904)]);
    for sample in 1..5001 {
        assert_eq!(output.get_next_frame(), Frame::Mono(sample));
    }
}

#[test]
fn chunks_hold_whole_frames() {
    let (mut producer, consumer) = create_ring(2000);
    let mut output = MidiPlayerOutput::new(consumer);
    let mut synth = Counter::new();
    assert_eq!(render(&mut synth, &mut producer, 44100, 3, 1400), 1400);
    assert_eq!(synth.asked, vec![(44100, 3, 4095), (44100, 3, 105)]);
    for frame in 0..1400u32 {
        assert_eq!(output.get_next_frame(), Frame::Stereo(frame * 3 + 1, frame * 3 + 2));
    }
}

#[test]
fn frames_are_read_from_interleaved_samples() {
    let samples = vec![10, 11, 12, 13, 14];
    assert_eq!(read_frame(&samples, 1, 4), Frame::Mono(14));
    assert_eq!(read_frame(&samples, 2, 1), Frame::Stereo(12, 13));
    assert_eq!(read_frame(&samples, 4, 0), Frame::Stereo(10, 11));
}

#[test]
fn silence_stands_in_for_a_missing_frame() {
    assert_eq!(frame_or_silence(None), Frame::Mono(0));
    assert_eq!(frame_or_silence(Some(Frame::Stereo(1, 2))), Frame::Stereo(1, 2));
    assert_eq!((0.0f32).to_bits(), 0);
}

#[test]
fn only_what_is_above_half_is_waited_for() {
    assert_eq!(frames_above_half(8, 10), 3);
    assert_eq!(frames_above_half(5, 10), 0);
    assert_eq!(frames_above_half(6, 11), 1);
    assert_eq!(frames_above_half(0, 0), 0);
    let (mut producer, _consumer) = create_ring(10);
    let mut synth = Counter::new();
    assert_eq!(excess(&mut producer), 0);
    render(&mut synth, &mut producer, 44100, 1, 8);
    assert_eq!(excess(&mut producer), 3);
}

#[test]
fn pause_is_filled_with_silence() {
    let (mut producer, consumer) = create_ring(7);
    let mut output = midi::MidiPlayerOutput::new(consumer);
    assert_eq!(midi::fill_silence(&mut producer, 2), 3);
    for _ in 0..3 {
        assert_eq!(output.get_next_frame(), Some(Frame::Stereo(0, 0)));
    }
    assert!(output.get_next_frame().is_none());
    assert_eq!(midi::fill_silence(&mut producer, 1), 7);
    assert_eq!(output.get_next_frame(), Some(Frame::Mono(0)));
}

#[test]
fn ticks_are_measured_in_whole_microseconds() {
    assert_eq!(micro_samples_per_tick(500_000, 96, 44100), 5208 * 44100);
    assert_eq!(micro_samples_per_tick(95, 96, 44100), 0);
}

#[test]
fn ring_without_slots_takes_nothing() {
    let (mut producer, consumer) = create_ring(0);
    let mut output = MidiPlayerOutput::new(consumer);
    let mut synth = Counter::new();
    assert_eq!(render(&mut synth, &mut producer, 44100, 2, 5), 0);
    assert_eq!(excess(&mut producer), 0);
    assert_eq!(output.get_next_frame(), Frame::Mono(0));
}

/// Turns every second frame of a cleared buffer into a click.
struct Clicker {
    asked: Vec<(usize, usize)>,
}

impl midi::Synth for Clicker {
    fn midi_message(&mut self, _channel: usize, _message: MidiMessage) {}

    fn gen_samples(&mut self, channels: usize, output: &mut [Frame]) -> usize {
        self.asked.push((channels, output.len()));
        for (i, frame) in output.iter_mut().enumerate() {
            if i % 2 == 0 {
                *frame = Frame::Mono(i as u32 + 1);
            }
        }
        output.len()
    }
}

#[test]
fn simple_player_draws_frames() {
    let (mut producer, consumer) = create_ring(8);
    let mut output = midi::MidiPlayerOutput::new(consumer);
    let mut synth = Clicker { asked: Vec::new() };
    assert_eq!(midi::render(&mut synth, &mut producer, 2, 3), 3);
    assert_eq!(synth.asked, vec![(2, 3)]);
    assert_eq!(output.get_next_frame(), Some(Frame::Mono(1)));
    assert_eq!(output.get_next_frame(), Some(Frame::Stereo(0, 0)));
    assert_eq!(output.get_next_frame(), Some(Frame::Mono(3)));
    assert_eq!(output.get_next_frame(), None);
    assert_eq!(midi::render(&mut synth, &mut producer, 2, 100), 4);
    assert_eq!(midi::render(&mut synth, &mut producer, 2, 0), 0);
    assert_eq!(synth.asked, vec![(2, 3), (2, 4)]);
    assert_eq!(midi::render(&mut synth, &mut producer, 1, 100), 4);
}

#[test]
fn frames_and_silence_are_played_in_order() {
    let (mut producer, consumer) = create_ring(8);
    let mut output = MidiPlayerOutput::new(consumer);
    let mut synth = Counter::new();
    render(&mut synth, &mut producer, 44100, 1, 2);
    let mut played: Vec<Frame> = (0..3).map(|_| output.get_next_frame()).collect();
    render(&mut synth, &mut producer, 44100, 1, 1);
    played.push(output.get_next_frame());
    played.push(output.get_next_frame());
    assert_eq!(
        played,
        vec![Frame::Mono(1), Frame::Mono(2), Frame::Mono(0), Frame::Mono(3), Frame::Mono(0)]
    );
}

#[test]
fn waiting_frames_are_found_and_silence_follows() {
    let (mut producer, consumer) = create_ring(8);
    let mut output = MidiPlayerOutput::new(consumer);
    let mut synth = Counter::new();
    render(&mut synth, &mut producer, 44100, 1, 5);
    let played: Vec<Frame> = (0..8).map(|_| output.get_next_frame()).collect();
    let mut expected: Vec<Frame> = (1..6).map(Frame::Mono).collect();
    expected.extend([Frame::Mono(0); 3]);
    assert_eq!(played, expected);
}

#[test]
fn simple_output_finds_waiting_frames() {
    let (mut producer, consumer) = create_ring(4);
    let mut output = midi::MidiPlayerOutput::new(consumer);
    midi::fill_silence(&mut producer, 2);
    let found: Vec<bool> = (0..4).map(|_| output.get_next_frame().is_some()).collect();
    assert_eq!(found, vec![true, true, false, false]);
}
