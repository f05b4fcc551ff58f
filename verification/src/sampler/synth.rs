//! A synthesizer for sampled instruments.
use vstd::prelude::*;

use crate::frame::Frame;
use crate::midi::synth::Synth;
use crate::smf::MidiMessage;

verus! {

/// What is to be done about a note.
#[derive(Clone, Copy, Debug, PartialEq, Eq, Structural)]
pub enum NoteAction {
    On { key: usize, vel: usize },
    Off { key: usize },
    Ignore,
}

/// What is to be done about a message: a note that is struck with no velocity is let go.
pub open spec fn action_for(message: MidiMessage) -> NoteAction {
    match message {
        MidiMessage::NoteOn { key, vel } => if vel == 0 {
            NoteAction::Off { key: key as usize }
        } else {
            NoteAction::On { key: key as usize, vel: vel as usize }
        },
        MidiMessage::NoteOff { key, .. } => NoteAction::Off { key: key as usize },
        _ => NoteAction::Ignore,
    }
}

/// What is to be done about a message.
pub fn note_action(message: MidiMessage) -> (r: NoteAction)
    ensures
        r == action_for(message),
{
    match message {
        MidiMessage::NoteOn { key, vel } => {
            if vel == 0 {
                NoteAction::Off { key: key as usize }
            } else {
                NoteAction::On { key: key as usize, vel: vel as usize }
            }
        },
        MidiMessage::NoteOff { key, .. } => NoteAction::Off { key: key as usize },
        _ => NoteAction::Ignore,
    }
}

/// A frame of output for so many channels: silent for one or two of them, and else untouched.
pub open spec fn hushed(frame: Frame, channel_count: usize) -> Frame {
    if channel_count == 1 {
        Frame::Mono(0)
    } else if channel_count == 2 {
        Frame::Stereo(0, 0)
    } else {
        frame
    }
}

/// A synthesizer that takes notes and keeps silent.
#[derive(Debug)]
pub struct SamplerSynth {}

impl SamplerSynth {
    /// A synthesizer with no notes on.
    pub fn new() -> (r: Self)
        ensures
            r == (SamplerSynth {  }),
    {
        SamplerSynth {  }
    }

    /// A note is struck.
    pub fn note_on(&mut self, key: usize, vel: usize)
        ensures
            *final(self) == *old(self),
    {
    }

    /// A note is let go.
    pub fn note_off(&mut self, key: usize)
        ensures
            *final(self) == *old(self),
    {
    }
}

impl Synth for SamplerSynth {
    open spec fn receives(
        pre: Self,
        post: Self,
        channel: usize,
        message: MidiMessage,
    ) -> bool {
        post == pre
    }

    open spec fn generates(
        pre: Self,
        post: Self,
        output_channel_count: usize,
        before: Seq<Frame>,
        after: Seq<Frame>,
        count: usize,
    ) -> bool {
        &&& post == pre
        &&& count == before.len()
        &&& after == before.map_values(|frame: Frame| hushed(frame, output_channel_count))
    }

    /// Strikes or lets go the note that the message is about.
    fn midi_message(&mut self, channel: usize, message: MidiMessage) {
        match note_action(message) {
            NoteAction::On { key, vel } => self.note_on(key, vel),
            NoteAction::Off { key } => self.note_off(key),
            NoteAction::Ignore => {},
        }
    }

    /// Fills `output` with silence.
    fn gen_samples(&mut self, output_channel_count: usize, output: &mut [Frame]) -> (count: usize) {
        let ghost silent = output@.map_values(|frame: Frame| hushed(frame, output_channel_count));
        let mut i: usize = 0;
        while i < output.len()
            invariant
                i <= output@.len(),
                output@.len() == old(output)@.len(),
                silent == old(output)@.map_values(
                    |frame: Frame| hushed(frame, output_channel_count),
                ),
                output@ == silent.take(i as int) + old(output)@.skip(i as int),
            decreases output@.len() - i,
        {
            if output_channel_count == 1 {
                output[i] = Frame::Mono(0);
            } else if output_channel_count == 2 {
                output[i] = Frame::Stereo(0, 0);
            }
            i += 1;
            assert(output@ =~= silent.take(i as int) + old(output)@.skip(i as int));
        }
        assert(output@ =~= silent);
        output.len()
    }
}

/// A note that is struck with no velocity is let go, whatever velocity letting go has.
pub proof fn law_no_velocity_lets_go(key: u8, vel: u8)
    ensures
        action_for(MidiMessage::NoteOn { key, vel: 0 }) == action_for(
            MidiMessage::NoteOff { key, vel },
        ),
{
}

/// A note that is struck with some velocity is on with that key and velocity, one that is let go is off, and no
/// other message is about a note.
pub proof fn law_messages_about_notes(message: MidiMessage)
    ensures
        message matches MidiMessage::NoteOn { key, vel } ==> (vel > 0 ==> {
            &&& action_for(message) is On
            &&& action_for(message)->On_key == key
            &&& action_for(message)->On_vel == vel
        }),
        message matches MidiMessage::NoteOn { key, vel } ==> (vel == 0 ==> {
            &&& action_for(message) is Off
            &&& action_for(message)->Off_key == key
        }),
        message matches MidiMessage::NoteOff { key, vel } ==> {
            &&& action_for(message) is Off
            &&& action_for(message)->Off_key == key
        },
        !(message is NoteOn) && !(message is NoteOff) ==> action_for(message) is Ignore,
{
}

/// One channel is made silent in mono and two in stereo; for any other number nothing is touched.
pub proof fn law_output_is_silent(frame: Frame, channel_count: usize)
    ensures
        channel_count == 1 ==> hushed(frame, channel_count) == Frame::Mono(0),
        channel_count == 2 ==> hushed(frame, channel_count) == Frame::Stereo(0, 0),
        channel_count != 1 && channel_count != 2 ==> hushed(frame, channel_count) == frame,
{
}

} // verus!
