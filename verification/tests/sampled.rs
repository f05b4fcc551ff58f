use std::path::{Path, PathBuf};

use rusty_sample_player::midi::Synth;
use rusty_sample_player::sampler::{
    note_action, Channel, FolderEntry, NoteAction, Pcm, Sample, SampleError, SampleFile,
    Sampler, SamplerBank, SamplerBankError, SamplerError, SamplerSynth, WavData, WavDataError,
    WavFile,
};
use rusty_sample_player::{Frame, MidiMessage};

fn io_error() -> WavDataError {
    WavDataError::from(std::io::Error::new(std::io::ErrorKind::NotFound, "no file"))
}

fn stereo() -> WavData {
    WavData::from_interleaved(44100, 2, &vec![1, 2, 3, 4, 5, 6, 7])
}

fn unloaded(midi_note: u8) -> Sample {
    Sample { filepath: PathBuf::from("a4.wav"), midi_note, data: None }
}

fn loaded(midi_note: u8) -> Sample {
    Sample { filepath: PathBuf::from("a4.wav"), midi_note, data: Some(stereo()) }
}

fn samples_of(channel: &Channel) -> Vec<u32> {
    channel.samples.clone()
}

#[test]
fn channels_are_parted() {
    let wav = stereo();
    assert_eq!(wav.sample_rate, 44100);
    assert_eq!(wav.sample_length, 3);
    assert_eq!(wav.channels.len(), 2);
    assert_eq!(samples_of(&wav.channels[0]), vec![1, 3, 5]);
    assert_eq!(samples_of(&wav.channels[1]), vec![2, 4, 6]);
    assert_eq!(wav.waves(), vec![vec![1, 3, 5], vec![2, 4, 6]]);
}

#[test]
fn every_sample_of_a_whole_frame_is_kept() {
    let samples: Vec<u32> = (0..30).collect();
    let wav = WavData::from_interleaved(8000, 3, &samples);
    for k in 0..30usize {
        assert_eq!(wav.channels[k % 3].samples[k / 3], samples[k]);
    }
}

#[test]
fn sampling_rate_is_cut_to_sixteen_bits() {
    assert_eq!(WavData::from_interleaved(65536 + 8000, 1, &vec![]).sample_rate, 8000);
    assert_eq!(WavData::from_interleaved(96000, 1, &vec![]).sample_rate, 30464);
}

#[test]
fn resampling_keeps_the_recorded_length() {
    let wav = stereo().resample(Ok(vec![vec![9, 8], vec![7, 6]]), 22050).unwrap();
    assert_eq!(wav.sample_rate, 22050);
    assert_eq!(wav.sample_length, 3);
    assert_eq!(wav.waves(), vec![vec![9, 8], vec![7, 6]]);
    assert!(matches!(stereo().resample(Err(io_error()), 22050), Err(WavDataError::IoError(_))));
}

#[test]
fn resampler_errors_convert() {
    let e = rubato::ResamplerConstructionError::InvalidSampleRate { input: 0, output: 1 };
    assert!(matches!(WavDataError::from(e), WavDataError::ResamplerConstructionError(_)));
    let e = rubato::ResampleError::SyncNotAdjustable;
    assert!(matches!(WavDataError::from(e), WavDataError::ResampleError(_)));
}

#[test]
fn note_that_is_not_loaded_has_no_samples() {
    let mut sample = unloaded(69);
    assert!(matches!(sample.get_channel(0), Err(SampleError::SampleNotLoaded)));
    assert!(matches!(sample.get_sample(0, 0), Err(SampleError::SampleNotLoaded)));
    assert!(matches!(sample.get_sample_interpolated(0, 1, 0), Err(SampleError::SampleNotLoaded)));
    assert!(matches!(sample.get_sample_length(), Err(SampleError::SampleNotLoaded)));
    assert!(matches!(sample.get_sample_rate(), Err(SampleError::SampleNotLoaded)));
    assert!(matches!(sample.get_sample_channel_count(), Err(SampleError::SampleNotLoaded)));
    assert!(matches!(sample.get_samples(&vec![(0, 1)], 1), Err(SampleError::SampleNotLoaded)));
    assert!(matches!(sample.resample(Ok(vec![]), 8000), Err(SampleError::SampleNotLoaded)));
}

#[test]
fn loaded_note_gives_its_samples() {
    let mut sample = unloaded(69);
    sample.load(Ok(stereo())).unwrap();
    assert_eq!(sample.get_sample_length().unwrap(), 3);
    assert_eq!(sample.get_sample_rate().unwrap(), 44100);
    assert_eq!(sample.get_sample_channel_count().unwrap(), 2);
    assert_eq!(samples_of(sample.get_channel(1).unwrap()), vec![2, 4, 6]);
    assert_eq!(sample.get_sample(2, 0).unwrap(), 5);
    assert_eq!(sample.get_sample_interpolated(1, 2, 1).unwrap(), (4, Some(6)));
    assert_eq!(sample.get_sample_interpolated(1, 1, 1).unwrap(), (4, Some(4)));
    assert_eq!(sample.get_sample_interpolated(2, 3, 0).unwrap(), (5, None));
    assert!(matches!(sample.get_sample(3, 0), Err(SampleError::SampleOutOfBounds)));
    assert!(matches!(sample.get_sample(0, 2), Err(SampleError::ChannelOutOfBounds)));
    assert!(matches!(
        sample.get_sample_interpolated(3, 4, 0),
        Err(SampleError::SampleOutOfBounds)
    ));
}

#[test]
fn failed_load_and_resample_change_nothing() {
    let mut sample = loaded(69);
    assert!(matches!(
        sample.load(Err(io_error())),
        Err(SampleError::WavDataError(WavDataError::IoError(_)))
    ));
    assert!(matches!(
        sample.resample(Err(io_error()), 8000),
        Err(SampleError::WavDataError(WavDataError::IoError(_)))
    ));
    assert_eq!(sample.get_sample_rate().unwrap(), 44100);
    sample.resample(Ok(vec![vec![5]]), 8000).unwrap();
    assert_eq!(sample.get_sample_rate().unwrap(), 8000);
    assert_eq!(sample.get_sample(0, 0).unwrap(), 5);
}

#[test]
fn samples_are_gathered_per_output_channel() {
    let sample = loaded(69);
    assert_eq!(
        sample.get_samples(&vec![(2, 3), (0, 1), (3, 3)], 2).unwrap(),
        vec![
            Some((5, None)),
            Some((6, None)),
            Some((1, Some(3))),
            Some((2, Some(4))),
            None,
            None
        ]
    );
    assert_eq!(
        sample.get_samples(&vec![(1, 1)], 3).unwrap(),
        vec![Some((3, Some(3))), Some((4, Some(4))), Some((4, Some(4)))]
    );
    assert_eq!(sample.get_samples(&vec![(1, 2)], 1).unwrap(), vec![Some((3, Some(5)))]);
    assert!(sample.get_samples(&vec![], 2).unwrap().is_empty());
}

#[test]
fn halfway_between_two_samples_both_are_heard() {
    let samples = vec![0.0f32.to_bits(), 1.0f32.to_bits()];
    let wav = WavData::from_interleaved(1, 1, &samples);
    let sample = Sample { filepath: PathBuf::new(), midi_note: 69, data: Some(wav) };
    let index = 0.5f32;
    let (low, high) = (index.floor() as usize, index.ceil() as usize);
    let (l, h) = sample.get_sample_interpolated(low, high, 0).unwrap();
    let (l, h) = (f32::from_bits(l), f32::from_bits(h.unwrap()));
    assert_eq!(l + (index - low as f32) * (h - l), 0.5);
}

#[test]
fn what_is_not_loaded_is_an_error_for_any_output() {
    assert!(matches!(unloaded(69).get_samples(&vec![(0, 1)], 0), Err(SampleError::SampleNotLoaded)));
    let many = usize::MAX;
    assert!(matches!(
        unloaded(69).get_samples(&vec![(0, 1), (1, 2)], many),
        Err(SampleError::SampleNotLoaded)
    ));
    let none = Sampler { name: "none".to_string(), samples: Vec::new() };
    assert!(matches!(none.get_samples(60, &vec![(0, 1)], 0), Err(SamplerError::NoSamplesFound)));
    let silent = Sampler { name: "silent".to_string(), samples: vec![unloaded(60)] };
    assert!(matches!(
        silent.get_samples(60, &vec![(0, 1)], 0),
        Err(SamplerError::SampleError(SampleError::SampleNotLoaded))
    ));
}

#[test]
fn nearest_note_is_played() {
    let sampler = Sampler {
        name: "piano".to_string(),
        samples: vec![unloaded(60), unloaded(64), unloaded(68), unloaded(64)],
    };
    assert_eq!(sampler.closest_sample(64).unwrap(), 1);
    assert_eq!(sampler.closest_sample(62).unwrap(), 0);
    assert_eq!(sampler.closest_sample(63).unwrap(), 1);
    assert_eq!(sampler.closest_sample(127).unwrap(), 2);
    assert_eq!(sampler.closest_sample(0).unwrap(), 0);
}

#[test]
fn instrument_without_notes_plays_nothing() {
    let sampler = Sampler { name: "none".to_string(), samples: Vec::new() };
    assert!(matches!(sampler.closest_sample(60), Err(SamplerError::NoSamplesFound)));
    assert!(matches!(sampler.get_samples(60, &vec![(0, 1)], 1), Err(SamplerError::NoSamplesFound)));
}

#[test]
fn instrument_plays_its_nearest_note() {
    let mut sampler = Sampler::from_single_file(Path::new("a4.wav"), stereo(), "flute", 69);
    assert_eq!(sampler.name, "flute");
    assert_eq!(sampler.samples[0].filepath, PathBuf::from("a4.wav"));
    assert_eq!(sampler.samples[0].midi_note, 69);
    sampler.samples.push(unloaded(80));
    assert_eq!(
        sampler.get_samples(70, &vec![(1, 2)], 2).unwrap(),
        vec![Some((3, Some(5))), Some((4, Some(6)))]
    );
    assert!(matches!(
        sampler.get_samples(80, &vec![(1, 2)], 2),
        Err(SamplerError::SampleError(SampleError::SampleNotLoaded))
    ));
}

#[test]
fn instrument_loads_up_to_the_first_failure() {
    let mut sampler =
        Sampler { name: "piano".to_string(), samples: vec![unloaded(60), unloaded(61), unloaded(62)] };
    let r = sampler.load_samples(vec![Ok(stereo()), Err(io_error())]);
    assert!(matches!(
        r,
        Err(SamplerError::SampleError(SampleError::WavDataError(WavDataError::IoError(_))))
    ));
    assert!(sampler.samples[0].data.is_some());
    assert!(sampler.samples[1].data.is_none());
    assert!(matches!(
        sampler.resample(vec![Ok(vec![vec![1]]), Ok(vec![])], 8000),
        Err(SamplerError::SampleError(SampleError::SampleNotLoaded))
    ));
    assert_eq!(sampler.samples[0].get_sample_rate().unwrap(), 8000);
    sampler.load_samples(vec![Ok(stereo()), Ok(stereo()), Ok(stereo())]).unwrap();
    assert!(sampler.samples.iter().all(|s| s.data.is_some()));
    sampler.resample(vec![Ok(vec![]), Ok(vec![]), Ok(vec![])], 11025).unwrap();
    assert!(sampler.samples.iter().all(|s| s.get_sample_rate().unwrap() == 11025));
}

fn wave(stem: &str) -> SampleFile {
    SampleFile {
        path: PathBuf::from(format!("piano/{}.wav", stem)),
        extension: Some("wav".to_string()),
        stem: Some(stem.to_string()),
    }
}

fn bank() -> SamplerBank {
    let text = SampleFile {
        path: PathBuf::from("piano/notes.txt"),
        extension: Some("txt".to_string()),
        stem: Some("notes".to_string()),
    };
    let plain = SampleFile { path: PathBuf::from("piano/plain"), extension: None, stem: None };
    let entries = vec![
        FolderEntry { is_file: true, stem: "readme".to_string(), files: vec![] },
        FolderEntry {
            is_file: false,
            stem: "piano".to_string(),
            files: vec![wave("c4"), text, plain, wave("g#4")],
        },
        FolderEntry { is_file: false, stem: "empty".to_string(), files: vec![] },
    ];
    SamplerBank::from_listing(vec!["one".to_string()], "banks".to_string(), entries)
}

#[test]
fn bank_is_found_in_a_folder() {
    let bank = bank();
    assert_eq!(bank.voices, vec!["one".to_string()]);
    assert_eq!(bank.folder, "banks");
    let names: Vec<&str> = bank.samplers.iter().map(|s| s.name.as_str()).collect();
    assert_eq!(names, vec!["piano", "empty"]);
    let notes: Vec<u8> = bank.samplers[0].samples.iter().map(|s| s.midi_note).collect();
    assert_eq!(notes, vec![72, 80]);
    assert_eq!(bank.samplers[0].samples[1].filepath, PathBuf::from("piano/g#4.wav"));
    assert!(bank.samplers[0].samples.iter().all(|s| s.data.is_none()));
    assert!(bank.samplers[1].samples.is_empty());
}

#[test]
fn bank_loads_and_resamples() {
    let mut bank = bank();
    assert!(matches!(
        bank.load_samplers(vec![vec![Err(io_error())]]),
        Err(SamplerBankError::SamplerError(SamplerError::SampleError(SampleError::WavDataError(_))))
    ));
    assert!(matches!(
        bank.resample(vec![vec![Ok(vec![])]], 8000),
        Err(SamplerBankError::SamplerError(SamplerError::SampleError(SampleError::SampleNotLoaded)))
    ));
    bank.load_samplers(vec![vec![Ok(stereo()), Ok(stereo())], vec![]]).unwrap();
    bank.resample(vec![vec![Ok(vec![vec![3]]), Ok(vec![vec![4]])], vec![]], 8000).unwrap();
    assert_eq!(bank.samplers[0].samples[1].get_sample(0, 0).unwrap(), 4);
    assert_eq!(bank.samplers[0].samples[0].get_sample_rate().unwrap(), 8000);
}

#[test]
fn bank_errors_convert() {
    let e = std::io::Error::new(std::io::ErrorKind::NotFound, "no folder");
    assert!(matches!(SamplerBankError::from(e), SamplerBankError::IoError(_)));
    let e = serde_json::from_str::<u8>("x").unwrap_err();
    assert!(matches!(SamplerBankError::from(e), SamplerBankError::MalformedJson(_)));
    let e = SamplerError::MismatchedSampleRates;
    assert!(matches!(
        SamplerBankError::from(e),
        SamplerBankError::SamplerError(SamplerError::MismatchedSampleRates)
    ));
    assert!(matches!(
        SamplerError::from(SampleError::ChannelOutOfBounds),
        SamplerError::SampleError(SampleError::ChannelOutOfBounds)
    ));
    assert!(matches!(SampleError::from(io_error()), SampleError::WavDataError(_)));
}

fn riff_chunk(id: &[u8; 4], body: &[u8]) -> Vec<u8> {
    let mut bytes = id.to_vec();
    bytes.extend((body.len() as u32).to_le_bytes());
    bytes.extend(body);
    if body.len() % 2 == 1 {
        bytes.push(0);
    }
    bytes
}

fn wave_file(format: u16, bits: u16, chunks: &[(&[u8; 4], &[u8])]) -> Vec<u8> {
    let mut header = format.to_le_bytes().to_vec();
    header.extend(2u16.to_le_bytes());
    header.extend(44100u32.to_le_bytes());
    header.extend([0; 6]);
    header.extend(bits.to_le_bytes());
    let mut body = b"WAVE".to_vec();
    body.extend(riff_chunk(b"fmt ", &header));
    for (id, chunk) in chunks {
        body.extend(riff_chunk(id, chunk));
    }
    riff_chunk(b"RIFF", &body)
}

#[test]
fn wave_files_are_read() {
    let bytes = wave_file(1, 16, &[(b"LIST", b"odd"), (b"data", &[1, 0, 0xff, 0xff])]);
    assert!(WavFile::is_readable(&bytes));
    let file = WavFile::from_bytes(&bytes).unwrap();
    assert_eq!((file.sampling_rate, file.channel_count), (44100, 2));
    assert!(matches!(file.samples, Pcm::Sixteen(s) if s == vec![1, -1]));

    let bytes = wave_file(1, 8, &[(b"data", &[1, 2])]);
    assert!(matches!(WavFile::from_bytes(&bytes).unwrap().samples, Pcm::Eight(s) if s == vec![1, 2]));

    let bytes = wave_file(1, 24, &[(b"data", &[1, 0, 0, 0, 0, 0x80])]);
    assert!(matches!(
        WavFile::from_bytes(&bytes).unwrap().samples,
        Pcm::TwentyFour(s) if s == vec![256, i32::MIN]
    ));

    let bytes = wave_file(3, 32, &[(b"data", &0.5f32.to_le_bytes())]);
    assert!(matches!(
        WavFile::from_bytes(&bytes).unwrap().samples,
        Pcm::ThirtyTwoFloat(s) if s == vec![0.5f32.to_bits()]
    ));
}

#[test]
fn what_is_no_wave_file_is_an_error() {
    let compressed = wave_file(2, 16, &[(b"data", &[1, 0])]);
    let silent = wave_file(1, 16, &[]);
    let depth = wave_file(1, 12, &[(b"data", &[1, 0])]);
    let other = riff_chunk(b"RIFF", b"AVI LIST");
    for bytes in [Vec::new(), b"RIFF".to_vec(), compressed, silent, depth, other] {
        assert!(WavFile::is_readable(&bytes));
        assert!(matches!(WavFile::from_bytes(&bytes), Err(WavDataError::IoError(_))));
    }
}

#[test]
fn files_with_broken_chunks_are_not_readable() {
    assert!(!WavFile::is_readable(&b"RIFF\x64\x00\x00\x00WAVEfmt".to_vec()));
    let unnamed = wave_file(1, 16, &[(&[0xff; 4], &[]), (b"data", &[1, 0])]);
    assert!(!WavFile::is_readable(&unnamed));
    let later = wave_file(1, 16, &[(b"data", &[1, 0]), (&[0xff; 4], &[])]);
    assert!(WavFile::is_readable(&later));
    assert!(WavFile::from_bytes(&later).is_ok());
    let ignored = wave_file(2, 16, &[(&[0xff; 4], &[])]);
    assert!(WavFile::is_readable(&ignored));
    assert!(!WavFile::is_readable(&b"RIFF\x04\x00\x00\x00\xff\xff\xff\xff".to_vec()));
}

#[test]
fn notes_are_struck_and_let_go() {
    let struck = MidiMessage::NoteOn { key: 60, vel: 1 };
    assert_eq!(note_action(struck), NoteAction::On { key: 60, vel: 1 });
    let silent = MidiMessage::NoteOn { key: 60, vel: 0 };
    assert_eq!(note_action(silent), NoteAction::Off { key: 60 });
    let off = MidiMessage::NoteOff { key: 61, vel: 64 };
    assert_eq!(note_action(off), NoteAction::Off { key: 61 });
    assert_eq!(note_action(MidiMessage::ProgramChange { program: 3 }), NoteAction::Ignore);
    assert_eq!(note_action(MidiMessage::Aftertouch { key: 60, vel: 1 }), NoteAction::Ignore);
}

#[test]
fn synthesizer_keeps_silent() {
    let mut synth = SamplerSynth::new();
    synth.midi_message(0, MidiMessage::NoteOn { key: 60, vel: 64 });
    synth.note_on(60, 64);
    synth.note_off(60);
    let mut frames = [Frame::Mono(7), Frame::Stereo(8, 9)];
    assert_eq!(synth.gen_samples(5, &mut frames), 2);
    assert_eq!(frames, [Frame::Mono(7), Frame::Stereo(8, 9)]);
    assert_eq!(synth.gen_samples(1, &mut frames), 2);
    assert_eq!(frames, [Frame::Mono(0), Frame::Mono(0)]);
    assert_eq!(synth.gen_samples(2, &mut frames), 2);
    assert_eq!(frames, [Frame::Stereo(0, 0), Frame::Stereo(0, 0)]);
}

#[test]
fn mono_is_heard_on_every_channel() {
    let wav = WavData::from_interleaved(8000, 1, &vec![5, 6]);
    let sample = Sample { filepath: PathBuf::from("c4.wav"), midi_note: 60, data: Some(wav) };
    assert_eq!(sample.get_samples(&vec![(1, 2)], 3).unwrap(), vec![Some((6, None)); 3]);
}

#[test]
fn notes_and_files_stay() {
    let mut sampler =
        Sampler { name: "piano".to_string(), samples: vec![unloaded(60), unloaded(72)] };
    sampler.load_samples(vec![Ok(stereo()), Ok(stereo())]).unwrap();
    sampler.resample(vec![Ok(vec![vec![1]]), Ok(vec![vec![2]])], 8000).unwrap();
    let notes: Vec<u8> = sampler.samples.iter().map(|s| s.midi_note).collect();
    assert_eq!(notes, vec![60, 72]);
    assert!(sampler.samples.iter().all(|s| s.filepath == PathBuf::from("a4.wav")));
}
