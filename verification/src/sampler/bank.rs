//! A bank of instruments, as it is found in a folder.
use std::path::PathBuf;

use vstd::prelude::*;

use crate::midi::note::{note_name_to_midi_note, note_or_error};
use crate::note::{is_note_name, splits_before_octave};
use crate::sampler::instrument::{
    covers, leading_ok, lemma_leading_ok, Sampler, SamplerError, SamplerModel,
};
use crate::sampler::sample::{Sample, SampleError, SampleModel};
use crate::sampler::wav::{WavData, WavDataError};

verus! {

/// `serde_json::Error`, why a text is not the JSON that was expected.
#[verifier::external_type_specification]
#[verifier::external_body]
pub struct ExJsonError(serde_json::Error);

/// What can go wrong with a bank.
#[derive(Debug)]
pub enum SamplerBankError {
    IoError(std::io::Error),
    MalformedJson(serde_json::Error),
    SamplerError(SamplerError),
}

impl From<std::io::Error> for SamplerBankError {
    fn from(e: std::io::Error) -> (r: Self) {
        SamplerBankError::IoError(e)
    }
}

impl vstd::std_specs::convert::FromSpecImpl<std::io::Error> for SamplerBankError {
    open spec fn obeys_from_spec() -> bool {
        true
    }

    open spec fn from_spec(e: std::io::Error) -> Self {
        SamplerBankError::IoError(e)
    }
}

impl From<serde_json::Error> for SamplerBankError {
    fn from(e: serde_json::Error) -> (r: Self) {
        SamplerBankError::MalformedJson(e)
    }
}

impl vstd::std_specs::convert::FromSpecImpl<serde_json::Error> for SamplerBankError {
    open spec fn obeys_from_spec() -> bool {
        true
    }

    open spec fn from_spec(e: serde_json::Error) -> Self {
        SamplerBankError::MalformedJson(e)
    }
}

impl From<SamplerError> for SamplerBankError {
    fn from(e: SamplerError) -> (r: Self) {
        SamplerBankError::SamplerError(e)
    }
}

impl vstd::std_specs::convert::FromSpecImpl<SamplerError> for SamplerBankError {
    open spec fn obeys_from_spec() -> bool {
        true
    }

    open spec fn from_spec(e: SamplerError) -> Self {
        SamplerBankError::SamplerError(e)
    }
}

/// A file in the folder of an instrument. Extension and stem are the parts of its name behind and
/// before the last dot; a stem that is no text is left out.
#[derive(Debug)]
pub struct SampleFile {
    pub path: PathBuf,
    pub extension: Option<String>,
    pub stem: Option<String>,
}

/// An entry of the folder of a bank: a file, or the folder of an instrument.
#[derive(Debug)]
pub struct FolderEntry {
    pub is_file: bool,
    pub stem: String,
    pub files: Vec<SampleFile>,
}

/// Instruments, and what their description says of them.
#[derive(Debug)]
pub struct SamplerBank {
    pub samplers: Vec<Sampler>,
    pub voices: Vec<String>,
    pub folder: String,
}

impl SamplerBank {
    /// The instruments of the bank.
    pub open spec fn instruments(&self) -> Seq<SamplerModel> {
        self.samplers@.map_values(|s: Sampler| s@)
    }
}

/// The file is a recording, by its extension.
pub open spec fn is_recording(file: SampleFile) -> bool {
    file.extension matches Some(extension) && extension@ == "wav"@
}

/// The file is named after a note.
pub open spec fn names_note(file: SampleFile) -> bool {
    file.stem matches Some(stem) && splits_before_octave(stem@) && is_note_name(stem@)
}

/// Every recording in the folders of the instruments is named after a note.
pub open spec fn all_named(entries: Seq<FolderEntry>) -> bool {
    forall|i: int, j: int|
        0 <= i < entries.len() && !entries[i].is_file && 0 <= j < entries[i].files@.len()
            && is_recording(entries[i].files@[j]) ==> names_note(#[trigger] entries[i].files@[j])
}

/// The recorded notes among some files, none of them loaded.
pub open spec fn recordings(files: Seq<SampleFile>) -> Seq<SampleModel>
    decreases files.len(),
{
    if files.len() == 0 {
        seq![]
    } else {
        let before = recordings(files.drop_last());
        let file = files.last();
        if is_recording(file) {
            before.push(
                SampleModel {
                    filepath: file.path,
                    midi_note: note_or_error(file.stem->0@)->Ok_0,
                    data: None,
                },
            )
        } else {
            before
        }
    }
}

/// The instruments among the entries of a folder.
pub open spec fn listed(entries: Seq<FolderEntry>) -> Seq<SamplerModel>
    decreases entries.len(),
{
    if entries.len() == 0 {
        seq![]
    } else {
        let before = listed(entries.drop_last());
        let entry = entries.last();
        if entry.is_file {
            before
        } else {
            before.push(SamplerModel { name: entry.stem@, samples: recordings(entry.files@) })
        }
    }
}

/// What loading the instruments comes to, one by one.
pub open spec fn loading(read: Seq<Vec<Result<WavData, WavDataError>>>) -> Seq<
    Result<(), SampleError>,
> {
    Seq::new(
        read.len(),
        |i: int|
            {
                let n = leading_ok(read[i]@);
                if n < read[i]@.len() {
                    Err(SampleError::WavDataError(read[i]@[n]->Err_0))
                } else {
                    Ok(())
                }
            },
    )
}

/// What resampling the instruments comes to, one by one.
pub open spec fn resampling(
    instruments: Seq<SamplerModel>,
    resampled: Seq<Vec<Result<Vec<Vec<u32>>, WavDataError>>>,
) -> Seq<Result<(), SampleError>> {
    Seq::new(
        resampled.len(),
        |i: int|
            {
                let outcomes = instruments[i].resampling(resampled[i]@);
                let n = leading_ok(outcomes);
                if n < outcomes.len() {
                    Err(outcomes[n]->Err_0)
                } else {
                    Ok(())
                }
            },
    )
}

/// The instruments after loading them up to the first that failed, which is loaded as far as it came.
pub open spec fn bank_loaded(
    instruments: Seq<SamplerModel>,
    read: Seq<Vec<Result<WavData, WavDataError>>>,
) -> Seq<SamplerModel> {
    Seq::new(
        instruments.len(),
        |i: int|
            if i <= leading_ok(loading(read)) && i < read.len() {
                instruments[i].loaded(read[i]@)
            } else {
                instruments[i]
            },
    )
}

/// The instruments after resampling them up to the first that failed, which is resampled as far as it
/// came.
pub open spec fn bank_resampled(
    instruments: Seq<SamplerModel>,
    resampled: Seq<Vec<Result<Vec<Vec<u32>>, WavDataError>>>,
    new_sample_rate: u16,
) -> Seq<SamplerModel> {
    Seq::new(
        instruments.len(),
        |i: int|
            if i <= leading_ok(resampling(instruments, resampled)) && i < resampled.len() {
                instruments[i].resampled(resampled[i]@, new_sample_rate)
            } else {
                instruments[i]
            },
    )
}

/// What a bank reports: nothing wrong, or the first thing that went wrong.
pub open spec fn reports(
    outcomes: Seq<Result<(), SampleError>>,
    r: Result<(), SamplerBankError>,
) -> bool {
    let n = leading_ok(outcomes);
    if n < outcomes.len() {
        r == Err::<(), SamplerBankError>(
            SamplerBankError::SamplerError(SamplerError::SampleError(outcomes[n]->Err_0)),
        )
    } else {
        r is Ok
    }
}

/// Whether the file is a recording.
fn has_wav_extension(file: &SampleFile) -> (r: bool)
    ensures
        r == is_recording(*file),
{
    match &file.extension {
        Some(extension) => *extension == "wav".to_owned(),
        None => false,
    }
}

/// The recorded notes among some files.
fn find_recordings(files: &Vec<SampleFile>) -> (samples: Vec<Sample>)
    requires
        forall|j: int|
            0 <= j < files@.len() && is_recording(files@[j]) ==> names_note(#[trigger] files@[j]),
    ensures
        samples@.map_values(|s: Sample| s@) == recordings(files@),
{
    let mut samples: Vec<Sample> = Vec::new();
    let mut i: usize = 0;
    assert(samples@.map_values(|s: Sample| s@) =~= recordings(files@.take(0)));
    while i < files.len()
        invariant
            forall|j: int|
                0 <= j < files@.len() && is_recording(files@[j]) ==> names_note(
                    #[trigger] files@[j],
                ),
            i <= files@.len(),
            samples@.map_values(|s: Sample| s@) == recordings(files@.take(i as int)),
        decreases files@.len() - i,
    {
        let file: &SampleFile = &files[i];
        let ghost next = files@.take(i + 1);
        assert(next.drop_last() =~= files@.take(i as int));
        assert(next.last() == *file);
        if has_wav_extension(file) {
            assert(names_note(files@[i as int]));
            if let Some(stem) = &file.stem {
                if let Ok(midi_note) = note_name_to_midi_note(stem.as_str()) {
                    let ghost found = samples@;
                    let sample = Sample { filepath: file.path.clone(), midi_note, data: None };
                    samples.push(sample);
                    assert(samples@.map_values(|s: Sample| s@) =~= found.map_values(
                        |s: Sample| s@,
                    ).push(sample@));
                }
            }
        }
        i += 1;
    }
    assert(files@.take(i as int) =~= files@);
    samples
}

impl SamplerBank {
    /// The bank that is found in a folder: an instrument for each folder in it, with a note for each
    /// recording there.
    pub fn from_listing(voices: Vec<String>, folder: String, entries: Vec<FolderEntry>) -> (r: Self)
        requires
            all_named(entries@),
        ensures
            r.voices == voices,
            r.folder == folder,
            r.instruments() == listed(entries@),
    {
        let mut samplers: Vec<Sampler> = Vec::new();
        let mut i: usize = 0;
        assert(samplers@.map_values(|s: Sampler| s@) =~= listed(entries@.take(0)));
        while i < entries.len()
            invariant
                all_named(entries@),
                i <= entries@.len(),
                samplers@.map_values(|s: Sampler| s@) == listed(entries@.take(i as int)),
            decreases entries@.len() - i,
        {
            let entry: &FolderEntry = &entries[i];
            let ghost next = entries@.take(i + 1);
            assert(next.drop_last() =~= entries@.take(i as int));
            assert(next.last() == *entry);
            if !entry.is_file {
                let ghost found = samplers@;
                assert forall|j: int|
                    0 <= j < entry.files@.len() && is_recording(
                        entry.files@[j],
                    ) implies names_note(#[trigger] entry.files@[j]) by {
                    assert(names_note(entries@[i as int].files@[j]));
                }
                let sampler = Sampler {
                    name: entry.stem.clone(),
                    samples: find_recordings(&entry.files),
                };
                samplers.push(sampler);
                assert(samplers@.map_values(|s: Sampler| s@) =~= found.map_values(
                    |s: Sampler| s@,
                ).push(sampler@));
            }
            i += 1;
        }
        assert(entries@.take(i as int) =~= entries@);
        SamplerBank { samplers, voices, folder }
    }

    /// Loads the instruments with what was read from the files of their notes, one after the other.
    /// Reading may have stopped at the first file that failed.
    pub fn load_samplers(&mut self, read: Vec<Vec<Result<WavData, WavDataError>>>) -> (r: Result<
        (),
        SamplerBankError,
    >)
        requires
            covers(loading(read@), old(self).instruments().len() as int),
            forall|i: int|
                0 <= i < read@.len() ==> covers(
                    (#[trigger] read@[i])@,
                    old(self).instruments()[i].samples.len() as int,
                ),
        ensures
            reports(loading(read@), r),
            final(self).voices == old(self).voices,
            final(self).folder == old(self).folder,
            final(self).instruments() == bank_loaded(old(self).instruments(), read@),
    {
        let ghost before = self.instruments();
        let ghost outcomes = loading(read@);
        let mut i: usize = 0;
        for notes in it: read
            invariant
                before == old(self).instruments(),
                outcomes == loading(read@),
                it.seq() == read@,
                i == it.index(),
                self.voices == old(self).voices,
                self.folder == old(self).folder,
                self.samplers@.len() == before.len(),
                read@.len() <= before.len(),
                forall|k: int|
                    0 <= k < read@.len() ==> covers(
                        (#[trigger] read@[k])@,
                        before[k].samples.len() as int,
                    ),
                forall|k: int| 0 <= k < i ==> (#[trigger] outcomes[k]) is Ok,
                forall|k: int|
                    0 <= k < i ==> (#[trigger] self.samplers@[k])@ == before[k].loaded(read@[k]@),
                forall|k: int|
                    i <= k < before.len() ==> (#[trigger] self.samplers@[k])@ == before[k],
        {
            assert(i < self.samplers.len());
            assert(covers(read@[i as int]@, before[i as int].samples.len() as int));
            match self.samplers[i].load_samples(notes) {
                Ok(()) => {},
                Err(e) => {
                    proof {
                        lemma_leading_ok(outcomes, i as int);
                        assert(self.instruments() =~= bank_loaded(before, read@));
                    }
                    return Err(SamplerBankError::from(e));
                },
            }
            i += 1;
        }
        proof {
            lemma_leading_ok(outcomes, i as int);
            assert(self.instruments() =~= bank_loaded(before, read@));
        }
        Ok(())
    }

    /// Takes over the instruments as their notes were resampled, one after the other. Resampling may
    /// have stopped at the first note that failed.
    pub fn resample(
        &mut self,
        resampled: Vec<Vec<Result<Vec<Vec<u32>>, WavDataError>>>,
        new_sample_rate: u16,
    ) -> (r: Result<(), SamplerBankError>)
        requires
            resampled@.len() <= old(self).instruments().len(),
            covers(
                resampling(old(self).instruments(), resampled@),
                old(self).instruments().len() as int,
            ),
            forall|i: int|
                0 <= i < resampled@.len() ==> {
                    let instrument = old(self).instruments()[i];
                    &&& (#[trigger] resampled@[i])@.len() <= instrument.samples.len()
                    &&& covers(
                        instrument.resampling(resampled@[i]@),
                        instrument.samples.len() as int,
                    )
                },
        ensures
            reports(resampling(old(self).instruments(), resampled@), r),
            final(self).voices == old(self).voices,
            final(self).folder == old(self).folder,
            final(self).instruments() == bank_resampled(
                old(self).instruments(),
                resampled@,
                new_sample_rate,
            ),
    {
        let ghost before = self.instruments();
        let ghost outcomes = resampling(before, resampled@);
        let mut i: usize = 0;
        for notes in it: resampled
            invariant
                before == old(self).instruments(),
                outcomes == resampling(before, resampled@),
                it.seq() == resampled@,
                i == it.index(),
                self.voices == old(self).voices,
                self.folder == old(self).folder,
                self.samplers@.len() == before.len(),
                resampled@.len() <= before.len(),
                forall|k: int|
                    0 <= k < resampled@.len() ==> {
                        &&& (#[trigger] resampled@[k])@.len() <= before[k].samples.len()
                        &&& covers(
                            before[k].resampling(resampled@[k]@),
                            before[k].samples.len() as int,
                        )
                    },
                forall|k: int| 0 <= k < i ==> (#[trigger] outcomes[k]) is Ok,
                forall|k: int|
                    0 <= k < i ==> (#[trigger] self.samplers@[k])@ == before[k].resampled(
                        resampled@[k]@,
                        new_sample_rate,
                    ),
                forall|k: int|
                    i <= k < before.len() ==> (#[trigger] self.samplers@[k])@ == before[k],
        {
            assert(i < self.samplers.len());
            assert(resampled@[i as int]@.len() <= before[i as int].samples.len());
            match self.samplers[i].resample(notes, new_sample_rate) {
                Ok(()) => {},
                Err(e) => {
                    proof {
                        lemma_leading_ok(outcomes, i as int);
                        assert(self.instruments() =~= bank_resampled(
                            before,
                            resampled@,
                            new_sample_rate,
                        ));
                    }
                    return Err(SamplerBankError::from(e));
                },
            }
            i += 1;
        }
        proof {
            lemma_leading_ok(outcomes, i as int);
            assert(self.instruments() =~= bank_resampled(before, resampled@, new_sample_rate));
        }
        Ok(())
    }
}

/// There is a note for every recording and for no other file.
pub proof fn law_one_note_per_recording(files: Seq<SampleFile>)
    ensures
        recordings(files).len() == files.filter(|f: SampleFile| is_recording(f)).len(),
    decreases files.len(),
{
    reveal(Seq::filter);
    if files.len() > 0 {
        law_one_note_per_recording(files.drop_last());
    }
}

/// There is an instrument for every folder and for no file.
pub proof fn law_one_instrument_per_folder(entries: Seq<FolderEntry>)
    ensures
        listed(entries).len() == entries.filter(|e: FolderEntry| !e.is_file).len(),
    decreases entries.len(),
{
    reveal(Seq::filter);
    if entries.len() > 0 {
        law_one_instrument_per_folder(entries.drop_last());
    }
}

/// A bank that was just found has no note loaded.
pub proof fn law_nothing_loaded_yet(files: Seq<SampleFile>, i: int)
    requires
        0 <= i < recordings(files).len(),
    ensures
        recordings(files)[i].data is None,
    decreases files.len(),
{
    if i < recordings(files.drop_last()).len() {
        law_nothing_loaded_yet(files.drop_last(), i);
    }
}

/// Where nothing failed, every note is loaded.
pub proof fn law_all_loaded(
    instrument: SamplerModel,
    read: Seq<Result<WavData, WavDataError>>,
    i: int,
)
    requires
        covers(read, instrument.samples.len() as int),
        forall|k: int| 0 <= k < read.len() ==> (#[trigger] read[k]) is Ok,
        0 <= i < instrument.samples.len(),
    ensures
        instrument.loaded(read).samples[i].data == Some(read[i]->Ok_0@),
{
    if read.len() < instrument.samples.len() {
        assert(read[read.len() - 1] is Ok);
    }
    lemma_leading_ok(read, read.len() as int);
}

/// The instrument of the `k`-th folder has the name of that folder, and the recordings among the files of that
/// folder for its notes, for every folder alike.
pub proof fn law_instruments_have_their_own_folders(entries: Seq<FolderEntry>, k: int)
    requires
        0 <= k < entries.filter(|e: FolderEntry| !e.is_file).len(),
    ensures
        ({
            let folder = entries.filter(|e: FolderEntry| !e.is_file)[k];
            &&& k < listed(entries).len()
            &&& listed(entries)[k].name == folder.stem@
            &&& listed(entries)[k].samples == recordings(folder.files@)
        }),
    decreases entries.len(),
{
    reveal(Seq::filter);
    law_one_instrument_per_folder(entries);
    if entries.len() > 0 {
        let shorter = entries.drop_last();
        law_one_instrument_per_folder(shorter);
        if k < shorter.filter(|e: FolderEntry| !e.is_file).len() {
            law_instruments_have_their_own_folders(shorter, k);
        }
    }
}

/// The `k`-th note is that of the `k`-th file whose extension is `wav`: the note that the stem of the file
/// names, in that file, and not loaded.
pub proof fn law_notes_have_their_own_files(files: Seq<SampleFile>, k: int)
    requires
        0 <= k < files.filter(
            |f: SampleFile| f.extension is Some && f.extension->0@ == "wav"@,
        ).len(),
    ensures
        ({
            let file = files.filter(
                |f: SampleFile| f.extension is Some && f.extension->0@ == "wav"@,
            )[k];
            &&& k < recordings(files).len()
            &&& recordings(files)[k].filepath == file.path
            &&& recordings(files)[k].midi_note == note_or_error(file.stem->0@)->Ok_0
            &&& recordings(files)[k].data is None
        }),
    decreases files.len(),
{
    lemma_recordings_counted(files);
    reveal(Seq::filter);
    if files.len() > 0 {
        let shorter = files.drop_last();
        lemma_recordings_counted(shorter);
        if k < shorter.filter(
            |f: SampleFile| f.extension is Some && f.extension->0@ == "wav"@,
        ).len() {
            law_notes_have_their_own_files(shorter, k);
        }
    }
}

/// There are as many notes as files whose extension is `wav`.
proof fn lemma_recordings_counted(files: Seq<SampleFile>)
    ensures
        recordings(files).len() == files.filter(
            |f: SampleFile| f.extension is Some && f.extension->0@ == "wav"@,
        ).len(),
    decreases files.len(),
{
    reveal(Seq::filter);
    if files.len() > 0 {
        lemma_recordings_counted(files.drop_last());
    }
}

/// A folder after a folder: what is found in some entries and then in some more is what is found in all of them.
pub proof fn law_folders_are_listed_one_by_one(first: Seq<FolderEntry>, second: Seq<FolderEntry>)
    ensures
        listed(first + second) == listed(first) + listed(second),
    decreases second.len(),
{
    if second.len() == 0 {
        assert(first + second =~= first);
        assert(listed(first + second) =~= listed(first) + listed(second));
    } else {
        law_folders_are_listed_one_by_one(first, second.drop_last());
        assert((first + second).drop_last() =~= first + second.drop_last());
        assert((first + second).last() == second.last());
        assert(listed(first + second) =~= listed(first) + listed(second));
    }
}

/// A recording is named after a note where its stem is a letter from `a` to `g#` and a digit behind it.
pub proof fn law_named_recordings(file: SampleFile, letter: Seq<char>, octave: char)
    requires
        file.stem is Some,
        file.stem->0@ == letter.push(octave),
        crate::note::letter_offset(letter) is Some,
        '0' <= octave <= '9',
    ensures
        names_note(file),
{
    crate::note::law_every_letter_has_notes(letter, octave);
}

/// A listing can be taken over where every recording in a folder has such a name; files beside the folders and
/// files that are no recordings may have any name.
pub proof fn law_listings_that_can_be_taken_over(entries: Seq<FolderEntry>)
    requires
        forall|i: int, j: int|
            0 <= i < entries.len() && 0 <= j < entries[i].files@.len() && !entries[i].is_file
                && entries[i].files@[j].extension is Some && entries[i].files@[j].extension->0@ == "wav"@
                ==> names_note(#[trigger] entries[i].files@[j]),
    ensures
        all_named(entries),
{
}

/// Where the first `n` instruments were read without a failure, and the next one failed at note `m`, the first
/// `n` are loaded, the next one as far as it came, the others are as they were, and the failure is reported.
pub proof fn law_loading_stops_at_the_failure(
    instruments: Seq<SamplerModel>,
    read: Seq<Vec<Result<WavData, WavDataError>>>,
    n: int,
    m: int,
    r: Result<(), SamplerBankError>,
)
    requires
        0 <= n < read.len() <= instruments.len(),
        forall|k: int, j: int|
            0 <= k < n && 0 <= j < read[k]@.len() ==> (#[trigger] read[k]@[j]) is Ok,
        0 <= m < read[n]@.len(),
        forall|j: int| 0 <= j < m ==> (#[trigger] read[n]@[j]) is Ok,
        read[n]@[m] is Err,
        reports(loading(read), r),
    ensures
        r == Err::<(), SamplerBankError>(
            SamplerBankError::SamplerError(
                SamplerError::SampleError(SampleError::WavDataError(read[n]@[m]->Err_0)),
            ),
        ),
        bank_loaded(instruments, read).len() == instruments.len(),
        forall|i: int|
            0 <= i <= n ==> #[trigger] bank_loaded(instruments, read)[i] == instruments[i].loaded(
                read[i]@,
            ),
        forall|i: int|
            n < i < instruments.len() ==> #[trigger] bank_loaded(instruments, read)[i]
                == instruments[i],
{
    let outcomes = loading(read);
    assert forall|k: int| 0 <= k < n implies (#[trigger] outcomes[k]) is Ok by {
        lemma_leading_ok(read[k]@, read[k]@.len() as int);
    }
    lemma_leading_ok(read[n]@, m);
    lemma_leading_ok(outcomes, n);
}

/// Where all instruments were read without a failure, all are loaded, each with what was read for it, and
/// nothing is reported.
pub proof fn law_all_instruments_are_loaded(
    instruments: Seq<SamplerModel>,
    read: Seq<Vec<Result<WavData, WavDataError>>>,
    r: Result<(), SamplerBankError>,
)
    requires
        read.len() == instruments.len(),
        forall|k: int, j: int|
            0 <= k < read.len() && 0 <= j < read[k]@.len() ==> (#[trigger] read[k]@[j]) is Ok,
        reports(loading(read), r),
    ensures
        r is Ok,
        bank_loaded(instruments, read).len() == instruments.len(),
        forall|i: int|
            0 <= i < instruments.len() ==> #[trigger] bank_loaded(instruments, read)[i]
                == instruments[i].loaded(read[i]@),
{
    let outcomes = loading(read);
    assert forall|k: int| 0 <= k < read.len() implies (#[trigger] outcomes[k]) is Ok by {
        lemma_leading_ok(read[k]@, read[k]@.len() as int);
    }
    lemma_leading_ok(outcomes, outcomes.len() as int);
}

/// Where the first `n` instruments are loaded and were resampled, and the next one failed at note `m`, the first
/// `n` are resampled, the next one as far as it came, the others are as they were, and the failure is reported.
pub proof fn law_resampling_stops_at_the_failure(
    instruments: Seq<SamplerModel>,
    resampled: Seq<Vec<Result<Vec<Vec<u32>>, WavDataError>>>,
    new_sample_rate: u16,
    n: int,
    m: int,
    r: Result<(), SamplerBankError>,
)
    requires
        0 <= n < resampled.len() <= instruments.len(),
        forall|k: int, j: int|
            0 <= k < n && 0 <= j < resampled[k]@.len() ==> (#[trigger] resampled[k]@[j]) is Ok
                && instruments[k].samples[j].data is Some,
        0 <= m < resampled[n]@.len(),
        forall|j: int|
            0 <= j < m ==> (#[trigger] resampled[n]@[j]) is Ok && instruments[n].samples[j].data is Some,
        resampled[n]@[m] is Err || instruments[n].samples[m].data is None,
        reports(resampling(instruments, resampled), r),
    ensures
        r == Err::<(), SamplerBankError>(
            SamplerBankError::SamplerError(
                SamplerError::SampleError(
                    if instruments[n].samples[m].data is None {
                        SampleError::SampleNotLoaded
                    } else {
                        SampleError::WavDataError(resampled[n]@[m]->Err_0)
                    },
                ),
            ),
        ),
        forall|i: int|
            0 <= i <= n ==> #[trigger] bank_resampled(instruments, resampled, new_sample_rate)[i]
                == instruments[i].resampled(resampled[i]@, new_sample_rate),
        forall|i: int|
            n < i < instruments.len() ==> #[trigger] bank_resampled(
                instruments,
                resampled,
                new_sample_rate,
            )[i] == instruments[i],
{
    let outcomes = resampling(instruments, resampled);
    assert forall|k: int| 0 <= k < n implies (#[trigger] outcomes[k]) is Ok by {
        let notes = instruments[k].resampling(resampled[k]@);
        assert forall|j: int| 0 <= j < notes.len() implies (#[trigger] notes[j]) is Ok by {
            assert(resampled[k]@[j] is Ok);
        }
        lemma_leading_ok(notes, notes.len() as int);
    }
    let notes = instruments[n].resampling(resampled[n]@);
    assert forall|j: int| 0 <= j < m implies (#[trigger] notes[j]) is Ok by {
        assert(resampled[n]@[j] is Ok);
    }
    lemma_leading_ok(notes, m);
    lemma_leading_ok(outcomes, n);
}

/// Where all instruments are loaded and were resampled, all have their own resampled notes, and nothing is
/// reported.
pub proof fn law_all_instruments_are_resampled(
    instruments: Seq<SamplerModel>,
    resampled: Seq<Vec<Result<Vec<Vec<u32>>, WavDataError>>>,
    new_sample_rate: u16,
    r: Result<(), SamplerBankError>,
)
    requires
        resampled.len() == instruments.len(),
        forall|k: int, j: int|
            0 <= k < resampled.len() && 0 <= j < resampled[k]@.len() ==> (#[trigger] resampled[k]@[j]) is Ok
                && instruments[k].samples[j].data is Some,
        reports(resampling(instruments, resampled), r),
    ensures
        r is Ok,
        bank_resampled(instruments, resampled, new_sample_rate).len() == instruments.len(),
        forall|i: int|
            0 <= i < instruments.len() ==> #[trigger] bank_resampled(
                instruments,
                resampled,
                new_sample_rate,
            )[i] == instruments[i].resampled(resampled[i]@, new_sample_rate),
{
    let outcomes = resampling(instruments, resampled);
    assert forall|k: int| 0 <= k < resampled.len() implies (#[trigger] outcomes[k]) is Ok by {
        let notes = instruments[k].resampling(resampled[k]@);
        assert forall|j: int| 0 <= j < notes.len() implies (#[trigger] notes[j]) is Ok by {
            assert(resampled[k]@[j] is Ok);
        }
        lemma_leading_ok(notes, notes.len() as int);
    }
    lemma_leading_ok(outcomes, outcomes.len() as int);
}

/// A bank shows each of its instruments.
pub proof fn law_banks_show_what_they_hold(bank: SamplerBank, i: int)
    requires
        0 <= i < bank.samplers@.len(),
    ensures
        bank.instruments().len() == bank.samplers@.len(),
        bank.instruments()[i] == bank.samplers@[i]@,
{
}

} // verus!
