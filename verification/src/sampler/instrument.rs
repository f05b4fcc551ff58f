//! An instrument made of recorded notes.
use std::path::Path;

use vstd::prelude::*;

use crate::command::{owned_path, to_owned};
use crate::sampler::sample::{can_gather, gathered, Sample, SampleError, SampleModel};
use crate::sampler::wav::{WavData, WavDataError, WavModel};

verus! {

/// What can go wrong with an instrument.
#[derive(Debug)]
pub enum SamplerError {
    SampleError(SampleError),
    MismatchedSampleRates,
    NoSamplesFound,
}

impl From<SampleError> for SamplerError {
    fn from(e: SampleError) -> (r: Self) {
        SamplerError::SampleError(e)
    }
}

impl vstd::std_specs::convert::FromSpecImpl<SampleError> for SamplerError {
    open spec fn obeys_from_spec() -> bool {
        true
    }

    open spec fn from_spec(e: SampleError) -> Self {
        SamplerError::SampleError(e)
    }
}

/// An instrument: a name, and recorded notes of which the one nearest to the desired note is played.
#[derive(Debug)]
pub struct Sampler {
    pub name: String,
    pub samples: Vec<Sample>,
}

/// What an instrument consists of.
pub struct SamplerModel {
    pub name: Seq<char>,
    pub samples: Seq<SampleModel>,
}

impl View for Sampler {
    type V = SamplerModel;

    open spec fn view(&self) -> SamplerModel {
        SamplerModel { name: self.name@, samples: self.samples@.map_values(|s: Sample| s@) }
    }
}

/// How many semitones two notes are apart.
pub open spec fn distance(a: u8, b: u8) -> int {
    if a < b {
        b - a
    } else {
        a - b
    }
}

/// The recorded note `i` is the first of those that are nearest to `midi_note`.
pub open spec fn is_closest(samples: Seq<SampleModel>, midi_note: u8, i: int) -> bool {
    &&& 0 <= i < samples.len()
    &&& forall|j: int|
        0 <= j < samples.len() ==> distance(samples[i].midi_note, midi_note) <= distance(
            (#[trigger] samples[j]).midi_note,
            midi_note,
        )
    &&& forall|j: int|
        0 <= j < i ==> distance(samples[i].midi_note, midi_note) < distance(
            (#[trigger] samples[j]).midi_note,
            midi_note,
        )
}

/// How many outcomes succeeded before the first that failed.
pub open spec fn leading_ok<T, E>(outcomes: Seq<Result<T, E>>) -> int
    decreases outcomes.len(),
{
    if outcomes.len() == 0 || outcomes[0] is Err {
        0
    } else {
        1 + leading_ok(outcomes.skip(1))
    }
}

/// One outcome per item, or fewer of which the last one failed.
pub open spec fn covers<T, E>(outcomes: Seq<Result<T, E>>, count: int) -> bool {
    ||| outcomes.len() == count
    ||| 0 < outcomes.len() < count && outcomes.last() is Err
}

/// `n` outcomes that succeeded, and then one that failed or none at all, are what `leading_ok` counts.
pub proof fn lemma_leading_ok<T, E>(outcomes: Seq<Result<T, E>>, n: int)
    requires
        0 <= n <= outcomes.len(),
        forall|i: int| 0 <= i < n ==> (#[trigger] outcomes[i]) is Ok,
        n < outcomes.len() ==> outcomes[n] is Err,
    ensures
        leading_ok(outcomes) == n,
    decreases n,
{
    if n > 0 {
        assert(outcomes[0] is Ok);
        let rest = outcomes.skip(1);
        assert forall|i: int| 0 <= i < n - 1 implies (#[trigger] rest[i]) is Ok by {
            assert(rest[i] == outcomes[i + 1]);
        }
        lemma_leading_ok(rest, n - 1);
    }
}

impl SamplerModel {
    /// The instrument after its notes were loaded up to the first that failed.
    pub open spec fn loaded(self, read: Seq<Result<WavData, WavDataError>>) -> SamplerModel {
        SamplerModel {
            samples: Seq::new(
                self.samples.len(),
                |i: int|
                    if i < leading_ok(read) {
                        SampleModel { data: Some(read[i]->Ok_0@), ..self.samples[i] }
                    } else {
                        self.samples[i]
                    },
            ),
            ..self
        }
    }

    /// How many notes are resampled before one fails: it is not loaded, or its resampling failed.
    pub open spec fn leading_resampled(
        self,
        resampled: Seq<Result<Vec<Vec<u32>>, WavDataError>>,
    ) -> int {
        leading_ok(self.resampling(resampled))
    }

    /// What resampling comes to, note by note.
    pub open spec fn resampling(
        self,
        resampled: Seq<Result<Vec<Vec<u32>>, WavDataError>>,
    ) -> Seq<Result<Vec<Vec<u32>>, SampleError>> {
        Seq::new(
            resampled.len(),
            |i: int|
                match (self.samples[i].data, resampled[i]) {
                    (None, _) => Err(SampleError::SampleNotLoaded),
                    (Some(_), Err(e)) => Err(SampleError::WavDataError(e)),
                    (Some(_), Ok(waves)) => Ok(waves),
                },
        )
    }

    /// The instrument after its notes were resampled up to the first that failed.
    pub open spec fn resampled(
        self,
        resampled: Seq<Result<Vec<Vec<u32>>, WavDataError>>,
        new_sample_rate: u16,
    ) -> SamplerModel {
        SamplerModel {
            samples: Seq::new(
                self.samples.len(),
                |i: int|
                    if i < self.leading_resampled(resampled) {
                        SampleModel {
                            data: Some(
                                WavModel {
                                    sample_rate: new_sample_rate,
                                    channels: resampled[i]->Ok_0@.map_values(|w: Vec<u32>| w@),
                                    sample_length: self.samples[i].data->0.sample_length,
                                },
                            ),
                            ..self.samples[i]
                        }
                    } else {
                        self.samples[i]
                    },
            ),
            ..self
        }
    }
}

impl Sampler {
    /// An instrument made of one note, whose sound was read from `filepath`.
    pub fn from_single_file(filepath: &Path, wav: WavData, name: &str, midi_note: u8) -> (r: Self)
        ensures
            r@ == (SamplerModel {
                name: name@,
                samples: seq![
                    SampleModel { filepath: owned_path(filepath), midi_note, data: Some(wav@) },
                ],
            }),
    {
        let mut samples: Vec<Sample> = Vec::new();
        samples.push(Sample { filepath: to_owned(filepath), midi_note, data: Some(wav) });
        let r = Sampler { name: name.to_owned(), samples };
        assert(r@.samples =~= seq![
            SampleModel { filepath: owned_path(filepath), midi_note, data: Some(wav@) },
        ]);
        r
    }

    /// Loads the notes with what was read from their files, one after the other. Reading may have
    /// stopped at the first file that failed.
    pub fn load_samples(&mut self, read: Vec<Result<WavData, WavDataError>>) -> (r: Result<
        (),
        SamplerError,
    >)
        requires
            covers(read@, old(self)@.samples.len() as int),
        ensures
            final(self)@ == old(self)@.loaded(read@),
            ({
                let n = leading_ok(read@);
                if n < read@.len() {
                    r == Err::<(), SamplerError>(
                        SamplerError::SampleError(SampleError::WavDataError(read@[n]->Err_0)),
                    )
                } else {
                    r is Ok
                }
            }),
    {
        let ghost before = self@;
        let mut i: usize = 0;
        for outcome in it: read
            invariant
                before == old(self)@,
                it.seq() == read@,
                i == it.index(),
                self.name@ == before.name,
                self.samples@.len() == before.samples.len(),
                read@.len() <= before.samples.len(),
                forall|k: int| 0 <= k < i ==> (#[trigger] read@[k]) is Ok,
                forall|k: int|
                    0 <= k < i ==> (#[trigger] self.samples@[k])@ == (SampleModel {
                        data: Some(read@[k]->Ok_0@),
                        ..before.samples[k]
                    }),
                forall|k: int|
                    i <= k < before.samples.len() ==> (#[trigger] self.samples@[k])@
                        == before.samples[k],
        {
            assert(i < self.samples.len());
            match self.samples[i].load(outcome) {
                Ok(()) => {},
                Err(e) => {
                    proof {
                        lemma_leading_ok(read@, i as int);
                        assert(self@.samples =~= before.loaded(read@).samples);
                    }
                    return Err(SamplerError::from(e));
                },
            }
            i += 1;
        }
        proof {
            lemma_leading_ok(read@, i as int);
            assert(self@.samples =~= before.loaded(read@).samples);
        }
        Ok(())
    }

    /// Takes over the notes as they were resampled, one after the other. Resampling may have stopped at
    /// the first note that failed.
    pub fn resample(
        &mut self,
        resampled: Vec<Result<Vec<Vec<u32>>, WavDataError>>,
        new_sample_rate: u16,
    ) -> (r: Result<(), SamplerError>)
        requires
            resampled@.len() <= old(self)@.samples.len(),
            covers(old(self)@.resampling(resampled@), old(self)@.samples.len() as int),
        ensures
            final(self)@ == old(self)@.resampled(resampled@, new_sample_rate),
            ({
                let outcomes = old(self)@.resampling(resampled@);
                let n = old(self)@.leading_resampled(resampled@);
                if n < outcomes.len() {
                    r == Err::<(), SamplerError>(SamplerError::SampleError(outcomes[n]->Err_0))
                } else {
                    r is Ok
                }
            }),
    {
        let ghost before = self@;
        let ghost outcomes = before.resampling(resampled@);
        let mut i: usize = 0;
        for outcome in it: resampled
            invariant
                before == old(self)@,
                outcomes == before.resampling(resampled@),
                it.seq() == resampled@,
                i == it.index(),
                self.name@ == before.name,
                self.samples@.len() == before.samples.len(),
                resampled@.len() <= before.samples.len(),
                forall|k: int| 0 <= k < i ==> (#[trigger] outcomes[k]) is Ok,
                forall|k: int|
                    0 <= k < i ==> (#[trigger] self.samples@[k])@ == (SampleModel {
                        data: Some(
                            WavModel {
                                sample_rate: new_sample_rate,
                                channels: resampled@[k]->Ok_0@.map_values(|w: Vec<u32>| w@),
                                sample_length: before.samples[k].data->0.sample_length,
                            },
                        ),
                        ..before.samples[k]
                    }),
                forall|k: int|
                    i <= k < before.samples.len() ==> (#[trigger] self.samples@[k])@
                        == before.samples[k],
        {
            assert(i < self.samples.len());
            match self.samples[i].resample(outcome, new_sample_rate) {
                Ok(()) => {},
                Err(e) => {
                    proof {
                        lemma_leading_ok(outcomes, i as int);
                        assert(self@.samples =~= before.resampled(
                            resampled@,
                            new_sample_rate,
                        ).samples);
                    }
                    return Err(SamplerError::from(e));
                },
            }
            i += 1;
        }
        proof {
            lemma_leading_ok(outcomes, i as int);
            assert(self@.samples =~= before.resampled(resampled@, new_sample_rate).samples);
        }
        Ok(())
    }

    /// The recorded note nearest to `midi_note`; of several, the first.
    pub fn closest_sample(&self, midi_note: u8) -> (r: Result<usize, SamplerError>)
        ensures
            self@.samples.len() == 0 ==> r == Err::<usize, SamplerError>(
                SamplerError::NoSamplesFound,
            ),
            self@.samples.len() > 0 ==> r is Ok && is_closest(
                self@.samples,
                midi_note,
                r->Ok_0 as int,
            ),
    {
        if self.samples.len() == 0 {
            return Err(SamplerError::NoSamplesFound);
        }
        let mut closest: usize = 0;
        let mut i: usize = 1;
        while i < self.samples.len()
            invariant
                closest < i <= self.samples@.len(),
                forall|j: int|
                    0 <= j < i ==> distance(self@.samples[closest as int].midi_note, midi_note)
                        <= distance((#[trigger] self@.samples[j]).midi_note, midi_note),
                forall|j: int|
                    0 <= j < closest ==> distance(
                        self@.samples[closest as int].midi_note,
                        midi_note,
                    ) < distance((#[trigger] self@.samples[j]).midi_note, midi_note),
            decreases self.samples@.len() - i,
        {
            assert(self@.samples[i as int].midi_note == self.samples@[i as int].midi_note);
            assert(self@.samples[closest as int].midi_note
                == self.samples@[closest as int].midi_note);
            if semitones(self.samples[i].midi_note, midi_note) < semitones(
                self.samples[closest].midi_note,
                midi_note,
            ) {
                closest = i;
            }
            i += 1;
        }
        Ok(closest)
    }

    /// The samples to be played for a note, out of the recorded note that is nearest to it, for some
    /// frames that lie between two sample indices each.
    pub fn get_samples(
        &self,
        midi_note: u8,
        indices: &Vec<(usize, usize)>,
        output_channels: usize,
    ) -> (r: Result<Vec<Option<(u32, Option<u32>)>>, SamplerError>)
        requires
            forall|i: int|
                is_closest(self@.samples, midi_note, i) && (
                #[trigger] self@.samples[i]).data is Some ==> can_gather(
                    self@.samples[i].data->0,
                    indices@.len() as int,
                    output_channels as int,
                ),
        ensures
            self@.samples.len() == 0 ==> r == Err::<
                Vec<Option<(u32, Option<u32>)>>,
                SamplerError,
            >(SamplerError::NoSamplesFound),
            forall|i: int|
                is_closest(self@.samples, midi_note, i) ==> match (
                #[trigger] self@.samples[i]).data {
                    None => r == Err::<Vec<Option<(u32, Option<u32>)>>, SamplerError>(
                        SamplerError::SampleError(SampleError::SampleNotLoaded),
                    ),
                    Some(wav) => r is Ok && r->Ok_0@ == gathered(
                        wav,
                        indices@,
                        output_channels as int,
                    ),
                },
    {
        let closest: usize = match self.closest_sample(midi_note) {
            Ok(i) => i,
            Err(e) => {
                return Err(e);
            },
        };
        proof {
            assert(self@.samples[closest as int] == self.samples@[closest as int]@);
            assert forall|i: int| is_closest(self@.samples, midi_note, i) implies i == closest by {
                law_one_closest(self@.samples, midi_note, i, closest as int);
            }
        }
        match self.samples[closest].get_samples(indices, output_channels) {
            Ok(output) => Ok(output),
            Err(e) => Err(SamplerError::from(e)),
        }
    }
}

/// How many semitones two notes are apart.
fn semitones(a: u8, b: u8) -> (r: u8)
    ensures
        r == distance(a, b),
{
    if a < b {
        b - a
    } else {
        a - b
    }
}

/// An instrument with notes has one to be played for any note.
pub proof fn law_some_closest(samples: Seq<SampleModel>, midi_note: u8)
    requires
        samples.len() > 0,
    ensures
        exists|i: int| is_closest(samples, midi_note, i),
    decreases samples.len(),
{
    let rest = samples.drop_last();
    let last = samples.len() - 1;
    if rest.len() == 0 {
        assert(is_closest(samples, midi_note, 0));
    } else {
        law_some_closest(rest, midi_note);
        let i = choose|i: int| is_closest(rest, midi_note, i);
        assert(rest[i] == samples[i]);
        assert forall|j: int| 0 <= j < last implies distance(
            samples[i].midi_note,
            midi_note,
        ) <= distance((#[trigger] samples[j]).midi_note, midi_note) by {
            assert(rest[j] == samples[j]);
        }
        assert forall|j: int| 0 <= j < i implies distance(samples[i].midi_note, midi_note)
            < distance((#[trigger] samples[j]).midi_note, midi_note) by {
            assert(rest[j] == samples[j]);
        }
        if distance(samples[last].midi_note, midi_note) < distance(
            samples[i].midi_note,
            midi_note,
        ) {
            assert(is_closest(samples, midi_note, last));
        } else {
            assert(is_closest(samples, midi_note, i));
        }
    }
}

/// Which recorded note is played is never in doubt.
pub proof fn law_one_closest(samples: Seq<SampleModel>, midi_note: u8, i: int, j: int)
    requires
        is_closest(samples, midi_note, i),
        is_closest(samples, midi_note, j),
    ensures
        i == j,
{
    assert(samples[i] == samples[i] && samples[j] == samples[j]);
}

/// A note that was recorded itself is played from a recording of it.
pub proof fn law_recorded_note_wins(samples: Seq<SampleModel>, midi_note: u8, i: int, j: int)
    requires
        is_closest(samples, midi_note, i),
        0 <= j < samples.len(),
        samples[j].midi_note == midi_note,
    ensures
        samples[i].midi_note == midi_note,
{
}

/// Loading and resampling leave alone which notes there are and where their files are.
pub proof fn law_notes_stay(
    instrument: SamplerModel,
    read: Seq<Result<WavData, WavDataError>>,
    resampled: Seq<Result<Vec<Vec<u32>>, WavDataError>>,
    new_sample_rate: u16,
    i: int,
)
    requires
        0 <= i < instrument.samples.len(),
    ensures
        instrument.loaded(read).samples.len() == instrument.samples.len(),
        instrument.loaded(read).samples[i].midi_note == instrument.samples[i].midi_note,
        instrument.loaded(read).samples[i].filepath == instrument.samples[i].filepath,
        instrument.resampled(resampled, new_sample_rate).samples.len()
            == instrument.samples.len(),
        instrument.resampled(resampled, new_sample_rate).samples[i].midi_note
            == instrument.samples[i].midi_note,
        instrument.resampled(resampled, new_sample_rate).samples[i].filepath
            == instrument.samples[i].filepath,
{
}

/// Notes are as far apart as the numbers they have, whichever comes first.
pub proof fn law_distance_is_the_difference(a: u8, b: u8)
    ensures
        distance(a, b) == distance(b, a),
        a >= b ==> distance(a, b) == a - b,
        distance(a, b) == 0 <==> a == b,
{
}

/// The recorded note that is played is as near to the note as any other, over the integers, and nearer than
/// any before it.
pub proof fn law_nearest_note_is_played(samples: Seq<SampleModel>, midi_note: u8, i: int, j: int)
    requires
        is_closest(samples, midi_note, i),
        0 <= j < samples.len(),
    ensures
        ({
            let chosen = samples[i].midi_note - midi_note;
            let other = samples[j].midi_note - midi_note;
            &&& (if chosen < 0 { -chosen } else { chosen }) <= (if other < 0 { -other } else { other })
            &&& j < i ==> (if chosen < 0 { -chosen } else { chosen }) < (if other < 0 { -other } else { other })
        }),
{
    assert(samples[j] == samples[j]);
}

/// An outcome for each note is enough, and so are fewer of which the last one failed.
pub proof fn law_outcomes_up_to_a_failure_are_enough<T, E>(outcomes: Seq<Result<T, E>>, count: int)
    ensures
        outcomes.len() == count ==> covers(outcomes, count),
        0 < outcomes.len() < count && outcomes.last() is Err ==> covers(outcomes, count),
{
}

/// Where the first `n` files were read and the next one was not, the first `n` notes are loaded with what was
/// read from their own files, and the others are as they were.
pub proof fn law_notes_are_loaded_from_their_files(
    instrument: SamplerModel,
    read: Seq<Result<WavData, WavDataError>>,
    n: int,
    i: int,
)
    requires
        0 <= n <= read.len(),
        forall|k: int| 0 <= k < n ==> (#[trigger] read[k]) is Ok,
        n < read.len() ==> read[n] is Err,
        0 <= i < instrument.samples.len(),
    ensures
        instrument.loaded(read).name == instrument.name,
        instrument.loaded(read).samples.len() == instrument.samples.len(),
        i < n ==> instrument.loaded(read).samples[i].data == Some(read[i]->Ok_0@),
        i < n ==> instrument.loaded(read).samples[i].midi_note == instrument.samples[i].midi_note,
        i < n ==> instrument.loaded(read).samples[i].filepath == instrument.samples[i].filepath,
        i >= n ==> instrument.loaded(read).samples[i] == instrument.samples[i],
{
    lemma_leading_ok(read, n);
}

/// Where the first `n` notes are loaded and were resampled and the next one is not or was not, the first `n`
/// have the new rate and their own resampled channels, and the others are as they were.
pub proof fn law_notes_are_resampled(
    instrument: SamplerModel,
    resampled: Seq<Result<Vec<Vec<u32>>, WavDataError>>,
    new_sample_rate: u16,
    n: int,
    i: int,
)
    requires
        0 <= n <= resampled.len() <= instrument.samples.len(),
        forall|k: int|
            0 <= k < n ==> (#[trigger] resampled[k]) is Ok && instrument.samples[k].data is Some,
        n < resampled.len() ==> resampled[n] is Err || instrument.samples[n].data is None,
        0 <= i < instrument.samples.len(),
    ensures
        ({
            let after = instrument.resampled(resampled, new_sample_rate);
            &&& after.name == instrument.name
            &&& after.samples.len() == instrument.samples.len()
            &&& i >= n ==> after.samples[i] == instrument.samples[i]
            &&& i < n ==> {
                &&& after.samples[i].data is Some
                &&& after.samples[i].data->0.sample_rate == new_sample_rate
                &&& after.samples[i].data->0.channels.len() == resampled[i]->Ok_0@.len()
                &&& forall|c: int|
                    0 <= c < resampled[i]->Ok_0@.len() ==> #[trigger] after.samples[i].data->0.channels[c]
                        == resampled[i]->Ok_0@[c]@
                &&& after.samples[i].data->0.sample_length
                    == instrument.samples[i].data->0.sample_length
                &&& after.samples[i].midi_note == instrument.samples[i].midi_note
                &&& after.samples[i].filepath == instrument.samples[i].filepath
            }
        }),
{
    let outcomes = instrument.resampling(resampled);
    assert forall|k: int| 0 <= k < n implies (#[trigger] outcomes[k]) is Ok by {
        assert(resampled[k] is Ok);
    }
    lemma_leading_ok(outcomes, n);
}

/// Resampling a note that is not loaded fails as such, and one that is loaded fails with the error of the
/// resampler.
pub proof fn law_why_resampling_fails(
    instrument: SamplerModel,
    resampled: Seq<Result<Vec<Vec<u32>>, WavDataError>>,
    i: int,
)
    requires
        0 <= i < resampled.len(),
    ensures
        instrument.resampling(resampled).len() == resampled.len(),
        instrument.samples[i].data is None ==> instrument.resampling(resampled)[i] == Err::<
            Vec<Vec<u32>>,
            SampleError,
        >(SampleError::SampleNotLoaded),
        instrument.samples[i].data is Some && resampled[i] is Err ==> instrument.resampling(resampled)[i]
            == Err::<Vec<Vec<u32>>, SampleError>(SampleError::WavDataError(resampled[i]->Err_0)),
        instrument.samples[i].data is Some && resampled[i] is Ok ==> instrument.resampling(
            resampled,
        )[i] is Ok,
{
}

/// An instrument shows its name and each of its notes.
pub proof fn law_instruments_show_what_they_hold(s: Sampler, i: int)
    requires
        0 <= i < s.samples@.len(),
    ensures
        s@.name == s.name@,
        s@.samples.len() == s.samples@.len(),
        s@.samples[i] == s.samples@[i]@,
{
}

} // verus!
