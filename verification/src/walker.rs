//! The per-run orchestration: classify each file once, transform the raw
//! ones, and keep the aggregate counters. The directory is modelled as the
//! list of its files' names and contents; reading and writing the real files
//! is the caller's side of the boundary.

use vstd::prelude::*;

use crate::classify::Classification;
use crate::classify::classify;
use crate::classify::is_candidate_name;
use crate::classify::spec_classify;
use crate::classify::spec_signature;
use crate::key::Key;
use crate::key::is_live;
use crate::transform::xor_chunk;
use crate::transform::xor_with_key;

verus! {

/// How one file ended: transformed, left alone, or failed with an I/O error.
#[derive(Clone, Copy, Debug, PartialEq, Eq, Structural)]
pub enum FileOutcome {
    Transformed,
    Skipped,
    Failed,
}

/// The aggregate counters of one run.
#[derive(Clone, Copy, Debug, PartialEq, Eq, Structural)]
pub struct RunResult {
    pub seen: u64,
    pub transformed: u64,
    pub skipped: u64,
    pub failed: u64,
}

impl RunResult {
    /// Every file seen ended in exactly one of the three ways.
    pub open spec fn wf(&self) -> bool {
        self.seen == self.transformed + self.skipped + self.failed
    }

    /// Fresh counters, all zero.
    pub fn new() -> (r: RunResult)
        ensures
            r.wf(),
            r.seen == 0,
            r.transformed == 0,
            r.skipped == 0,
            r.failed == 0,
    {
        RunResult { seen: 0, transformed: 0, skipped: 0, failed: 0 }
    }

    /// Records one visited file's outcome.
    pub fn record(&mut self, outcome: FileOutcome)
        requires
            old(self).wf(),
            old(self).seen < u64::MAX,
        ensures
            final(self).wf(),
            final(self).seen == old(self).seen + 1,
            final(self).transformed == old(self).transformed + (
            if outcome is Transformed {
                1int
            } else {
                0int
            }),
            final(self).skipped == old(self).skipped + (
            if outcome is Skipped {
                1int
            } else {
                0int
            }),
            final(self).failed == old(self).failed + (
            if outcome is Failed {
                1int
            } else {
                0int
            }),
    {
        self.seen = self.seen + 1;
        match outcome {
            FileOutcome::Transformed => {
                self.transformed = self.transformed + 1;
            },
            FileOutcome::Skipped => {
                self.skipped = self.skipped + 1;
            },
            FileOutcome::Failed => {
                self.failed = self.failed + 1;
            },
        }
    }
}

/// One file of the directory model: its name and its contents.
pub struct ModelFile {
    pub name: Vec<u8>,
    pub data: Vec<u8>,
}

impl View for ModelFile {
    type V = (Seq<u8>, Seq<u8>);

    open spec fn view(&self) -> (Seq<u8>, Seq<u8>) {
        (self.name@, self.data@)
    }
}

/// The views of a list of model files.
pub open spec fn file_views(files: Seq<ModelFile>) -> Seq<(Seq<u8>, Seq<u8>)> {
    files.map_values(|f: ModelFile| f@)
}

/// A file's first 4 bytes, or `None` when it is shorter than 4 bytes.
pub open spec fn spec_header(data: Seq<u8>) -> Option<Seq<u8>> {
    if data.len() >= 4 {
        Option::Some(data.take(4))
    } else {
        Option::None
    }
}

/// What one file's contents become in one run: the keystream transform when
/// its name and header classify it as raw, otherwise unchanged.
pub open spec fn spec_process(name: Seq<u8>, data: Seq<u8>, key: Seq<u8>) -> Seq<u8> {
    if spec_classify(name, spec_header(data)) is Transform {
        xor_with_key(data, key, 0)
    } else {
        data
    }
}

/// What a whole directory becomes in one run: every file processed
/// independently, names unchanged.
pub open spec fn spec_run(files: Seq<(Seq<u8>, Seq<u8>)>, key: Seq<u8>) -> Seq<
    (Seq<u8>, Seq<u8>),
> {
    files.map_values(|f: (Seq<u8>, Seq<u8>)| (f.0, spec_process(f.0, f.1, key)))
}

/// How many files of the directory one run transforms.
pub open spec fn spec_count_transformed(files: Seq<(Seq<u8>, Seq<u8>)>) -> int
    decreases files.len(),
{
    if files.len() == 0 {
        0
    } else {
        spec_count_transformed(files.drop_last()) + (
        if spec_classify(files.last().0, spec_header(files.last().1)) is Transform {
            1int
        } else {
            0int
        })
    }
}

/// Reads a file's header: its first 4 bytes, or `None` when the read fails
/// for want of bytes.
pub fn read_header(data: &Vec<u8>) -> (h: Option<Vec<u8>>)
    ensures
        crate::classify::header_view(h) == spec_header(data@),
{
    if data.len() < 4 {
        return Option::None;
    }
    let mut h: Vec<u8> = Vec::new();
    h.push(data[0]);
    h.push(data[1]);
    h.push(data[2]);
    h.push(data[3]);
    proof {
        assert(h@ =~= data@.take(4));
    }
    Option::Some(h)
}

/// Classifies one file and transforms its contents in place when it is raw.
/// The model has no I/O, so no file fails here.
pub fn process_file(name: &Vec<u8>, data: &mut Vec<u8>, key: &Key) -> (o: FileOutcome)
    requires
        key.wf(),
    ensures
        final(data)@ == spec_process(name@, old(data)@, key@),
        o == (if spec_classify(name@, spec_header(old(data)@)) is Transform {
            FileOutcome::Transformed
        } else {
            FileOutcome::Skipped
        }),
{
    let header = read_header(data);
    match classify(name, &header) {
        Classification::Transform => {
            xor_chunk(data, key, 0);
            FileOutcome::Transformed
        },
        Classification::Skip => FileOutcome::Skipped,
    }
}

/// One run over the directory model: every raw candidate file is transformed,
/// every other file is byte-identical to before, and the counters add up to
/// the number of files.
pub fn run_pass(files: Vec<ModelFile>, key: &Key) -> (out: (Vec<ModelFile>, RunResult))
    requires
        key.wf(),
        files@.len() < u64::MAX,
    ensures
        file_views(out.0@) == spec_run(file_views(files@), key@),
        out.1.wf(),
        out.1.seen == files@.len(),
        out.1.transformed == spec_count_transformed(file_views(files@)),
        out.1.failed == 0,
{
    let ghost orig = files@;
    let mut input = files;
    let mut done: Vec<ModelFile> = Vec::new();
    let mut result = RunResult::new();
    while input.len() > 0
        invariant
            key.wf(),
            orig.len() < u64::MAX,
            done@.len() + input@.len() == orig.len(),
            forall|j: int| 0 <= j < input@.len() ==> input@[j] == orig[done@.len() + j],
            forall|j: int|
                0 <= j < done@.len() ==> done@[j].name@ == orig[j].name@ && done@[j].data@
                    == spec_process(orig[j].name@, orig[j].data@, key@),
            result.wf(),
            result.seen == done@.len(),
            result.transformed == spec_count_transformed(file_views(orig.take(done@.len() as int))),
            result.failed == 0,
        decreases input@.len(),
    {
        let mut f = input.remove(0);
        let o = process_file(&f.name, &mut f.data, key);
        result.record(o);
        done.push(f);
        proof {
            let k = done@.len() as int;
            let taken = file_views(orig.take(k));
            assert(taken.drop_last() =~= file_views(orig.take(k - 1)));
            assert(taken.last() == orig[k - 1]@);
        }
    }
    proof {
        assert(orig.take(orig.len() as int) =~= orig);
        assert(file_views(done@) =~= spec_run(file_views(orig), key@));
    }
    (done, result)
}

/// Idempotence: one run settles the directory. Running again over the result
/// changes nothing, and that second run transforms zero files.
pub proof fn lemma_run_idempotent(files: Seq<(Seq<u8>, Seq<u8>)>, key: Seq<u8>)
    requires
        is_live(key),
    ensures
        spec_run(spec_run(files, key), key) == spec_run(files, key),
        spec_count_transformed(spec_run(files, key)) == 0,
    decreases files.len(),
{
    let once = spec_run(files, key);
    assert forall|i: int| 0 <= i < files.len() implies {
        &&& spec_process(once[i].0, once[i].1, key) == once[i].1
        &&& !(spec_classify(once[i].0, spec_header(once[i].1)) is Transform)
    } by {
        lemma_process_idempotent(files[i].0, files[i].1, key);
    }
    assert(spec_run(once, key) =~= once);
    lemma_count_none_transformed(once);
}

/// A list in which no file classifies as raw is transformed zero times.
proof fn lemma_count_none_transformed(files: Seq<(Seq<u8>, Seq<u8>)>)
    requires
        forall|i: int|
            0 <= i < files.len() ==> !(spec_classify(files[i].0, spec_header(files[i].1))
                is Transform),
    ensures
        spec_count_transformed(files) == 0,
    decreases files.len(),
{
    if files.len() > 0 {
        lemma_count_none_transformed(files.drop_last());
    }
}

/// Idempotence of one file: processing already-processed contents with the
/// same live key leaves them unchanged, because a transformed header can no
/// longer match the signature.
pub proof fn lemma_process_idempotent(name: Seq<u8>, data: Seq<u8>, key: Seq<u8>)
    requires
        is_live(key),
    ensures
        spec_process(name, spec_process(name, data, key), key) == spec_process(name, data, key),
        !(spec_classify(name, spec_header(spec_process(name, data, key))) is Transform),
{
    let once = spec_process(name, data, key);
    if spec_classify(name, spec_header(data)) is Transform {
        assert(is_candidate_name(name));
        assert(data.len() >= 4);
        assert(data.take(4) == spec_signature());
        assert(once == xor_with_key(data, key, 0));
        assert(once.len() == data.len());
        let header = once.take(4);
        assert(header =~= xor_with_key(spec_signature(), key, 0)) by {
            assert forall|i: int| 0 <= i < 4 implies header[i] == xor_with_key(
                spec_signature(),
                key,
                0,
            )[i] by {
                assert(data[i] == data.take(4)[i]);
            }
        }
        crate::classify::lemma_obfuscated_header_skipped(name, key);
        assert(spec_classify(name, spec_header(once)) is Skip);
    } else {
        assert(once == data);
    }
}

} // verus!
