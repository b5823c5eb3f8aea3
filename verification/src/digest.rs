//! File hashes: BLAKE3 and SHA-256 as lower-case hexadecimal text.
//!
//! The hash functions themselves are those of the `blake3` and `sha2`
//! crates. What is decided here is which of them is used and how the result
//! is reported.

use vstd::prelude::*;
use vstd::string::StringExecFns;
use sha2::Digest;
use crate::errors::{failure, prefixed, refusal, ErrorKind};
use crate::host::{Action, ActionView, Event, EventView, Step, StepView};
use crate::text::{chars_of, eq_ignoring_ascii_case, same_ignoring_ascii_case};

verus! {

/// The BLAKE3 hash of `data` in lower-case hexadecimal.
pub uninterp spec fn blake3_hex(data: Seq<u8>) -> Seq<char>;

/// The SHA-256 hash of `data` in lower-case hexadecimal.
pub uninterp spec fn sha256_hex(data: Seq<u8>) -> Seq<char>;

/// `blake3::hash` followed by `Hash::to_hex`: 32 bytes of hash written as
/// 64 hexadecimal digits.
#[verifier::external_body]
pub(crate) fn blake3_hex_of(data: &[u8]) -> (r: String)
    ensures
        r@ == blake3_hex(data@),
        r@.len() == 64,
{
    blake3::hash(data).to_hex().to_string()
}

/// `sha2::Sha256` over `data`, its output written with the `{:x}` format.
#[verifier::external_body]
pub(crate) fn sha256_hex_of(data: &[u8]) -> (r: String)
    ensures
        r@ == sha256_hex(data@),
{
    let mut hasher = sha2::Sha256::new();
    hasher.update(data);
    format!("{:x}", hasher.finalize())
}

/// Whether `algo` asks for BLAKE3: it is `blake3` in any letter case.
/// Every other word, the empty one too, stands for SHA-256.
pub open spec fn wants_blake3(algo: Seq<char>) -> bool {
    same_ignoring_ascii_case(algo, seq!['b', 'l', 'a', 'k', 'e', '3'])
}

/// The report on the hash of a file: the name of the algorithm, the hash,
/// and on a second line the path.
pub open spec fn hash_report(algo: Seq<char>, filepath: Seq<char>, data: Seq<u8>) -> Seq<char> {
    let hash = if wants_blake3(algo) {
        "BLAKE3: "@ + blake3_hex(data)
    } else {
        "SHA256: "@ + sha256_hex(data)
    };
    hash + "\n File: "@ + filepath
}

/// Writes the report on the hash of a file (see [`hash_report`]).
pub fn hash_report_of(algo: &str, filepath: &str, data: &Vec<u8>) -> (r: String)
    ensures
        r@ == hash_report(algo@, filepath@, data@),
{
    let word: Vec<char> = vec!['b', 'l', 'a', 'k', 'e', '3'];
    assert(word@ =~= seq!['b', 'l', 'a', 'k', 'e', '3']);
    let mut out = if eq_ignoring_ascii_case(&chars_of(algo), &word) {
        prefixed("BLAKE3: ", blake3_hex_of(data.as_slice()).as_str())
    } else {
        prefixed("SHA256: ", sha256_hex_of(data.as_slice()).as_str())
    };
    out.append("\n File: ");
    out.append(filepath);
    out
}

/// Where a hash job stands.
#[derive(Clone, Copy, Debug, PartialEq, Eq, Structural)]
pub enum HashPhase {
    /// Not begun.
    Fresh,
    /// The file is being read.
    AwaitBytes,
    /// Ended.
    Closed,
}

/// The hashing of one file.
pub struct HashJob {
    path: String,
    algo: String,
    phase: HashPhase,
}

impl HashJob {
    /// The file that is hashed.
    pub closed spec fn path(&self) -> Seq<char> {
        self.path@
    }

    /// The algorithm asked for.
    pub closed spec fn algo(&self) -> Seq<char> {
        self.algo@
    }

    /// Where the job stands.
    pub closed spec fn phase(&self) -> HashPhase {
        self.phase
    }
}

/// What a hash job answers to `event`, and where it stands afterwards.
pub open spec fn hash_transition(
    phase: HashPhase,
    path: Seq<char>,
    algo: Seq<char>,
    event: EventView,
    next: HashPhase,
    step: StepView<Seq<char>>,
) -> bool {
    match (phase, event) {
        (HashPhase::Fresh, EventView::Start) => {
            &&& next == HashPhase::AwaitBytes
            &&& step == StepView::<Seq<char>>::Perform(ActionView::ReadFile { path })
        },
        (HashPhase::AwaitBytes, EventView::Bytes { data }) => {
            &&& next == HashPhase::Closed
            &&& step == StepView::<Seq<char>>::Finished(Ok(hash_report(algo, path, data)))
        },
        (HashPhase::AwaitBytes, EventView::Failed { message }) => {
            &&& next == HashPhase::Closed
            &&& step == StepView::<Seq<char>>::Finished(
                Err((ErrorKind::Io, "Error reading file: "@ + message)),
            )
        },
        _ => {
            &&& next == HashPhase::Closed
            &&& step == StepView::<Seq<char>>::Finished(
                Err((ErrorKind::InvalidArgument, "Unexpected event"@)),
            )
        },
    }
}

impl HashJob {
    /// Takes the job one event further (see [`hash_transition`]).
    pub fn advance(&mut self, event: Event) -> (step: Step<String>)
        ensures
            final(self).path() == old(self).path(),
            final(self).algo() == old(self).algo(),
            hash_transition(
                old(self).phase(),
                old(self).path(),
                old(self).algo(),
                event@,
                final(self).phase(),
                step.text(),
            ),
    {
        let phase = self.phase;
        self.phase = HashPhase::Closed;
        match (phase, event) {
            (HashPhase::Fresh, Event::Start) => {
                self.phase = HashPhase::AwaitBytes;
                Step::Perform(Action::ReadFile { path: self.path.clone() })
            },
            (HashPhase::AwaitBytes, Event::Bytes { data }) => Step::Finished(
                Ok(hash_report_of(self.algo.as_str(), self.path.as_str(), &data)),
            ),
            (HashPhase::AwaitBytes, Event::Failed { message }) => Step::Finished(
                Err(failure(ErrorKind::Io, prefixed("Error reading file: ", message.as_str()))),
            ),
            _ => Step::Finished(
                Err(refusal()),
            ),
        }
    }
}

/// Begins the hashing of the file at `filepath` with the algorithm `algo`
/// (see [`wants_blake3`]). The job is advanced with [`Event::Start`] first.
pub fn calculate_hash_noninteractive(filepath: &str, algo: &str) -> (job: HashJob)
    ensures
        job.path() == filepath@,
        job.algo() == algo@,
        job.phase() == HashPhase::Fresh,
{
    HashJob {
        path: String::from_str(filepath),
        algo: String::from_str(algo),
        phase: HashPhase::Fresh,
    }
}

} // verus!
