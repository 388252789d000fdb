//! Job dispatch and result polling: submission validation, client tokens,
//! admission control of pollers and what a poll reports.

use vstd::prelude::*;
use crate::types::{
    JobOutcome, JobPoll, JobResult, JobSubmission, ModuleId, ModuleInfo, ResultView,
    SubmissionView, Vector,
};

verus! {

/// Why a submission was not dispatched.
#[derive(Debug, Clone, Copy, PartialEq, Eq, Structural)]
pub enum SubmitError {
    /// Start and stop are the same point.
    EqualEndpoints,
    /// No worker of the requested module is alive.
    ModuleNotRegistered,
    /// There is no map with the requested id.
    MapNotFound,
    /// A point lies outside the map.
    OutOfBounds,
    /// The store holds data that cannot be used (an unreadable map image,
    /// an exhausted job id counter).
    Internal,
}

/// The message shown to the client for each error.
pub open spec fn message_of(e: SubmitError) -> Seq<char> {
    match e {
        SubmitError::EqualEndpoints => "Start and end points are equal"@,
        SubmitError::ModuleNotRegistered => "Module does not exist"@,
        SubmitError::MapNotFound => "Invalid map id"@,
        SubmitError::OutOfBounds => "Points are out of bounds"@,
        SubmitError::Internal => "internal server error"@,
    }
}

impl SubmitError {
    /// The message shown to the client.
    pub fn message(&self) -> (r: &'static str)
        ensures
            r@ == message_of(*self),
    {
        match self {
            SubmitError::EqualEndpoints => "Start and end points are equal",
            SubmitError::ModuleNotRegistered => "Module does not exist",
            SubmitError::MapNotFound => "Invalid map id",
            SubmitError::OutOfBounds => "Points are out of bounds",
            SubmitError::Internal => "internal server error",
        }
    }
}

/// Why a poll produced no answer about the job.
#[derive(Debug, Clone, Copy, PartialEq, Eq, Structural)]
pub enum PollError {
    /// Too many clients are polling; try again shortly.
    Unavailable,
    /// The token is unknown or has expired.
    NotFound,
}

/// Whether the module `m` is one of `modules`.
pub open spec fn lists_module(modules: Seq<ModuleInfo>, m: ModuleId) -> bool {
    exists|i: int| 0 <= i < modules.len() && modules[i]@ == m
}

/// Whether `p` lies strictly inside a map of the given size.
pub open spec fn inside(p: Vector, size: (u32, u32)) -> bool {
    p.x < size.0 && p.y < size.1
}

/// The verdict on a submission, checks in order: distinct endpoints, a
/// registered module (`registered`), an existing map (`map_size`), both points inside it.
pub open spec fn validation(
    s: SubmissionView,
    registered: bool,
    map_size: Option<(u32, u32)>,
) -> Result<(), SubmitError> {
    if s.0 == s.1 {
        Err(SubmitError::EqualEndpoints)
    } else if !registered {
        Err(SubmitError::ModuleNotRegistered)
    } else {
        match map_size {
            None => Err(SubmitError::MapNotFound),
            Some(size) => if inside(s.0, size) && inside(s.1, size) {
                Ok(())
            } else {
                Err(SubmitError::OutOfBounds)
            },
        }
    }
}

/// The width and height that the PNG decoder reads from an image's header,
/// or none where it refuses the data.
pub uninterp spec fn png_size(data: Seq<u8>) -> Option<(u32, u32)>;

/// Relies on `png::Decoder::read_info`: it reads the image header and reports
/// the width and height, or an error for data that is no PNG image.
#[verifier::external_body]
fn decode_png_size(data: &Vec<u8>) -> (r: Option<(u32, u32)>)
    ensures
        r == png_size(data@),
{
    match png::Decoder::new(data.as_slice()).read_info() {
        Ok((info, _)) => Some((info.width, info.height)),
        Err(_) => None,
    }
}

/// The verdict on a submission whose map is stored as PNG data `map_png`
/// (none where the map does not exist); undecodable map data is an internal
/// error once the earlier checks have passed.
pub open spec fn validation_of_png(
    s: SubmissionView,
    modules: Seq<ModuleInfo>,
    map_png: Option<Seq<u8>>,
) -> Result<(), SubmitError> {
    let listed = lists_module(modules, s.3);
    match map_png {
        None => validation(s, listed, None),
        Some(d) => match png_size(d) {
            Some(size) => validation(s, listed, Some(size)),
            None => if s.0 == s.1 || !listed {
                validation(s, listed, None)
            } else {
                Err(SubmitError::Internal)
            },
        },
    }
}

pub(crate) fn is_listed(modules: &Vec<ModuleInfo>, m: &ModuleInfo) -> (r: bool)
    ensures
        r == lists_module(modules@, m@),
{
    let mut i: usize = 0;
    while i < modules.len()
        invariant
            i <= modules.len(),
            forall|j: int| 0 <= j < i ==> modules@[j]@ != m@,
        decreases modules.len() - i,
    {
        if modules[i].same_as(m) {
            return true;
        }
        i = i + 1;
    }
    false
}

impl JobSubmission {
    /// Checks the submission, given whether its module is registered and the
    /// size of its map (none where the map does not exist).
    pub fn check(&self, registered: bool, map_size: Option<(u32, u32)>) -> (r: Result<(), SubmitError>)
        ensures
            r == validation(self@, registered, map_size),
    {
        if self.start == self.stop {
            return Err(SubmitError::EqualEndpoints);
        }
        if !registered {
            return Err(SubmitError::ModuleNotRegistered);
        }
        match map_size {
            None => Err(SubmitError::MapNotFound),
            Some((w, h)) => {
                if self.start.x < w && self.start.y < h && self.stop.x < w && self.stop.y < h {
                    Ok(())
                } else {
                    Err(SubmitError::OutOfBounds)
                }
            },
        }
    }

    /// Checks the submission against the registered `modules` and the size of
    /// its map (none where the map does not exist); the first failed check wins.
    pub fn validity_check(&self, modules: &Vec<ModuleInfo>, map_size: Option<(u32, u32)>) -> (r:
        Result<(), SubmitError>)
        ensures
            r == validation(self@, lists_module(modules@, self.algorithm@), map_size),
    {
        let listed = is_listed(modules, &self.algorithm);
        self.check(listed, map_size)
    }

    /// Checks the submission against the registered `modules` and the stored
    /// PNG image of its map (none where the map does not exist).
    pub fn validity_check_png(&self, modules: &Vec<ModuleInfo>, map_png: Option<&Vec<u8>>) -> (r:
        Result<(), SubmitError>)
        ensures
            r == validation_of_png(
                self@,
                modules@,
                match map_png {
                    Some(d) => Some(d@),
                    None => None,
                },
            ),
    {
        let listed = is_listed(modules, &self.algorithm);
        match map_png {
            None => self.check(listed, None),
            Some(d) => {
                if self.start == self.stop || !listed {
                    return self.check(listed, None);
                }
                match decode_png_size(d) {
                    Some(size) => self.check(listed, Some(size)),
                    None => Err(SubmitError::Internal),
                }
            },
        }
    }
}

/// The job id that the shared job counter yields once incremented to
/// `counter`; none where it does not fit a job id.
pub fn next_job_id(counter: i64) -> (r: Option<i32>)
    ensures
        0 < counter <= i32::MAX ==> r == Some(counter as i32),
        !(0 < counter <= i32::MAX) ==> r is None,
{
    if 0 < counter && counter <= i32::MAX as i64 {
        Some(counter as i32)
    } else {
        None
    }
}

/// The number of bytes in a token before encoding.
pub const TOKEN_BYTES: usize = 64;

/// The length of the unpadded base64 text of `n` bytes.
pub open spec fn base64_len(n: nat) -> nat {
    4 * (n / 3) + if n % 3 == 1 {
        2nat
    } else if n % 3 == 2 {
        3nat
    } else {
        0nat
    }
}

/// A character of the URL-safe base64 alphabet: letters, digits, `-` and `_`.
pub open spec fn url_safe_char(c: char) -> bool {
    ('A' <= c && c <= 'Z') || ('a' <= c && c <= 'z') || ('0' <= c && c <= '9') || c == '-' || c
        == '_'
}

/// The URL-safe, unpadded base64 text of some bytes.
pub uninterp spec fn base64_url_of(b: Seq<u8>) -> Seq<char>;

/// Relies on `base64::encode_config` with `URL_SAFE_NO_PAD`: the text has four
/// characters per three bytes, two or three more for a partial group, all
/// from the URL-safe table and without padding.
#[verifier::external_body]
fn encode_url_safe(b: &Vec<u8>) -> (r: String)
    requires
        b@.len() <= usize::MAX / 2,
    ensures
        r@ == base64_url_of(b@),
        r@.len() == base64_len(b@.len()),
        forall|i: int| 0 <= i < r@.len() ==> url_safe_char(#[trigger] r@[i]),
{
    base64::encode_config(b, base64::URL_SAFE_NO_PAD)
}

/// Relies on `rand::thread_rng` and `RngCore::fill_bytes`: `n` bytes from a
/// cryptographically strong generator; nothing is known of their values.
#[verifier::external_body]
pub(crate) fn random_bytes(n: usize) -> (r: Vec<u8>)
    ensures
        r@.len() == n,
{
    let mut buffer = vec![0u8; n];
    rand::RngCore::fill_bytes(&mut rand::thread_rng(), &mut buffer);
    buffer
}

/// Whether `t` is a token as handed out: the URL-safe, unpadded base64 text
/// of some `TOKEN_BYTES` bytes.
pub open spec fn is_token(t: Seq<char>) -> bool {
    &&& exists|b: Seq<u8>| b.len() == TOKEN_BYTES && t == #[trigger] base64_url_of(b)
    &&& t.len() == 86
    &&& forall|i: int| 0 <= i < t.len() ==> url_safe_char(#[trigger] t[i])
}

/// A fresh client token: random bytes in URL-safe, unpadded base64.
pub fn new_token() -> (r: String)
    ensures
        is_token(r@),
        r@.len() == base64_len(TOKEN_BYTES as nat),
{
    let bytes = random_bytes(TOKEN_BYTES);
    let r = encode_url_safe(&bytes);
    assert(base64_len(64) == 86);
    r
}

/// Whether a poller may proceed, given the number of pollers once it has been
/// counted in.
pub fn admit_poller(pollers: i64, max_polling_clients: u32) -> (r: bool)
    ensures
        r == (pollers <= max_polling_clients),
{
    pollers <= max_polling_clients as i64
}

/// The sleep between two reads of a result slot, so that all attempts together
/// take the poll timeout.
pub fn poll_interval(poll_timeout: u32, poll_times: u32) -> (r: u32)
    requires
        poll_times > 0,
    ensures
        r == poll_timeout / poll_times,
{
    poll_timeout / poll_times
}

/// The contents of a result slot, as a value.
pub open spec fn slot_view(found: Option<JobResult>) -> Option<ResultView> {
    match found {
        Some(r) => Some(r@),
        None => None,
    }
}

/// What the poll loop does after reading a job's result slot.
#[derive(Debug)]
pub enum PollStep {
    /// Report this answer.
    Answer { poll: JobPoll },
    /// Sleep one interval; then read again where `again` is set, or else
    /// report that the job is pending.
    Sleep { again: bool },
}

/// The poll loop's decision after read number `attempt` (from 0) of `times`
/// found `found` in the result slot: a result is answered at once, and an
/// empty slot is waited on, every read followed by one interval, until all
/// reads are spent.
pub fn poll_step(attempt: u32, times: u32, found: Option<JobResult>) -> (r: PollStep)
    ensures
        found is Some ==> (r matches PollStep::Answer { poll } && crate::types::poll_answers(
            poll,
            slot_view(found),
        )),
        found is None ==> r == (PollStep::Sleep { again: attempt as int + 1 < times as int }),
{
    match found {
        Some(result) => PollStep::Answer { poll: JobPoll::from_slot(Some(result)) },
        None => PollStep::Sleep { again: (attempt as u64) + 1 < times as u64 },
    }
}

impl JobPoll {
    /// What a poll reports for the contents of a job's result slot.
    pub fn from_slot(found: Option<JobResult>) -> (p: JobPoll)
        ensures
            crate::types::poll_answers(p, slot_view(found)),
    {
        match found {
            None => JobPoll::Pending,
            Some(result) => match result.outcome {
                JobOutcome::Success => JobPoll::Ready { result },
                JobOutcome::Failure => JobPoll::Error,
                JobOutcome::Cancelled => JobPoll::Cancelled,
            },
        }
    }
}

} // verus!
