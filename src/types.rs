//! The data that moves between clients, the coordination store and modules.

use vstd::prelude::*;

verus! {

/// A point on a map, in pixels.
#[derive(Debug, Clone, Copy, PartialEq, Eq, Structural)]
pub struct Vector {
    pub x: u32,
    pub y: u32,
}

/// How a job ended.
#[derive(Debug, Clone, Copy, PartialEq, Eq, Structural)]
pub enum JobOutcome {
    Success,
    Failure,
    Cancelled,
}

/// The mathematical identity of a module: its name and its version.
pub type ModuleId = (Seq<char>, Seq<char>);

/// A module, identified by name and version.
#[derive(Debug, Clone)]
pub struct ModuleInfo {
    pub name: String,
    pub version: String,
}

impl View for ModuleInfo {
    type V = ModuleId;

    open spec fn view(&self) -> ModuleId {
        (self.name@, self.version@)
    }
}

impl ModuleInfo {
    /// A module with the given name and version.
    pub fn new(name: &str, version: &str) -> (r: ModuleInfo)
        ensures
            r@ == (name@, version@),
    {
        ModuleInfo { name: String::from_str(name), version: String::from_str(version) }
    }

    /// A copy of this module's identity.
    pub fn duplicate(&self) -> (r: ModuleInfo)
        ensures
            r@ == self@,
    {
        ModuleInfo { name: self.name.clone(), version: self.version.clone() }
    }

    /// Whether two records name the same module.
    pub fn same_as(&self, other: &ModuleInfo) -> (r: bool)
        ensures
            r == (self@ == other@),
    {
        self.name == other.name && self.version == other.version
    }
}

impl PartialEq for ModuleInfo {
    fn eq(&self, other: &ModuleInfo) -> (r: bool) {
        self.name == other.name && self.version == other.version
    }
}

impl vstd::std_specs::cmp::PartialEqSpecImpl for ModuleInfo {
    open spec fn obeys_eq_spec() -> bool {
        true
    }

    open spec fn eq_spec(&self, other: &ModuleInfo) -> bool {
        self@ == other@
    }
}

impl Eq for ModuleInfo {

}

/// A pending unit of work as it sits in a module's work queue.
#[derive(Debug, Clone, Copy, PartialEq, Eq, Structural)]
pub struct JobInfo {
    pub job_id: i32,
    pub start: Vector,
    pub stop: Vector,
    pub map_id: i32,
}

/// The mathematical value of a job result: id, outcome and path.
pub type ResultView = (i32, JobOutcome, Seq<Vector>);

/// The outcome of a pathfinding job as written to its result slot.
#[derive(Debug)]
pub struct JobResult {
    pub job_id: i32,
    pub outcome: JobOutcome,
    pub points: Vec<Vector>,
}

impl View for JobResult {
    type V = ResultView;

    open spec fn view(&self) -> ResultView {
        (self.job_id, self.outcome, self.points@)
    }
}

impl JobResult {
    /// A copy of this result.
    pub fn duplicate(&self) -> (r: JobResult)
        ensures
            r@ == self@,
    {
        JobResult { job_id: self.job_id, outcome: self.outcome, points: self.points.clone() }
    }
}

/// The mathematical value of a submission; it is also the canonical
/// fingerprint under which identical submissions are deduplicated.
pub type SubmissionView = (Vector, Vector, i32, ModuleId);

/// A job request from a client.
#[derive(Debug)]
pub struct JobSubmission {
    pub start: Vector,
    pub stop: Vector,
    pub map_id: i32,
    pub algorithm: ModuleInfo,
}

impl View for JobSubmission {
    type V = SubmissionView;

    open spec fn view(&self) -> SubmissionView {
        (self.start, self.stop, self.map_id, self.algorithm@)
    }
}

impl JobSubmission {
    /// A copy of this submission.
    pub fn duplicate(&self) -> (r: JobSubmission)
        ensures
            r@ == self@,
    {
        JobSubmission {
            start: self.start,
            stop: self.stop,
            map_id: self.map_id,
            algorithm: self.algorithm.duplicate(),
        }
    }

    /// Whether two submissions have the same fingerprint.
    pub fn same_as(&self, other: &JobSubmission) -> (r: bool)
        ensures
            r == (self@ == other@),
    {
        self.start == other.start && self.stop == other.stop && self.map_id == other.map_id
            && self.algorithm.same_as(&other.algorithm)
    }
}

/// What one poll of a job's result slot found.
#[derive(Debug)]
pub enum JobPoll {
    /// The job succeeded; its result.
    Ready { result: JobResult },
    /// No result yet.
    Pending,
    /// The module failed to complete the job.
    Error,
    /// The job was cancelled because its module shut down.
    Cancelled,
}

/// Whether `p` is the poll answer for the result slot contents `found`.
pub open spec fn poll_answers(p: JobPoll, found: Option<ResultView>) -> bool {
    match found {
        None => p is Pending,
        Some(r) => match r.1 {
            JobOutcome::Success => p is Ready && p->result@ == r,
            JobOutcome::Failure => p is Error,
            JobOutcome::Cancelled => p is Cancelled,
        },
    }
}

/// A converted map image: its size and the encoded PNG data.
#[derive(Debug)]
pub struct ConvertedImage {
    pub width: usize,
    pub height: usize,
    pub data: Vec<u8>,
}

/// The body of a map upload: the raw image file.
#[derive(Debug)]
pub struct MapUploadRequest {
    pub data: Vec<u8>,
}

} // verus!
