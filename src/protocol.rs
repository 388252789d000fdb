//! The coordination protocol as a state machine over the store's contents,
//! and the laws it obeys. Time-to-live expiry is outside this model: every
//! statement holds within the lifetime of the records it mentions.

use vstd::prelude::*;
use crate::job::{validation, PollError, SubmitError};
use crate::registry::cancelled_view;
use crate::table::restrict;
use crate::types::{JobInfo, JobOutcome, ModuleId, ResultView, SubmissionView};

verus! {

/// The contents of the coordination store.
pub struct StoreState {
    /// Admission cap on concurrent pollers.
    pub max_pollers: int,
    /// Pollers currently admitted.
    pub pollers: int,
    /// Modules with at least one live worker.
    pub registered: Set<ModuleId>,
    /// Worker counters; a module without one counts zero.
    pub workers: Map<ModuleId, int>,
    /// Work queues; a module without one has an empty queue.
    pub queues: Map<ModuleId, Seq<JobInfo>>,
    /// The last job id handed out.
    pub job_counter: int,
    /// Dedup cache: fingerprint to token.
    pub cache: Map<SubmissionView, Seq<char>>,
    /// Token to job id.
    pub tokens: Map<Seq<char>, i32>,
    /// Result slots by job id.
    pub results: Map<i32, ResultView>,
}

/// An empty store with the given admission cap.
pub open spec fn initial(max_pollers: int) -> StoreState {
    StoreState {
        max_pollers,
        pollers: 0,
        registered: Set::empty(),
        workers: Map::empty(),
        queues: Map::empty(),
        job_counter: 0,
        cache: Map::empty(),
        tokens: Map::empty(),
        results: Map::empty(),
    }
}

/// The bounds that every reachable store state keeps.
pub open spec fn valid(s: StoreState) -> bool {
    &&& 0 <= s.pollers <= s.max_pollers
    &&& 0 <= s.job_counter <= i32::MAX
}

/// The worker count of `m`.
pub open spec fn worker_count(s: StoreState, m: ModuleId) -> int {
    if s.workers.contains_key(m) {
        s.workers[m]
    } else {
        0
    }
}

/// The pending jobs of `m`, oldest first.
pub open spec fn queue_of(s: StoreState, m: ModuleId) -> Seq<JobInfo> {
    if s.queues.contains_key(m) {
        s.queues[m]
    } else {
        Seq::empty()
    }
}

/// A worker of `m` registers: its counter goes up, and the first worker puts
/// `m` in the registered set.
pub open spec fn register(s: StoreState, m: ModuleId) -> StoreState {
    let c = worker_count(s, m) + 1;
    StoreState {
        workers: s.workers.insert(m, c),
        registered: if c == 1 {
            s.registered.insert(m)
        } else {
            s.registered
        },
        ..s
    }
}

/// Whether `jobs` holds a job with id `id`.
pub open spec fn has_job(jobs: Seq<JobInfo>, id: i32) -> bool {
    exists|i: int| 0 <= i < jobs.len() && jobs[i].job_id == id
}

/// The result slots once every job of `jobs` has been marked cancelled.
pub open spec fn cancel_all(results: Map<i32, ResultView>, jobs: Seq<JobInfo>) -> Map<
    i32,
    ResultView,
> {
    Map::new(
        |id: i32| results.contains_key(id) || has_job(jobs, id),
        |id: i32|
            if has_job(jobs, id) {
                cancelled_view(id)
            } else {
                results[id]
            },
    )
}

/// Whether a fingerprint belongs to a module other than `m`.
pub open spec fn not_of(m: ModuleId) -> spec_fn(SubmissionView) -> bool {
    |k: SubmissionView| k.3 != m
}

/// The cancellation cascade for `m`: its queue is drained, each drained job
/// gets a cancelled result, and the cache entries of `m` are deleted.
pub open spec fn cascade(s: StoreState, m: ModuleId) -> StoreState {
    StoreState {
        results: cancel_all(s.results, queue_of(s, m)),
        queues: if s.queues.contains_key(m) {
            s.queues.insert(m, Seq::empty())
        } else {
            s.queues
        },
        cache: restrict(s.cache, not_of(m)),
        ..s
    }
}

/// A worker of `m` shuts down: its counter goes down, and when none is left
/// `m` leaves the registered set and the cascade runs.
pub open spec fn shutdown(s: StoreState, m: ModuleId) -> StoreState {
    let c = worker_count(s, m) - 1;
    let s1 = StoreState { workers: s.workers.insert(m, c), ..s };
    if c <= 0 {
        cascade(StoreState { registered: s1.registered.remove(m), ..s1 }, m)
    } else {
        s1
    }
}

/// The job that a dispatch with id `id` queues for submission `sub`.
pub open spec fn job_for(sub: SubmissionView, id: i32) -> JobInfo {
    JobInfo { job_id: id, start: sub.0, stop: sub.1, map_id: sub.2 }
}

/// A client submits `sub`; `map_size` is the size of its map (none where it
/// does not exist) and `token` the fresh random token that a dispatch hands
/// out. A cached fingerprint returns its token and changes nothing; a new one
/// is validated, then gets the next job id, a queue entry, a token mapping
/// and a cache entry.
pub open spec fn submit(
    s: StoreState,
    sub: SubmissionView,
    map_size: Option<(u32, u32)>,
    token: Seq<char>,
) -> (StoreState, Result<Seq<char>, SubmitError>) {
    if s.cache.contains_key(sub) {
        (s, Ok(s.cache[sub]))
    } else {
        match validation(sub, s.registered.contains(sub.3), map_size) {
            Err(e) => (s, Err(e)),
            Ok(_) => if s.job_counter >= i32::MAX {
                (s, Err(SubmitError::Internal))
            } else {
                let id = (s.job_counter + 1) as i32;
                (
                    StoreState {
                        job_counter: id as int,
                        queues: s.queues.insert(sub.3, queue_of(s, sub.3).push(job_for(sub, id))),
                        tokens: s.tokens.insert(token, id),
                        cache: s.cache.insert(sub, token),
                        ..s
                    },
                    Ok(token),
                )
            },
        }
    }
}

/// A module worker writes the result of a job.
pub open spec fn write_result(s: StoreState, r: ResultView) -> StoreState {
    StoreState { results: s.results.insert(r.0, r), ..s }
}

/// A poller asks for admission: it is counted in, or refused where that would
/// exceed the cap.
pub open spec fn begin_poll(s: StoreState) -> (StoreState, bool) {
    if s.pollers + 1 > s.max_pollers {
        (s, false)
    } else {
        (StoreState { pollers: s.pollers + 1, ..s }, true)
    }
}

/// An admitted poller leaves.
pub open spec fn end_poll(s: StoreState) -> StoreState {
    StoreState { pollers: s.pollers - 1, ..s }
}

/// What a complete poll of `token` finds: refused admission, an unknown
/// token, or the contents of the job's result slot.
pub open spec fn poll(s: StoreState, token: Seq<char>) -> Result<Option<ResultView>, PollError> {
    if !begin_poll(s).1 {
        Err(PollError::Unavailable)
    } else if !s.tokens.contains_key(token) {
        Err(PollError::NotFound)
    } else if s.results.contains_key(s.tokens[token]) {
        Ok(Some(s.results[s.tokens[token]]))
    } else {
        Ok(None)
    }
}

/// `n` registrations of `m` in a row.
pub open spec fn register_n(s: StoreState, m: ModuleId, n: nat) -> StoreState
    decreases n,
{
    if n == 0 {
        s
    } else {
        register(register_n(s, m, (n - 1) as nat), m)
    }
}

/// `n` shutdowns of `m` in a row.
pub open spec fn shutdown_n(s: StoreState, m: ModuleId, n: nat) -> StoreState
    decreases n,
{
    if n == 0 {
        s
    } else {
        shutdown(shutdown_n(s, m, (n - 1) as nat), m)
    }
}

/// Submitting a fingerprint again while it is cached returns the same token
/// and dispatches nothing: of any number of identical submissions at most one
/// job reaches the work queue, and all submitters hold one token.
pub proof fn law_identical_submissions_share_one_job(
    s: StoreState,
    sub: SubmissionView,
    map_size: Option<(u32, u32)>,
    t1: Seq<char>,
    t2: Seq<char>,
)
    requires
        valid(s),
    ensures
        ({
            let (s1, r1) = submit(s, sub, map_size, t1);
            let (s2, r2) = submit(s1, sub, map_size, t2);
            r1 is Ok ==> {
                &&& r2 == r1
                &&& s2 == s1
                &&& queue_of(s1, sub.3).len() <= queue_of(s, sub.3).len() + 1
                &&& s1.job_counter <= s.job_counter + 1
                &&& !s.cache.contains_key(sub) ==> queue_of(s1, sub.3) == queue_of(s, sub.3).push(
                    job_for(sub, s1.job_counter as i32),
                )
            }
        }),
{
    let (s1, r1) = submit(s, sub, map_size, t1);
    if !s.cache.contains_key(sub) && r1 is Ok {
        assert(s1.cache == s.cache.insert(sub, t1));
        assert(s1.cache.contains_key(sub) && s1.cache[sub] == t1);
        assert(queue_of(s1, sub.3) == queue_of(s, sub.3).push(job_for(sub, s1.job_counter as i32)));
    }
}

/// Two valid submissions with distinct fingerprints, neither cached, given
/// distinct fresh tokens, get distinct tokens and strictly increasing job ids,
/// each queued once in submission order.
pub proof fn law_distinct_submissions_get_distinct_jobs(
    s: StoreState,
    a: SubmissionView,
    b: SubmissionView,
    size_a: (u32, u32),
    size_b: (u32, u32),
    ta: Seq<char>,
    tb: Seq<char>,
)
    requires
        valid(s),
        a != b,
        ta != tb,
        !s.cache.contains_key(a),
        !s.cache.contains_key(b),
        validation(a, s.registered.contains(a.3), Some(size_a)) is Ok,
        validation(b, s.registered.contains(b.3), Some(size_b)) is Ok,
        s.job_counter + 2 <= i32::MAX,
    ensures
        ({
            let (s1, ra) = submit(s, a, Some(size_a), ta);
            let (s2, rb) = submit(s1, b, Some(size_b), tb);
            &&& ra == Ok::<Seq<char>, SubmitError>(ta)
            &&& rb == Ok::<Seq<char>, SubmitError>(tb)
            &&& s2.tokens[ta] < s2.tokens[tb]
            &&& s2.tokens[ta] > s.job_counter
            &&& s2.job_counter == s2.tokens[tb]
        }),
{
    let (s1, ra) = submit(s, a, Some(size_a), ta);
    assert(s1.registered == s.registered);
    assert(s1.cache == s.cache.insert(a, ta));
    assert(!s1.cache.contains_key(b));
    let (s2, rb) = submit(s1, b, Some(size_b), tb);
    assert(s1.tokens == s.tokens.insert(ta, (s.job_counter + 1) as i32));
    assert(s2.tokens == s1.tokens.insert(tb, (s.job_counter + 2) as i32));
    assert(s2.tokens[ta] == (s.job_counter + 1) as i32);
}

/// Registration and shutdown counts add up from a module without workers.
proof fn lemma_register_n(s: StoreState, m: ModuleId, n: nat)
    requires
        worker_count(s, m) == 0,
        n >= 1,
    ensures
        worker_count(register_n(s, m, n), m) == n,
        register_n(s, m, n).registered.contains(m),
    decreases n,
{
    assert(register_n(s, m, 0) == s);
    if n > 1 {
        lemma_register_n(s, m, (n - 1) as nat);
    }
    assert(register_n(s, m, n) == register(register_n(s, m, (n - 1) as nat), m));
}

proof fn lemma_shutdown_n(s: StoreState, m: ModuleId, k: nat)
    requires
        worker_count(s, m) > k,
        s.registered.contains(m),
    ensures
        worker_count(shutdown_n(s, m, k), m) == worker_count(s, m) - k,
        shutdown_n(s, m, k).registered.contains(m),
    decreases k,
{
    if k > 0 {
        lemma_shutdown_n(s, m, (k - 1) as nat);
    }
}

/// With `n` workers of `m` registered from none, `m` stays registered through
/// `n - 1` shutdowns and leaves the registered set at the last one.
pub proof fn law_last_shutdown_deregisters(s: StoreState, m: ModuleId, n: nat)
    requires
        worker_count(s, m) == 0,
        n >= 1,
    ensures
        shutdown_n(register_n(s, m, n), m, (n - 1) as nat).registered.contains(m),
        !shutdown_n(register_n(s, m, n), m, n).registered.contains(m),
{
    lemma_register_n(s, m, n);
    lemma_shutdown_n(register_n(s, m, n), m, (n - 1) as nat);
    let before = shutdown_n(register_n(s, m, n), m, (n - 1) as nat);
    assert(shutdown_n(register_n(s, m, n), m, n) == shutdown(before, m));
}

/// When the last worker of `m` shuts down, every job queued for `m` polls as
/// cancelled through any token that maps to it, and no cache entry of `m`
/// survives.
pub proof fn law_last_shutdown_cancels_queue(s: StoreState, m: ModuleId, token: Seq<char>)
    requires
        worker_count(s, m) == 1,
        s.pollers + 1 <= s.max_pollers,
        s.tokens.contains_key(token),
        has_job(queue_of(s, m), s.tokens[token]),
    ensures
        poll(shutdown(s, m), token) == Ok::<Option<ResultView>, PollError>(
            Some(cancelled_view(s.tokens[token])),
        ),
        poll(shutdown(s, m), token) matches Ok(Some(r)) && r.1 == JobOutcome::Cancelled,
        forall|k: SubmissionView| #[trigger]
            shutdown(s, m).cache.contains_key(k) ==> k.3 != m,
        queue_of(shutdown(s, m), m).len() == 0,
{
    let s1 = StoreState { workers: s.workers.insert(m, 0), ..s };
    let s2 = StoreState { registered: s1.registered.remove(m), ..s1 };
    assert(queue_of(s2, m) == queue_of(s, m));
}

/// A poller is refused while the cap is reached, and admitted again once any
/// admitted poller has left.
pub proof fn law_admission_reopens(s: StoreState)
    requires
        s.pollers == s.max_pollers,
        s.pollers > 0,
    ensures
        begin_poll(s) == (s, false),
        begin_poll(end_poll(s)).1,
        begin_poll(end_poll(s)).0.pollers == s.pollers,
{
}

/// The cascade on a module with an empty queue and no cache entries changes
/// nothing, however often it runs.
pub proof fn law_cascade_idempotent(s: StoreState, m: ModuleId)
    requires
        queue_of(s, m).len() == 0,
        forall|k: SubmissionView| #[trigger] s.cache.contains_key(k) ==> k.3 != m,
    ensures
        cascade(s, m) == s,
        cascade(cascade(s, m), m) == s,
{
    assert(cancel_all(s.results, queue_of(s, m)) =~= s.results);
    assert(restrict(s.cache, not_of(m)) =~= s.cache);
    if s.queues.contains_key(m) {
        assert(s.queues[m] =~= Seq::empty());
        assert(s.queues.insert(m, Seq::empty()) =~= s.queues);
    }
}

/// No transition lowers the job counter, and a dispatch hands out the id just
/// above it: job ids are strictly increasing and never reused.
pub proof fn law_job_ids_never_reused(
    s: StoreState,
    m: ModuleId,
    sub: SubmissionView,
    map_size: Option<(u32, u32)>,
    token: Seq<char>,
    r: ResultView,
)
    requires
        valid(s),
    ensures
        register(s, m).job_counter == s.job_counter,
        shutdown(s, m).job_counter == s.job_counter,
        cascade(s, m).job_counter == s.job_counter,
        write_result(s, r).job_counter == s.job_counter,
        begin_poll(s).0.job_counter == s.job_counter,
        end_poll(s).job_counter == s.job_counter,
        ({
            let (s1, answer) = submit(s, sub, map_size, token);
            &&& s1.job_counter >= s.job_counter
            &&& s1.job_counter > s.job_counter ==> {
                &&& s1.job_counter == s.job_counter + 1
                &&& answer == Ok::<Seq<char>, SubmitError>(token)
                &&& s1.tokens[token] == s1.job_counter
            }
        }),
{
}

} // verus!
