//! An in-process coordination store that runs the protocol: the registry's
//! worker events, the cancellation cascade, job dispatch and result polling.
//! Every operation is proved to make the transition of the protocol's state
//! machine.

use vstd::prelude::*;
use crate::job::{is_listed, lists_module, PollError, SubmitError};
use crate::protocol::{
    begin_poll, cancel_all, cascade, end_poll, has_job, initial, job_for, not_of, poll, queue_of,
    register, shutdown, submit, valid, worker_count, write_result, StoreState,
};
use crate::registry::{cancelled_result, cancelled_view, registration_adds_module};
use crate::table::{
    last_match, lemma_absent, lemma_lookup, lemma_push, lemma_restrict_step, lemma_update,
    no_match, restrict, to_map,
};
use crate::types::{
    poll_answers, JobInfo, JobPoll, JobResult, JobSubmission, ModuleId, ModuleInfo, ResultView,
    SubmissionView,
};

verus! {

/// The store's records, held in memory.
pub struct Coordinator {
    max_polling_clients: u32,
    pollers: u32,
    registered: Vec<ModuleInfo>,
    workers: Vec<(ModuleInfo, i64)>,
    queues: Vec<(ModuleInfo, Vec<JobInfo>)>,
    job_counter: i32,
    cache: Vec<(JobSubmission, String)>,
    tokens: Vec<(String, i32)>,
    results: Vec<(i32, JobResult)>,
}

/// The modules of a list, as a set.
pub open spec fn module_set(v: Seq<ModuleInfo>) -> Set<ModuleId> {
    Set::new(|id: ModuleId| lists_module(v, id))
}

/// The worker counter table as key/value pairs.
pub open spec fn workers_seq(t: Seq<(ModuleInfo, i64)>) -> Seq<(ModuleId, int)> {
    t.map_values(|p: (ModuleInfo, i64)| (p.0@, p.1 as int))
}

/// The work queue table as key/value pairs.
pub open spec fn queues_seq(t: Seq<(ModuleInfo, Vec<JobInfo>)>) -> Seq<(ModuleId, Seq<JobInfo>)> {
    t.map_values(|p: (ModuleInfo, Vec<JobInfo>)| (p.0@, p.1@))
}

/// The dedup cache table as key/value pairs.
pub open spec fn cache_seq(t: Seq<(JobSubmission, String)>) -> Seq<(SubmissionView, Seq<char>)> {
    t.map_values(|p: (JobSubmission, String)| (p.0@, p.1@))
}

/// The token table as key/value pairs.
pub open spec fn tokens_seq(t: Seq<(String, i32)>) -> Seq<(Seq<char>, i32)> {
    t.map_values(|p: (String, i32)| (p.0@, p.1))
}

/// The result slot table as key/value pairs.
pub open spec fn results_seq(t: Seq<(i32, JobResult)>) -> Seq<(i32, ResultView)> {
    t.map_values(|p: (i32, JobResult)| (p.0, p.1@))
}

/// A dispatch answer, as a value.
pub open spec fn answer_view(r: Result<String, SubmitError>) -> Result<Seq<char>, SubmitError> {
    match r {
        Ok(t) => Ok(t@),
        Err(e) => Err(e),
    }
}

/// Whether `r` is the answer to a poll that found `expected`.
pub open spec fn poll_reply(r: Result<JobPoll, PollError>, expected: Result<Option<ResultView>, PollError>) -> bool {
    match expected {
        Err(e) => r == Err::<JobPoll, PollError>(e),
        Ok(found) => match r {
            Ok(p) => poll_answers(p, found),
            Err(_) => false,
        },
    }
}

impl View for Coordinator {
    type V = StoreState;

    closed spec fn view(&self) -> StoreState {
        StoreState {
            max_pollers: self.max_polling_clients as int,
            pollers: self.pollers as int,
            registered: module_set(self.registered@),
            workers: to_map(workers_seq(self.workers@)),
            queues: to_map(queues_seq(self.queues@)),
            job_counter: self.job_counter as int,
            cache: to_map(cache_seq(self.cache@)),
            tokens: to_map(tokens_seq(self.tokens@)),
            results: to_map(results_seq(self.results@)),
        }
    }
}

proof fn lemma_listed_push(v: Seq<ModuleInfo>, x: ModuleInfo, id: ModuleId)
    ensures
        lists_module(v.push(x), id) == (lists_module(v, id) || x@ == id),
{
    if lists_module(v, id) {
        let j = choose|j: int| 0 <= j < v.len() && v[j]@ == id;
        assert(v.push(x)[j]@ == id);
    }
    if x@ == id {
        assert(v.push(x)[v.len() as int]@ == id);
    }
    if lists_module(v.push(x), id) {
        let j = choose|j: int| 0 <= j < v.len() + 1 && v.push(x)[j]@ == id;
        if j < v.len() {
            assert(v[j]@ == id);
        }
    }
}

fn find_module<V>(t: &Vec<(ModuleInfo, V)>, m: &ModuleInfo) -> (r: Option<usize>)
    ensures
        match r {
            Some(i) => i < t@.len() && t@[i as int].0@ == m@ && forall|k: int|
                i < k < t@.len() ==> t@[k].0@ != m@,
            None => forall|k: int| 0 <= k < t@.len() ==> t@[k].0@ != m@,
        },
{
    let mut found: Option<usize> = None;
    let mut i: usize = 0;
    while i < t.len()
        invariant
            i <= t@.len(),
            match found {
                Some(j) => j < i && t@[j as int].0@ == m@ && forall|k: int|
                    j < k < i ==> t@[k].0@ != m@,
                None => forall|k: int| 0 <= k < i ==> t@[k].0@ != m@,
            },
        decreases t@.len() - i,
    {
        if t[i].0.same_as(m) {
            found = Some(i);
        }
        i = i + 1;
    }
    found
}

fn find_submission(t: &Vec<(JobSubmission, String)>, s: &JobSubmission) -> (r: Option<usize>)
    ensures
        match r {
            Some(i) => last_match(cache_seq(t@), s@, i as int),
            None => no_match(cache_seq(t@), s@),
        },
{
    let mut found: Option<usize> = None;
    let mut i: usize = 0;
    while i < t.len()
        invariant
            i <= t@.len(),
            match found {
                Some(j) => j < i && t@[j as int].0@ == s@ && forall|k: int|
                    j < k < i ==> t@[k].0@ != s@,
                None => forall|k: int| 0 <= k < i ==> t@[k].0@ != s@,
            },
        decreases t@.len() - i,
    {
        if t[i].0.same_as(s) {
            found = Some(i);
        }
        i = i + 1;
    }
    assert(forall|k: int| 0 <= k < t@.len() ==> cache_seq(t@)[k].0 == t@[k].0@);
    found
}

fn find_token(t: &Vec<(String, i32)>, token: &String) -> (r: Option<usize>)
    ensures
        match r {
            Some(i) => last_match(tokens_seq(t@), token@, i as int),
            None => no_match(tokens_seq(t@), token@),
        },
{
    let mut found: Option<usize> = None;
    let mut i: usize = 0;
    while i < t.len()
        invariant
            i <= t@.len(),
            match found {
                Some(j) => j < i && t@[j as int].0@ == token@ && forall|k: int|
                    j < k < i ==> t@[k].0@ != token@,
                None => forall|k: int| 0 <= k < i ==> t@[k].0@ != token@,
            },
        decreases t@.len() - i,
    {
        if t[i].0 == *token {
            found = Some(i);
        }
        i = i + 1;
    }
    assert(forall|k: int| 0 <= k < t@.len() ==> tokens_seq(t@)[k].0 == t@[k].0@);
    found
}

fn find_result(t: &Vec<(i32, JobResult)>, id: i32) -> (r: Option<usize>)
    ensures
        match r {
            Some(i) => last_match(results_seq(t@), id, i as int),
            None => no_match(results_seq(t@), id),
        },
{
    let mut found: Option<usize> = None;
    let mut i: usize = 0;
    while i < t.len()
        invariant
            i <= t@.len(),
            match found {
                Some(j) => j < i && t@[j as int].0 == id && forall|k: int|
                    j < k < i ==> t@[k].0 != id,
                None => forall|k: int| 0 <= k < i ==> t@[k].0 != id,
            },
        decreases t@.len() - i,
    {
        if t[i].0 == id {
            found = Some(i);
        }
        i = i + 1;
    }
    assert(forall|k: int| 0 <= k < t@.len() ==> results_seq(t@)[k].0 == t@[k].0);
    found
}

/// Sets the result slot `id` to `r`.
fn put_result(t: &mut Vec<(i32, JobResult)>, id: i32, r: JobResult)
    ensures
        to_map(results_seq(final(t)@)) == to_map(results_seq(old(t)@)).insert(id, r@),
{
    let ghost before = t@;
    let ghost rv = r@;
    match find_result(t, id) {
        Some(i) => {
            t[i] = (id, r);
            proof {
                assert(results_seq(t@) =~= results_seq(before).update(i as int, (id, rv)));
                lemma_update(results_seq(before), id, i as int, rv);
            }
        },
        None => {
            t.push((id, r));
            proof {
                assert(results_seq(t@) =~= results_seq(before).push((id, rv)));
                lemma_push(results_seq(before), (id, rv));
            }
        },
    }
}

/// Sets the token `token` to map to `id`.
fn put_token(t: &mut Vec<(String, i32)>, token: String, id: i32)
    ensures
        to_map(tokens_seq(final(t)@)) == to_map(tokens_seq(old(t)@)).insert(token@, id),
{
    let ghost before = t@;
    let ghost tv = token@;
    match find_token(t, &token) {
        Some(i) => {
            t[i] = (token, id);
            proof {
                assert(tokens_seq(t@) =~= tokens_seq(before).update(i as int, (tv, id)));
                lemma_update(tokens_seq(before), tv, i as int, id);
            }
        },
        None => {
            t.push((token, id));
            proof {
                assert(tokens_seq(t@) =~= tokens_seq(before).push((tv, id)));
                lemma_push(tokens_seq(before), (tv, id));
            }
        },
    }
}

impl Coordinator {
    /// An empty store that admits up to `max_polling_clients` concurrent pollers.
    pub fn new(max_polling_clients: u32) -> (r: Coordinator)
        ensures
            r@ == initial(max_polling_clients as int),
            valid(r@),
    {
        let r = Coordinator {
            max_polling_clients,
            pollers: 0,
            registered: Vec::new(),
            workers: Vec::new(),
            queues: Vec::new(),
            job_counter: 0,
            cache: Vec::new(),
            tokens: Vec::new(),
            results: Vec::new(),
        };
        assert(module_set(r.registered@) =~= Set::empty());
        assert(r@.workers =~= Map::empty());
        assert(r@.queues =~= Map::empty());
        assert(r@.cache =~= Map::empty());
        assert(r@.tokens =~= Map::empty());
        assert(r@.results =~= Map::empty());
        r
    }

    fn add_registered(&mut self, module: &ModuleInfo)
        ensures
            module_set(final(self).registered@) == module_set(old(self).registered@).insert(module@),
            final(self).workers == old(self).workers,
            final(self).queues == old(self).queues,
            final(self).cache == old(self).cache,
            final(self).tokens == old(self).tokens,
            final(self).results == old(self).results,
            final(self).pollers == old(self).pollers,
            final(self).max_polling_clients == old(self).max_polling_clients,
            final(self).job_counter == old(self).job_counter,
    {
        let ghost before = self.registered@;
        if !is_listed(&self.registered, module) {
            let copy = module.duplicate();
            self.registered.push(copy);
            assert forall|id: ModuleId| #[trigger] lists_module(self.registered@, id) == (
            lists_module(before, id) || module@ == id) by {
                lemma_listed_push(before, copy, id);
            }
        }
        assert(module_set(self.registered@) =~= module_set(before).insert(module@));
    }

    fn remove_registered(&mut self, module: &ModuleInfo)
        ensures
            module_set(final(self).registered@) == module_set(old(self).registered@).remove(module@),
            final(self).workers == old(self).workers,
            final(self).queues == old(self).queues,
            final(self).cache == old(self).cache,
            final(self).tokens == old(self).tokens,
            final(self).results == old(self).results,
            final(self).pollers == old(self).pollers,
            final(self).max_polling_clients == old(self).max_polling_clients,
            final(self).job_counter == old(self).job_counter,
    {
        let mut old_list: Vec<ModuleInfo> = Vec::new();
        core::mem::swap(&mut old_list, &mut self.registered);
        let mut kept: Vec<ModuleInfo> = Vec::new();
        let mut i: usize = 0;
        while i < old_list.len()
            invariant
                i <= old_list@.len(),
                forall|id: ModuleId| #[trigger]
                    lists_module(kept@, id) == (lists_module(old_list@.take(i as int), id) && id
                        != module@),
            decreases old_list@.len() - i,
        {
            let ghost prev = kept@;
            assert(old_list@.take(i + 1) =~= old_list@.take(i as int).push(old_list@[i as int]));
            if !old_list[i].same_as(module) {
                let copy = old_list[i].duplicate();
                kept.push(copy);
                assert forall|id: ModuleId| #[trigger] lists_module(kept@, id) == (lists_module(
                    old_list@.take(i + 1),
                    id,
                ) && id != module@) by {
                    lemma_listed_push(prev, copy, id);
                    lemma_listed_push(old_list@.take(i as int), old_list@[i as int], id);
                }
            } else {
                assert forall|id: ModuleId| #[trigger] lists_module(kept@, id) == (lists_module(
                    old_list@.take(i + 1),
                    id,
                ) && id != module@) by {
                    lemma_listed_push(old_list@.take(i as int), old_list@[i as int], id);
                }
            }
            i = i + 1;
        }
        assert(old_list@.take(old_list@.len() as int) =~= old_list@);
        self.registered = kept;
        assert(module_set(self.registered@) =~= module_set(old_list@).remove(module@));
    }

    /// Handles a registration event of a worker of `module`; returns the
    /// module's worker count after it.
    pub fn register_worker(&mut self, module: &ModuleInfo) -> (r: i64)
        requires
            valid(old(self)@),
            worker_count(old(self)@, module@) < i64::MAX,
        ensures
            valid(final(self)@),
            final(self)@ == register(old(self)@, module@),
            r == worker_count(final(self)@, module@),
    {
        let ghost s0 = self@;
        let ghost before = self.workers@;
        let c: i64;
        match find_module(&self.workers, module) {
            Some(i) => {
                proof {
                    lemma_lookup(workers_seq(before), module@, i as int);
                }
                c = self.workers[i].1 + 1;
                self.workers[i].1 = c;
                proof {
                    assert(workers_seq(self.workers@) =~= workers_seq(before).update(
                        i as int,
                        (module@, c as int),
                    ));
                    lemma_update(workers_seq(before), module@, i as int, c as int);
                }
            },
            None => {
                proof {
                    lemma_absent(workers_seq(before), module@);
                }
                c = 1;
                self.workers.push((module.duplicate(), 1));
                proof {
                    assert(workers_seq(self.workers@) =~= workers_seq(before).push((module@, 1)));
                    lemma_push(workers_seq(before), (module@, 1));
                }
            },
        }
        if registration_adds_module(c) {
            self.add_registered(module);
        }
        assert(self@.workers == s0.workers.insert(module@, c as int));
        assert(self@ == register(s0, module@));
        c
    }

    /// The cancellation cascade for `module`: drains its work queue, records
    /// each drained job as cancelled in its result slot, and deletes the
    /// module's cache entries. Returns the number of jobs cancelled.
    pub fn cancel_module(&mut self, module: &ModuleInfo) -> (r: usize)
        requires
            valid(old(self)@),
        ensures
            valid(final(self)@),
            final(self)@ == cascade(old(self)@, module@),
            r == queue_of(old(self)@, module@).len(),
    {
        let ghost s0 = self@;
        let ghost qbefore = self.queues@;
        let mut jobs: Vec<JobInfo> = Vec::new();
        match find_module(&self.queues, module) {
            Some(i) => {
                proof {
                    lemma_lookup(queues_seq(qbefore), module@, i as int);
                }
                core::mem::swap(&mut jobs, &mut self.queues[i].1);
                proof {
                    assert(queues_seq(self.queues@) =~= queues_seq(qbefore).update(
                        i as int,
                        (module@, Seq::empty()),
                    ));
                    lemma_update(queues_seq(qbefore), module@, i as int, Seq::empty());
                }
            },
            None => {
                proof {
                    lemma_absent(queues_seq(qbefore), module@);
                }
            },
        }
        assert(jobs@ == queue_of(s0, module@));

        let mut results: Vec<(i32, JobResult)> = Vec::new();
        core::mem::swap(&mut results, &mut self.results);
        let mut k: usize = 0;
        while k < jobs.len()
            invariant
                k <= jobs@.len(),
                to_map(results_seq(results@)) == cancel_all(s0.results, jobs@.take(k as int)),
            decreases jobs@.len() - k,
        {
            let id = jobs[k].job_id;
            let cancelled = cancelled_result(&jobs[k]);
            let ghost prev = to_map(results_seq(results@));
            put_result(&mut results, id, cancelled);
            proof {
                let t0 = jobs@.take(k as int);
                let t1 = jobs@.take(k + 1);
                assert(t1 =~= t0.push(jobs@[k as int]));
                assert forall|x: i32| has_job(t1, x) == (has_job(t0, x) || x == id) by {
                    if has_job(t0, x) {
                        let j = choose|j: int| 0 <= j < t0.len() && t0[j].job_id == x;
                        assert(t1[j].job_id == x);
                    }
                    if x == id {
                        assert(t1[k as int].job_id == x);
                    }
                }
                assert(cancel_all(s0.results, t1) =~= prev.insert(id, cancelled_view(id)));
            }
            k = k + 1;
        }
        assert(jobs@.take(jobs@.len() as int) =~= jobs@);
        self.results = results;

        let mut old_cache: Vec<(JobSubmission, String)> = Vec::new();
        core::mem::swap(&mut old_cache, &mut self.cache);
        let ghost all = cache_seq(old_cache@);
        let mut kept: Vec<(JobSubmission, String)> = Vec::new();
        assert(all.take(0) =~= Seq::empty());
        assert(to_map(cache_seq(kept@)) =~= restrict(to_map(all.take(0)), not_of(module@)));
        let mut i: usize = 0;
        while i < old_cache.len()
            invariant
                i <= old_cache@.len(),
                all == cache_seq(old_cache@),
                to_map(cache_seq(kept@)) == restrict(to_map(all.take(i as int)), not_of(module@)),
            decreases old_cache@.len() - i,
        {
            let ghost prev = cache_seq(kept@);
            proof {
                lemma_restrict_step(all, i as int, prev, not_of(module@));
            }
            if !old_cache[i].0.algorithm.same_as(module) {
                let entry = (old_cache[i].0.duplicate(), old_cache[i].1.clone());
                kept.push(entry);
                assert(cache_seq(kept@) =~= prev.push(all[i as int]));
            }
            i = i + 1;
        }
        self.cache = kept;
        assert(all.take(all.len() as int) =~= all);
        assert(self@.queues == cascade(s0, module@).queues);
        assert(self@ == cascade(s0, module@));
        jobs.len()
    }

    /// Handles a shutdown event of a worker of `module`; returns whether it
    /// was the module's last worker, in which case the module is deregistered
    /// and its cascade has run.
    pub fn shutdown_worker(&mut self, module: &ModuleInfo) -> (r: bool)
        requires
            valid(old(self)@),
            worker_count(old(self)@, module@) > i64::MIN,
        ensures
            valid(final(self)@),
            final(self)@ == shutdown(old(self)@, module@),
            r == (worker_count(old(self)@, module@) <= 1),
    {
        let ghost s0 = self@;
        let ghost before = self.workers@;
        let c: i64;
        match find_module(&self.workers, module) {
            Some(i) => {
                proof {
                    lemma_lookup(workers_seq(before), module@, i as int);
                }
                c = self.workers[i].1 - 1;
                self.workers[i].1 = c;
                proof {
                    assert(workers_seq(self.workers@) =~= workers_seq(before).update(
                        i as int,
                        (module@, c as int),
                    ));
                    lemma_update(workers_seq(before), module@, i as int, c as int);
                }
            },
            None => {
                proof {
                    lemma_absent(workers_seq(before), module@);
                }
                c = -1;
                self.workers.push((module.duplicate(), -1));
                proof {
                    assert(workers_seq(self.workers@) =~= workers_seq(before).push((module@, -1)));
                    lemma_push(workers_seq(before), (module@, -1));
                }
            },
        }
        assert(self@.workers == s0.workers.insert(module@, c as int));
        match crate::registry::shutdown_action(c) {
            crate::registry::ShutdownAction::KeepRunning => {
                assert(self@ == shutdown(s0, module@));
                false
            },
            crate::registry::ShutdownAction::ShutDown { .. } => {
                self.remove_registered(module);
                self.cancel_module(module);
                true
            },
        }
    }

    /// Handles a job submission; `map_size` is the size of the requested map
    /// (none where it does not exist) and `token` a fresh random token, which
    /// is handed out if the job is dispatched. A submission whose fingerprint
    /// is cached gets the cached token back and dispatches nothing.
    pub fn submit(&mut self, job: &JobSubmission, map_size: Option<(u32, u32)>, token: String) -> (r:
        Result<String, SubmitError>)
        requires
            valid(old(self)@),
        ensures
            valid(final(self)@),
            (final(self)@, answer_view(r)) == submit(old(self)@, job@, map_size, token@),
    {
        let ghost s0 = self@;
        match find_submission(&self.cache, job) {
            Some(i) => {
                proof {
                    lemma_lookup(cache_seq(self.cache@), job@, i as int);
                }
                return Ok(self.cache[i].1.clone());
            },
            None => {
                proof {
                    lemma_absent(cache_seq(self.cache@), job@);
                }
            },
        }
        let listed = is_listed(&self.registered, &job.algorithm);
        assert(listed == s0.registered.contains(job@.3));
        match job.check(listed, map_size) {
            Err(e) => {
                return Err(e);
            },
            Ok(()) => {},
        }
        let id = match crate::job::next_job_id(self.job_counter as i64 + 1) {
            Some(id) => id,
            None => {
                return Err(SubmitError::Internal);
            },
        };
        let info = JobInfo { job_id: id, start: job.start, stop: job.stop, map_id: job.map_id };
        assert(info == job_for(job@, id));
        let ghost qbefore = self.queues@;
        match find_module(&self.queues, &job.algorithm) {
            Some(i) => {
                proof {
                    lemma_lookup(queues_seq(qbefore), job@.3, i as int);
                }
                let mut q: Vec<JobInfo> = Vec::new();
                core::mem::swap(&mut q, &mut self.queues[i].1);
                q.push(info);
                core::mem::swap(&mut q, &mut self.queues[i].1);
                proof {
                    assert(queues_seq(self.queues@) =~= queues_seq(qbefore).update(
                        i as int,
                        (job@.3, queue_of(s0, job@.3).push(info)),
                    ));
                    lemma_update(
                        queues_seq(qbefore),
                        job@.3,
                        i as int,
                        queue_of(s0, job@.3).push(info),
                    );
                }
            },
            None => {
                proof {
                    lemma_absent(queues_seq(qbefore), job@.3);
                }
                let mut q: Vec<JobInfo> = Vec::new();
                q.push(info);
                self.queues.push((job.algorithm.duplicate(), q));
                proof {
                    assert(queue_of(s0, job@.3).push(info) =~= seq![info]);
                    assert(queues_seq(self.queues@) =~= queues_seq(qbefore).push(
                        (job@.3, queue_of(s0, job@.3).push(info)),
                    ));
                    lemma_push(queues_seq(qbefore), (job@.3, queue_of(s0, job@.3).push(info)));
                }
            },
        }
        self.job_counter = id;
        put_token(&mut self.tokens, token.clone(), id);
        let ghost cbefore = cache_seq(self.cache@);
        self.cache.push((job.duplicate(), token.clone()));
        proof {
            assert(cache_seq(self.cache@) =~= cbefore.push((job@, token@)));
            lemma_push(cbefore, (job@, token@));
        }
        assert(self@ == submit(s0, job@, map_size, token@).0);
        Ok(token)
    }

    /// Handles a job submission as `submit` does, with a token drawn here from
    /// the random generator; whatever was drawn, the transition is that of
    /// some token as `new_token` hands them out.
    pub fn submit_job(&mut self, job: &JobSubmission, map_size: Option<(u32, u32)>) -> (r: Result<
        String,
        SubmitError,
    >)
        requires
            valid(old(self)@),
        ensures
            valid(final(self)@),
            exists|t: Seq<char>|
                crate::job::is_token(t) && #[trigger] submit(old(self)@, job@, map_size, t) == (
                final(self)@,
                answer_view(r),
            ),
    {
        let token = crate::job::new_token();
        let ghost t = token@;
        let r = self.submit(job, map_size, token);
        assert(submit(old(self)@, job@, map_size, t) == (self@, answer_view(r)));
        r
    }

    /// A module worker writes a job's result to its slot.
    pub fn write_result(&mut self, result: JobResult)
        requires
            valid(old(self)@),
        ensures
            valid(final(self)@),
            final(self)@ == write_result(old(self)@, result@),
    {
        let ghost s0 = self@;
        let ghost rv = result@;
        put_result(&mut self.results, result.job_id, result);
        assert(self@ == write_result(s0, rv));
    }

    /// A poller asks for admission; returns whether it was admitted.
    pub fn begin_poll(&mut self) -> (r: bool)
        requires
            valid(old(self)@),
        ensures
            valid(final(self)@),
            (final(self)@, r) == begin_poll(old(self)@),
    {
        let ghost s0 = self@;
        if crate::job::admit_poller(self.pollers as i64 + 1, self.max_polling_clients) {
            self.pollers = self.pollers + 1;
            assert(self@ == begin_poll(s0).0);
            true
        } else {
            false
        }
    }

    /// An admitted poller leaves.
    pub fn end_poll(&mut self)
        requires
            valid(old(self)@),
            old(self)@.pollers > 0,
        ensures
            valid(final(self)@),
            final(self)@ == end_poll(old(self)@),
    {
        let ghost s0 = self@;
        self.pollers = self.pollers - 1;
        assert(self@ == end_poll(s0));
    }

    /// Polls the result of the job behind `token`, under admission control.
    /// The store is left as it was: the admission counter is released on
    /// every path, and a result stays in its slot for later polls.
    pub fn poll(&mut self, token: &String) -> (r: Result<JobPoll, PollError>)
        requires
            valid(old(self)@),
        ensures
            valid(final(self)@),
            final(self)@ == old(self)@,
            poll_reply(r, poll(old(self)@, token@)),
    {
        let ghost s0 = self@;
        if !self.begin_poll() {
            return Err(PollError::Unavailable);
        }
        let answer = match find_token(&self.tokens, token) {
            None => {
                proof {
                    lemma_absent(tokens_seq(self.tokens@), token@);
                }
                Err(PollError::NotFound)
            },
            Some(i) => {
                proof {
                    lemma_lookup(tokens_seq(self.tokens@), token@, i as int);
                }
                let id = self.tokens[i].1;
                let found = match find_result(&self.results, id) {
                    Some(j) => {
                        proof {
                            lemma_lookup(results_seq(self.results@), id, j as int);
                        }
                        Some(self.results[j].1.duplicate())
                    },
                    None => {
                        proof {
                            lemma_absent(results_seq(self.results@), id);
                        }
                        None
                    },
                };
                Ok(JobPoll::from_slot(found))
            },
        };
        self.end_poll();
        assert(self@ == s0);
        answer
    }

    /// Whether `module` is in the registered set.
    pub fn is_registered(&self, module: &ModuleInfo) -> (r: bool)
        ensures
            r == self@.registered.contains(module@),
    {
        is_listed(&self.registered, module)
    }

    /// The worker count of `module`.
    pub fn workers_of(&self, module: &ModuleInfo) -> (r: i64)
        ensures
            r == worker_count(self@, module@),
    {
        match find_module(&self.workers, module) {
            Some(i) => {
                proof {
                    lemma_lookup(workers_seq(self.workers@), module@, i as int);
                }
                self.workers[i].1
            },
            None => {
                proof {
                    lemma_absent(workers_seq(self.workers@), module@);
                }
                0
            },
        }
    }

    /// The pending jobs of `module`, oldest first.
    pub fn queued_jobs(&self, module: &ModuleInfo) -> (r: Vec<JobInfo>)
        ensures
            r@ == queue_of(self@, module@),
    {
        match find_module(&self.queues, module) {
            Some(i) => {
                proof {
                    lemma_lookup(queues_seq(self.queues@), module@, i as int);
                }
                let q = self.queues[i].1.clone();
                assert(q@ =~= self.queues@[i as int].1@);
                q
            },
            None => {
                proof {
                    lemma_absent(queues_seq(self.queues@), module@);
                }
                Vec::new()
            },
        }
    }

    /// The job id that `token` maps to.
    pub fn job_id_of(&self, token: &String) -> (r: Option<i32>)
        ensures
            r == (if self@.tokens.contains_key(token@) {
                Some(self@.tokens[token@])
            } else {
                None
            }),
    {
        match find_token(&self.tokens, token) {
            Some(i) => {
                proof {
                    lemma_lookup(tokens_seq(self.tokens@), token@, i as int);
                }
                Some(self.tokens[i].1)
            },
            None => {
                proof {
                    lemma_absent(tokens_seq(self.tokens@), token@);
                }
                None
            },
        }
    }

    /// The token cached for the fingerprint of `job`.
    pub fn cached_token(&self, job: &JobSubmission) -> (r: Option<String>)
        ensures
            match r {
                Some(t) => self@.cache.contains_key(job@) && t@ == self@.cache[job@],
                None => !self@.cache.contains_key(job@),
            },
    {
        match find_submission(&self.cache, job) {
            Some(i) => {
                proof {
                    lemma_lookup(cache_seq(self.cache@), job@, i as int);
                }
                Some(self.cache[i].1.clone())
            },
            None => {
                proof {
                    lemma_absent(cache_seq(self.cache@), job@);
                }
                None
            },
        }
    }

    /// The last job id handed out.
    pub fn last_job_id(&self) -> (r: i32)
        ensures
            r == self@.job_counter,
    {
        self.job_counter
    }

    /// The number of pollers currently admitted.
    pub fn active_pollers(&self) -> (r: u32)
        ensures
            r == self@.pollers,
    {
        self.pollers
    }
}

} // verus!
