//! The Job Registry: the process-wide map from job identifier to job, and the state that
//! the service shares between sessions.
use vstd::prelude::*;
use crate::gpu::GpuNegotiator;
use crate::job::Job;
use crate::text::str_eq;

verus! {

/// The map that a list of jobs stands for: each job under its identifier.
pub open spec fn jobs_map(s: Seq<Job>) -> Map<u128, Job>
    decreases s.len(),
{
    if s.len() == 0 {
        Map::empty()
    } else {
        jobs_map(s.drop_last()).insert(s.last().spec_id(), s.last())
    }
}

/// No two jobs of the list share an identifier.
pub open spec fn ids_unique(s: Seq<Job>) -> bool {
    forall|i: int, j: int| 0 <= i < j < s.len() ==> #[trigger] s[i].spec_id() != #[trigger] s[j].spec_id()
}

proof fn lemma_jobs_map_domain(s: Seq<Job>, id: u128)
    ensures
        jobs_map(s).contains_key(id) <==> exists|i: int| 0 <= i < s.len() && #[trigger] s[i].spec_id() == id,
    decreases s.len(),
{
    if s.len() > 0 {
        lemma_jobs_map_domain(s.drop_last(), id);
        if jobs_map(s.drop_last()).contains_key(id) {
            let i = choose|i: int| 0 <= i < s.drop_last().len() && #[trigger] s.drop_last()[i].spec_id() == id;
            assert(s[i].spec_id() == id);
        }
        if exists|i: int| 0 <= i < s.len() && #[trigger] s[i].spec_id() == id {
            let i = choose|i: int| 0 <= i < s.len() && #[trigger] s[i].spec_id() == id;
            if i < s.len() - 1 {
                assert(s.drop_last()[i].spec_id() == id);
            }
        }
    }
}

proof fn lemma_jobs_map_lookup(s: Seq<Job>, i: int)
    requires
        ids_unique(s),
        0 <= i < s.len(),
    ensures
        jobs_map(s).contains_key(s[i].spec_id()),
        jobs_map(s)[s[i].spec_id()] == s[i],
    decreases s.len(),
{
    if i < s.len() - 1 {
        assert(ids_unique(s.drop_last()));
        lemma_jobs_map_lookup(s.drop_last(), i);
        assert(s.drop_last()[i] == s[i]);
    }
}

/// The jobs the service knows of, each under its identifier.
pub struct Registry {
    jobs: Vec<Job>,
}

impl View for Registry {
    type V = Map<u128, Job>;

    closed spec fn view(&self) -> Map<u128, Job> {
        jobs_map(self.jobs@)
    }
}

impl Registry {
    /// Identifiers are unique within the registry.
    pub closed spec fn wf(&self) -> bool {
        ids_unique(self.jobs@)
    }

    /// An empty registry.
    pub fn new() -> (r: Registry)
        ensures
            r.wf(),
            r@ == Map::<u128, Job>::empty(),
    {
        Registry { jobs: Vec::new() }
    }

    /// The number of jobs.
    pub fn len(&self) -> (r: usize)
        requires
            self.wf(),
        ensures
            r == self@.len(),
    {
        proof {
            self.lemma_len();
        }
        self.jobs.len()
    }

    proof fn lemma_len(&self)
        requires
            self.wf(),
        ensures
            self@.len() == self.jobs@.len(),
    {
        let s = self.jobs@;
        assert(self@.dom() =~= Set::new(|i: int| 0 <= i < s.len()).map(|i: int| s[i].spec_id())) by {
            assert forall|id: u128| self@.dom().contains(id) <==> Set::new(|i: int| 0 <= i < s.len()).map(|i: int| s[i].spec_id()).contains(id) by {
                lemma_jobs_map_domain(s, id);
                if self@.dom().contains(id) {
                    let i = choose|i: int| 0 <= i < s.len() && #[trigger] s[i].spec_id() == id;
                    assert(Set::new(|i: int| 0 <= i < s.len()).contains(i));
                }
            }
        }
        let idx = Set::new(|i: int| 0 <= i < s.len());
        assert(idx =~= vstd::set_lib::set_int_range(0, s.len() as int));
        vstd::set_lib::lemma_int_range(0, s.len() as int);
        assert forall|a: int, b: int| idx.contains(a) && idx.contains(b) && #[trigger] s[a].spec_id() == #[trigger] s[b].spec_id() implies a == b by {
            if a < b {
            } else if b < a {
            }
        }
        vstd::set_lib::lemma_map_size(idx, idx.map(|i: int| s[i].spec_id()), |i: int| s[i].spec_id());
    }

    /// The position of the job with identifier `id`, if any.
    fn position(&self, id: u128) -> (r: Option<usize>)
        requires
            self.wf(),
        ensures
            match r {
                Some(i) => i < self.jobs@.len() && self.jobs@[i as int].spec_id() == id,
                None => forall|i: int| 0 <= i < self.jobs@.len() ==> #[trigger] self.jobs@[i].spec_id() != id,
            },
    {
        let mut i: usize = 0;
        while i < self.jobs.len()
            invariant
                i <= self.jobs@.len(),
                forall|k: int| 0 <= k < i ==> #[trigger] self.jobs@[k].spec_id() != id,
            decreases self.jobs.len() - i,
        {
            if self.jobs[i].id() == id {
                return Some(i);
            }
            i = i + 1;
        }
        None
    }

    /// Whether a job with identifier `id` is registered.
    pub fn contains(&self, id: u128) -> (r: bool)
        requires
            self.wf(),
        ensures
            r == self@.contains_key(id),
    {
        proof {
            lemma_jobs_map_domain(self.jobs@, id);
        }
        self.position(id).is_some()
    }

    /// A copy of the job with identifier `id`, if any.
    pub fn get(&self, id: u128) -> (r: Option<Job>)
        requires
            self.wf(),
        ensures
            match r {
                Some(j) => self@.contains_key(id) && self@[id] == j,
                None => !self@.contains_key(id),
            },
    {
        proof {
            lemma_jobs_map_domain(self.jobs@, id);
        }
        match self.position(id) {
            Some(i) => {
                proof {
                    lemma_jobs_map_lookup(self.jobs@, i as int);
                }
                Some(self.jobs[i].snapshot())
            },
            None => None,
        }
    }

    /// A copy of a job whose bearer token is `auth`, if any; tokens are not indexed, so
    /// this looks at every job.
    pub fn find_by_auth(&self, auth: &str) -> (r: Option<Job>)
        requires
            self.wf(),
        ensures
            match r {
                Some(j) => self@.contains_key(j.spec_id()) && self@[j.spec_id()] == j && j.spec_auth() == auth@,
                None => forall|id: u128| #[trigger] self@.contains_key(id) ==> self@[id].spec_auth() != auth@,
            },
    {
        let mut i: usize = 0;
        while i < self.jobs.len()
            invariant
                ids_unique(self.jobs@),
                i <= self.jobs@.len(),
                forall|k: int| 0 <= k < i ==> #[trigger] self.jobs@[k].spec_auth() != auth@,
            decreases self.jobs.len() - i,
        {
            if str_eq(self.jobs[i].auth(), auth) {
                proof {
                    lemma_jobs_map_lookup(self.jobs@, i as int);
                }
                return Some(self.jobs[i].snapshot());
            }
            i = i + 1;
        }
        proof {
            assert forall|id: u128| #[trigger] self@.contains_key(id) implies self@[id].spec_auth() != auth@ by {
                lemma_jobs_map_domain(self.jobs@, id);
                let k = choose|k: int| 0 <= k < self.jobs@.len() && #[trigger] self.jobs@[k].spec_id() == id;
                lemma_jobs_map_lookup(self.jobs@, k);
            }
        }
        None
    }

    /// Removes the job with identifier `id`, returning it.
    pub fn remove(&mut self, id: u128) -> (r: Option<Job>)
        requires
            old(self).wf(),
        ensures
            final(self).wf(),
            final(self)@ == old(self)@.remove(id),
            match r {
                Some(j) => old(self)@.contains_key(id) && old(self)@[id] == j,
                None => !old(self)@.contains_key(id),
            },
    {
        proof {
            lemma_jobs_map_domain(self.jobs@, id);
        }
        match self.position(id) {
            None => {
                assert(self@ =~= self@.remove(id));
                None
            },
            Some(i) => {
                proof {
                    lemma_jobs_map_lookup(self.jobs@, i as int);
                }
                let ghost before = self.jobs@;
                let j = self.jobs.remove(i);
                proof {
                    assert(self.jobs@ =~= before.remove(i as int));
                    assert(ids_unique(self.jobs@)) by {
                        assert forall|a: int, b: int| 0 <= a < b < self.jobs@.len() implies
                            #[trigger] self.jobs@[a].spec_id() != #[trigger] self.jobs@[b].spec_id() by {
                            let a2 = if a < i { a } else { a + 1 };
                            let b2 = if b < i { b } else { b + 1 };
                            assert(self.jobs@[a] == before[a2]);
                            assert(self.jobs@[b] == before[b2]);
                        }
                    }
                    assert forall|k: u128| #[trigger] self@.contains_key(k) <==> old(self)@.remove(id).contains_key(k) by {
                        lemma_jobs_map_domain(self.jobs@, k);
                        lemma_jobs_map_domain(before, k);
                        if old(self)@.remove(id).contains_key(k) {
                            let t = choose|t: int| 0 <= t < before.len() && #[trigger] before[t].spec_id() == k;
                            assert(t != i);
                            let t2 = if t < i { t } else { t - 1 };
                            assert(self.jobs@[t2] == before[t]);
                        }
                        if self@.contains_key(k) {
                            let t = choose|t: int| 0 <= t < self.jobs@.len() && #[trigger] self.jobs@[t].spec_id() == k;
                            let t2 = if t < i { t } else { t + 1 };
                            assert(self.jobs@[t] == before[t2]);
                        }
                    }
                    assert forall|k: u128| #[trigger] self@.contains_key(k) implies self@[k] == old(self)@.remove(id)[k] by {
                        lemma_jobs_map_domain(self.jobs@, k);
                        let t = choose|t: int| 0 <= t < self.jobs@.len() && #[trigger] self.jobs@[t].spec_id() == k;
                        let t2 = if t < i { t } else { t + 1 };
                        assert(self.jobs@[t] == before[t2]);
                        lemma_jobs_map_lookup(self.jobs@, t);
                        lemma_jobs_map_lookup(before, t2);
                    }
                    assert(self@ =~= old(self)@.remove(id));
                }
                Some(j)
            },
        }
    }

    /// Registers a new job, unless its identifier is already taken: identifiers stay unique
    /// for as long as a job is registered. Returns the job back if it was refused.
    pub fn register(&mut self, job: Job) -> (r: Result<(), Job>)
        requires
            old(self).wf(),
        ensures
            final(self).wf(),
            !old(self)@.contains_key(job.spec_id()) ==> r is Ok && final(self)@ == old(self)@.insert(job.spec_id(), job),
            old(self)@.contains_key(job.spec_id()) ==> r == Err::<(), Job>(job) && final(self)@ == old(self)@,
    {
        if self.contains(job.id()) {
            return Err(job);
        }
        self.insert(job);
        Ok(())
    }

    /// Puts back a job that is already registered, or registers it: the old entry is
    /// removed first, so no stale copy stays behind.
    pub fn insert(&mut self, job: Job)
        requires
            old(self).wf(),
        ensures
            final(self).wf(),
            final(self)@ == old(self)@.insert(job.spec_id(), job),
    {
        let id = job.id();
        let _ = self.remove(id);
        let ghost mid = self.jobs@;
        proof {
            lemma_jobs_map_domain(mid, id);
        }
        self.jobs.push(job);
        proof {
            assert(self.jobs@.drop_last() =~= mid);
            assert(ids_unique(self.jobs@)) by {
                assert forall|a: int, b: int| 0 <= a < b < self.jobs@.len() implies
                    #[trigger] self.jobs@[a].spec_id() != #[trigger] self.jobs@[b].spec_id() by {
                    if b == self.jobs@.len() - 1 {
                        assert(mid[a] == self.jobs@[a]);
                    } else {
                        assert(mid[a] == self.jobs@[a] && mid[b] == self.jobs@[b]);
                    }
                }
            }
            assert(self@ =~= old(self)@.insert(id, job));
        }
    }
}

/// What the service shares between all requests and sessions.
pub struct AppState {
    pub jobs: Registry,
    pub gpu: GpuNegotiator,
    pub vaapi_device_path: Option<String>,
}

impl AppState {
    /// The state of a freshly started service: no jobs, nothing probed.
    pub fn default() -> (r: AppState)
        ensures
            r.jobs.wf(),
            r.jobs@ == Map::<u128, Job>::empty(),
            r.gpu.wf(),
            r.gpu@ == Map::<crate::gpu::CodecFamily, Option<Seq<char>>>::empty(),
            r.vaapi_device_path is None,
    {
        AppState { jobs: Registry::new(), gpu: GpuNegotiator::new(), vaapi_device_path: None }
    }
}

} // verus!
