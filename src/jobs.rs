use crate::comms::{is_persistent, RelayConnectionReason, RelayJob, ToMinionMessage, ToOverlordMessage};
use crate::url::RelayUrl;
use vstd::prelude::*;

verus! {

/// What identifies a held job and why it is held: (relay, job id, reason).
pub type JobView = (Seq<char>, u64, RelayConnectionReason);

/// The id and reason of a job.
pub open spec fn job_key(j: RelayJob) -> (u64, RelayConnectionReason) {
    (j.payload.job_id, j.reason)
}

/// The ids and reasons of a list of jobs.
pub open spec fn job_keys(js: Seq<RelayJob>) -> Seq<(u64, RelayConnectionReason)> {
    js.map_values(|j: RelayJob| job_key(j))
}

/// The ids and reasons of the jobs that `v` holds against relay `u`, in order.
pub open spec fn jobs_for(v: Seq<JobView>, u: Seq<char>) -> Seq<(u64, RelayConnectionReason)>
    decreases v.len(),
{
    if v.len() == 0 {
        Seq::empty()
    } else {
        let rest = jobs_for(v.drop_last(), u);
        let e = v.last();
        if e.0 == u {
            rest.push((e.1, e.2))
        } else {
            rest
        }
    }
}

/// The ids and reasons of the persistent jobs that `v` holds against `u`.
pub open spec fn persistent_jobs(v: Seq<JobView>, u: Seq<char>) -> Seq<
    (u64, RelayConnectionReason),
>
    decreases v.len(),
{
    if v.len() == 0 {
        Seq::empty()
    } else {
        let rest = persistent_jobs(v.drop_last(), u);
        let e = v.last();
        if e.0 == u && is_persistent(e.2) {
            rest.push((e.1, e.2))
        } else {
            rest
        }
    }
}

/// The entries of `v` held against relays other than `u`.
pub open spec fn others(v: Seq<JobView>, u: Seq<char>) -> Seq<JobView>
    decreases v.len(),
{
    if v.len() == 0 {
        Seq::empty()
    } else {
        let rest = others(v.drop_last(), u);
        if v.last().0 != u {
            rest.push(v.last())
        } else {
            rest
        }
    }
}

/// The entries of `v` but those with relay `u` and job id `id`.
pub open spec fn without_job(v: Seq<JobView>, u: Seq<char>, id: u64) -> Seq<JobView>
    decreases v.len(),
{
    if v.len() == 0 {
        Seq::empty()
    } else {
        let rest = without_job(v.drop_last(), u, id);
        if v.last().0 == u && v.last().1 == id {
            rest
        } else {
            rest.push(v.last())
        }
    }
}

/// `v` with the jobs `js` added against relay `u`.
pub open spec fn add_jobs(v: Seq<JobView>, u: Seq<char>, js: Seq<(u64, RelayConnectionReason)>) -> Seq<
    JobView,
> {
    v + js.map_values(|j: (u64, RelayConnectionReason)| (u, j.0, j.1))
}

/// The table of jobs that the coordinator has handed to workers and not yet
/// seen finish.
pub struct JobTable {
    entries: Vec<(RelayUrl, RelayJob)>,
}

/// The view of one held job.
pub open spec fn entry_view(e: (RelayUrl, RelayJob)) -> JobView {
    (e.0@, e.1.payload.job_id, e.1.reason)
}

impl View for JobTable {
    type V = Seq<JobView>;

    closed spec fn view(&self) -> Seq<JobView> {
        self.entries@.map_values(|e: (RelayUrl, RelayJob)| entry_view(e))
    }
}

proof fn lemma_jobs_for_append(a: Seq<JobView>, b: Seq<JobView>, u: Seq<char>)
    ensures
        jobs_for(a + b, u) == jobs_for(a, u) + jobs_for(b, u),
        others(a + b, u) == others(a, u) + others(b, u),
    decreases b.len(),
{
    if b.len() == 0 {
        assert(a + b =~= a);
        assert(jobs_for(a, u) + jobs_for(b, u) =~= jobs_for(a, u));
        assert(others(a, u) + others(b, u) =~= others(a, u));
    } else {
        lemma_jobs_for_append(a, b.drop_last(), u);
        assert((a + b).drop_last() =~= a + b.drop_last());
        assert((a + b).last() == b.last());
        assert(jobs_for(a, u) + jobs_for(b.drop_last(), u).push((b.last().1, b.last().2)) =~= (
        jobs_for(a, u) + jobs_for(b.drop_last(), u)).push((b.last().1, b.last().2)));
        assert(others(a, u) + others(b.drop_last(), u).push(b.last()) =~= (others(a, u) + others(
            b.drop_last(),
            u,
        )).push(b.last()));
    }
}

proof fn lemma_added_jobs(u: Seq<char>, js: Seq<(u64, RelayConnectionReason)>)
    ensures
        jobs_for(js.map_values(|j: (u64, RelayConnectionReason)| (u, j.0, j.1)), u) == js,
        others(js.map_values(|j: (u64, RelayConnectionReason)| (u, j.0, j.1)), u) == Seq::<
            JobView,
        >::empty(),
    decreases js.len(),
{
    let m = js.map_values(|j: (u64, RelayConnectionReason)| (u, j.0, j.1));
    if js.len() == 0 {
        assert(m =~= Seq::<JobView>::empty());
        assert(jobs_for(m, u) =~= js);
    } else {
        lemma_added_jobs(u, js.drop_last());
        assert(m.drop_last() =~= js.drop_last().map_values(
            |j: (u64, RelayConnectionReason)| (u, j.0, j.1),
        ));
        assert(jobs_for(m, u) =~= js);
    }
}

proof fn lemma_others_clear(v: Seq<JobView>, u: Seq<char>)
    ensures
        jobs_for(others(v, u), u) == Seq::<(u64, RelayConnectionReason)>::empty(),
        others(others(v, u), u) == others(v, u),
        forall|k: int| 0 <= k < persistent_jobs(v, u).len() ==> is_persistent(
            #[trigger] persistent_jobs(v, u)[k].1,
        ),
    decreases v.len(),
{
    if v.len() > 0 {
        lemma_others_clear(v.drop_last(), u);
        let rest = others(v.drop_last(), u);
        if v.last().0 != u {
            assert(rest.push(v.last()).drop_last() =~= rest);
        }
        let p = persistent_jobs(v.drop_last(), u);
        let e = v.last();
        if e.0 == u && is_persistent(e.2) {
            assert forall|k: int| 0 <= k < p.push((e.1, e.2)).len() implies is_persistent(
                #[trigger] p.push((e.1, e.2))[k].1,
            ) by {
                if k < p.len() {
                    assert(p.push((e.1, e.2))[k] == p[k]);
                }
            }
        }
    }
}

/// After a relay disconnects and is engaged again with the jobs that the
/// disconnect saved, it holds exactly its former persistent jobs, in their
/// order, and none other; the jobs of other relays are untouched.
pub proof fn lemma_reconnect_restores_persistent_jobs(t: Seq<JobView>, u: Seq<char>)
    ensures
        ({
            let after = add_jobs(others(t, u), u, persistent_jobs(t, u));
            &&& jobs_for(after, u) == persistent_jobs(t, u)
            &&& forall|k: int|
                0 <= k < jobs_for(after, u).len() ==> is_persistent(
                    #[trigger] jobs_for(after, u)[k].1,
                )
            &&& others(after, u) == others(t, u)
        }),
{
    let saved = persistent_jobs(t, u);
    let m = saved.map_values(|j: (u64, RelayConnectionReason)| (u, j.0, j.1));
    lemma_jobs_for_append(others(t, u), m, u);
    lemma_added_jobs(u, saved);
    lemma_others_clear(t, u);
    assert(jobs_for(others(t, u), u) + saved =~= saved);
    assert(others(others(t, u), u) + Seq::<JobView>::empty() =~= others(t, u));
}

impl JobTable {
    /// An empty table.
    pub fn new() -> (r: JobTable)
        ensures
            r@ == Seq::<JobView>::empty(),
    {
        let r = JobTable { entries: Vec::new() };
        assert(r@ =~= Seq::<JobView>::empty());
        r
    }

    /// Holds `job` against `relay` from its dispatch on.
    pub fn dispatch(&mut self, relay: RelayUrl, job: RelayJob)
        ensures
            final(self)@ == old(self)@.push((relay@, job.payload.job_id, job.reason)),
    {
        self.entries.push((relay, job));
        assert(self@ =~= old(self)@.push((relay@, job.payload.job_id, job.reason)));
    }

    /// How many jobs are held against `relay`.
    pub fn job_count(&self, relay: &RelayUrl) -> (r: usize)
        ensures
            r == jobs_for(self@, relay@).len(),
    {
        let mut n: usize = 0;
        let mut i: usize = 0;
        while i < self.entries.len()
            invariant
                0 <= i <= self.entries.len(),
                n == jobs_for(self@.subrange(0, i as int), relay@).len(),
                n <= i,
            decreases self.entries.len() - i,
        {
            proof {
                assert(self@.subrange(0, i + 1).drop_last() =~= self@.subrange(0, i as int));
            }
            if self.entries[i].0 == *relay {
                n = n + 1;
            }
            i = i + 1;
        }
        proof {
            assert(self@.subrange(0, self.entries.len() as int) =~= self@);
        }
        n
    }

    /// Forgets the job `job_id` of `relay`, which the worker reported done;
    /// tells whether it was held.
    pub fn complete(&mut self, relay: &RelayUrl, job_id: u64) -> (r: bool)
        ensures
            final(self)@ == without_job(old(self)@, relay@, job_id),
            r == exists|k: int|
                0 <= k < old(self)@.len() && (#[trigger] old(self)@[k]).0 == relay@ && old(
                    self,
                )@[k].1 == job_id,
    {
        let ghost start = self@;
        let mut rest: Vec<(RelayUrl, RelayJob)> = Vec::new();
        std::mem::swap(&mut self.entries, &mut rest);
        let ghost all = rest@;
        let total: usize = rest.len();
        assert(self.entries@ =~= Seq::<(RelayUrl, RelayJob)>::empty());
        let mut found = false;
        let mut k: usize = 0;
        while rest.len() > 0
            invariant
                start == all.map_values(|e: (RelayUrl, RelayJob)| entry_view(e)),
                k + rest.len() == all.len(),
                all.len() == total,
                rest@ == all.subrange(k as int, all.len() as int),
                self@ == without_job(start.subrange(0, k as int), relay@, job_id),
                found == exists|j: int|
                    0 <= j < k && (#[trigger] start[j]).0 == relay@ && start[j].1 == job_id,
            decreases rest.len(),
        {
            let e = rest.remove(0);
            proof {
                assert(e == all[k as int]);
                assert(start.subrange(0, k + 1).drop_last() =~= start.subrange(0, k as int));
                assert(rest@ =~= all.subrange(k + 1, all.len() as int));
            }
            assert(start[k as int] == entry_view(e));
            if e.0 == *relay && e.1.payload.job_id == job_id {
                assert(start[k as int].0 == relay@ && start[k as int].1 == job_id);
                found = true;
            } else {
                assert(!(start[k as int].0 == relay@ && start[k as int].1 == job_id));
                let ghost before = self@;
                self.entries.push(e);
                assert(self@ =~= before.push(entry_view(e)));
            }
            k = k + 1;
        }
        proof {
            assert(start.subrange(0, k as int) =~= start);
        }
        found
    }

    /// Forgets every job of `relay`, whose connection is gone, and hands back
    /// the persistent ones in order, to be dispatched again on reconnection.
    pub fn disconnect(&mut self, relay: &RelayUrl) -> (saved: Vec<RelayJob>)
        ensures
            final(self)@ == others(old(self)@, relay@),
            job_keys(saved@) == persistent_jobs(old(self)@, relay@),
            forall|k: int| 0 <= k < saved@.len() ==> is_persistent(#[trigger] saved@[k].reason),
    {
        let ghost start = self@;
        let mut rest: Vec<(RelayUrl, RelayJob)> = Vec::new();
        std::mem::swap(&mut self.entries, &mut rest);
        let ghost all = rest@;
        let total: usize = rest.len();
        assert(self.entries@ =~= Seq::<(RelayUrl, RelayJob)>::empty());
        let mut saved: Vec<RelayJob> = Vec::new();
        let mut k: usize = 0;
        while rest.len() > 0
            invariant
                start == all.map_values(|e: (RelayUrl, RelayJob)| entry_view(e)),
                k + rest.len() == all.len(),
                all.len() == total,
                rest@ == all.subrange(k as int, all.len() as int),
                self@ == others(start.subrange(0, k as int), relay@),
                job_keys(saved@) == persistent_jobs(start.subrange(0, k as int), relay@),
                forall|j: int| 0 <= j < saved@.len() ==> is_persistent(#[trigger] saved@[j].reason),
            decreases rest.len(),
        {
            let e = rest.remove(0);
            proof {
                assert(e == all[k as int]);
                assert(start.subrange(0, k + 1).drop_last() =~= start.subrange(0, k as int));
                assert(rest@ =~= all.subrange(k + 1, all.len() as int));
            }
            let (url, job) = e;
            if url == *relay {
                if job.reason.persistent() {
                    let ghost before = saved@;
                    saved.push(job);
                    assert(job_keys(saved@) =~= job_keys(before).push(job_key(job)));
                }
            } else {
                let ghost before = self@;
                self.entries.push((url, job));
                assert(self@ =~= before.push(entry_view((url, job))));
            }
            k = k + 1;
        }
        proof {
            assert(start.subrange(0, k as int) =~= start);
        }
        saved
    }

    /// Holds `jobs` against `relay` again, as on reconnection, and makes the
    /// message that hands each of them to the relay's worker once more.
    pub fn reengage(&mut self, relay: &RelayUrl, jobs: Vec<RelayJob>) -> (msgs: Vec<
        ToMinionMessage,
    >)
        ensures
            final(self)@ == add_jobs(old(self)@, relay@, job_keys(jobs@)),
            msgs@.len() == jobs@.len(),
            forall|k: int|
                0 <= k < msgs@.len() ==> (#[trigger] msgs@[k]).target@ == relay@
                    && msgs@[k].payload.job_id == jobs@[k].payload.job_id,
    {
        let ghost start = self@;
        let ghost all = jobs@;
        let mut rest = jobs;
        let total: usize = rest.len();
        let mut msgs: Vec<ToMinionMessage> = Vec::new();
        let mut k: usize = 0;
        while rest.len() > 0
            invariant
                k + rest.len() == all.len(),
                all.len() == total,
                rest@ == all.subrange(k as int, all.len() as int),
                self@ == add_jobs(start, relay@, job_keys(all.subrange(0, k as int))),
                msgs@.len() == k,
                forall|j: int|
                    0 <= j < k ==> (#[trigger] msgs@[j]).target@ == relay@ && msgs@[j].payload.job_id
                        == all[j].payload.job_id,
            decreases rest.len(),
        {
            let job = rest.remove(0);
            proof {
                assert(job == all[k as int]);
                assert(rest@ =~= all.subrange(k + 1, all.len() as int));
                assert(job_keys(all.subrange(0, k + 1)) =~= job_keys(all.subrange(0, k as int)).push(
                    job_key(job),
                ));
            }
            let target = relay.as_str().to_string();
            msgs.push(ToMinionMessage { target, payload: job.payload.clone() });
            self.dispatch(relay.clone(), job);
            proof {
                assert(add_jobs(start, relay@, job_keys(all.subrange(0, k + 1))) =~= add_jobs(
                    start,
                    relay@,
                    job_keys(all.subrange(0, k as int)),
                ).push((relay@, job.payload.job_id, job.reason)));
            }
            k = k + 1;
        }
        proof {
            assert(all.subrange(0, k as int) =~= all);
        }
        msgs
    }

    /// Forgets every job of `relay`, whose connection is gone; where some of
    /// them were persistent, the internal message that engages the relay
    /// again with those jobs.
    pub fn relay_disconnected(&mut self, relay: &RelayUrl) -> (r: Option<ToOverlordMessage>)
        ensures
            final(self)@ == others(old(self)@, relay@),
            r is None <==> persistent_jobs(old(self)@, relay@).len() == 0,
            match r {
                Some(ToOverlordMessage::ReengageMinion(u, js)) => u@ == relay@ && job_keys(js@)
                    == persistent_jobs(old(self)@, relay@),
                Some(_) => false,
                None => true,
            },
    {
        let saved = self.disconnect(relay);
        if saved.len() == 0 {
            None
        } else {
            Some(ToOverlordMessage::ReengageMinion(relay.clone(), saved))
        }
    }
}

} // verus!
