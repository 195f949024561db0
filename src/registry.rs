use crate::relay::Relay3;
use crate::selection::{is_predicate, keeper};
use crate::url::RelayUrl;
use vstd::prelude::*;

verus! {

/// Whether no two records of `s` share an address.
pub open spec fn unique_urls(s: Seq<Relay3>) -> bool {
    forall|i: int, j: int| 0 <= i < j < s.len() ==> (#[trigger] s[i]).url@ != (#[trigger] s[j]).url@
}

/// Whether `s` holds a record for address `u`.
pub open spec fn has_url(s: Seq<Relay3>, u: Seq<char>) -> bool {
    exists|i: int| 0 <= i < s.len() && (#[trigger] s[i]).url@ == u
}

/// The records of `s` that `keep` accepts, in order.
pub open spec fn kept(s: Seq<Relay3>, keep: spec_fn(Relay3) -> bool) -> Seq<Relay3>
    decreases s.len(),
{
    if s.len() == 0 {
        Seq::empty()
    } else if keep(s.last()) {
        kept(s.drop_last(), keep).push(s.last())
    } else {
        kept(s.drop_last(), keep)
    }
}

/// The known relays, one record per address.
pub struct RelayRegistry {
    records: Vec<Relay3>,
}

impl View for RelayRegistry {
    type V = Seq<Relay3>;

    closed spec fn view(&self) -> Seq<Relay3> {
        self.records@
    }
}

impl RelayRegistry {
    /// An empty registry.
    pub fn new() -> (r: RelayRegistry)
        ensures
            r@ == Seq::<Relay3>::empty(),
    {
        RelayRegistry { records: Vec::new() }
    }

    /// Whether no two records share an address.
    pub open spec fn wf(&self) -> bool {
        unique_urls(self@)
    }

    /// The records, in the order they were first stored.
    pub fn records(&self) -> (r: &Vec<Relay3>)
        ensures
            r@ == self@,
    {
        &self.records
    }

    /// The index of the record for `url`, if there is one.
    fn position(&self, url: &RelayUrl) -> (r: Option<usize>)
        ensures
            match r {
                Some(i) => i < self@.len() && self@[i as int].url@ == url@,
                None => !has_url(self@, url@),
            },
    {
        let mut i: usize = 0;
        while i < self.records.len()
            invariant
                0 <= i <= self.records.len(),
                forall|k: int| 0 <= k < i ==> self@[k].url@ != url@,
            decreases self.records.len() - i,
        {
            if self.records[i].url == *url {
                return Some(i);
            }
            i = i + 1;
        }
        None
    }

    /// A copy of the record for `url`, if there is one.
    pub fn get(&self, url: &RelayUrl) -> (r: Option<Relay3>)
        requires
            self.wf(),
        ensures
            match r {
                Some(x) => exists|i: int|
                    0 <= i < self@.len() && #[trigger] self@[i] == x && x.url@ == url@,
                None => !has_url(self@, url@),
            },
    {
        match self.position(url) {
            Some(i) => Some(self.records[i].clone()),
            None => None,
        }
    }

    /// Stores `record`, in place of the record with its address if there is
    /// one, else after the others.
    pub fn upsert(&mut self, record: Relay3)
        requires
            old(self).wf(),
        ensures
            final(self).wf(),
            has_url(old(self)@, record.url@) ==> exists|i: int|
                0 <= i < old(self)@.len() && (#[trigger] old(self)@[i]).url@ == record.url@
                    && final(self)@ == old(self)@.update(i, record),
            !has_url(old(self)@, record.url@) ==> final(self)@ == old(self)@.push(record),
    {
        match self.position(&record.url) {
            Some(i) => {
                let ghost before = self@;
                let ghost rec = record;
                self.records.set(i, record);
                assert(self@ =~= before.update(i as int, rec));
                assert forall|a: int, b: int| 0 <= a < b < self@.len() implies (
                #[trigger] self@[a]).url@ != (#[trigger] self@[b]).url@ by {
                    if a != i && b != i {
                        assert(before[a] == self@[a] && before[b] == self@[b]);
                    } else if a == i {
                        assert(before[b] == self@[b]);
                    } else {
                        assert(before[a] == self@[a]);
                    }
                }
            },
            None => {
                let ghost before = self@;
                let ghost rec = record;
                self.records.push(record);
                assert forall|a: int, b: int| 0 <= a < b < self@.len() implies (
                #[trigger] self@[a]).url@ != (#[trigger] self@[b]).url@ by {
                    if b == before.len() {
                        assert(self@[a] == before[a]);
                    } else {
                        assert(self@[a] == before[a] && self@[b] == before[b]);
                    }
                }
            },
        }
    }

    /// Copies of the records that `f` accepts, in order.
    pub fn filter_relays<F: Fn(&Relay3) -> bool>(&self, f: F) -> (r: Vec<Relay3>)
        requires
            is_predicate(f),
        ensures
            r@ == kept(self@, keeper(f)),
    {
        let mut out: Vec<Relay3> = Vec::new();
        let mut i: usize = 0;
        while i < self.records.len()
            invariant
                0 <= i <= self.records.len(),
                is_predicate(f),
                out@ == kept(self@.subrange(0, i as int), keeper(f)),
            decreases self.records.len() - i,
        {
            let r = &self.records[i];
            proof {
                assert(self@.subrange(0, i + 1).drop_last() =~= self@.subrange(0, i as int));
            }
            if f(r) {
                out.push(r.clone());
            }
            i = i + 1;
        }
        proof {
            assert(self@.subrange(0, self.records.len() as int) =~= self@);
        }
        out
    }
}

} // verus!
