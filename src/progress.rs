use vstd::prelude::*;
use crate::modlist::ModList;
use crate::state::{State, StateView};

verus! {

pub open spec fn keys_unique(s: Seq<(Seq<char>, StateView)>) -> bool {
    forall|i: int, j: int| 0 <= i < j < s.len() ==> (#[trigger] s[i]).0 != (#[trigger] s[j]).0
}

pub open spec fn has_key(s: Seq<(Seq<char>, StateView)>, did: Seq<char>) -> bool {
    exists|i: int| 0 <= i < s.len() && (#[trigger] s[i]).0 == did
}

/// The progress of every watched account, keyed by its DID, each at most once.
pub struct ProgressTable {
    entries: Vec<(String, State)>,
}

impl View for ProgressTable {
    type V = Seq<(Seq<char>, StateView)>;

    closed spec fn view(&self) -> Seq<(Seq<char>, StateView)> {
        self.entries@.map_values(|e: (String, State)| (e.0@, e.1@))
    }
}

impl ProgressTable {
    pub open spec fn wf(&self) -> bool {
        keys_unique(self@)
    }

    /// The table of a first run: no progress at all.
    pub fn new() -> (r: Self)
        ensures
            r@ == Seq::<(Seq<char>, StateView)>::empty(),
            r.wf(),
    {
        let r = ProgressTable { entries: Vec::new() };
        assert(r@ =~= Seq::<(Seq<char>, StateView)>::empty());
        r
    }

    pub fn len(&self) -> (r: usize)
        ensures
            r == self@.len(),
    {
        self.entries.len()
    }

    /// Where the entry of `did` stands, if there is one.
    pub fn find(&self, did: &str) -> (r: Option<usize>)
        ensures
            r matches Some(i) ==> i < self@.len() && self@[i as int].0 == did@,
            r.is_none() ==> !has_key(self@, did@),
    {
        let mut i: usize = 0;
        while i < self.entries.len()
            invariant
                i <= self.entries@.len(),
                forall|j: int| 0 <= j < i ==> (#[trigger] self@[j]).0 != did@,
            decreases self.entries@.len() - i,
        {
            if self.entries[i].0.as_str().to_owned() == did.to_owned() {
                return Some(i);
            }
            i += 1;
        }
        None
    }

    /// The entry at `i`: its DID and its progress.
    pub fn entry(&self, i: usize) -> (r: (&str, &State))
        requires
            i < self@.len(),
        ensures
            r.0@ == self@[i as int].0,
            r.1@ == self@[i as int].1,
    {
        let e = &self.entries[i];
        (e.0.as_str(), &e.1)
    }

    /// The progress of `did`, if the table holds it.
    pub fn get(&self, did: &str) -> (r: Option<&State>)
        ensures
            r matches Some(st) ==> exists|i: int|
                0 <= i < self@.len() && (#[trigger] self@[i]) == (did@, st@),
            r.is_none() ==> !has_key(self@, did@),
    {
        match self.find(did) {
            Some(i) => {
                let st = &self.entries[i].1;
                assert(self@[i as int] == (did@, st@));
                Some(st)
            },
            None => None,
        }
    }

    /// Sets the progress of `did`, replacing what it had.
    pub fn insert(&mut self, did: String, state: State)
        requires
            old(self).wf(),
        ensures
            final(self).wf(),
            has_key(old(self)@, did@) ==> exists|i: int|
                0 <= i < old(self)@.len() && (#[trigger] old(self)@[i]).0 == did@ && final(self)@
                    == old(self)@.update(i, (did@, state@)),
            !has_key(old(self)@, did@) ==> final(self)@ == old(self)@.push((did@, state@)),
    {
        let ghost before = self@;
        let ghost entry = (did@, state@);
        match self.find(did.as_str()) {
            Some(i) => {
                self.entries.remove(i);
                self.entries.insert(i, (did, state));
                assert(self@ =~= before.update(i as int, entry));
            },
            None => {
                self.entries.push((did, state));
                assert(self@ =~= before.push(entry));
            },
        }
    }

    /// The index of the entry of `did`, made with an empty progress feeding
    /// `modlist` where the table had none.
    pub fn ensure_entry(&mut self, did: &str, modlist: &str) -> (r: usize)
        requires
            old(self).wf(),
        ensures
            final(self).wf(),
            r < final(self)@.len(),
            final(self)@[r as int].0 == did@,
            has_key(old(self)@, did@) ==> final(self)@ == old(self)@,
            !has_key(old(self)@, did@) ==> final(self)@ == old(self)@.push(
                (did@, StateView { modlist: modlist@, cursor: None, jetstream_ts: None }),
            ),
    {
        match self.find(did) {
            Some(i) => i,
            None => {
                let ghost before = self@;
                let st = State::new(ModList::new(modlist.to_owned()), None, None);
                self.entries.push((did.to_owned(), st));
                assert(self@ =~= before.push((did@, st@)));
                self.entries.len() - 1
            },
        }
    }

    /// Records the timestamp of a live-feed event in the entry at `i`.
    pub fn record_event_time(&mut self, i: usize, ts: i64)
        requires
            old(self).wf(),
            i < old(self)@.len(),
        ensures
            final(self).wf(),
            final(self)@ == old(self)@.update(
                i as int,
                (
                    old(self)@[i as int].0,
                    StateView {
                        jetstream_ts: match old(self)@[i as int].1.jetstream_ts {
                            Some(t) => if t >= ts {
                                Some(t)
                            } else {
                                Some(ts)
                            },
                            None => Some(ts),
                        },
                        ..old(self)@[i as int].1
                    },
                ),
            ),
    {
        let ghost before = self@;
        let (did, mut st) = self.entries.remove(i);
        st.record_event_time(ts);
        let ghost entry = (did@, st@);
        self.entries.insert(i, (did, st));
        assert(self@ =~= before.update(i as int, entry));
    }

    /// Takes the outcome of a backfill into the entry at `i`.
    pub fn record_backfill(&mut self, i: usize, last_cursor: Option<String>)
        requires
            old(self).wf(),
            i < old(self)@.len(),
        ensures
            final(self).wf(),
            final(self)@ == old(self)@.update(
                i as int,
                (
                    old(self)@[i as int].0,
                    StateView {
                        cursor: if last_cursor.is_some() {
                            crate::state::opt_view(last_cursor)
                        } else {
                            old(self)@[i as int].1.cursor
                        },
                        ..old(self)@[i as int].1
                    },
                ),
            ),
    {
        let ghost before = self@;
        let (did, mut st) = self.entries.remove(i);
        st.record_backfill(last_cursor);
        let ghost entry = (did@, st@);
        self.entries.insert(i, (did, st));
        assert(self@ =~= before.update(i as int, entry));
    }
}

} // verus!
