use vstd::prelude::*;
use crate::modlist::ModList;

verus! {

/// Synchronization progress for one watched account: the list it feeds, the
/// last backfill cursor, and the last live-feed timestamp.
///
/// Both positions may lag behind: they are written at checkpoints only.
pub struct State {
    pub modlist: ModList,
    cursor: Option<String>,
    jetstream_ts: Option<i64>,
}

/// The abstract content of a `State`.
pub struct StateView {
    pub modlist: Seq<char>,
    pub cursor: Option<Seq<char>>,
    pub jetstream_ts: Option<i64>,
}

pub open spec fn opt_view(o: Option<String>) -> Option<Seq<char>> {
    match o {
        Some(s) => Some(s@),
        None => None,
    }
}

impl View for State {
    type V = StateView;

    closed spec fn view(&self) -> StateView {
        StateView {
            modlist: self.modlist@,
            cursor: opt_view(self.cursor),
            jetstream_ts: self.jetstream_ts,
        }
    }
}

impl State {
    pub fn new(modlist: ModList, cursor: Option<String>, jetstream_ts: Option<i64>) -> (r: Self)
        ensures
            r@ == (StateView { modlist: modlist@, cursor: opt_view(cursor), jetstream_ts }),
    {
        State { modlist, cursor, jetstream_ts }
    }

    /// The cursor at which a backfill resumes, if one was recorded.
    pub fn cursor(&self) -> (r: Option<&str>)
        ensures
            match r {
                Some(c) => self@.cursor == Some(c@),
                None => self@.cursor.is_none(),
            },
    {
        match &self.cursor {
            Some(c) => Some(c.as_str()),
            None => None,
        }
    }

    /// Records a backfill cursor. There is no way to clear it: progress only
    /// moves forward.
    pub fn set_cursor(&mut self, cursor: String)
        ensures
            final(self)@ == (StateView { cursor: Some(cursor@), ..old(self)@ }),
    {
        self.cursor = Some(cursor);
    }

    /// Takes the outcome of a backfill: its last cursor, where it saw one. A
    /// backfill that saw none leaves the recorded cursor as it was.
    pub fn record_backfill(&mut self, last_cursor: Option<String>)
        ensures
            final(self)@ == (StateView {
                cursor: if last_cursor.is_some() {
                    opt_view(last_cursor)
                } else {
                    old(self)@.cursor
                },
                ..old(self)@
            }),
    {
        if let Some(c) = last_cursor {
            self.set_cursor(c);
        }
    }

    /// Records the timestamp of a live-feed event. It only moves forward: an
    /// older timestamp leaves the recorded one in place.
    pub fn record_event_time(&mut self, ts: i64)
        ensures
            final(self)@ == (StateView {
                jetstream_ts: match old(self)@.jetstream_ts {
                    Some(t) => if t >= ts {
                        Some(t)
                    } else {
                        Some(ts)
                    },
                    None => Some(ts),
                },
                ..old(self)@
            }),
    {
        match self.jetstream_ts {
            Some(t) if t >= ts => {},
            _ => {
                self.jetstream_ts = Some(ts);
            },
        }
    }

    /// The last live-feed timestamp recorded.
    pub fn jetstream_ts(&self) -> (r: Option<i64>)
        ensures
            r == self@.jetstream_ts,
    {
        self.jetstream_ts
    }
}

} // verus!
