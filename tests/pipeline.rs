use feed2block::backfill::{plan_backfill, run_backfill};
use feed2block::events::{DecodeError, Envelope, Event, SubWatcher};
use feed2block::modlist::ModList;
use feed2block::paginate::{enumerate_pages, Batch, Item, Paginator, PAGE_LIMIT};
use feed2block::progress::ProgressTable;
use feed2block::sink::{drain, drain_until, Drain};
use feed2block::state::State;

fn s(x: &str) -> String {
    x.to_string()
}

fn page(subjects: &[&str], cursor: Option<&str>) -> Batch {
    Batch { subjects: subjects.iter().map(|x| s(x)).collect(), cursor: cursor.map(s) }
}

fn item(subject: &str, cursor: Option<&str>) -> Item {
    Item { subject: s(subject), cursor: cursor.map(s) }
}

fn pairs(items: &[Item]) -> Vec<(String, Option<String>)> {
    items.iter().map(|i| (i.subject.clone(), i.cursor.clone())).collect()
}

fn two_pages() -> Vec<Batch> {
    vec![page(&["a", "b"], Some("c1")), page(&["c"], None)]
}

fn envelope(did: Option<&str>, op: Option<&str>, collection: Option<&str>, subject: Option<&str>) -> Envelope {
    Envelope {
        did: did.map(s),
        operation: op.map(s),
        collection: collection.map(s),
        subject: subject.map(s),
    }
}

const WATCHED: &str = "did:plc:watched";
const FOLLOW: &str = "app.bsky.graph.follow";

#[test]
fn state_cursor_round_trip() {
    let mut st = State::new(ModList::new(s("at://list")), None, Some(42));
    assert_eq!(st.cursor(), None);
    assert_eq!(st.jetstream_ts(), Some(42));
    st.set_cursor(s("c7"));
    assert_eq!(st.cursor(), Some("c7"));
    assert_eq!(st.modlist.reference(), "at://list");
}

#[test]
fn record_backfill_keeps_cursor_without_new_one() {
    let mut st = State::new(ModList::new(s("l")), Some(s("old")), None);
    st.record_backfill(None);
    assert_eq!(st.cursor(), Some("old"));
    st.record_backfill(Some(s("new")));
    assert_eq!(st.cursor(), Some("new"));
}

#[test]
fn enumerate_flattens_pages_with_page_cursors() {
    let walk = enumerate_pages(s("w"), None, &two_pages());
    assert_eq!(pairs(&walk.items), vec![(s("a"), None), (s("b"), Some(s("c1"))), (s("c"), None)]);
    let asked: Vec<Option<String>> = walk.requests.iter().map(|r| r.cursor.clone()).collect();
    assert_eq!(asked, vec![None, Some(s("c1"))]);
}

#[test]
fn enumerate_stops_at_page_without_cursor() {
    let pages = vec![page(&["a"], None), page(&["z"], None)];
    let walk = enumerate_pages(s("w"), None, &pages);
    assert_eq!(pairs(&walk.items), vec![(s("a"), None)]);
    assert_eq!(walk.requests.len(), 1);
}

#[test]
fn enumerate_of_no_pages_is_empty() {
    let walk = enumerate_pages(s("w"), None, &Vec::new());
    assert!(walk.items.is_empty());
}

#[test]
fn resume_from_cursor_reproduces_tail() {
    let pages = vec![page(&["a", "b"], Some("c1")), page(&["c", "d"], Some("c2")), page(&["e"], None)];
    let full = pairs(&enumerate_pages(s("w"), None, &pages).items);
    // only the last item of a page carries a cursor: the page after it
    assert_eq!(full[0].1, None);
    assert_eq!(full[1].1, Some(s("c1")));
    assert_eq!(full[2].1, None);
    assert_eq!(full[3].1, Some(s("c2")));
    let resumed = pairs(&enumerate_pages(s("w"), Some(s("c1")), &pages[1..].to_vec()).items);
    assert_eq!(resumed, full[2..].to_vec());
    let resumed = pairs(&enumerate_pages(s("w"), Some(s("c2")), &pages[2..].to_vec()).items);
    assert_eq!(resumed, full[4..].to_vec());
}

#[test]
fn paginator_requests_until_last_page() {
    let mut p = Paginator::new(s("did:plc:w"), Some(s("start")));
    let req = p.next_request().unwrap();
    assert_eq!(req.subject, "did:plc:w");
    assert_eq!(req.cursor, Some(s("start")));
    assert_eq!(req.limit, PAGE_LIMIT);
    assert_eq!(PAGE_LIMIT, 100);
    let out = p.accept(&page(&["x"], Some("n1")));
    assert_eq!(pairs(&out), vec![(s("x"), Some(s("n1")))]);
    assert_eq!(p.next_request().unwrap().cursor, Some(s("n1")));
    let out = p.accept(&page(&[], None));
    assert!(out.is_empty());
    assert!(p.next_request().is_none());
}

#[test]
fn drain_adds_all_and_returns_last_cursor() {
    let items = enumerate_pages(s("w"), None, &two_pages()).items;
    let out = drain(&items);
    assert_eq!(out.added, vec![s("a"), s("b"), s("c")]);
    assert_eq!(out.last_cursor, Some(s("c1")));
}

#[test]
fn drain_without_cursors_returns_none() {
    let out = drain(&vec![item("a", None), item("b", None)]);
    assert_eq!(out.added, vec![s("a"), s("b")]);
    assert_eq!(out.last_cursor, None);
}

#[test]
fn drain_keeps_last_cursor_seen_not_last_item() {
    let out = drain(&vec![item("a", Some("c1")), item("b", Some("c2")), item("c", None)]);
    assert_eq!(out.last_cursor, Some(s("c2")));
}

#[test]
fn drain_until_stops_before_boundary() {
    let items = vec![item("a", Some("c1")), item("b", Some("c2")), item("c", Some("c3"))];
    let out = drain_until(&items, &s("b"));
    assert_eq!(out.added, vec![s("a")]);
    assert_eq!(out.last_cursor, Some(s("c1")));
}

#[test]
fn drain_until_boundary_first_adds_nothing() {
    let items = vec![item("b", Some("c1")), item("a", Some("c2"))];
    let out = drain_until(&items, &s("b"));
    assert!(out.added.is_empty());
    assert_eq!(out.last_cursor, None);
}

#[test]
fn drain_until_absent_boundary_is_drain() {
    let items = vec![item("a", Some("c1")), item("b", None), item("c", Some("c2"))];
    let until = drain_until(&items, &s("zz"));
    let all = drain(&items);
    assert_eq!(until.added, all.added);
    assert_eq!(until.last_cursor, all.last_cursor);
    assert_eq!(all.added, vec![s("a"), s("b"), s("c")]);
}

#[test]
fn drain_step_same_subject_twice() {
    let mut d = Drain::new(None);
    assert_eq!(d.step(&item("a", None)), Some(s("a")));
    assert_eq!(d.step(&item("a", Some("k"))), Some(s("a")));
    assert!(!d.is_stopped());
    assert_eq!(d.last_cursor(), Some(s("k")));
    let out = drain(&vec![item("a", None), item("a", None)]);
    assert_eq!(out.added, vec![s("a"), s("a")]);
}

#[test]
fn drain_step_stops_at_boundary() {
    let mut d = Drain::new(Some(s("b")));
    assert_eq!(d.step(&item("a", Some("c1"))), Some(s("a")));
    assert_eq!(d.step(&item("b", Some("c2"))), None);
    assert!(d.is_stopped());
    assert_eq!(d.last_cursor(), Some(s("c1")));
}

#[test]
fn list_item_names_list_and_subject() {
    let l = ModList::new(s("at://did:plc:o/app.bsky.graph.list/x"));
    let it = l.item_for(s("did:plc:a"));
    assert_eq!(it.list, "at://did:plc:o/app.bsky.graph.list/x");
    assert_eq!(it.subject, "did:plc:a");
}

#[test]
fn most_recent_member_is_first_listed() {
    let l = ModList::new(s("at://l"));
    let pages = vec![page(&[], Some("c1")), page(&["m1", "m2"], None)];
    assert_eq!(l.most_recent_member(&pages), Some(s("m1")));
    assert_eq!(l.most_recent_member(&vec![page(&[], None)]), None);
}

#[test]
fn follow_envelope_yields_follow() {
    let w = SubWatcher::new(s(WATCHED)).unwrap();
    let env = envelope(Some("did:plc:x"), Some("create"), Some(FOLLOW), Some(WATCHED));
    let f = w.decode(&env).unwrap().unwrap();
    assert_eq!(f.from(), "did:plc:x");
    assert_eq!(f.to(), WATCHED);
    assert_eq!(f.event(), Event::Follow);
    assert_eq!(f.subject_to_add(), Some(s("did:plc:x")));
}

#[test]
fn other_collection_is_ignored() {
    let w = SubWatcher::new(s(WATCHED)).unwrap();
    let env = envelope(Some("did:plc:x"), Some("create"), Some("app.bsky.feed.like"), Some(WATCHED));
    assert!(matches!(w.decode(&env), Ok(None)));
}

#[test]
fn other_target_is_discarded() {
    let w = SubWatcher::new(s(WATCHED)).unwrap();
    let env = envelope(Some("did:plc:x"), Some("create"), Some(FOLLOW), Some("did:plc:other"));
    assert!(matches!(w.decode(&env), Ok(None)));
    let env = envelope(Some("did:plc:x"), Some("create"), Some(FOLLOW), None);
    assert!(matches!(w.decode(&env), Ok(None)));
}

#[test]
fn delete_yields_unfollow_that_adds_nothing() {
    let w = SubWatcher::new(s(WATCHED)).unwrap();
    let env = envelope(Some("did:plc:x"), Some("delete"), Some(FOLLOW), Some(WATCHED));
    let f = w.decode(&env).unwrap().unwrap();
    assert_eq!(f.event(), Event::Unfollow);
    assert_eq!(f.subject_to_add(), None);
}

#[test]
fn decode_errors() {
    let w = SubWatcher::new(s(WATCHED)).unwrap();
    let missing_actor = envelope(None, Some("create"), Some(FOLLOW), Some(WATCHED));
    assert_eq!(w.decode(&missing_actor).err(), Some(DecodeError::MissingActor));
    let bad_actor = envelope(Some("not a did"), Some("create"), Some(FOLLOW), Some(WATCHED));
    assert_eq!(w.decode(&bad_actor).err(), Some(DecodeError::InvalidActor));
    let missing_op = envelope(Some("did:plc:x"), None, Some(FOLLOW), Some(WATCHED));
    assert_eq!(w.decode(&missing_op).err(), Some(DecodeError::MissingOperation));
    let other_op = envelope(Some("did:plc:x"), Some("update"), Some(FOLLOW), Some(WATCHED));
    assert_eq!(w.decode(&other_op).err(), Some(DecodeError::UnsupportedOperation));
}

#[test]
fn progress_table_entries() {
    let mut t = ProgressTable::new();
    assert_eq!(t.len(), 0);
    assert!(t.get("did:plc:a").is_none());
    let i = t.ensure_entry("did:plc:a", "at://l1");
    assert_eq!(i, 0);
    assert_eq!(t.ensure_entry("did:plc:a", "at://other"), 0);
    assert_eq!(t.len(), 1);
    assert_eq!(t.get("did:plc:a").unwrap().modlist.reference(), "at://l1");
    t.record_backfill(0, Some(s("c9")));
    assert_eq!(t.get("did:plc:a").unwrap().cursor(), Some("c9"));
    t.insert(s("did:plc:b"), State::new(ModList::new(s("at://l2")), Some(s("k")), None));
    assert_eq!(t.len(), 2);
    assert_eq!(t.find("did:plc:b"), Some(1));
    t.insert(s("did:plc:a"), State::new(ModList::new(s("at://l3")), None, None));
    assert_eq!(t.len(), 2);
    let (did, st) = t.entry(0);
    assert_eq!(did, "did:plc:a");
    assert_eq!(st.modlist.reference(), "at://l3");
}

#[test]
fn backfill_scenario_without_boundary() {
    let mut st = State::new(ModList::new(s("l")), None, None);
    let run = run_backfill(s("W"), &mut st, None, &two_pages());
    assert_eq!(run.added, vec![s("a"), s("b"), s("c")]);
    assert_eq!(run.requests.len(), 2);
    assert_eq!(run.requests[0].cursor, None);
    assert_eq!(run.requests[1].cursor, Some(s("c1")));
    assert_eq!(run.requests[0].subject, "W");
    assert_eq!(st.cursor(), Some("c1"));
}

#[test]
fn backfill_scenario_with_boundary() {
    let mut st = State::new(ModList::new(s("l")), Some(s("prev")), None);
    let plan = plan_backfill(&st, Some(s("b")));
    assert_eq!(plan.start, Some(s("prev")));
    assert_eq!(plan.boundary, Some(s("b")));
    let pages = vec![page(&["a", "b", "c"], None)];
    let run = run_backfill(s("W"), &mut st, Some(s("b")), &pages);
    assert_eq!(run.added, vec![s("a")]);
    assert_eq!(run.requests[0].cursor, Some(s("prev")));
    assert_eq!(st.cursor(), Some("prev"));
}

#[test]
fn cancelled_backfill_resumes_after_recorded_cursor() {
    let pages = vec![page(&["a", "b"], Some("c1")), page(&["c", "d"], Some("c2")), page(&["e"], None)];
    let items = enumerate_pages(s("W"), None, &pages).items;
    // cancelled after adding "a", "b" and "c"
    let mut d = Drain::new(None);
    let mut added = Vec::new();
    for it in items.iter().take(3) {
        added.push(d.step(it).unwrap());
    }
    let mut st = State::new(ModList::new(s("l")), None, None);
    st.record_backfill(d.last_cursor());
    // "b" carried the last cursor seen; "c" sat mid-page and carried none
    assert_eq!(st.cursor(), Some("c1"));
    let resumed = run_backfill(s("W"), &mut st, None, &pages[1..].to_vec());
    assert_eq!(resumed.requests[0].cursor, Some(s("c1")));
    // everything after "b" comes again, nothing up to "b" does
    assert_eq!(resumed.added, vec![s("c"), s("d"), s("e")]);
    assert!(!resumed.added.contains(&s("a")));
    assert!(!resumed.added.contains(&s("b")));
    assert_eq!(st.cursor(), Some("c2"));
}

#[test]
fn subscribe_url_carries_both_filters() {
    let w = SubWatcher::new(s("did:plc:w")).unwrap();
    assert_eq!(
        w.subscribe_url("wss://jetstream2.us-east.bsky.network/"),
        Some(s("wss://jetstream2.us-east.bsky.network/subscribe?wantedCollections=app.bsky.graph.follow&wantedDids=did%3Aplc%3Aw"))
    );
    assert_eq!(w.subscribe_url("not a url"), None);
}

#[test]
fn event_time_only_moves_forward() {
    let mut st = State::new(ModList::new(s("l")), None, None);
    st.record_event_time(10);
    assert_eq!(st.jetstream_ts(), Some(10));
    st.record_event_time(5);
    assert_eq!(st.jetstream_ts(), Some(10));
    st.record_event_time(12);
    assert_eq!(st.jetstream_ts(), Some(12));
    let mut t = ProgressTable::new();
    let i = t.ensure_entry("did:plc:a", "l");
    t.record_event_time(i, 7);
    assert_eq!(t.get("did:plc:a").unwrap().jetstream_ts(), Some(7));
}

#[test]
fn watcher_needs_a_did() {
    assert!(SubWatcher::new(s("W")).is_none());
    assert!(SubWatcher::new(s("did:plc:")).is_none());
    assert!(SubWatcher::new(s("did:PLC:abc")).is_none());
    assert!(SubWatcher::new(s("did:plc:abc%")).is_none());
    let long = format!("did:plc:{}", "a".repeat(2041));
    assert!(SubWatcher::new(long).is_none());
    let longest = format!("did:plc:{}", "a".repeat(2040));
    assert_eq!(SubWatcher::new(longest.clone()).unwrap().watch_identifier(), longest);
    assert!(SubWatcher::new(s("did:web:example.com")).is_some());
}

#[test]
fn drain_until_boundary_mid_stream_adds_prefix() {
    let pages = vec![page(&["a", "b", "c"], None)];
    let items = enumerate_pages(s("w"), None, &pages).items;
    let out = drain_until(&items, &s("b"));
    assert_eq!(out.added, vec![s("a")]);
    assert_eq!(out.last_cursor, None);
}
