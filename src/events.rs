use vstd::prelude::*;
use atrium_api::types::string::Did;
use crate::state::opt_view;

verus! {

/// The record type of a follow, the only collection the live feed asks for.
pub const FOLLOW_COLLECTION: &'static str = "app.bsky.graph.follow";

/// The path of the subscription under the firehose endpoint.
pub const SUBSCRIBE_PATH: &'static str = "subscribe";

/// The query parameter that filters the firehose by record type.
pub const COLLECTIONS_PARAM: &'static str = "wantedCollections";

/// The query parameter that asks the server to filter by identity.
pub const DIDS_PARAM: &'static str = "wantedDids";

/// The operation tag of a record creation.
pub const OP_CREATE: &'static str = "create";

/// The operation tag of a record deletion.
pub const OP_DELETE: &'static str = "delete";

#[derive(PartialEq, Eq, Structural, Debug, Clone, Copy)]
pub enum Event {
    Follow,
    Unfollow,
}

/// A relationship change aimed at the watched account: `from` follows (or
/// stops following) `to`.
#[derive(Debug)]
pub struct Follow {
    pub from: String,
    to: String,
    event: Event,
}

pub struct FollowView {
    pub from: Seq<char>,
    pub to: Seq<char>,
    pub event: Event,
}

impl View for Follow {
    type V = FollowView;

    closed spec fn view(&self) -> FollowView {
        FollowView { from: self.from@, to: self.to@, event: self.event }
    }
}

impl Follow {
    pub fn from(&self) -> (r: &str)
        ensures
            r@ == self@.from,
    {
        self.from.as_str()
    }

    pub fn to(&self) -> (r: &str)
        ensures
            r@ == self@.to,
    {
        self.to.as_str()
    }

    pub fn event(&self) -> (r: Event)
        ensures
            r == self@.event,
    {
        self.event
    }

    /// The subject the live feed adds to the list: the follower of a follow.
    /// An unfollow adds nothing, and nothing is ever removed.
    pub fn subject_to_add(&self) -> (r: Option<String>)
        ensures
            self@.event == Event::Follow ==> (r matches Some(s) && s@ == self@.from),
            self@.event == Event::Unfollow ==> r.is_none(),
    {
        match self.event {
            Event::Follow => Some(self.from.clone()),
            Event::Unfollow => None,
        }
    }
}

/// The fields of a firehose envelope that decoding reads, each `None` where
/// the envelope lacks it: `did`, `commit.operation`, `commit.collection` and
/// `commit.record.subject`.
pub struct Envelope {
    pub did: Option<String>,
    pub operation: Option<String>,
    pub collection: Option<String>,
    pub subject: Option<String>,
}

pub struct EnvelopeView {
    pub did: Option<Seq<char>>,
    pub operation: Option<Seq<char>>,
    pub collection: Option<Seq<char>>,
    pub subject: Option<Seq<char>>,
}

impl View for Envelope {
    type V = EnvelopeView;

    open spec fn view(&self) -> EnvelopeView {
        EnvelopeView {
            did: opt_view(self.did),
            operation: opt_view(self.operation),
            collection: opt_view(self.collection),
            subject: opt_view(self.subject),
        }
    }
}

/// Why an envelope that concerns the watched account could not be decoded.
#[derive(PartialEq, Eq, Structural, Debug, Clone, Copy)]
pub enum DecodeError {
    MissingActor,
    InvalidActor,
    MissingOperation,
    UnsupportedOperation,
}

pub open spec fn is_lower(c: char) -> bool {
    'a' <= c && c <= 'z'
}

pub open spec fn is_alnum(c: char) -> bool {
    is_lower(c) || ('A' <= c && c <= 'Z') || ('0' <= c && c <= '9')
}

/// A character that may end a DID.
pub open spec fn is_did_end_char(c: char) -> bool {
    is_alnum(c) || c == '.' || c == '_' || c == '-'
}

/// A character of the method-specific part of a DID.
pub open spec fn is_did_id_char(c: char) -> bool {
    is_did_end_char(c) || c == ':' || c == '%'
}

/// A well-formed DID: at most 2048 characters, `did:`, a method of one or more
/// lower-case letters, `:`, then one or more identifier characters of which
/// the last is no `:` or `%`.
pub open spec fn is_did(s: Seq<char>) -> bool {
    &&& s.len() <= 2048
    &&& s.len() >= 7
    &&& s[0] == 'd' && s[1] == 'i' && s[2] == 'd' && s[3] == ':'
    &&& exists|m: int|
        4 < m < s.len() - 1 && s[m] == ':' && (forall|i: int| 4 <= i < m ==> is_lower(#[trigger] s[i]))
            && (forall|i: int| m < i < s.len() ==> is_did_id_char(#[trigger] s[i]))
    &&& is_did_end_char(s.last())
}

/// Relies on atrium_api's `Did::new`: it returns `Ok` exactly for a string of
/// at most 2048 bytes that matches `^did:[a-z]+:[a-zA-Z0-9._:%-]*[a-zA-Z0-9._-]$`.
/// Such a string is ASCII, so its bytes are its characters.
#[verifier::external_body]
fn did_is_valid(s: &str) -> (r: bool)
    ensures
        r == is_did(s@),
{
    Did::new(s.to_string()).is_ok()
}

/// The URL that url's `Url::join` resolves `segment` to against `base`, if
/// both parse.
pub uninterp spec fn joined_url(base: Seq<char>, segment: Seq<char>) -> Option<Seq<char>>;

/// `url` with the pair `key=value` appended to its query, form-encoded by
/// url's `query_pairs_mut`, if `url` parses.
pub uninterp spec fn with_query_pair(url: Seq<char>, key: Seq<char>, value: Seq<char>) -> Option<
    Seq<char>,
>;

/// Relies on url's `Url::parse` and `Url::join`: the resolved URL, serialized,
/// which depends on the two strings alone.
#[verifier::external_body]
fn url_join(base: &str, segment: &str) -> (r: Option<String>)
    ensures
        opt_view(r) == joined_url(base@, segment@),
{
    match url::Url::parse(base) {
        Ok(u) => u.join(segment).ok().map(String::from),
        Err(_) => None,
    }
}

/// Relies on url's `Url::parse` and `Url::query_pairs_mut().append_pair`: the
/// URL with one more form-encoded query pair, serialized, which depends on the
/// three strings alone.
#[verifier::external_body]
fn url_append_pair(url: &str, key: &str, value: &str) -> (r: Option<String>)
    ensures
        opt_view(r) == with_query_pair(url@, key@, value@),
{
    match url::Url::parse(url) {
        Ok(mut u) => {
            u.query_pairs_mut().append_pair(key, value);
            Some(String::from(u))
        },
        Err(_) => None,
    }
}

/// The subscription URL for follows of `watched`: the subscribe path under
/// the endpoint, a filter on the follow record type, then the identity filter.
pub open spec fn subscribe_url_of(endpoint: Seq<char>, watched: Seq<char>) -> Option<Seq<char>> {
    match joined_url(endpoint, SUBSCRIBE_PATH@) {
        None => None,
        Some(u) => match with_query_pair(u, COLLECTIONS_PARAM@, FOLLOW_COLLECTION@) {
            None => None,
            Some(v) => with_query_pair(v, DIDS_PARAM@, watched),
        },
    }
}

/// An envelope concerns the watched account when it is a follow record whose
/// subject is that account. Server-side filters are not relied on.
pub open spec fn concerns(env: EnvelopeView, watched: Seq<char>) -> bool {
    env.subject == Some(watched) && env.collection == Some(FOLLOW_COLLECTION@)
}

/// What decoding yields, given whether the acting identity is a valid DID.
pub open spec fn decoded(env: EnvelopeView, watched: Seq<char>, actor_valid: bool) -> Result<
    Option<FollowView>,
    DecodeError,
> {
    if !concerns(env, watched) {
        Ok(None)
    } else {
        match env.did {
            None => Err(DecodeError::MissingActor),
            Some(from) => if !actor_valid {
                Err(DecodeError::InvalidActor)
            } else {
                match env.operation {
                    None => Err(DecodeError::MissingOperation),
                    Some(op) => if op == OP_CREATE@ {
                        Ok(Some(FollowView { from, to: watched, event: Event::Follow }))
                    } else if op == OP_DELETE@ {
                        Ok(Some(FollowView { from, to: watched, event: Event::Unfollow }))
                    } else {
                        Err(DecodeError::UnsupportedOperation)
                    },
                }
            },
        }
    }
}

pub open spec fn result_view(r: Result<Option<Follow>, DecodeError>) -> Result<
    Option<FollowView>,
    DecodeError,
> {
    match r {
        Ok(Some(f)) => Ok(Some(f@)),
        Ok(None) => Ok(None),
        Err(e) => Err(e),
    }
}

/// Whether the acting identity of an envelope passes as valid: a missing one
/// is reported as missing, not as invalid.
pub open spec fn actor_is_valid(env: EnvelopeView) -> bool {
    match env.did {
        Some(d) => is_did(d),
        None => true,
    }
}

fn opt_eq(o: &Option<String>, s: &str) -> (r: bool)
    ensures
        r == (opt_view(*o) == Some(s@)),
{
    match o {
        Some(v) => *v == s.to_owned(),
        None => false,
    }
}

/// Decodes an envelope, given whether its acting identity is a valid DID.
pub fn classify_envelope(env: &Envelope, watched: &str, actor_valid: bool) -> (r: Result<
    Option<Follow>,
    DecodeError,
>)
    ensures
        result_view(r) == decoded(env@, watched@, actor_valid),
{
    if !opt_eq(&env.subject, watched) || !opt_eq(&env.collection, FOLLOW_COLLECTION) {
        return Ok(None);
    }
    let from = match &env.did {
        None => {
            return Err(DecodeError::MissingActor);
        },
        Some(d) => d,
    };
    if !actor_valid {
        return Err(DecodeError::InvalidActor);
    }
    let event = match &env.operation {
        None => {
            return Err(DecodeError::MissingOperation);
        },
        Some(op) => if *op == OP_CREATE.to_owned() {
            Event::Follow
        } else if *op == OP_DELETE.to_owned() {
            Event::Unfollow
        } else {
            return Err(DecodeError::UnsupportedOperation);
        },
    };
    Ok(Some(Follow { from: from.clone(), to: watched.to_owned(), event }))
}

/// The live-feed filter for one watched account.
pub struct SubWatcher {
    watch_identifier: String,
}

impl View for SubWatcher {
    type V = Seq<char>;

    closed spec fn view(&self) -> Seq<char> {
        self.watch_identifier@
    }
}

impl SubWatcher {
    /// A watcher of `watch_identifier`, which must be a DID.
    pub fn new(watch_identifier: String) -> (r: Option<Self>)
        ensures
            r.is_some() == is_did(watch_identifier@),
            r matches Some(w) ==> w@ == watch_identifier@,
    {
        if did_is_valid(watch_identifier.as_str()) {
            Some(SubWatcher { watch_identifier })
        } else {
            None
        }
    }

    /// The watched identity is a DID.
    #[verifier::type_invariant]
    spec fn inv(&self) -> bool {
        is_did(self.watch_identifier@)
    }

    pub fn watch_identifier(&self) -> (r: &str)
        ensures
            r@ == self@,
            is_did(r@),
    {
        proof {
            use_type_invariant(self);
        }
        self.watch_identifier.as_str()
    }

    /// The URL to subscribe to under `endpoint`, `None` where it does not parse.
    /// The identity filter is a hint that a server may ignore.
    pub fn subscribe_url(&self, endpoint: &str) -> (r: Option<String>)
        ensures
            opt_view(r) == subscribe_url_of(endpoint@, self@),
    {
        let u = match url_join(endpoint, SUBSCRIBE_PATH) {
            Some(u) => u,
            None => {
                return None;
            },
        };
        let v = match url_append_pair(u.as_str(), COLLECTIONS_PARAM, FOLLOW_COLLECTION) {
            Some(v) => v,
            None => {
                return None;
            },
        };
        url_append_pair(v.as_str(), DIDS_PARAM, self.watch_identifier.as_str())
    }

    /// Decodes one envelope of the feed: `Ok(None)` for one that does not
    /// concern the watched account, whatever the server claimed to filter;
    /// an error for one that does but is malformed.
    pub fn decode(&self, env: &Envelope) -> (r: Result<Option<Follow>, DecodeError>)
        ensures
            result_view(r) == decoded(env@, self@, actor_is_valid(env@)),
            env@.subject != Some(self@) ==> r matches Ok(None),
            r matches Ok(Some(f)) ==> is_did(f@.to) && is_did(f@.from),
    {
        proof {
            use_type_invariant(self);
        }
        let valid = match &env.did {
            Some(d) => did_is_valid(d.as_str()),
            None => true,
        };
        classify_envelope(env, self.watch_identifier.as_str(), valid)
    }
}

} // verus!
