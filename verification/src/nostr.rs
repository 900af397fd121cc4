//! The system's note service as apps see it: an in-memory store of short
//! text notes ("kind 1" events) that can be listed with a filter and
//! published to.
use crate::text::{append_decimal, decimal_text, trim, trim_spec};
use vstd::prelude::*;
use vstd::string::*;

verus! {

/// Author given to notes published without one.
pub const DEFAULT_PUBLISH_PUBKEY: &'static str = "npub-shadow-os";

/// Message of the error returned for a note without content.
pub const EMPTY_CONTENT_ERROR: &'static str = "nostr.publishKind1 requires non-empty content";

/// A `TypeError` raised to the script that made a request, with its
/// message.
#[derive(Debug)]
pub struct ScriptTypeError {
    pub message: String,
}

/// Prefix of the identifiers given to published notes.
pub const NOTE_ID_PREFIX: &'static str = "shadow-note-";

/// A short text note.
#[derive(Debug)]
pub struct Kind1Event {
    pub content: String,
    pub created_at: u64,
    pub id: String,
    pub kind: u32,
    pub pubkey: String,
}

/// Abstract value of a [`Kind1Event`].
pub struct NoteView {
    pub content: Seq<char>,
    pub created_at: u64,
    pub id: Seq<char>,
    pub kind: u32,
    pub pubkey: Seq<char>,
}

impl View for Kind1Event {
    type V = NoteView;

    open spec fn view(&self) -> NoteView {
        NoteView {
            content: self.content@,
            created_at: self.created_at,
            id: self.id@,
            kind: self.kind,
            pubkey: self.pubkey@,
        }
    }
}

impl Kind1Event {
    /// A copy of this note.
    pub fn duplicate(&self) -> (r: Self)
        ensures
            r@ == self@,
    {
        Kind1Event {
            content: self.content.clone(),
            created_at: self.created_at,
            id: self.id.clone(),
            kind: self.kind,
            pubkey: self.pubkey.clone(),
        }
    }
}

/// Which notes to list: by author, by time window (both ends inclusive),
/// and at most how many.
#[derive(Debug, Default)]
pub struct ListKind1Query {
    pub authors: Option<Vec<String>>,
    pub since: Option<u64>,
    pub until: Option<u64>,
    pub limit: Option<usize>,
}

/// Abstract value of a [`ListKind1Query`].
pub struct QueryView {
    pub authors: Option<Seq<Seq<char>>>,
    pub since: Option<u64>,
    pub until: Option<u64>,
    pub limit: Option<usize>,
}

impl View for ListKind1Query {
    type V = QueryView;

    open spec fn view(&self) -> QueryView {
        QueryView {
            authors: match self.authors {
                Some(a) => Some(a@.map_values(|s: String| s@)),
                None => None,
            },
            since: self.since,
            until: self.until,
            limit: self.limit,
        }
    }
}

/// A publish request.
#[derive(Debug, Default)]
pub struct PublishKind1Request {
    pub content: Option<String>,
    pub pubkey: Option<String>,
}

/// Whether note `e` is one that query `q` asks for.
pub open spec fn note_matches(e: NoteView, q: QueryView) -> bool {
    &&& e.kind == 1
    &&& (q.authors matches Some(a) ==> a.contains(e.pubkey))
    &&& (q.since matches Some(s) ==> e.created_at >= s)
    &&& (q.until matches Some(u) ==> e.created_at <= u)
}

/// The notes of `es` that `q` asks for, in their order.
pub open spec fn matching_notes(es: Seq<NoteView>, q: QueryView) -> Seq<NoteView>
    decreases es.len(),
{
    if es.len() == 0 {
        Seq::empty()
    } else {
        let prev = matching_notes(es.drop_last(), q);
        if note_matches(es.last(), q) {
            prev.push(es.last())
        } else {
            prev
        }
    }
}

/// Where `e` goes in `sorted` (newest first): after every note at least as
/// new as it.
pub open spec fn insert_pos(sorted: Seq<NoteView>, e: NoteView) -> int
    decreases sorted.len(),
{
    if sorted.len() == 0 {
        0
    } else if sorted.last().created_at >= e.created_at {
        sorted.len() as int
    } else {
        insert_pos(sorted.drop_last(), e)
    }
}

/// `es` ordered newest first; notes of the same time keep their order.
pub open spec fn newest_first(es: Seq<NoteView>) -> Seq<NoteView>
    decreases es.len(),
{
    if es.len() == 0 {
        Seq::empty()
    } else {
        let sorted = newest_first(es.drop_last());
        sorted.insert(insert_pos(sorted, es.last()), es.last())
    }
}

/// What listing `es` with `q` gives: the matching notes newest first, cut
/// to the limit.
pub open spec fn list_spec(es: Seq<NoteView>, q: QueryView) -> Seq<NoteView> {
    let all = newest_first(matching_notes(es, q));
    match q.limit {
        Some(n) => if n < all.len() {
            all.take(n as int)
        } else {
            all
        },
        None => all,
    }
}

/// Abstract state of a [`MockNostrService`].
pub struct ServiceView {
    pub events: Seq<NoteView>,
    pub latest_timestamp: u64,
    pub sequence: u64,
}

/// Whether every stored note is no newer than the service's clock.
pub open spec fn clock_ahead(s: ServiceView) -> bool {
    forall|i: int| 0 <= i < s.events.len() ==> #[trigger] s.events[i].created_at <= s.latest_timestamp
}

/// An in-memory note store, seeded with three notes.
#[derive(Debug)]
pub struct MockNostrService {
    events: Vec<Kind1Event>,
    latest_timestamp: u64,
    sequence: u64,
}

impl View for MockNostrService {
    type V = ServiceView;

    closed spec fn view(&self) -> ServiceView {
        ServiceView {
            events: self.events@.map_values(|e: Kind1Event| e@),
            latest_timestamp: self.latest_timestamp,
            sequence: self.sequence,
        }
    }
}

/// What publishing `request` does to `s`: the new note, or the error
/// message for a request without content.
pub open spec fn publish_note(s: ServiceView, request_content: Option<Seq<char>>, request_pubkey: Option<Seq<char>>) -> Option<NoteView> {
    match request_content {
        Some(c) => if trim_spec(c).len() > 0 {
            Some(NoteView {
                content: trim_spec(c),
                created_at: (s.latest_timestamp + 1) as u64,
                id: NOTE_ID_PREFIX@ + decimal_text((s.sequence + 1) as nat),
                kind: 1,
                pubkey: match request_pubkey {
                    Some(p) => if p.len() > 0 {
                        p
                    } else {
                        DEFAULT_PUBLISH_PUBKEY@
                    },
                    None => DEFAULT_PUBLISH_PUBKEY@,
                },
            })
        } else {
            None
        },
        None => None,
    }
}

fn note(content: &str, created_at: u64, id: &str, pubkey: &str) -> (r: Kind1Event)
    ensures
        r@ == (NoteView { content: content@, created_at, id: id@, kind: 1, pubkey: pubkey@ }),
{
    Kind1Event {
        content: String::from_str(content),
        created_at,
        id: String::from_str(id),
        kind: 1,
        pubkey: String::from_str(pubkey),
    }
}

/// Whether `authors` holds `pubkey`.
fn has_author(authors: &Vec<String>, pubkey: &String) -> (r: bool)
    ensures
        r == authors@.map_values(|s: String| s@).contains(pubkey@),
{
    let ghost names = authors@.map_values(|s: String| s@);
    let mut i: usize = 0;
    while i < authors.len()
        invariant
            0 <= i <= authors@.len(),
            names == authors@.map_values(|s: String| s@),
            forall|j: int| 0 <= j < i ==> names[j] != pubkey@,
        decreases authors@.len() - i,
    {
        if authors[i] == *pubkey {
            assert(names[i as int] == pubkey@);
            return true;
        }
        i = i + 1;
    }
    false
}

/// Inserts `e` into `sorted` (newest first) after every note at least as
/// new as it.
fn insert_newest_first(sorted: &mut Vec<Kind1Event>, e: Kind1Event)
    ensures
        final(sorted)@.map_values(|x: Kind1Event| x@) == old(sorted)@.map_values(|x: Kind1Event| x@).insert(
            insert_pos(old(sorted)@.map_values(|x: Kind1Event| x@), e@),
            e@,
        ),
{
    let ghost s = old(sorted)@.map_values(|x: Kind1Event| x@);
    let mut p: usize = sorted.len();
    assert(s.take(p as int) =~= s);
    while p > 0 && sorted[p - 1].created_at < e.created_at
        invariant
            0 <= p <= sorted@.len(),
            sorted@ == old(sorted)@,
            s == sorted@.map_values(|x: Kind1Event| x@),
            insert_pos(s.take(p as int), e@) == insert_pos(s, e@),
        decreases p,
    {
        assert(s.take(p as int).drop_last() =~= s.take(p - 1));
        p = p - 1;
    }
    assert(insert_pos(s.take(p as int), e@) == p);
    sorted.insert(p, e);
    assert(sorted@.map_values(|x: Kind1Event| x@) =~= s.insert(p as int, e@));
}

impl MockNostrService {
    /// The service with its three seed notes.
    pub fn new() -> (r: Self)
        ensures
            r@.events == seq![
                NoteView { content: "local cache warmed from the system service"@, created_at: 1_700_000_003, id: "shadow-note-3"@, kind: 1, pubkey: "npub-feed-b"@ },
                NoteView { content: "relay subscriptions will live below app code"@, created_at: 1_700_000_002, id: "shadow-note-2"@, kind: 1, pubkey: "npub-feed-a"@ },
                NoteView { content: "shadow os owns nostr for tiny apps"@, created_at: 1_700_000_001, id: "shadow-note-1"@, kind: 1, pubkey: "npub-feed-a"@ },
            ],
            r@.latest_timestamp == 1_700_000_003,
            r@.sequence == 3,
            clock_ahead(r@),
    {
        let mut events: Vec<Kind1Event> = Vec::new();
        events.push(note("local cache warmed from the system service", 1_700_000_003, "shadow-note-3", "npub-feed-b"));
        events.push(note("relay subscriptions will live below app code", 1_700_000_002, "shadow-note-2", "npub-feed-a"));
        events.push(note("shadow os owns nostr for tiny apps", 1_700_000_001, "shadow-note-1", "npub-feed-a"));
        let mut latest: u64 = 0;
        let mut i: usize = 0;
        while i < events.len()
            invariant
                0 <= i <= events@.len(),
                events@.len() == 3,
                forall|j: int| 0 <= j < i ==> #[trigger] events@[j].created_at <= latest,
                i > 0 ==> exists|j: int| 0 <= j < i && #[trigger] events@[j].created_at == latest,
                i == 0 ==> latest == 0,
            decreases events@.len() - i,
        {
            if events[i].created_at > latest {
                latest = events[i].created_at;
            }
            i = i + 1;
        }
        let r = MockNostrService { sequence: events.len() as u64, events, latest_timestamp: latest };
        assert(r@.events =~= seq![
            NoteView { content: "local cache warmed from the system service"@, created_at: 1_700_000_003, id: "shadow-note-3"@, kind: 1, pubkey: "npub-feed-b"@ },
            NoteView { content: "relay subscriptions will live below app code"@, created_at: 1_700_000_002, id: "shadow-note-2"@, kind: 1, pubkey: "npub-feed-a"@ },
            NoteView { content: "shadow os owns nostr for tiny apps"@, created_at: 1_700_000_001, id: "shadow-note-1"@, kind: 1, pubkey: "npub-feed-a"@ },
        ]);
        r
    }

    /// The stored notes, newest published first.
    pub fn events(&self) -> (r: &Vec<Kind1Event>)
        ensures
            r@.map_values(|e: Kind1Event| e@) == self@.events,
    {
        &self.events
    }

    /// The notes that `query` asks for, newest first (notes of the same
    /// time in store order), at most `limit` of them.
    pub fn list_kind1(&self, query: ListKind1Query) -> (r: Vec<Kind1Event>)
        ensures
            r@.map_values(|e: Kind1Event| e@) == list_spec(self@.events, query@),
    {
        let ghost es = self@.events;
        let ghost q = query@;
        let mut out: Vec<Kind1Event> = Vec::new();
        let mut i: usize = 0;
        assert(es.take(0) =~= Seq::<NoteView>::empty());
        while i < self.events.len()
            invariant
                0 <= i <= es.len(),
                es == self@.events,
                q == query@,
                out@.map_values(|e: Kind1Event| e@) == newest_first(matching_notes(es.take(i as int), q)),
            decreases es.len() - i,
        {
            let e = &self.events[i];
            assert(es[i as int] == e@);
            assert(es.take(i + 1).drop_last() =~= es.take(i as int));
            assert(es.take(i + 1).last() == e@);
            let wanted = e.kind == 1 && match &query.authors {
                Some(authors) => has_author(authors, &e.pubkey),
                None => true,
            } && match query.since {
                Some(s) => e.created_at >= s,
                None => true,
            } && match query.until {
                Some(u) => e.created_at <= u,
                None => true,
            };
            assert(wanted == note_matches(e@, q));
            let ghost m = matching_notes(es.take(i as int), q);
            if wanted {
                let copy = e.duplicate();
                insert_newest_first(&mut out, copy);
                assert(matching_notes(es.take(i + 1), q) == m.push(e@));
                assert(m.push(e@).drop_last() =~= m);
                assert(m.push(e@).last() == e@);
            } else {
                assert(matching_notes(es.take(i + 1), q) == m);
            }
            i = i + 1;
        }
        assert(es.take(es.len() as int) =~= es);
        match query.limit {
            Some(n) => {
                let ghost all = out@.map_values(|e: Kind1Event| e@);
                out.truncate(n);
                assert(out@.map_values(|e: Kind1Event| e@) =~= list_spec(es, q));
            },
            None => {},
        }
        out
    }

    /// Publishes a note with the trimmed `content` of `request`, timed one
    /// second after the newest note and numbered after the last one; the
    /// author is the request's, or the default for a missing or empty one.
    /// A request without content (after trimming) is refused with a type
    /// error and changes nothing.
    pub fn publish_kind1(&mut self, request: PublishKind1Request) -> (r: Result<Kind1Event, ScriptTypeError>)
        requires
            publish_note(
                old(self)@,
                match request.content { Some(c) => Some(c@), None => None },
                match request.pubkey { Some(p) => Some(p@), None => None },
            ) is Some ==> old(self)@.sequence < u64::MAX && old(self)@.latest_timestamp < u64::MAX,
        ensures
            ({
                let made = publish_note(
                    old(self)@,
                    match request.content { Some(c) => Some(c@), None => None },
                    match request.pubkey { Some(p) => Some(p@), None => None },
                );
                match made {
                    Some(n) => r matches Ok(e) && e@ == n && final(self)@ == (ServiceView {
                        events: old(self)@.events.insert(0, n),
                        latest_timestamp: (old(self)@.latest_timestamp + 1) as u64,
                        sequence: (old(self)@.sequence + 1) as u64,
                    }),
                    None => r matches Err(e) && e.message@ == EMPTY_CONTENT_ERROR@ && final(self)@ == old(self)@,
                }
            }),
            clock_ahead(old(self)@) ==> clock_ahead(final(self)@),
    {
        let content = match &request.content {
            Some(c) => {
                let t = trim(c.as_str());
                if t.unicode_len() == 0 {
                    return Err(ScriptTypeError { message: String::from_str(EMPTY_CONTENT_ERROR) });
                }
                String::from_str(t)
            },
            None => return Err(ScriptTypeError { message: String::from_str(EMPTY_CONTENT_ERROR) }),
        };
        self.sequence = self.sequence + 1;
        self.latest_timestamp = self.latest_timestamp + 1;
        let mut id = String::from_str(NOTE_ID_PREFIX);
        append_decimal(&mut id, self.sequence);
        let pubkey = match &request.pubkey {
            Some(p) => if p.as_str().unicode_len() > 0 {
                p.clone()
            } else {
                String::from_str(DEFAULT_PUBLISH_PUBKEY)
            },
            None => String::from_str(DEFAULT_PUBLISH_PUBKEY),
        };
        let event = Kind1Event { content, created_at: self.latest_timestamp, id, kind: 1, pubkey };
        let ghost before = self.events@.map_values(|e: Kind1Event| e@);
        self.events.insert(0, event.duplicate());
        assert(self.events@.map_values(|e: Kind1Event| e@) =~= before.insert(0, event@));
        Ok(event)
    }
}


/// Whether `es` is ordered newest first.
pub open spec fn is_newest_first(es: Seq<NoteView>) -> bool {
    forall|i: int, j: int| 0 <= i < j < es.len() ==> #[trigger] es[i].created_at >= #[trigger] es[j].created_at
}

proof fn lemma_insert_pos(s: Seq<NoteView>, e: NoteView)
    ensures
        0 <= insert_pos(s, e) <= s.len(),
        insert_pos(s, e) > 0 ==> s[insert_pos(s, e) - 1].created_at >= e.created_at,
        forall|j: int| insert_pos(s, e) <= j < s.len() ==> #[trigger] s[j].created_at < e.created_at,
    decreases s.len(),
{
    if s.len() > 0 && s.last().created_at < e.created_at {
        let d = s.drop_last();
        lemma_insert_pos(d, e);
        assert forall|j: int| insert_pos(s, e) <= j < s.len() implies #[trigger] s[j].created_at < e.created_at by {
            if j < d.len() {
                assert(s[j] == d[j]);
            }
        }
        if insert_pos(s, e) > 0 {
            assert(s[insert_pos(s, e) - 1] == d[insert_pos(d, e) - 1]);
        }
    }
}

proof fn lemma_newest_first_sorted(es: Seq<NoteView>, p: spec_fn(NoteView) -> bool)
    requires
        forall|k: int| 0 <= k < es.len() ==> #[trigger] p(es[k]),
    ensures
        is_newest_first(newest_first(es)),
        newest_first(es).len() == es.len(),
        forall|i: int| 0 <= i < newest_first(es).len() ==> #[trigger] p(newest_first(es)[i]),
    decreases es.len(),
{
    if es.len() > 0 {
        let d = es.drop_last();
        assert forall|k: int| 0 <= k < d.len() implies #[trigger] p(d[k]) by {
            assert(d[k] == es[k]);
        }
        lemma_newest_first_sorted(d, p);
        let prev = newest_first(d);
        let e = es.last();
        assert(p(es[es.len() - 1]));
        let pos = insert_pos(prev, e);
        lemma_insert_pos(prev, e);
        let r = prev.insert(pos, e);
        assert(newest_first(es) == r);
        assert forall|i: int, j: int| 0 <= i < j < r.len() implies #[trigger] r[i].created_at >= #[trigger] r[j].created_at by {
            if j < pos {
                assert(r[i] == prev[i] && r[j] == prev[j]);
            } else if j == pos {
                if i < pos {
                    assert(r[i] == prev[i]);
                    assert(prev[i].created_at >= prev[pos - 1].created_at);
                }
            } else if i < pos {
                assert(r[i] == prev[i] && r[j] == prev[j - 1]);
                assert(prev[i].created_at >= prev[j - 1].created_at);
            } else if i == pos {
                assert(r[j] == prev[j - 1]);
                assert(prev[j - 1].created_at < e.created_at);
            } else {
                assert(r[i] == prev[i - 1] && r[j] == prev[j - 1]);
                assert(prev[i - 1].created_at >= prev[j - 1].created_at);
            }
        }
        assert forall|i: int| 0 <= i < r.len() implies #[trigger] p(r[i]) by {
            if i < pos {
                assert(r[i] == prev[i]);
            } else if i > pos {
                assert(r[i] == prev[i - 1]);
            }
        }
    }
}

proof fn lemma_matching_notes(es: Seq<NoteView>, q: QueryView, p: spec_fn(NoteView) -> bool)
    requires
        forall|k: int| 0 <= k < es.len() ==> #[trigger] p(es[k]),
    ensures
        forall|i: int| 0 <= i < matching_notes(es, q).len() ==> #[trigger] note_matches(matching_notes(es, q)[i], q)
            && p(matching_notes(es, q)[i]),
    decreases es.len(),
{
    if es.len() > 0 {
        let d = es.drop_last();
        assert forall|k: int| 0 <= k < d.len() implies #[trigger] p(d[k]) by {
            assert(d[k] == es[k]);
        }
        lemma_matching_notes(d, q, p);
        assert(p(es[es.len() - 1]));
        let prev = matching_notes(d, q);
        let r = matching_notes(es, q);
        assert forall|i: int| 0 <= i < r.len() implies #[trigger] note_matches(r[i], q) && p(r[i]) by {
            if i < prev.len() {
                assert(r[i] == prev[i]);
                assert(note_matches(prev[i], q) && p(prev[i]));
            } else {
                assert(r[i] == es.last());
            }
        }
    }
}

/// Listing gives notes newest first, each one asked for by the query and
/// holding every property that all stored notes hold.
pub proof fn lemma_list_newest_first_and_matching(es: Seq<NoteView>, q: QueryView, p: spec_fn(NoteView) -> bool)
    requires
        forall|k: int| 0 <= k < es.len() ==> #[trigger] p(es[k]),
    ensures
        is_newest_first(list_spec(es, q)),
        forall|i: int| 0 <= i < list_spec(es, q).len() ==> #[trigger] note_matches(list_spec(es, q)[i], q)
            && p(list_spec(es, q)[i]),
        q.limit matches Some(n) ==> list_spec(es, q).len() <= n,
{
    let m = matching_notes(es, q);
    lemma_matching_notes(es, q, p);
    let both = |x: NoteView| note_matches(x, q) && p(x);
    assert forall|k: int| 0 <= k < m.len() implies #[trigger] both(m[k]) by {}
    lemma_newest_first_sorted(m, both);
    let all = newest_first(m);
    let r = list_spec(es, q);
    assert forall|i: int| 0 <= i < r.len() implies #[trigger] note_matches(r[i], q) && p(r[i]) by {
        assert(r[i] == all[i]);
        assert(both(all[i]));
    }
    assert forall|i: int, j: int| 0 <= i < j < r.len() implies #[trigger] r[i].created_at >= #[trigger] r[j].created_at by {
        assert(r[i] == all[i] && r[j] == all[j]);
    }
}

proof fn lemma_matching_front(n: NoteView, es: Seq<NoteView>, q: QueryView)
    requires
        note_matches(n, q),
    ensures
        matching_notes(seq![n] + es, q) == seq![n] + matching_notes(es, q),
    decreases es.len(),
{
    if es.len() == 0 {
        assert(seq![n] + es =~= seq![n]);
        assert(seq![n].drop_last() =~= Seq::<NoteView>::empty());
        assert(seq![n].last() == n);
        assert(matching_notes(Seq::<NoteView>::empty(), q) == Seq::<NoteView>::empty());
        assert(matching_notes(seq![n], q) == Seq::<NoteView>::empty().push(n));
        assert(seq![n] + matching_notes(es, q) =~= seq![n]);
        assert(Seq::<NoteView>::empty().push(n) =~= seq![n]);
    } else {
        lemma_matching_front(n, es.drop_last(), q);
        assert((seq![n] + es).drop_last() =~= seq![n] + es.drop_last());
        assert((seq![n] + es).last() == es.last());
        if note_matches(es.last(), q) {
            assert((seq![n] + matching_notes(es.drop_last(), q)).push(es.last()) =~= seq![n] + matching_notes(es, q));
        }
    }
}

proof fn lemma_front_stays_first(n: NoteView, m: Seq<NoteView>)
    requires
        forall|i: int| 0 <= i < m.len() ==> #[trigger] m[i].created_at < n.created_at,
    ensures
        newest_first(seq![n] + m).len() >= 1,
        newest_first(seq![n] + m)[0] == n,
    decreases m.len(),
{
    if m.len() == 0 {
        assert(seq![n] + m =~= seq![n]);
        assert(seq![n].drop_last() =~= Seq::<NoteView>::empty());
        assert(seq![n].last() == n);
        assert(newest_first(Seq::<NoteView>::empty()) == Seq::<NoteView>::empty());
        assert(insert_pos(Seq::<NoteView>::empty(), n) == 0);
        assert(newest_first(seq![n]) == Seq::<NoteView>::empty().insert(0, n));
        assert(Seq::<NoteView>::empty().insert(0, n) =~= seq![n]);
    } else {
        let d = m.drop_last();
        assert forall|i: int| 0 <= i < d.len() implies #[trigger] d[i].created_at < n.created_at by {
            assert(d[i] == m[i]);
        }
        lemma_front_stays_first(n, d);
        assert((seq![n] + m).drop_last() =~= seq![n] + d);
        assert((seq![n] + m).last() == m.last());
        let sorted = newest_first(seq![n] + d);
        let x = m.last();
        assert(x == m[m.len() - 1]);
        lemma_insert_pos(sorted, x);
        let pos = insert_pos(sorted, x);
        assert(pos >= 1) by {
            if pos == 0 {
                assert(sorted[0].created_at < x.created_at);
            }
        }
        assert(newest_first(seq![n] + m) == sorted.insert(pos, x));
        assert(sorted.insert(pos, x)[0] == sorted[0]);
    }
}

/// A note just published is the first one listed by any query that asks
/// for it (and allows at least one note).
pub proof fn lemma_published_note_listed_first(
    s: ServiceView,
    content: Option<Seq<char>>,
    pubkey: Option<Seq<char>>,
    q: QueryView,
)
    requires
        clock_ahead(s),
        s.latest_timestamp < u64::MAX,
        publish_note(s, content, pubkey) matches Some(n) && note_matches(n, q),
        !(q.limit matches Some(l) && l == 0),
    ensures
        list_spec(s.events.insert(0, publish_note(s, content, pubkey)->0), q).len() >= 1,
        list_spec(s.events.insert(0, publish_note(s, content, pubkey)->0), q)[0] == publish_note(s, content, pubkey)->0,
{
    let n = publish_note(s, content, pubkey)->0;
    let es = s.events;
    assert(es.insert(0, n) =~= seq![n] + es);
    lemma_matching_front(n, es, q);
    let m = matching_notes(es, q);
    let older = |x: NoteView| x.created_at < n.created_at;
    assert forall|k: int| 0 <= k < es.len() implies #[trigger] older(es[k]) by {
        assert(es[k].created_at <= s.latest_timestamp);
    }
    lemma_matching_notes(es, q, older);
    assert forall|i: int| 0 <= i < m.len() implies #[trigger] m[i].created_at < n.created_at by {
        assert(note_matches(m[i], q));
        assert(older(m[i]));
    }
    lemma_front_stays_first(n, m);
}

} // verus!
