//! Publishing a throw-away note to public relays: checking the request,
//! normalising relay addresses, reporting relay failures, and turning the
//! published note's link into a QR code.
use crate::text::{
    append_decimal, decimal_text, lemma_text_lt_asymmetric, lemma_text_lt_total, lemma_text_lt_transitive, str_lt,
    text_lt, trim, trim_spec,
};
use vstd::prelude::*;
use vstd::string::*;

use nostr::nips::nip19::ToBech32;

verus! {

/// How long a publish may take when the request does not say.
pub const DEFAULT_PUBLISH_TIMEOUT_MS: u64 = 12_000;

/// Prefix of the web link to a published note.
pub const DEFAULT_PRIMAL_URL_PREFIX: &'static str = "https://primal.net/e/";

/// A request to publish a note with a fresh key.
#[derive(Debug, Default)]
pub struct PublishEphemeralKind1Request {
    pub content: Option<String>,
    pub relay_urls: Option<Vec<String>>,
    pub timeout_ms: Option<u64>,
}

/// A relay that refused a note, and why.
#[derive(Debug)]
pub struct PublishedRelayFailure {
    pub relay_url: String,
    pub error: String,
}

/// What publishing a note produced.
#[derive(Debug)]
pub struct PublishedKind1Receipt {
    pub content: String,
    pub event_id_hex: String,
    pub note_id: String,
    pub primal_url: String,
    pub npub: String,
    pub relay_urls: Vec<String>,
    pub published_relays: Vec<String>,
    pub failed_relays: Vec<PublishedRelayFailure>,
    pub created_at: u64,
    pub qr_rows: Vec<String>,
}

pub open spec fn strings(v: Seq<String>) -> Seq<Seq<char>> {
    v.map_values(|s: String| s@)
}

/// The text of the note to publish: the request's content, trimmed; an
/// error when there is none.
pub fn publish_content(content: Option<String>) -> (r: Result<String, String>)
    ensures
        match content {
            Some(c) => if trim_spec(c@).len() > 0 {
                r matches Ok(t) && t@ == trim_spec(c@)
            } else {
                r matches Err(e) && e@ == "nostr.publishEphemeralKind1 requires non-empty content"@
            },
            None => r matches Err(e) && e@ == "nostr.publishEphemeralKind1 requires non-empty content"@,
        },
{
    match content {
        Some(c) => {
            let t = trim(c.as_str());
            if t.unicode_len() > 0 {
                Ok(String::from_str(t))
            } else {
                Err(String::from_str("nostr.publishEphemeralKind1 requires non-empty content"))
            }
        },
        None => Err(String::from_str("nostr.publishEphemeralKind1 requires non-empty content")),
    }
}

/// The time allowed for a publish: the request's, unless missing or zero.
pub fn publish_timeout_ms(timeout_ms: Option<u64>) -> (r: u64)
    ensures
        r == (match timeout_ms {
            Some(t) => if t > 0 {
                t
            } else {
                DEFAULT_PUBLISH_TIMEOUT_MS
            },
            None => DEFAULT_PUBLISH_TIMEOUT_MS,
        }),
{
    match timeout_ms {
        Some(t) => if t > 0 {
            t
        } else {
            DEFAULT_PUBLISH_TIMEOUT_MS
        },
        None => DEFAULT_PUBLISH_TIMEOUT_MS,
    }
}

/// The relays used when a request names none.
pub open spec fn default_relays() -> Seq<Seq<char>> {
    seq!["wss://relay.primal.net/"@, "wss://relay.damus.io/"@]
}

/// The relays used when a request names none.
pub fn default_relay_urls() -> (r: Vec<String>)
    ensures
        strings(r@) == default_relays(),
{
    let mut r: Vec<String> = Vec::new();
    r.push(String::from_str("wss://relay.primal.net/"));
    r.push(String::from_str("wss://relay.damus.io/"));
    assert(strings(r@) =~= default_relays());
    r
}

/// What `nostr`'s relay URL parser makes of `url`: its normalised text, or
/// the text of its error.
pub uninterp spec fn relay_url_parse(url: Seq<char>) -> Result<Seq<char>, Seq<char>>;

/// `nostr::types::RelayUrl::parse`, with the parsed URL or the error
/// written out through `Display`. The result is named, not stated.
#[verifier::external_body]
fn parse_relay_url(url: &str) -> (r: Result<String, String>)
    ensures
        match r {
            Ok(s) => relay_url_parse(url@) == Ok::<Seq<char>, Seq<char>>(s@),
            Err(e) => relay_url_parse(url@) == Err::<Seq<char>, Seq<char>>(e@),
        },
{
    match nostr::types::RelayUrl::parse(url) {
        Ok(u) => Ok(u.to_string()),
        Err(e) => Err(e.to_string()),
    }
}

/// The normalised form of one relay address, or the error for it.
pub open spec fn normalize_one(url: Seq<char>) -> Result<Seq<char>, Seq<char>> {
    let t = trim_spec(url);
    if t.len() == 0 {
        Err("nostr.publishEphemeralKind1 relay URL cannot be empty"@)
    } else {
        match relay_url_parse(t) {
            Ok(u) => Ok(u),
            Err(e) => Err("nostr.publishEphemeralKind1 invalid relay URL "@ + t + ": "@ + e),
        }
    }
}

/// The normalised forms of `urls` in order, or the error for the first
/// one that fails.
pub open spec fn normalize_all(urls: Seq<Seq<char>>) -> Result<Seq<Seq<char>>, Seq<char>>
    decreases urls.len(),
{
    if urls.len() == 0 {
        Ok(Seq::empty())
    } else {
        match normalize_all(urls.drop_last()) {
            Err(e) => Err(e),
            Ok(done) => match normalize_one(urls.last()) {
                Ok(u) => Ok(done.push(u)),
                Err(e) => Err(e),
            },
        }
    }
}

/// The views of an optional list of strings.
pub open spec fn opt_strings(o: Option<Vec<String>>) -> Option<Seq<Seq<char>>> {
    match o {
        Some(u) => Some(strings(u@)),
        None => None,
    }
}

/// What [`normalize_relay_urls`] gives for the requested relays.
pub open spec fn normalize_spec(urls: Option<Seq<Seq<char>>>) -> Result<Seq<Seq<char>>, Seq<char>> {
    let list = match urls {
        Some(u) => u,
        None => default_relays(),
    };
    if list.len() == 0 {
        Err("nostr.publishEphemeralKind1 requires at least one relay URL"@)
    } else {
        normalize_all(list)
    }
}

/// Checks and normalises the requested relay addresses (the defaults when
/// none are requested).
pub fn normalize_relay_urls(relay_urls: Option<Vec<String>>) -> (r: Result<Vec<String>, String>)
    ensures
        match r {
            Ok(v) => normalize_spec(opt_strings(relay_urls)) == Ok::<Seq<Seq<char>>, Seq<char>>(strings(v@)),
            Err(e) => normalize_spec(opt_strings(relay_urls)) == Err::<Seq<Seq<char>>, Seq<char>>(e@),
        },
{
    let ghost requested = opt_strings(relay_urls);
    let urls = match relay_urls {
        Some(u) => u,
        None => default_relay_urls(),
    };
    if urls.len() == 0 {
        return Err(String::from_str("nostr.publishEphemeralKind1 requires at least one relay URL"));
    }
    let ghost list = strings(urls@);
    assert(normalize_spec(requested) == normalize_all(list));
    let mut out: Vec<String> = Vec::new();
    let mut i: usize = 0;
    assert(list.take(0) =~= Seq::<Seq<char>>::empty());
    assert(strings(out@) =~= Seq::<Seq<char>>::empty());
    while i < urls.len()
        invariant
            0 <= i <= urls@.len(),
            list == strings(urls@),
            normalize_all(list.take(i as int)) == Ok::<Seq<Seq<char>>, Seq<char>>(strings(out@)),
            normalize_spec(requested) == normalize_all(list),
            requested == opt_strings(relay_urls),
        decreases urls@.len() - i,
    {
        assert(list.take(i + 1).drop_last() =~= list.take(i as int));
        assert(list.take(i + 1).last() == urls@[i as int]@);
        let t = trim(urls[i].as_str());
        assert(t@ == trim_spec(list[i as int]));
        if t.unicode_len() == 0 {
            assert(normalize_all(list.take(i + 1)) == Err::<Seq<Seq<char>>, Seq<char>>(
                "nostr.publishEphemeralKind1 relay URL cannot be empty"@,
            ));
            proof {
                lemma_normalize_stops(list, i as int + 1);
            }
            let msg = String::from_str("nostr.publishEphemeralKind1 relay URL cannot be empty");
            return Err(msg);
        }
        match parse_relay_url(t) {
            Ok(u) => {
                let ghost before = out@;
                let ghost uv = u@;
                assert(normalize_one(list[i as int]) == Ok::<Seq<char>, Seq<char>>(uv));
                out.push(u);
                assert(strings(out@) =~= strings(before).push(uv));
            },
            Err(e) => {
                let mut msg = String::from_str("nostr.publishEphemeralKind1 invalid relay URL ");
                msg.append(t);
                msg.append(": ");
                msg.append(e.as_str());
                assert(msg@ =~= "nostr.publishEphemeralKind1 invalid relay URL "@ + t@ + ": "@ + e@);
                assert(normalize_all(list.take(i + 1)) == Err::<Seq<Seq<char>>, Seq<char>>(msg@));
                proof {
                    lemma_normalize_stops(list, i as int + 1);
                }
                return Err(msg);
            },
        }
        i = i + 1;
    }
    assert(list.take(urls@.len() as int) =~= list);
    Ok(out)
}

/// Once a prefix of the list fails, the whole list fails with that error.
proof fn lemma_normalize_stops(list: Seq<Seq<char>>, k: int)
    requires
        0 <= k <= list.len(),
        normalize_all(list.take(k)) is Err,
    ensures
        normalize_all(list) == normalize_all(list.take(k)),
    decreases list.len() - k,
{
    if k == list.len() {
        assert(list.take(k) =~= list);
    } else {
        assert(list.take(k + 1).drop_last() =~= list.take(k));
        lemma_normalize_stops(list, k + 1);
    }
}

/// A failure, as views.
pub open spec fn failure_view(f: PublishedRelayFailure) -> (Seq<char>, Seq<char>) {
    (f.relay_url@, f.error@)
}

/// Where a failure for `url` goes in a list sorted by URL: after every
/// failure whose URL is not greater.
pub open spec fn failure_pos(sorted: Seq<(Seq<char>, Seq<char>)>, url: Seq<char>) -> int
    decreases sorted.len(),
{
    if sorted.len() == 0 {
        0
    } else if !text_lt(url, sorted.last().0) {
        sorted.len() as int
    } else {
        failure_pos(sorted.drop_last(), url)
    }
}

/// `fs` sorted by relay URL; failures with equal URLs keep their order.
pub open spec fn sorted_by_url(fs: Seq<(Seq<char>, Seq<char>)>) -> Seq<(Seq<char>, Seq<char>)>
    decreases fs.len(),
{
    if fs.len() == 0 {
        Seq::empty()
    } else {
        let sorted = sorted_by_url(fs.drop_last());
        sorted.insert(failure_pos(sorted, fs.last().0), fs.last())
    }
}

pub open spec fn failures(v: Seq<PublishedRelayFailure>) -> Seq<(Seq<char>, Seq<char>)> {
    v.map_values(|f: PublishedRelayFailure| failure_view(f))
}

/// Sorts relay failures by relay URL, keeping the order of equal URLs.
pub fn normalize_failed_relays(failed: &Vec<PublishedRelayFailure>) -> (r: Vec<PublishedRelayFailure>)
    ensures
        failures(r@) == sorted_by_url(failures(failed@)),
{
    let ghost fs = failures(failed@);
    let mut out: Vec<PublishedRelayFailure> = Vec::new();
    let mut i: usize = 0;
    assert(fs.take(0) =~= Seq::<(Seq<char>, Seq<char>)>::empty());
    while i < failed.len()
        invariant
            0 <= i <= failed@.len(),
            fs == failures(failed@),
            failures(out@) == sorted_by_url(fs.take(i as int)),
        decreases failed@.len() - i,
    {
        let f = PublishedRelayFailure {
            relay_url: failed[i].relay_url.clone(),
            error: failed[i].error.clone(),
        };
        assert(fs[i as int] == failure_view(f));
        assert(fs.take(i + 1).drop_last() =~= fs.take(i as int));
        assert(fs.take(i + 1).last() == failure_view(f));
        let ghost sorted = failures(out@);
        let mut p: usize = out.len();
        assert(sorted.take(p as int) =~= sorted);
        while p > 0 && str_lt(f.relay_url.as_str(), out[p - 1].relay_url.as_str())
            invariant
                0 <= p <= out@.len(),
                sorted == failures(out@),
                failure_pos(sorted.take(p as int), f.relay_url@) == failure_pos(sorted, f.relay_url@),
            decreases p,
        {
            assert(sorted.take(p as int).drop_last() =~= sorted.take(p - 1));
            assert(sorted.take(p as int).last() == failure_view(out@[p - 1]));
            p = p - 1;
        }
        assert(failure_pos(sorted.take(p as int), f.relay_url@) == p) by {
            if p > 0 {
                assert(sorted.take(p as int).last() == failure_view(out@[p - 1]));
            }
        }
        let ghost fv = failure_view(f);
        out.insert(p, f);
        assert(failures(out@) =~= sorted.insert(p as int, fv));
        i = i + 1;
    }
    assert(fs.take(failed@.len() as int) =~= fs);
    out
}

/// Failures in order of relay URL: no URL comes before an earlier one.
pub open spec fn ordered_by_url(fs: Seq<(Seq<char>, Seq<char>)>) -> bool {
    forall|i: int, j: int| 0 <= i < j < fs.len() ==> !text_lt(#[trigger] fs[j].0, #[trigger] fs[i].0)
}

proof fn lemma_failure_pos(sorted: Seq<(Seq<char>, Seq<char>)>, url: Seq<char>)
    requires
        ordered_by_url(sorted),
    ensures
        0 <= failure_pos(sorted, url) <= sorted.len(),
        forall|k: int| 0 <= k < failure_pos(sorted, url) ==> !text_lt(url, #[trigger] sorted[k].0),
        forall|k: int| failure_pos(sorted, url) <= k < sorted.len() ==> text_lt(url, #[trigger] sorted[k].0),
    decreases sorted.len(),
{
    if sorted.len() > 0 {
        let last = sorted.last().0;
        if !text_lt(url, last) {
            assert forall|k: int| 0 <= k < sorted.len() implies !text_lt(url, #[trigger] sorted[k].0) by {
                if k < sorted.len() - 1 {
                    assert(!text_lt(sorted[sorted.len() - 1].0, sorted[k].0));
                    lemma_text_lt_total(sorted[k].0, last);
                    lemma_text_lt_transitive(url, sorted[k].0, last);
                }
            }
        } else {
            let front = sorted.drop_last();
            assert forall|i: int, j: int| 0 <= i < j < front.len() implies !text_lt(#[trigger] front[j].0, #[trigger] front[i].0) by {
                assert(front[i] == sorted[i] && front[j] == sorted[j]);
            }
            lemma_failure_pos(front, url);
            let p = failure_pos(front, url);
            assert forall|k: int| 0 <= k < p implies !text_lt(url, #[trigger] sorted[k].0) by {
                assert(sorted[k] == front[k]);
            }
            assert forall|k: int| p <= k < sorted.len() implies text_lt(url, #[trigger] sorted[k].0) by {
                if k < sorted.len() - 1 {
                    assert(sorted[k] == front[k]);
                }
            }
        }
    }
}

/// Sorting failures by relay URL orders them by URL and keeps every
/// failure: the result holds the same failures, each as often.
pub proof fn lemma_failures_sorted(fs: Seq<(Seq<char>, Seq<char>)>)
    ensures
        ordered_by_url(sorted_by_url(fs)),
        sorted_by_url(fs).to_multiset() == fs.to_multiset(),
    decreases fs.len(),
{
    broadcast use vstd::seq_lib::to_multiset_build, vstd::seq_lib::to_multiset_insert;

    if fs.len() == 0 {
        assert(sorted_by_url(fs) =~= fs);
    } else {
        let front = fs.drop_last();
        let x = fs.last();
        lemma_failures_sorted(front);
        let sorted = sorted_by_url(front);
        lemma_failure_pos(sorted, x.0);
        let p = failure_pos(sorted, x.0);
        let r = sorted.insert(p, x);
        assert(r == sorted_by_url(fs));
        assert forall|i: int, j: int| 0 <= i < j < r.len() implies !text_lt(#[trigger] r[j].0, #[trigger] r[i].0) by {
            if j < p {
                assert(r[i] == sorted[i] && r[j] == sorted[j]);
            } else if j == p {
                assert(r[i] == sorted[i] && r[j] == x);
            } else if i < p {
                assert(r[i] == sorted[i] && r[j] == sorted[j - 1]);
            } else if i == p {
                assert(r[i] == x && r[j] == sorted[j - 1]);
                lemma_text_lt_asymmetric(x.0, sorted[j - 1].0);
            } else {
                assert(r[i] == sorted[i - 1] && r[j] == sorted[j - 1]);
            }
        }
        assert(fs =~= front.push(x));
    }
}

/// The failures written out as `url (error)`, separated by `, `.
pub open spec fn failures_text(fs: Seq<(Seq<char>, Seq<char>)>) -> Seq<char>
    decreases fs.len(),
{
    if fs.len() == 0 {
        Seq::empty()
    } else {
        let one = fs.last().0 + " ("@ + fs.last().1 + ")"@;
        if fs.len() == 1 {
            one
        } else {
            failures_text(fs.drop_last()) + ", "@ + one
        }
    }
}

/// Lists relay failures as `url (error)`, separated by `, `.
pub fn format_failed_relays(failed: &[PublishedRelayFailure]) -> (r: String)
    ensures
        r@ == failures_text(failed@.map_values(|f: PublishedRelayFailure| failure_view(f))),
{
    let ghost fs = failed@.map_values(|f: PublishedRelayFailure| failure_view(f));
    let mut out = String::new();
    let mut i: usize = 0;
    assert(fs.take(0) =~= Seq::<(Seq<char>, Seq<char>)>::empty());
    while i < failed.len()
        invariant
            0 <= i <= failed@.len(),
            fs == failed@.map_values(|f: PublishedRelayFailure| failure_view(f)),
            out@ == failures_text(fs.take(i as int)),
        decreases failed@.len() - i,
    {
        assert(fs.take(i + 1).drop_last() =~= fs.take(i as int));
        assert(fs.take(i + 1).last() == failure_view(failed@[i as int]));
        if i > 0 {
            out.append(", ");
        }
        out.append(failed[i].relay_url.as_str());
        out.append(" (");
        out.append(failed[i].error.as_str());
        out.append(")");
        assert(out@ =~= failures_text(fs.take(i + 1)));
        i = i + 1;
    }
    assert(fs.take(failed@.len() as int) =~= fs);
    out
}

/// Why `qrcodegen` could not encode some text.
#[derive(Clone, Copy, Debug, PartialEq, Eq, Structural)]
pub enum QrTooLong {
    SegmentTooLong,
    DataOverCapacity(usize, usize),
}

#[verifier::external_type_specification]
#[verifier::external_body]
pub struct ExQrCode(qrcodegen::QrCode);

/// The modules of a QR code: one row per line from the top, `true` for
/// dark.
pub uninterp spec fn qr_modules(code: qrcodegen::QrCode) -> Seq<Seq<bool>>;

/// What `qrcodegen` makes of `text` at the medium error-correction level:
/// the modules of the code, or why it does not fit.
pub uninterp spec fn qr_text_encoding(text: Seq<char>) -> Result<Seq<Seq<bool>>, QrTooLong>;

/// `qrcodegen::QrCode::encode_text(text, QrCodeEcc::Medium)`; the error
/// is carried over variant for variant. The encoding itself is named, not
/// stated.
#[verifier::external_body]
fn qr_encode_text_medium(text: &str) -> (r: Result<qrcodegen::QrCode, QrTooLong>)
    ensures
        match r {
            Ok(code) => qr_text_encoding(text@) == Ok::<Seq<Seq<bool>>, QrTooLong>(qr_modules(code)),
            Err(e) => qr_text_encoding(text@) == Err::<Seq<Seq<bool>>, QrTooLong>(e),
        },
{
    match qrcodegen::QrCode::encode_text(text, qrcodegen::QrCodeEcc::Medium) {
        Ok(code) => Ok(code),
        Err(qrcodegen::DataTooLong::SegmentTooLong) => Err(QrTooLong::SegmentTooLong),
        Err(qrcodegen::DataTooLong::DataOverCapacity(a, b)) => Err(QrTooLong::DataOverCapacity(a, b)),
    }
}

/// `QrCode::size`: the side of the (square) code in modules, between 21 and
/// 177 as the crate documents.
#[verifier::external_body]
fn qr_size(code: &qrcodegen::QrCode) -> (r: i32)
    ensures
        r == qr_modules(*code).len(),
        21 <= r <= 177,
        forall|y: int| 0 <= y < r ==> #[trigger] qr_modules(*code)[y].len() == r,
{
    code.size()
}

/// `QrCode::get_module`: whether module (`x`, `y`) is dark; `false` off
/// the code.
#[verifier::external_body]
fn qr_module(code: &qrcodegen::QrCode, x: i32, y: i32) -> (r: bool)
    ensures
        r == (0 <= x < qr_modules(*code).len() && 0 <= y < qr_modules(*code).len()
            && qr_modules(*code)[y as int][x as int]),
{
    code.get_module(x, y)
}

/// A module row written as `1` for dark and `0` for light.
pub open spec fn row_text(row: Seq<bool>) -> Seq<char> {
    row.map_values(|b: bool| if b { '1' } else { '0' })
}

/// The `Debug` text of a [`QrTooLong`].
pub open spec fn too_long_text(e: QrTooLong) -> Seq<char> {
    match e {
        QrTooLong::SegmentTooLong => "SegmentTooLong"@,
        QrTooLong::DataOverCapacity(a, b) => "DataOverCapacity("@ + decimal_text(a as nat) + ", "@
            + decimal_text(b as nat) + ")"@,
    }
}

/// What [`build_qr_rows`] gives for `text`.
pub open spec fn qr_rows_spec(text: Seq<char>) -> Result<Seq<Seq<char>>, Seq<char>> {
    match qr_text_encoding(text) {
        Ok(m) => Ok(m.map_values(|row: Seq<bool>| row_text(row))),
        Err(e) => Err("nostr.publishEphemeralKind1 generate QR: "@ + too_long_text(e)),
    }
}

/// The QR code of `data` as text rows of `1` (dark) and `0` (light).
pub fn build_qr_rows(data: &str) -> (r: Result<Vec<String>, String>)
    ensures
        match r {
            Ok(rows) => qr_rows_spec(data@) == Ok::<Seq<Seq<char>>, Seq<char>>(strings(rows@)),
            Err(e) => qr_rows_spec(data@) == Err::<Seq<Seq<char>>, Seq<char>>(e@),
        },
{
    let code = match qr_encode_text_medium(data) {
        Ok(code) => code,
        Err(e) => {
            let mut msg = String::from_str("nostr.publishEphemeralKind1 generate QR: ");
            match e {
                QrTooLong::SegmentTooLong => {
                    msg.append("SegmentTooLong");
                },
                QrTooLong::DataOverCapacity(a, b) => {
                    msg.append("DataOverCapacity(");
                    append_decimal(&mut msg, a as u64);
                    msg.append(", ");
                    append_decimal(&mut msg, b as u64);
                    msg.append(")");
                },
            }
            assert(msg@ =~= "nostr.publishEphemeralKind1 generate QR: "@ + too_long_text(e));
            return Err(msg);
        },
    };
    let size = qr_size(&code);
    let ghost m = qr_modules(code);
    let mut rows: Vec<String> = Vec::new();
    let mut y: i32 = 0;
    while y < size
        invariant
            0 <= y <= size,
            size == m.len(),
            m == qr_modules(code),
            forall|j: int| 0 <= j < size ==> #[trigger] m[j].len() == size,
            strings(rows@) == m.take(y as int).map_values(|row: Seq<bool>| row_text(row)),
        decreases size - y,
    {
        let mut row = String::new();
        let mut x: i32 = 0;
        assert(m[y as int].len() == size);
        while x < size
            invariant
                0 <= x <= size,
                0 <= y < size,
                size == m.len(),
                m == qr_modules(code),
                m[y as int].len() == size,
                row@ == row_text(m[y as int].take(x as int)),
            decreases size - x,
        {
            proof {
                reveal_strlit("1");
                reveal_strlit("0");
            }
            if qr_module(&code, x, y) {
                row.append("1");
            } else {
                row.append("0");
            }
            assert(m[y as int].take(x + 1) =~= m[y as int].take(x as int).push(m[y as int][x as int]));
            assert(row@ =~= row_text(m[y as int].take(x + 1)));
            x = x + 1;
        }
        assert(m[y as int].take(size as int) =~= m[y as int]);
        let ghost before = rows@;
        rows.push(row);
        assert(strings(rows@) =~= strings(before).push(row_text(m[y as int])));
        assert(m.take(y + 1) =~= m.take(y as int).push(m[y as int]));
        assert(strings(rows@) =~= m.take(y + 1).map_values(|row: Seq<bool>| row_text(row)));
        y = y + 1;
    }
    assert(m.take(size as int) =~= m);
    Ok(rows)
}


/// The error for a publish that reached no relay: the failures sorted by
/// relay URL.
pub fn connect_failure_message(failed: &Vec<PublishedRelayFailure>) -> (r: String)
    ensures
        r@ == "nostr.publishEphemeralKind1 could not connect to any relay: "@ + failures_text(
            sorted_by_url(failures(failed@)),
        ),
{
    let sorted = normalize_failed_relays(failed);
    let mut msg = String::from_str("nostr.publishEphemeralKind1 could not connect to any relay: ");
    let text = format_failed_relays(sorted.as_slice());
    assert(sorted@.map_values(|f: PublishedRelayFailure| failure_view(f)) == failures(sorted@));
    msg.append(text.as_str());
    msg
}

/// A name for the bech32 text (`npub1...`) that `nostr` gives the public
/// key with the 32 bytes `key`.
pub uninterp spec fn npub_text(key: Seq<u8>) -> Seq<char>;

/// A name for the bech32 text (`note1...`) that `nostr` gives the event id
/// with the 32 bytes `id`.
pub uninterp spec fn note_text(id: Seq<u8>) -> Seq<char>;

/// `<nostr::PublicKey as ToBech32>::to_bech32` on the key with bytes `key`,
/// whose error type is `Infallible`: the key's bech32 text, named, not
/// stated.
#[verifier::external_body]
fn public_key_bech32(key: [u8; 32]) -> (r: String)
    ensures
        r@ == npub_text(key@),
{
    match nostr::PublicKey::from_byte_array(key).to_bech32() {
        Ok(text) => text,
        Err(never) => match never {},
    }
}

/// `<nostr::EventId as ToBech32>::to_bech32` on the id with bytes `id`,
/// whose error type is `Infallible`: the id's bech32 text, named, not
/// stated.
#[verifier::external_body]
fn event_id_bech32(id: [u8; 32]) -> (r: String)
    ensures
        r@ == note_text(id@),
{
    match nostr::EventId::from_byte_array(id).to_bech32() {
        Ok(text) => text,
        Err(never) => match never {},
    }
}

/// The small hexadecimal digit for `d` (0 to 15).
pub open spec fn hex_digit(d: int) -> char {
    if d < 10 {
        (48 + d) as char
    } else {
        (87 + d) as char
    }
}

/// `bytes` in small hexadecimal, two digits a byte, high digit first.
pub open spec fn lower_hex_text(bytes: Seq<u8>) -> Seq<char>
    decreases bytes.len(),
{
    if bytes.len() == 0 {
        Seq::empty()
    } else {
        lower_hex_text(bytes.drop_last()) + seq![hex_digit(bytes.last() as int / 16), hex_digit(bytes.last() as int % 16)]
    }
}

fn hex_digit_str(d: u8) -> (r: &'static str)
    requires
        d < 16,
    ensures
        r@ == seq![hex_digit(d as int)],
{
    proof {
        reveal_strlit("0");
        reveal_strlit("1");
        reveal_strlit("2");
        reveal_strlit("3");
        reveal_strlit("4");
        reveal_strlit("5");
        reveal_strlit("6");
        reveal_strlit("7");
        reveal_strlit("8");
        reveal_strlit("9");
        reveal_strlit("a");
        reveal_strlit("b");
        reveal_strlit("c");
        reveal_strlit("d");
        reveal_strlit("e");
        reveal_strlit("f");
    }
    match d {
        0 => "0",
        1 => "1",
        2 => "2",
        3 => "3",
        4 => "4",
        5 => "5",
        6 => "6",
        7 => "7",
        8 => "8",
        9 => "9",
        10 => "a",
        11 => "b",
        12 => "c",
        13 => "d",
        14 => "e",
        _ => "f",
    }
}

/// The text of an event id: its bytes in small hexadecimal, as `nostr`
/// writes an `EventId` out.
pub fn event_id_hex(id: &[u8; 32]) -> (r: String)
    ensures
        r@ == lower_hex_text(id@),
{
    let mut out = String::new();
    proof {
        assert(out@ =~= lower_hex_text(id@.take(0)));
    }
    let mut i: usize = 0;
    while i < 32
        invariant
            i <= 32,
            out@ == lower_hex_text(id@.take(i as int)),
        decreases 32 - i,
    {
        let b = id[i];
        out.append(hex_digit_str(b / 16));
        out.append(hex_digit_str(b % 16));
        assert(id@.take(i + 1).drop_last() =~= id@.take(i as int));
        assert(out@ =~= lower_hex_text(id@.take(i + 1)));
        i = i + 1;
    }
    assert(id@.take(32) =~= id@);
    out
}

/// The outcome of a publish that reached at least one relay. Refused by
/// every relay, it is an error listing the failures (sorted by relay URL);
/// otherwise a receipt naming the author's key (`npub`) and the note (hex
/// id and `note` id) and carrying the note's web link and that link's QR
/// code.
pub fn build_receipt(
    content: String,
    public_key: [u8; 32],
    relay_urls: Vec<String>,
    event_id: [u8; 32],
    created_at: u64,
    published_relays: Vec<String>,
    failed: &Vec<PublishedRelayFailure>,
) -> (r: Result<PublishedKind1Receipt, String>)
    ensures
        published_relays@.len() == 0 ==> (r matches Err(e) && e@ == "nostr.publishEphemeralKind1 was rejected by every relay: "@
            + failures_text(sorted_by_url(failures(failed@)))),
        published_relays@.len() > 0 ==> {
            let link = DEFAULT_PRIMAL_URL_PREFIX@ + note_text(event_id@);
            match qr_rows_spec(link) {
                Ok(rows) => r matches Ok(receipt) && {
                    &&& receipt.content == content
                    &&& receipt.npub@ == npub_text(public_key@)
                    &&& receipt.relay_urls == relay_urls
                    &&& receipt.event_id_hex@ == lower_hex_text(event_id@)
                    &&& receipt.note_id@ == note_text(event_id@)
                    &&& receipt.created_at == created_at
                    &&& receipt.published_relays == published_relays
                    &&& failures(receipt.failed_relays@) == sorted_by_url(failures(failed@))
                    &&& receipt.primal_url@ == link
                    &&& strings(receipt.qr_rows@) == rows
                },
                Err(e) => r matches Err(m) && m@ == e,
            }
        },
{
    let sorted = normalize_failed_relays(failed);
    if published_relays.len() == 0 {
        let mut msg = String::from_str("nostr.publishEphemeralKind1 was rejected by every relay: ");
        let text = format_failed_relays(sorted.as_slice());
        assert(sorted@.map_values(|f: PublishedRelayFailure| failure_view(f)) == failures(sorted@));
        msg.append(text.as_str());
        return Err(msg);
    }
    let npub = public_key_bech32(public_key);
    let note_id = event_id_bech32(event_id);
    let event_id_hex = event_id_hex(&event_id);
    let mut primal_url = String::from_str(DEFAULT_PRIMAL_URL_PREFIX);
    primal_url.append(note_id.as_str());
    let qr_rows = match build_qr_rows(primal_url.as_str()) {
        Ok(rows) => rows,
        Err(e) => return Err(e),
    };
    Ok(PublishedKind1Receipt {
        content,
        event_id_hex,
        note_id,
        primal_url,
        npub,
        relay_urls,
        published_relays,
        failed_relays: sorted,
        created_at,
        qr_rows,
    })
}
} // verus!
