//! The line protocol on the compositor's control socket.
use crate::app::{catalog, find_app_by_str, index_of_id, AppId};
use crate::text::{is_ws, split_whitespace, split_ws, split_ws_from, str_equal};
use vstd::prelude::*;
use vstd::string::*;

verus! {

pub const COMPOSITOR_CONTROL_ENV: &'static str = "SHADOW_COMPOSITOR_CONTROL";
pub const COMPOSITOR_CONTROL_SOCKET: &'static str = "shadow-control.sock";

/// A request that a client sends to the compositor.
#[derive(Clone, Copy, Debug, PartialEq, Eq)]
pub enum ControlRequest {
    Launch { app_id: AppId },
    Home,
    Switcher,
}

/// What a [`ControlRequest`] asks for, with the app id as text.
pub enum RequestView {
    Launch(Seq<char>),
    Home,
    Switcher,
}

impl View for ControlRequest {
    type V = RequestView;

    open spec fn view(&self) -> RequestView {
        match self {
            ControlRequest::Launch { app_id } => RequestView::Launch(app_id@),
            ControlRequest::Home => RequestView::Home,
            ControlRequest::Switcher => RequestView::Switcher,
        }
    }
}

/// The wire form of a request: one line.
pub open spec fn encode_spec(r: RequestView) -> Seq<char> {
    match r {
        RequestView::Launch(id) => "launch "@ + id + "\n"@,
        RequestView::Home => "home\n"@,
        RequestView::Switcher => "switcher\n"@,
    }
}

/// The request that a line reads as: `launch <id>` for a catalogue app,
/// `home` or `switcher`, each as exactly that many white-space separated words.
pub open spec fn parse_spec(input: Seq<char>) -> Option<RequestView> {
    let t = split_ws(input);
    if t.len() == 2 && t[0] == "launch"@ {
        match index_of_id(t[1]) {
            Some(i) => Some(RequestView::Launch(catalog()[i].id)),
            None => None,
        }
    } else if t.len() == 1 && t[0] == "home"@ {
        Some(RequestView::Home)
    } else if t.len() == 1 && t[0] == "switcher"@ {
        Some(RequestView::Switcher)
    } else {
        None
    }
}

pub open spec fn request_view_opt(r: Option<ControlRequest>) -> Option<RequestView> {
    match r {
        Some(x) => Some(x@),
        None => None,
    }
}

impl ControlRequest {
    /// The line that carries this request.
    pub fn encode(self) -> (line: String)
        ensures
            line@ == encode_spec(self@),
    {
        match self {
            ControlRequest::Launch { app_id } => {
                let mut line = String::from_str("launch ");
                line.append(app_id.as_str());
                line.append("\n");
                line
            },
            ControlRequest::Home => String::from_str("home\n"),
            ControlRequest::Switcher => String::from_str("switcher\n"),
        }
    }

    /// Reads one request line; `None` for anything malformed or for an
    /// unknown app.
    pub fn parse(input: &str) -> (r: Option<Self>)
        ensures
            request_view_opt(r) == parse_spec(input@),
    {
        let words = split_whitespace(input);
        proof {
            reveal_strlit("launch");
            reveal_strlit("home");
            reveal_strlit("switcher");
        }
        assert(words@.len() == split_ws(input@).len());
        if words.len() == 2 {
            assert(words@[0]@ == split_ws(input@)[0]);
            assert(words@[1]@ == split_ws(input@)[1]);
            if str_equal(words[0], "launch") {
                match find_app_by_str(words[1]) {
                    Some(app) => Some(ControlRequest::Launch { app_id: app.id }),
                    None => None,
                }
            } else {
                None
            }
        } else if words.len() == 1 {
            assert(words@[0]@ == split_ws(input@)[0]);
            if str_equal(words[0], "home") {
                Some(ControlRequest::Home)
            } else if str_equal(words[0], "switcher") {
                Some(ControlRequest::Switcher)
            } else {
                None
            }
        } else {
            None
        }
    }
}

/// A run of non-white-space characters is absorbed into the pending word.
proof fn lemma_word_run(s: Seq<char>, i: int, j: int, cur: Seq<char>)
    requires
        0 <= i <= j <= s.len(),
        forall|k: int| i <= k < j ==> !is_ws(#[trigger] s[k]),
    ensures
        split_ws_from(s, i, cur) == split_ws_from(s, j, cur + s.subrange(i, j)),
    decreases j - i,
{
    if i == j {
        assert(cur + s.subrange(i, j) =~= cur);
    } else {
        lemma_word_run(s, i + 1, j, cur.push(s[i]));
        assert(cur.push(s[i]) + s.subrange(i + 1, j) =~= cur + s.subrange(i, j));
    }
}

/// `a`, one white-space character, `b`, one white-space character: two words.
proof fn lemma_two_words(a: Seq<char>, sep: char, b: Seq<char>, end: char)
    requires
        a.len() > 0,
        b.len() > 0,
        forall|k: int| 0 <= k < a.len() ==> !is_ws(#[trigger] a[k]),
        forall|k: int| 0 <= k < b.len() ==> !is_ws(#[trigger] b[k]),
        is_ws(sep),
        is_ws(end),
    ensures
        split_ws(a + seq![sep] + b + seq![end]) == seq![a, b],
{
    let s = a + seq![sep] + b + seq![end];
    let n = a.len() as int;
    let m = b.len() as int;
    assert forall|k: int| 0 <= k < n implies !is_ws(#[trigger] s[k]) by {
        assert(s[k] == a[k]);
    }
    lemma_word_run(s, 0, n, seq![]);
    assert(seq![] + s.subrange(0, n) =~= a);
    assert(s[n] == sep);
    assert forall|k: int| n + 1 <= k < n + 1 + m implies !is_ws(#[trigger] s[k]) by {
        assert(s[k] == b[k - n - 1]);
    }
    lemma_word_run(s, n + 1, n + 1 + m, seq![]);
    assert(seq![] + s.subrange(n + 1, n + 1 + m) =~= b);
    assert(s[n + 1 + m] == end);
    assert(split_ws_from(s, n + 2 + m, seq![]) =~= seq![]);
    assert(split_ws_from(s, n + 1 + m, b) =~= seq![b]);
    assert(split_ws_from(s, n, a) =~= seq![a] + seq![b]);
    assert(seq![a] + seq![b] =~= seq![a, b]);
}

/// A non-empty word followed by one white-space character: one word.
proof fn lemma_one_word(a: Seq<char>, end: char)
    requires
        a.len() > 0,
        forall|k: int| 0 <= k < a.len() ==> !is_ws(#[trigger] a[k]),
        is_ws(end),
    ensures
        split_ws(a + seq![end]) == seq![a],
{
    let s = a + seq![end];
    let n = a.len() as int;
    assert forall|k: int| 0 <= k < n implies !is_ws(#[trigger] s[k]) by {
        assert(s[k] == a[k]);
    }
    lemma_word_run(s, 0, n, seq![]);
    assert(seq![] + s.subrange(0, n) =~= a);
    assert(s[n] == '\n' || s[n] == end);
    assert(split_ws_from(s, n + 1, seq![]) =~= seq![]);
    assert(split_ws_from(s, n, a) =~= seq![a]);
}

/// Reading back the line that encodes a request gives the same request, for the
/// three fixed requests and for every launch of a catalogue app.
pub proof fn lemma_parse_encode_round_trip(r: RequestView)
    requires
        r matches RequestView::Launch(id) ==> index_of_id(id) is Some,
    ensures
        parse_spec(encode_spec(r)) == Some(r),
{
    reveal_strlit("launch ");
    reveal_strlit("launch");
    reveal_strlit("\n");
    reveal_strlit("home\n");
    reveal_strlit("home");
    reveal_strlit("switcher\n");
    reveal_strlit("switcher");
    reveal_strlit("counter");
    reveal_strlit("timeline");
    reveal_strlit("podcast");
    match r {
        RequestView::Launch(id) => {
            let word = "launch"@;
            assert("launch "@ =~= word + seq![' ']);
            assert(encode_spec(r) =~= word + seq![' '] + id + seq!['\n']);
            assert(id.len() > 0);
            assert forall|k: int| 0 <= k < id.len() implies !is_ws(#[trigger] id[k]) by {
            }
            lemma_two_words(word, ' ', id, '\n');
        },
        RequestView::Home => {
            assert("home\n"@ =~= "home"@ + seq!['\n']);
            lemma_one_word("home"@, '\n');
        },
        RequestView::Switcher => {
            assert("switcher\n"@ =~= "switcher"@ + seq!['\n']);
            lemma_one_word("switcher"@, '\n');
        },
    }
}

} // verus!
