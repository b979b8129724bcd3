use vstd::prelude::*;

use crate::json_text::chars_of;

verus! {

/// `pat` stands in `s` at index `i`.
pub open spec fn occurs_at(s: Seq<char>, pat: Seq<char>, i: int) -> bool {
    0 <= i && i + pat.len() <= s.len() && s.subrange(i, i + pat.len()) == pat
}

/// The first index at or after `i` at which `pat` stands in `s`.
pub open spec fn find_from(s: Seq<char>, pat: Seq<char>, i: int) -> Option<int>
    decreases s.len() + 1 - i,
{
    if i < 0 || i + pat.len() > s.len() {
        None
    } else if occurs_at(s, pat, i) {
        Some(i)
    } else {
        find_from(s, pat, i + 1)
    }
}

/// The first index at which `pat` stands in `s`.
pub open spec fn find(s: Seq<char>, pat: Seq<char>) -> Option<int> {
    find_from(s, pat, 0)
}

/// Whether `pat` stands in `hay` at index `i`.
fn matches_at(hay: &Vec<char>, pat: &Vec<char>, i: usize) -> (b: bool)
    requires
        i + pat@.len() <= hay@.len(),
    ensures
        b == occurs_at(hay@, pat@, i as int),
{
    let n: usize = pat.len();
    let mut k: usize = 0;
    while k < n
        invariant
            n == pat@.len(),
            i + n <= hay.len(),
            k <= n,
            hay@.subrange(i as int, i + k) == pat@.subrange(0, k as int),
        decreases n - k,
    {
        if hay[i + k] != pat[k] {
            proof {
                if hay@.subrange(i as int, i + n) == pat@ {
                    assert(hay@.subrange(i as int, i + n)[k as int] == hay@[i + k]);
                }
            }
            return false;
        }
        proof {
            assert(hay@.subrange(i as int, i + k + 1) =~= hay@.subrange(i as int, i + k).push(hay@[i + k]));
            assert(pat@.subrange(0, k + 1) =~= pat@.subrange(0, k as int).push(pat@[k as int]));
        }
        k = k + 1;
    }
    proof {
        assert(pat@.subrange(0, n as int) =~= pat@);
    }
    true
}

/// The first index at or after `from` at which `pat` stands in `hay`.
fn find_in(hay: &Vec<char>, pat: &Vec<char>, from: usize) -> (r: Option<usize>)
    ensures
        match r {
            Some(i) => find_from(hay@, pat@, from as int) == Some(i as int),
            None => find_from(hay@, pat@, from as int) is None,
        },
{
    let mut i: usize = from;
    while i <= hay.len() && hay.len() - i >= pat.len()
        invariant
            from <= i,
            find_from(hay@, pat@, from as int) == find_from(hay@, pat@, i as int),
        decreases hay@.len() + 1 - i,
    {
        if matches_at(hay, pat, i) {
            return Some(i);
        }
        proof {
            if pat@.len() == 0 {
                assert(hay@.subrange(i as int, i as int) =~= pat@);
            }
        }
        i = i + 1;
    }
    None
}

/// A match found by `find_from` lies at or after the starting index, and the
/// pattern stands there.
pub proof fn lemma_find_from_found(s: Seq<char>, pat: Seq<char>, i: int)
    ensures
        find_from(s, pat, i) matches Some(j) ==> i <= j && occurs_at(s, pat, j),
    decreases s.len() + 1 - i,
{
    if !(i < 0 || i + pat.len() > s.len()) && !occurs_at(s, pat, i) {
        lemma_find_from_found(s, pat, i + 1);
    }
}

/// A request from the navigation bar.
pub enum Request {
    Navigate(Seq<char>),
    GoBack,
    GoForward,
    Reload,
    Stop,
}

/// The key that precedes the address in a navigation request.
pub open spec fn url_key() -> Seq<char> {
    "\"url\":\""@
}

/// The same key as a pretty-printer writes it, with a space after the colon.
pub open spec fn url_key_spaced() -> Seq<char> {
    "\"url\": \""@
}

/// The text of `m` from index `start` up to the next double quote.
pub open spec fn quoted_from(m: Seq<char>, start: int) -> Option<Seq<char>> {
    match find_from(m, "\""@, start) {
        Some(end) => Some(m.subrange(start, end)),
        None => None,
    }
}

/// The address that a navigation request names: the text after the first
/// `"url":"` up to the next quote; only where that key is absent, the text
/// after the first `"url": "`.
pub open spec fn navigate_target(m: Seq<char>) -> Option<Seq<char>> {
    match find(m, url_key()) {
        Some(start) => quoted_from(m, start + url_key().len()),
        None => match find(m, url_key_spaced()) {
            Some(start) => quoted_from(m, start + url_key_spaced().len()),
            None => None,
        },
    }
}

/// What a message from the navigation bar asks for. The quoted command names
/// are looked for in this order: `"navigate"`, `"go_back"`, `"go_forward"`,
/// `"reload"`, `"stop"`. A navigation request without an address asks for
/// nothing.
pub open spec fn parse_request(m: Seq<char>) -> Option<Request> {
    if find(m, "\"navigate\""@) is Some {
        match navigate_target(m) {
            Some(u) => Some(Request::Navigate(u)),
            None => None,
        }
    } else if find(m, "\"go_back\""@) is Some {
        Some(Request::GoBack)
    } else if find(m, "\"go_forward\""@) is Some {
        Some(Request::GoForward)
    } else if find(m, "\"reload\""@) is Some {
        Some(Request::Reload)
    } else if find(m, "\"stop\""@) is Some {
        Some(Request::Stop)
    } else {
        None
    }
}

/// A command from the navigation bar to the page view.
#[derive(Debug, PartialEq, Eq)]
pub enum ChromeCommand {
    Navigate(String),
    GoBack,
    GoForward,
    Reload,
    Stop,
}

impl View for ChromeCommand {
    type V = Request;

    open spec fn view(&self) -> Request {
        match self {
            ChromeCommand::Navigate(u) => Request::Navigate(u@),
            ChromeCommand::GoBack => Request::GoBack,
            ChromeCommand::GoForward => Request::GoForward,
            ChromeCommand::Reload => Request::Reload,
            ChromeCommand::Stop => Request::Stop,
        }
    }
}

/// The characters `m[from..to]` as a string.
fn substring(m: &Vec<char>, from: usize, to: usize) -> (r: String)
    requires
        from <= to <= m@.len(),
    ensures
        r@ == m@.subrange(from as int, to as int),
{
    let mut r = String::new();
    let mut i: usize = from;
    while i < to
        invariant
            from <= i <= to <= m@.len(),
            r@ == m@.subrange(from as int, i as int),
        decreases to - i,
    {
        proof {
            assert(m@.subrange(from as int, i + 1) =~= m@.subrange(from as int, i as int).push(m@[i as int]));
        }
        r.push(m[i]);
        i = i + 1;
    }
    r
}

/// The text of `m` from `start` up to the next double quote.
fn quoted_text(m: &Vec<char>, start: usize) -> (r: Option<String>)
    requires
        start <= m@.len(),
    ensures
        match r {
            Some(u) => quoted_from(m@, start as int) == Some(u@),
            None => quoted_from(m@, start as int) is None,
        },
{
    let quote = chars_of("\"");
    match find_in(m, &quote, start) {
        Some(end) => {
            proof {
                lemma_find_from_found(m@, quote@, start as int);
            }
            Some(substring(m, start, end))
        },
        None => None,
    }
}

/// The text after the first occurrence of `key` in `m` up to the next quote.
fn text_after_key(m: &Vec<char>, key: &Vec<char>) -> (r: Option<Option<String>>)
    ensures
        match r {
            None => find(m@, key@) is None,
            Some(t) => find(m@, key@) matches Some(start) && match t {
                Some(u) => quoted_from(m@, start + key@.len()) == Some(u@),
                None => quoted_from(m@, start + key@.len()) is None,
            },
        },
{
    match find_in(m, key, 0) {
        Some(start) => {
            proof {
                lemma_find_from_found(m@, key@, 0);
                assert(occurs_at(m@, key@, start as int));
                assert(start + key@.len() <= m.len());
            }
            Some(quoted_text(m, start + key.len()))
        },
        None => None,
    }
}

/// Whether the quoted word `word` stands anywhere in `m`.
fn mentions(m: &Vec<char>, word: &str) -> (b: bool)
    ensures
        b == find(m@, word@) is Some,
{
    let w = chars_of(word);
    find_in(m, &w, 0).is_some()
}

/// Reads a message that the navigation bar posted: which command it names
/// and, for a navigation, the address it carries.
pub fn parse_chrome_message(json: &str) -> (cmd: Option<ChromeCommand>)
    ensures
        match cmd {
            Some(c) => parse_request(json@) == Some(c@),
            None => parse_request(json@) is None,
        },
{
    let m = chars_of(json);
    if mentions(&m, "\"navigate\"") {
        let key = chars_of("\"url\":\"");
        let target = match text_after_key(&m, &key) {
            Some(t) => t,
            None => {
                let spaced = chars_of("\"url\": \"");
                match text_after_key(&m, &spaced) {
                    Some(t) => t,
                    None => None,
                }
            },
        };
        match target {
            Some(u) => Some(ChromeCommand::Navigate(u)),
            None => None,
        }
    } else if mentions(&m, "\"go_back\"") {
        Some(ChromeCommand::GoBack)
    } else if mentions(&m, "\"go_forward\"") {
        Some(ChromeCommand::GoForward)
    } else if mentions(&m, "\"reload\"") {
        Some(ChromeCommand::Reload)
    } else if mentions(&m, "\"stop\"") {
        Some(ChromeCommand::Stop)
    } else {
        None
    }
}

/// `find_from` gives the first index at or after `i` where `pat` stands.
pub proof fn lemma_find_from_first(s: Seq<char>, pat: Seq<char>, i: int, j: int)
    requires
        0 <= i <= j,
        occurs_at(s, pat, j),
        forall|k: int| i <= k < j ==> !occurs_at(s, pat, k),
    ensures
        find_from(s, pat, i) == Some(j),
    decreases j - i,
{
    if i < j {
        lemma_find_from_first(s, pat, i + 1, j);
    }
}

/// The message the navigation bar posts to ask for the address `u`.
pub open spec fn navigate_message(u: Seq<char>) -> Seq<char> {
    "{\"cmd\":\"navigate\",\"url\":\""@ + u + "\"}"@
}

/// A navigation request for an address without a double quote in it (one
/// that JSON writes as it is) is read back as a request for that address.
pub proof fn lemma_navigate_roundtrip(u: Seq<char>)
    requires
        !u.contains('"'),
    ensures
        parse_request(navigate_message(u)) == Some(Request::Navigate(u)),
{
    reveal_strlit("{\"cmd\":\"navigate\",\"url\":\"");
    reveal_strlit("\"}");
    reveal_strlit("\"navigate\"");
    reveal_strlit("\"url\":\"");
    reveal_strlit("\"");
    let pre: Seq<char> = "{\"cmd\":\"navigate\",\"url\":\""@;
    let m = navigate_message(u);
    assert(pre =~= seq!['{', '"', 'c', 'm', 'd', '"', ':', '"', 'n', 'a', 'v', 'i', 'g', 'a', 't', 'e', '"', ',', '"', 'u', 'r', 'l', '"', ':', '"']);
    assert(forall|k: int| 0 <= k < 25 ==> m[k] == pre[k]);
    // the command name
    let nav: Seq<char> = "\"navigate\""@;
    assert(m.subrange(7, 17) =~= nav);
    assert forall|k: int| 0 <= k < 7 implies !occurs_at(m, nav, k) by {
        assert(m.subrange(k, k + 10)[0] == m[k]);
        assert(m.subrange(k, k + 10)[1] == m[k + 1]);
    }
    lemma_find_from_first(m, nav, 0, 7);
    // the key before the address
    let key: Seq<char> = url_key();
    assert(m.subrange(18, 25) =~= key);
    assert forall|k: int| 0 <= k < 18 implies !occurs_at(m, key, k) by {
        assert(m.subrange(k, k + 7)[0] == m[k]);
        assert(m.subrange(k, k + 7)[1] == m[k + 1]);
    }
    lemma_find_from_first(m, key, 0, 18);
    // the address runs up to the closing quote
    let q: Seq<char> = "\""@;
    let end: int = 25 + u.len() as int;
    assert(m[end] == '"');
    assert(m.subrange(end, end + 1) =~= q);
    assert forall|k: int| 25 <= k < end implies !occurs_at(m, q, k) by {
        assert(m[k] == u[k - 25]);
        assert(m.subrange(k, k + 1)[0] == m[k]);
    }
    lemma_find_from_first(m, q, 25, end);
    assert(m.subrange(25, end) =~= u);
}

} // verus!
