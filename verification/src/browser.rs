use vstd::prelude::*;

use crate::json_read::{
    JsonValue,
    json_literal,
    json_safe_char,
    lemma_escaped_literal,
    lemma_read_bool_value,
    lemma_read_member,
    lemma_read_string_value,
    read_json_literal,
    read_json_string,
    read_object,
};
use crate::json_text::{escape_json, escape_seq, lemma_escape_plain};
use crate::message::{
    ChromeCommand,
    Request,
    lemma_navigate_roundtrip,
    navigate_message,
    parse_chrome_message,
    parse_request,
};

verus! {

/// The status update sent to the navigation bar: the page's address and
/// title, each escaped for a JSON string, and whether the page is loading.
pub open spec fn update_json(url: Seq<char>, title: Seq<char>, loading: bool) -> Seq<char> {
    "{\"t\":\"u\",\"url\":\""@ + escape_seq(url) + "\",\"title\":\""@ + escape_seq(title)
        + "\",\"loading\":"@ + (if loading {
        "true"@
    } else {
        "false"@
    }) + "}"@
}

/// Writes the status update for the navigation bar.
pub fn update_json_text(url: &str, title: &str, loading: bool) -> (m: String)
    ensures
        m@ == update_json(url@, title@, loading),
{
    let mut m = String::new();
    m.append("{\"t\":\"u\",\"url\":\"");
    let u = escape_json(url);
    m.append(u.as_str());
    m.append("\",\"title\":\"");
    let t = escape_json(title);
    m.append(t.as_str());
    m.append("\",\"loading\":");
    if loading {
        m.append("true");
    } else {
        m.append("false");
    }
    m.append("}");
    m
}

/// What the host knows of the page and of its two views, as a value.
pub struct BrowserModel {
    pub url: Seq<char>,
    pub title: Seq<char>,
    pub loading: bool,
    pub chrome_attached: bool,
    pub content_attached: bool,
}

/// What the host knows of the page shown in the content view, and which of
/// the two views (navigation bar, page) it holds yet.
pub struct BrowserState {
    pub content_url: String,
    pub content_title: String,
    pub content_loading: bool,
    pub chrome_attached: bool,
    pub content_attached: bool,
}

impl View for BrowserState {
    type V = BrowserModel;

    open spec fn view(&self) -> BrowserModel {
        BrowserModel {
            url: self.content_url@,
            title: self.content_title@,
            loading: self.content_loading,
            chrome_attached: self.chrome_attached,
            content_attached: self.content_attached,
        }
    }
}

/// The state at start: no address, the title "J1", not loading, no views.
pub open spec fn initial_model() -> BrowserModel {
    BrowserModel {
        url: Seq::empty(),
        title: "J1"@,
        loading: false,
        chrome_attached: false,
        content_attached: false,
    }
}

/// The status update that goes to the navigation bar in state `s`: none
/// before the bar's view exists.
pub open spec fn status_update(s: BrowserModel) -> Option<Seq<char>> {
    if s.chrome_attached {
        Some(update_json(s.url, s.title, s.loading))
    } else {
        None
    }
}

/// The page started loading `uri`.
pub open spec fn after_navigation_starting(s: BrowserModel, uri: Seq<char>) -> BrowserModel {
    BrowserModel {
        url: uri,
        title: s.title,
        loading: true,
        chrome_attached: s.chrome_attached,
        content_attached: s.content_attached,
    }
}

/// The page finished loading.
pub open spec fn after_navigation_completed(s: BrowserModel) -> BrowserModel {
    BrowserModel {
        url: s.url,
        title: s.title,
        loading: false,
        chrome_attached: s.chrome_attached,
        content_attached: s.content_attached,
    }
}

/// The page's title became `title`.
pub open spec fn after_title_changed(s: BrowserModel, title: Seq<char>) -> BrowserModel {
    BrowserModel {
        url: s.url,
        title: title,
        loading: s.loading,
        chrome_attached: s.chrome_attached,
        content_attached: s.content_attached,
    }
}

/// What a message from the navigation bar asks for. The page view hands the
/// posted text over in JSON form, as a string literal: where the message is
/// such a literal and the text it holds names a command, that command;
/// otherwise what the message text names as it stands.
pub open spec fn message_request(m: Seq<char>) -> Option<Request> {
    match read_json_literal(m) {
        Some(t) => match parse_request(t) {
            Some(r) => Some(r),
            None => parse_request(m),
        },
        None => parse_request(m),
    }
}

/// The request that a message from the navigation bar passes on to the page
/// view: none before that view exists.
pub open spec fn forwarded_request(s: BrowserModel, m: Seq<char>) -> Option<Request> {
    if s.content_attached {
        message_request(m)
    } else {
        None
    }
}

/// The state after a message from the navigation bar: a navigation request
/// that is passed on records its address and starts loading; nothing else
/// changes the state.
pub open spec fn after_chrome_message(s: BrowserModel, m: Seq<char>) -> BrowserModel {
    match forwarded_request(s, m) {
        Some(Request::Navigate(u)) => after_navigation_starting(s, u),
        _ => s,
    }
}

/// The status update sent after a message from the navigation bar: only a
/// navigation request that is passed on sends one.
pub open spec fn chrome_message_update(s: BrowserModel, m: Seq<char>) -> Option<Seq<char>> {
    match forwarded_request(s, m) {
        Some(Request::Navigate(u)) => status_update(after_chrome_message(s, m)),
        _ => None,
    }
}

/// What the host does on a message from the navigation bar: the command it
/// passes to the page view, and the status update it sends back.
pub struct ChromeReaction {
    pub command: Option<ChromeCommand>,
    pub update: Option<String>,
}

impl BrowserState {
    /// The state of a browser that has just opened its window.
    pub fn new() -> (s: Self)
        ensures
            s@ == initial_model(),
    {
        let title = String::from_str("J1");
        BrowserState {
            content_url: String::new(),
            content_title: title,
            content_loading: false,
            chrome_attached: false,
            content_attached: false,
        }
    }

    /// The navigation bar's view now exists.
    pub fn attach_chrome(&mut self)
        ensures
            final(self)@ == (BrowserModel { chrome_attached: true, ..old(self)@ }),
    {
        self.chrome_attached = true;
    }

    /// The page's view now exists.
    pub fn attach_content(&mut self)
        ensures
            final(self)@ == (BrowserModel { content_attached: true, ..old(self)@ }),
    {
        self.content_attached = true;
    }

    /// The status update for the navigation bar, if its view exists.
    pub fn status_update(&self) -> (m: Option<String>)
        ensures
            m.deep_view() == status_update(self@),
    {
        if self.chrome_attached {
            Some(update_json_text(self.content_url.as_str(), self.content_title.as_str(), self.content_loading))
        } else {
            None
        }
    }

    /// The page view started to load `uri`; returns the status update to send.
    pub fn on_navigation_starting(&mut self, uri: String) -> (m: Option<String>)
        ensures
            final(self)@ == after_navigation_starting(old(self)@, uri@),
            m.deep_view() == status_update(final(self)@),
            final(self).content_url@ == uri@,
            final(self).content_loading,
            final(self).content_title@ == old(self).content_title@,
            m.deep_view() == (if old(self).chrome_attached {
                Some(update_json(uri@, old(self).content_title@, true))
            } else {
                None
            }),
    {
        self.content_url = uri;
        self.content_loading = true;
        self.status_update()
    }

    /// The page view finished loading; returns the status update to send.
    pub fn on_navigation_completed(&mut self) -> (m: Option<String>)
        ensures
            final(self)@ == after_navigation_completed(old(self)@),
            m.deep_view() == status_update(final(self)@),
            !final(self).content_loading,
            final(self).content_url@ == old(self).content_url@,
            final(self).content_title@ == old(self).content_title@,
            m.deep_view() == (if old(self).chrome_attached {
                Some(update_json(old(self).content_url@, old(self).content_title@, false))
            } else {
                None
            }),
    {
        self.content_loading = false;
        self.status_update()
    }

    /// The page's title changed to `title`; returns the status update to send.
    pub fn on_title_changed(&mut self, title: String) -> (m: Option<String>)
        ensures
            final(self)@ == after_title_changed(old(self)@, title@),
            m.deep_view() == status_update(final(self)@),
            final(self).content_title@ == title@,
            final(self).content_url@ == old(self).content_url@,
            final(self).content_loading == old(self).content_loading,
            m.deep_view() == (if old(self).chrome_attached {
                Some(update_json(old(self).content_url@, title@, old(self).content_loading))
            } else {
                None
            }),
    {
        self.content_title = title;
        self.status_update()
    }

    /// Handles a message that the navigation bar posted, in the JSON form in
    /// which the page view hands it over or as plain text: decides the command
    /// for the page view, records a requested address, and returns the
    /// status update to send back.
    pub fn on_chrome_message(&mut self, json: &str) -> (r: ChromeReaction)
        ensures
            final(self)@ == after_chrome_message(old(self)@, json@),
            match r.command {
                Some(c) => forwarded_request(old(self)@, json@) == Some(c@),
                None => forwarded_request(old(self)@, json@) is None,
            },
            r.update.deep_view() == chrome_message_update(old(self)@, json@),
            match r.command {
                Some(ChromeCommand::Navigate(u)) => {
                    &&& final(self).content_url@ == u@
                    &&& final(self).content_loading
                    &&& final(self).content_title@ == old(self).content_title@
                    &&& r.update.deep_view() == (if old(self).chrome_attached {
                        Some(update_json(u@, old(self).content_title@, true))
                    } else {
                        None
                    })
                },
                _ => final(self)@ == old(self)@ && r.update is None,
            },
    {
        if !self.content_attached {
            return ChromeReaction { command: None, update: None };
        }
        let posted = match read_json_string(json) {
            Some(t) => parse_chrome_message(t.as_str()),
            None => None,
        };
        let command = match posted {
            Some(c) => Some(c),
            None => parse_chrome_message(json),
        };
        match command {
            Some(ChromeCommand::Navigate(u)) => {
                let target = u.clone();
                self.content_url = u;
                self.content_loading = true;
                let update = self.status_update();
                ChromeReaction { command: Some(ChromeCommand::Navigate(target)), update }
            },
            other => ChromeReaction { command: other, update: None },
        }
    }
}

/// A text that the navigation bar posts to name a command (one whose only
/// control characters are line feed, carriage return and tab) reaches the
/// host as a JSON string literal, and is read as the command that the text
/// itself names.
pub proof fn lemma_posted_text_is_read(s: BrowserModel, t: Seq<char>)
    requires
        s.content_attached,
        forall|i: int| 0 <= i < t.len() ==> json_safe_char(#[trigger] t[i]),
        parse_request(t) is Some,
    ensures
        forwarded_request(s, json_literal(t)) == parse_request(t),
{
    lemma_escaped_literal(t);
}

/// A message that is not a JSON string literal is read as the command that
/// its text names as it stands.
pub proof fn lemma_plain_text_is_read(s: BrowserModel, m: Seq<char>)
    requires
        s.content_attached,
        read_json_literal(m) is None,
    ensures
        forwarded_request(s, m) == parse_request(m),
{
}

/// An address typed into the navigation bar (one that JSON writes as it is)
/// reaches the page view as a navigation to that address, whether the
/// message comes in JSON form or as the posted text itself; the state records
/// it as the page's address with loading started, and the bar is sent that
/// state.
pub proof fn lemma_typed_address_navigates(s: BrowserModel, u: Seq<char>)
    requires
        s.content_attached,
        !u.contains('"'),
        forall|i: int| 0 <= i < u.len() ==> json_safe_char(#[trigger] u[i]),
    ensures
        forwarded_request(s, json_literal(navigate_message(u))) == Some(Request::Navigate(u)),
        forwarded_request(s, navigate_message(u)) == Some(Request::Navigate(u)),
        after_chrome_message(s, json_literal(navigate_message(u))) == after_navigation_starting(s, u),
        chrome_message_update(s, json_literal(navigate_message(u))) == status_update(
            after_navigation_starting(s, u),
        ),
{
    reveal_strlit("{\"cmd\":\"navigate\",\"url\":\"");
    reveal_strlit("\"}");
    let t = navigate_message(u);
    let pre: Seq<char> = "{\"cmd\":\"navigate\",\"url\":\""@;
    let suf: Seq<char> = "\"}"@;
    assert(pre =~= seq!['{', '"', 'c', 'm', 'd', '"', ':', '"', 'n', 'a', 'v', 'i', 'g', 'a', 't', 'e', '"', ',', '"', 'u', 'r', 'l', '"', ':', '"']);
    assert(suf =~= seq!['"', '}']);
    assert forall|i: int| 0 <= i < t.len() implies json_safe_char(#[trigger] t[i]) by {
        if i < 25 {
            assert(t[i] == pre[i]);
        } else if i < 25 + u.len() {
            assert(t[i] == u[i - 25]);
        } else {
            assert(t[i] == suf[i - 25 - u.len()]);
        }
    }
    lemma_navigate_roundtrip(u);
    lemma_posted_text_is_read(s, t);
    assert(t[0] == '{');
}

/// A word of lower-case ASCII letters is its own escaped text and holds no
/// control character.
proof fn lemma_plain_word(w: Seq<char>)
    requires
        forall|i: int| 0 <= i < w.len() ==> 'a' <= #[trigger] w[i] && w[i] <= 'z',
    ensures
        escape_seq(w) == w,
        forall|i: int| 0 <= i < w.len() ==> json_safe_char(#[trigger] w[i]),
{
    lemma_escape_plain(w);
}

/// The members that the status update for `s` carries, in order: `t` is
/// `"u"`, `url` the page's address, `title` its title, and `loading` whether
/// it is loading.
pub open spec fn status_members(s: BrowserModel) -> Seq<(Seq<char>, JsonValue)> {
    seq![
        ("t"@, JsonValue::Str("u"@)),
        ("url"@, JsonValue::Str(s.url)),
        ("title"@, JsonValue::Str(s.title)),
        ("loading"@, JsonValue::Bool(s.loading)),
    ]
}

/// Once the navigation bar's view exists, the status update is sent, and
/// read as JSON it is an object with exactly the members `t`, `url`, `title`
/// and `loading`, carrying `"u"`, the page's address, its title and whether
/// it is loading (where neither address nor title holds a control character
/// other than line feed, carriage return and tab).
#[verifier::rlimit(60)]
pub proof fn lemma_status_update_reads_back(s: BrowserModel)
    requires
        s.chrome_attached,
        forall|i: int| 0 <= i < s.url.len() ==> json_safe_char(#[trigger] s.url[i]),
        forall|i: int| 0 <= i < s.title.len() ==> json_safe_char(#[trigger] s.title[i]),
    ensures
        status_update(s) matches Some(text) && read_object(text) == Some(status_members(s)),
{
    reveal_strlit("{\"t\":\"u\",\"url\":\"");
    reveal_strlit("\",\"title\":\"");
    reveal_strlit("\",\"loading\":");
    reveal_strlit("}");
    reveal_strlit("t");
    reveal_strlit("u");
    reveal_strlit("url");
    reveal_strlit("title");
    reveal_strlit("loading");
    let kt: Seq<char> = "t"@;
    let ku: Seq<char> = "u"@;
    let kurl: Seq<char> = "url"@;
    let ktitle: Seq<char> = "title"@;
    let kload: Seq<char> = "loading"@;
    assert(kt =~= seq!['t']);
    assert(ku =~= seq!['u']);
    assert(kurl =~= seq!['u', 'r', 'l']);
    assert(ktitle =~= seq!['t', 'i', 't', 'l', 'e']);
    assert(kload =~= seq!['l', 'o', 'a', 'd', 'i', 'n', 'g']);
    lemma_plain_word(kt);
    lemma_plain_word(ku);
    lemma_plain_word(kurl);
    lemma_plain_word(ktitle);
    lemma_plain_word(kload);
    let b: Seq<char> = if s.loading { "true"@ } else { "false"@ };
    let eu = escape_seq(s.url);
    let et = escape_seq(s.title);
    let m1 = json_literal(kt) + seq![':'] + json_literal(ku);
    let m2 = json_literal(kurl) + seq![':'] + json_literal(s.url);
    let m3 = json_literal(ktitle) + seq![':'] + json_literal(s.title);
    let m4 = json_literal(kload) + seq![':'] + b;
    let tail4 = seq!['}'];
    let tail3 = seq![','] + m4 + tail4;
    let tail2 = seq![','] + m3 + tail3;
    let tail1 = seq![','] + m2 + tail2;
    let x = update_json(s.url, s.title, s.loading);
    assert("{\"t\":\"u\",\"url\":\""@ =~= seq!['{'] + m1 + seq![','] + json_literal(kurl) + seq![':', '"']);
    assert("\",\"title\":\""@ =~= seq!['"', ','] + json_literal(ktitle) + seq![':', '"']);
    assert("\",\"loading\":"@ =~= seq!['"', ','] + json_literal(kload) + seq![':']);
    assert(x =~= seq!['{'] + (m1 + tail1));
    let i1: int = 1;
    let i2: int = i1 + m1.len() + 1;
    let i3: int = i2 + m2.len() + 1;
    let i4: int = i3 + m3.len() + 1;
    assert(x.skip(i1) =~= json_literal(kt) + seq![':'] + json_literal(ku) + tail1);
    assert(x.skip(i2) =~= json_literal(kurl) + seq![':'] + json_literal(s.url) + tail2);
    assert(x.skip(i3) =~= json_literal(ktitle) + seq![':'] + json_literal(s.title) + tail3);
    assert(x.skip(i4) =~= json_literal(kload) + seq![':'] + b + tail4);
    lemma_read_string_value(ku, tail1);
    lemma_read_string_value(s.url, tail2);
    lemma_read_string_value(s.title, tail3);
    lemma_read_bool_value(s.loading, tail4);
    lemma_read_member(x, i4, kload, JsonValue::Bool(s.loading), b, tail4);
    lemma_read_member(x, i3, ktitle, JsonValue::Str(s.title), json_literal(s.title), tail3);
    lemma_read_member(x, i2, kurl, JsonValue::Str(s.url), json_literal(s.url), tail2);
    lemma_read_member(x, i1, kt, JsonValue::Str(ku), json_literal(ku), tail1);
    assert(x[0] == '{');
    assert(x.len() != 2);
    assert(seq![(kt, JsonValue::Str(ku))] + (seq![(kurl, JsonValue::Str(s.url))] + (seq![
        (ktitle, JsonValue::Str(s.title)),
    ] + seq![(kload, JsonValue::Bool(s.loading))])) =~= status_members(s));
}

/// Whatever address was recorded and whether or not a page was loading, a
/// navigation that starts records its address and starts loading; the title
/// and the views stay, and the status update carries the new address with
/// the old title and `loading` true.
pub proof fn lemma_navigation_start_records_address(s: BrowserModel, uri: Seq<char>)
    ensures
        after_navigation_starting(s, uri).url == uri,
        after_navigation_starting(s, uri).loading,
        after_navigation_starting(s, uri).title == s.title,
        after_navigation_starting(s, uri).chrome_attached == s.chrome_attached,
        after_navigation_starting(s, uri).content_attached == s.content_attached,
        s.chrome_attached ==> status_update(after_navigation_starting(s, uri)) == Some(
            update_json(uri, s.title, true),
        ),
{
}

/// Whatever the state, a finished navigation leaves the page not loading,
/// with its address, title and views unchanged; the status update says so.
pub proof fn lemma_navigation_completed_stops_loading(s: BrowserModel)
    ensures
        !after_navigation_completed(s).loading,
        after_navigation_completed(s).url == s.url,
        after_navigation_completed(s).title == s.title,
        after_navigation_completed(s).chrome_attached == s.chrome_attached,
        after_navigation_completed(s).content_attached == s.content_attached,
        s.chrome_attached ==> status_update(after_navigation_completed(s)) == Some(
            update_json(s.url, s.title, false),
        ),
{
}

/// Whether or not the page is loading, a title change records the new title
/// and keeps the address, the loading state and the views; the status update
/// carries the new title.
pub proof fn lemma_title_change_records_title(s: BrowserModel, t: Seq<char>)
    ensures
        after_title_changed(s, t).title == t,
        after_title_changed(s, t).url == s.url,
        after_title_changed(s, t).loading == s.loading,
        after_title_changed(s, t).chrome_attached == s.chrome_attached,
        after_title_changed(s, t).content_attached == s.content_attached,
        s.chrome_attached ==> status_update(after_title_changed(s, t)) == Some(
            update_json(s.url, t, s.loading),
        ),
{
}

/// Whatever the state before, a navigation request that is passed on records
/// the requested address and starts loading, keeping the title and views;
/// the status update carries the new address. Any other message leaves the
/// state as it was and sends no update.
pub proof fn lemma_chrome_request_effect(s: BrowserModel, m: Seq<char>)
    ensures
        forwarded_request(s, m) matches Some(Request::Navigate(u)) ==> {
            &&& after_chrome_message(s, m).url == u
            &&& after_chrome_message(s, m).loading
            &&& after_chrome_message(s, m).title == s.title
            &&& after_chrome_message(s, m).chrome_attached == s.chrome_attached
            &&& after_chrome_message(s, m).content_attached == s.content_attached
            &&& chrome_message_update(s, m) == (if s.chrome_attached {
                Some(update_json(u, s.title, true))
            } else {
                None
            })
        },
        !(forwarded_request(s, m) matches Some(Request::Navigate(_))) ==> after_chrome_message(s, m)
            == s && chrome_message_update(s, m) is None,
{
}

/// Two consecutive navigations: the second address is the one recorded,
/// whatever the first was, and the page is loading.
pub proof fn lemma_later_navigation_wins(s: BrowserModel, u1: Seq<char>, u2: Seq<char>)
    ensures
        after_navigation_starting(after_navigation_starting(s, u1), u2).url == u2,
        after_navigation_starting(after_navigation_starting(s, u1), u2).loading,
        after_navigation_completed(after_navigation_starting(s, u1)).url == u1,
        !after_navigation_completed(after_navigation_starting(s, u1)).loading,
{
}

} // verus!
