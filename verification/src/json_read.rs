use vstd::prelude::*;

use crate::json_text::{chars_of, escape_char, escape_seq};

verus! {

/// `core::char::from_u32` of std: its documentation says it gives the
/// character with scalar value `i` when `i` is one (below U+D800, or from
/// U+E000 to U+10FFFF), and `None` otherwise; this contract claims that.
pub assume_specification[ core::char::from_u32 ](i: u32) -> (r: Option<char>)
    ensures
        r == (if i < 0xD800 || (0xE000 <= i && i <= 0x10FFFF) {
            Some(i as char)
        } else {
            None
        }),
;

/// The character that a one-letter JSON escape `\x` stands for.
pub open spec fn json_escape_target(c: char) -> Option<char> {
    if c == '\\' {
        Some('\\')
    } else if c == '"' {
        Some('"')
    } else if c == '/' {
        Some('/')
    } else if c == 'b' {
        Some('\x08')
    } else if c == 'f' {
        Some('\x0c')
    } else if c == 'n' {
        Some('\n')
    } else if c == 'r' {
        Some('\r')
    } else if c == 't' {
        Some('\t')
    } else {
        None
    }
}

/// A character that `escape_json` leaves valid inside a JSON string: anything
/// but the control characters other than line feed, carriage return and tab.
pub open spec fn json_safe_char(c: char) -> bool {
    c == '\n' || c == '\r' || c == '\t' || (c as u32) >= 0x20
}

/// The value of a hexadecimal digit.
pub open spec fn hex_digit(c: char) -> Option<int> {
    if '0' <= c && c <= '9' {
        Some(c as int - '0' as int)
    } else if 'a' <= c && c <= 'f' {
        Some(c as int - 'a' as int + 10)
    } else if 'A' <= c && c <= 'F' {
        Some(c as int - 'A' as int + 10)
    } else {
        None
    }
}

/// The value of the four hexadecimal digits `s[i..i + 4]`.
pub open spec fn hex4(s: Seq<char>, i: int) -> Option<int> {
    if 0 <= i && i + 4 <= s.len() {
        match (hex_digit(s[i]), hex_digit(s[i + 1]), hex_digit(s[i + 2]), hex_digit(s[i + 3])) {
            (Some(a), Some(b), Some(c), Some(d)) => Some(a * 0x1000 + b * 0x100 + c * 0x10 + d),
            _ => None,
        }
    } else {
        None
    }
}

/// The character that a `\uXXXX` escape at the start of `s` stands for, and
/// how many characters the escape takes: six, or twelve for a surrogate pair
/// `\uD8xx\uDCxx`. `None` for bad digits or an unpaired surrogate.
pub open spec fn unicode_escape(s: Seq<char>) -> Option<(char, nat)> {
    match hex4(s, 2) {
        None => None,
        Some(v) => if 0xD800 <= v && v < 0xDC00 {
            if s.len() >= 12 && s[6] == '\\' && s[7] == 'u' {
                match hex4(s, 8) {
                    Some(w) => if 0xDC00 <= w && w < 0xE000 {
                        Some(((0x10000 + (v - 0xD800) * 0x400 + (w - 0xDC00)) as char, 12nat))
                    } else {
                        None
                    },
                    None => None,
                }
            } else {
                None
            }
        } else if 0xDC00 <= v && v < 0xE000 {
            None
        } else {
            Some((v as char, 6nat))
        },
    }
}

/// Reads the body of a JSON string up to its closing quote: the characters it
/// stands for and how many characters were read, the closing quote included.
/// `None` where no closing quote comes, or where a bare control character or
/// a bad escape stands before it.
pub open spec fn read_string(s: Seq<char>) -> Option<(Seq<char>, nat)>
    decreases s.len(),
{
    if s.len() == 0 {
        None
    } else if s[0] == '"' {
        Some((Seq::empty(), 1nat))
    } else if s[0] == '\\' {
        if s.len() < 2 {
            None
        } else if s[1] == 'u' {
            match unicode_escape(s) {
                Some((c, k)) => match read_string(s.skip(k as int)) {
                    Some((r, n)) => Some((seq![c] + r, k + n)),
                    None => None,
                },
                None => None,
            }
        } else {
            match json_escape_target(s[1]) {
                Some(c) => match read_string(s.skip(2)) {
                    Some((r, n)) => Some((seq![c] + r, n + 2)),
                    None => None,
                },
                None => None,
            }
        }
    } else if (s[0] as u32) < 0x20 {
        None
    } else {
        match read_string(s.skip(1)) {
            Some((r, n)) => Some((seq![s[0]] + r, n + 1)),
            None => None,
        }
    }
}

/// The text that a JSON string literal stands for, where `s` is exactly one
/// such literal.
pub open spec fn read_json_literal(s: Seq<char>) -> Option<Seq<char>> {
    if s.len() >= 1 && s[0] == '"' {
        match read_string(s.skip(1)) {
            Some((x, n)) => if n == s.len() - 1 {
                Some(x)
            } else {
                None
            },
            None => None,
        }
    } else {
        None
    }
}

/// The escaped text of `x` followed by a closing quote reads back as `x`,
/// whatever comes after, for every text whose only control characters are
/// line feed, carriage return and tab.
pub proof fn lemma_read_escaped(x: Seq<char>, rest: Seq<char>)
    requires
        forall|i: int| 0 <= i < x.len() ==> json_safe_char(#[trigger] x[i]),
    ensures
        read_string(escape_seq(x) + seq!['"'] + rest) == Some((x, (escape_seq(x).len() + 1) as nat)),
    decreases x.len(),
{
    let s = escape_seq(x) + seq!['"'] + rest;
    if x.len() == 0 {
        assert(escape_seq(x) =~= Seq::<char>::empty());
        assert(s[0] == '"');
        assert(x =~= Seq::<char>::empty());
    } else {
        let tail = x.drop_first();
        assert forall|i: int| 0 <= i < tail.len() implies json_safe_char(#[trigger] tail[i]) by {
            assert(tail[i] == x[i + 1]);
        }
        lemma_read_escaped(tail, rest);
        let c = x[0];
        assert(json_safe_char(x[0]));
        assert(escape_seq(x) == escape_char(c) + escape_seq(tail));
        assert(seq![c] + tail =~= x);
        if c == '\\' || c == '"' || c == '\n' || c == '\r' || c == '\t' {
            assert(s.skip(2) =~= escape_seq(tail) + seq!['"'] + rest);
            assert(s[0] == '\\');
            assert(s[1] == escape_char(c)[1]);
        } else {
            assert(s.skip(1) =~= escape_seq(tail) + seq!['"'] + rest);
            assert(s[0] == c);
        }
    }
}

/// The JSON string literal for `x`, written the way `escape_json` writes it.
pub open spec fn json_literal(x: Seq<char>) -> Seq<char> {
    seq!['"'] + escape_seq(x) + seq!['"']
}

/// The JSON string literal that `escape_json` makes of `x` reads back as `x`,
/// for every text whose only control characters are line feed, carriage
/// return and tab.
pub proof fn lemma_escaped_literal(x: Seq<char>)
    requires
        forall|i: int| 0 <= i < x.len() ==> json_safe_char(#[trigger] x[i]),
    ensures
        read_json_literal(json_literal(x)) == Some(x),
{
    let s = json_literal(x);
    lemma_read_escaped(x, Seq::empty());
    assert(s.skip(1) =~= escape_seq(x) + seq!['"'] + Seq::<char>::empty());
}

/// The value of the hexadecimal digit `c`.
fn hex_digit_value(c: char) -> (r: Option<u32>)
    ensures
        match r {
            Some(v) => hex_digit(c) == Some(v as int),
            None => hex_digit(c) is None,
        },
{
    if '0' <= c && c <= '9' {
        Some(c as u32 - '0' as u32)
    } else if 'a' <= c && c <= 'f' {
        Some(c as u32 - 'a' as u32 + 10)
    } else if 'A' <= c && c <= 'F' {
        Some(c as u32 - 'A' as u32 + 10)
    } else {
        None
    }
}

/// The value of the four hexadecimal digits `m[i..i + 4]`.
fn read_hex4(m: &Vec<char>, i: usize) -> (r: Option<u32>)
    requires
        i + 4 <= m.len(),
    ensures
        match r {
            Some(v) => hex4(m@, i as int) == Some(v as int) && v < 0x10000,
            None => hex4(m@, i as int) is None,
        },
{
    let a = hex_digit_value(m[i]);
    let b = hex_digit_value(m[i + 1]);
    let c = hex_digit_value(m[i + 2]);
    let d = hex_digit_value(m[i + 3]);
    match (a, b, c, d) {
        (Some(a), Some(b), Some(c), Some(d)) => {
            assert(a < 16 && b < 16 && c < 16 && d < 16);
            Some(a * 0x1000 + b * 0x100 + c * 0x10 + d)
        },
        _ => None,
    }
}

/// The character that the `\u` escape at `m[i]` stands for, and its length.
fn read_unicode_escape(m: &Vec<char>, i: usize) -> (r: Option<(char, usize)>)
    requires
        i + 2 <= m.len(),
    ensures
        match r {
            Some((c, k)) => unicode_escape(m@.skip(i as int)) == Some((c, k as nat)),
            None => unicode_escape(m@.skip(i as int)) is None,
        },
{
    let ghost s = m@.skip(i as int);
    if m.len() - i < 6 {
        assert(hex4(s, 2) is None);
        return None;
    }
    assert(forall|k: int| 0 <= k < s.len() ==> s[k] == m@[i + k]);
    let v = match read_hex4(m, i + 2) {
        Some(v) => v,
        None => {
            assert(hex4(s, 2) == hex4(m@, i + 2));
            return None;
        },
    };
    assert(hex4(s, 2) == hex4(m@, i + 2));
    if 0xD800 <= v && v < 0xDC00 {
        if m.len() - i >= 12 && m[i + 6] == '\\' && m[i + 7] == 'u' {
            match read_hex4(m, i + 8) {
                Some(w) => {
                    assert(hex4(s, 8) == hex4(m@, i + 8));
                    if 0xDC00 <= w && w < 0xE000 {
                        let cp: u32 = 0x10000 + (v - 0xD800) * 0x400 + (w - 0xDC00);
                        match core::char::from_u32(cp) {
                            Some(c) => Some((c, 12)),
                            None => None,
                        }
                    } else {
                        None
                    }
                },
                None => {
                    assert(hex4(s, 8) == hex4(m@, i + 8));
                    None
                },
            }
        } else {
            None
        }
    } else if 0xDC00 <= v && v < 0xE000 {
        None
    } else {
        match core::char::from_u32(v) {
            Some(c) => Some((c, 6)),
            None => None,
        }
    }
}

/// A JSON value of the kinds that the status update holds.
pub enum JsonValue {
    Str(Seq<char>),
    Bool(bool),
}

/// Reads a JSON string or boolean at the start of `s`: the value and how
/// many characters it takes.
pub open spec fn read_value(s: Seq<char>) -> Option<(JsonValue, nat)> {
    if s.len() >= 1 && s[0] == '"' {
        match read_string(s.skip(1)) {
            Some((x, n)) => Some((JsonValue::Str(x), n + 1)),
            None => None,
        }
    } else if s.len() >= 4 && s.take(4) == "true"@ {
        Some((JsonValue::Bool(true), 4nat))
    } else if s.len() >= 5 && s.take(5) == "false"@ {
        Some((JsonValue::Bool(false), 5nat))
    } else {
        None
    }
}

/// Reads the members of a JSON object from index `i` of `s` on, each
/// `"key":value` in order, up to the closing brace that ends `s`.
#[verifier::opaque]
pub open spec fn read_members(s: Seq<char>, i: int) -> Option<Seq<(Seq<char>, JsonValue)>>
    decreases s.len() - i,
{
    if 0 <= i < s.len() && s[i] == '"' {
        match read_string(s.skip(i + 1)) {
            Some((k, n)) => {
                let j = i + 1 + n;
                if j < s.len() && s[j] == ':' {
                    match read_value(s.skip(j + 1)) {
                        Some((v, m)) => {
                            let e = j + 1 + m;
                            if e + 1 == s.len() && s[e] == '}' {
                                Some(seq![(k, v)])
                            } else if e < s.len() && s[e] == ',' {
                                match read_members(s, e + 1) {
                                    Some(rest) => Some(seq![(k, v)] + rest),
                                    None => None,
                                }
                            } else {
                                None
                            }
                        },
                        None => None,
                    }
                } else {
                    None
                }
            },
            None => None,
        }
    } else {
        None
    }
}

/// Reads all of `s` as one JSON object written without whitespace between
/// its tokens, whose values are strings or booleans: its members, in order.
pub open spec fn read_object(s: Seq<char>) -> Option<Seq<(Seq<char>, JsonValue)>> {
    if s.len() == 2 && s[0] == '{' && s[1] == '}' {
        Some(Seq::empty())
    } else if s.len() >= 1 && s[0] == '{' {
        read_members(s, 1)
    } else {
        None
    }
}

/// A string value reads back as the text it was written from.
pub proof fn lemma_read_string_value(x: Seq<char>, tail: Seq<char>)
    requires
        forall|i: int| 0 <= i < x.len() ==> json_safe_char(#[trigger] x[i]),
    ensures
        read_value(json_literal(x) + tail) == Some((JsonValue::Str(x), json_literal(x).len())),
{
    let s = json_literal(x) + tail;
    lemma_read_escaped(x, tail);
    assert(s.skip(1) =~= escape_seq(x) + seq!['"'] + tail);
}

/// A boolean value reads back as the boolean it was written from.
pub proof fn lemma_read_bool_value(b: bool, tail: Seq<char>)
    ensures
        read_value((if b { "true"@ } else { "false"@ }) + tail) == Some((
            JsonValue::Bool(b),
            (if b { 4nat } else { 5nat }),
        )),
{
    reveal_strlit("true");
    reveal_strlit("false");
    let w: Seq<char> = if b { "true"@ } else { "false"@ };
    let s = w + tail;
    if b {
        assert(s.take(4) =~= "true"@);
    } else {
        assert(s.take(5) =~= "false"@);
        assert(s.take(4) != "true"@) by {
            assert(s.take(4)[0] != "true"@[0]);
        }
    }
}

/// How `read_members` reads one member whose key, colon, value and the
/// character after the value have been found.
proof fn lemma_members_step(s: Seq<char>, i: int, k: Seq<char>, n: nat, v: JsonValue, m: nat)
    requires
        0 <= i < s.len(),
        s[i] == '"',
        read_string(s.skip(i + 1)) == Some((k, n)),
        i + 1 + n < s.len(),
        s[i + 1 + n] == ':',
        read_value(s.skip(i + 1 + n + 1)) == Some((v, m)),
        i + 1 + n + 1 + m < s.len(),
    ensures
        ({
            let e = i + 1 + n + 1 + m;
            &&& (e + 1 == s.len() && s[e] == '}') ==> read_members(s, i) == Some(seq![(k, v)])
            &&& s[e] == ',' ==> read_members(s, i) == match read_members(s, e + 1) {
                Some(rest) => Some(seq![(k, v)] + rest),
                None => None,
            }
        }),
{
    reveal(read_members);
}

/// One member `"k":v` at index `i` of `s`, followed by the closing brace or
/// by a comma and further members.
#[verifier::rlimit(60)]
pub proof fn lemma_read_member(
    s: Seq<char>,
    i: int,
    k: Seq<char>,
    v: JsonValue,
    vt: Seq<char>,
    tail: Seq<char>,
)
    requires
        0 <= i,
        i <= s.len(),
        s.skip(i) == json_literal(k) + seq![':'] + vt + tail,
        forall|x: int| 0 <= x < k.len() ==> json_safe_char(#[trigger] k[x]),
        read_value(vt + tail) == Some((v, vt.len())),
    ensures
        tail == seq!['}'] ==> read_members(s, i) == Some(seq![(k, v)]),
        tail.len() >= 1 && tail[0] == ',' ==> read_members(s, i) == match read_members(
            s,
            i + json_literal(k).len() + 1 + vt.len() + 1,
        ) {
            Some(rest) => Some(seq![(k, v)] + rest),
            None => None,
        },
{
    let lit = json_literal(k);
    let ek = escape_seq(k);
    let after = seq![':'] + vt + tail;
    lemma_read_escaped(k, after);
    let r = s.skip(i);
    assert(r.len() == s.len() - i);
    assert(r =~= seq!['"'] + (ek + seq!['"'] + after));
    assert(lit.len() == ek.len() + 2);
    assert(s[i] == r[0]);
    let r2 = ek + seq!['"'] + after;
    assert(s.skip(i + 1) =~= r.skip(1));
    assert(r.skip(1) =~= r2);
    let n: nat = (ek.len() + 1) as nat;
    let j = i + 1 + n;
    assert(r2.skip(n as int) =~= after);
    assert(s.skip(j) =~= r2.skip(n as int));
    assert(s[j] == after[0]);
    assert(after.skip(1) =~= vt + tail);
    assert(s.skip(j + 1) =~= after.skip(1));
    if tail.len() >= 1 {
        let e = j + 1 + vt.len();
        assert(s[e] == s.skip(j + 1)[vt.len() as int]);
        assert(s[e] == tail[0]);
        lemma_members_step(s, i, k, n, v, vt.len());
    }
}

/// One step of reading a string body.
enum Step {
    /// The closing quote.
    Close,
    /// A character, written with this many characters of the body.
    Emit(char, usize),
    /// Text that cannot stand in a string body.
    Fail,
}

/// Reads the one character, escape or closing quote at `m[i]`.
fn read_step(m: &Vec<char>, i: usize) -> (st: Step)
    requires
        i < m.len(),
    ensures
        match st {
            Step::Close => read_string(m@.skip(i as int)) == Some((Seq::<char>::empty(), 1nat)),
            Step::Emit(c, k) => 1 <= k && i + k <= m.len() && read_string(m@.skip(i as int))
                == match read_string(m@.skip(i + k)) {
                Some((r, n)) => Some((seq![c] + r, (k + n) as nat)),
                None => None,
            },
            Step::Fail => read_string(m@.skip(i as int)) is None,
        },
{
    let ghost s = m@.skip(i as int);
    assert(s[0] == m@[i as int]);
    let c = m[i];
    if c == '"' {
        Step::Close
    } else if c == '\\' {
        if i + 1 >= m.len() {
            return Step::Fail;
        }
        assert(s[1] == m@[i + 1]);
        let e = m[i + 1];
        if e == 'u' {
            match read_unicode_escape(m, i) {
                Some((ch, k)) => {
                    assert(s.skip(k as int) =~= m@.skip(i + k));
                    Step::Emit(ch, k)
                },
                None => Step::Fail,
            }
        } else {
            let target = if e == '\\' {
                Some('\\')
            } else if e == '"' {
                Some('"')
            } else if e == '/' {
                Some('/')
            } else if e == 'b' {
                Some('\x08')
            } else if e == 'f' {
                Some('\x0c')
            } else if e == 'n' {
                Some('\n')
            } else if e == 'r' {
                Some('\r')
            } else if e == 't' {
                Some('\t')
            } else {
                None
            };
            match target {
                Some(ch) => {
                    assert(s.skip(2) =~= m@.skip(i + 2));
                    Step::Emit(ch, 2)
                },
                None => Step::Fail,
            }
        }
    } else if (c as u32) < 0x20 {
        Step::Fail
    } else {
        assert(s.skip(1) =~= m@.skip(i + 1));
        Step::Emit(c, 1)
    }
}

/// The text that `text` stands for, where `text` is exactly one JSON string
/// literal (as a web view hands over a posted string in its JSON form).
pub fn read_json_string(text: &str) -> (r: Option<String>)
    ensures
        r.deep_view() == read_json_literal(text@),
{
    let m = chars_of(text);
    if m.len() == 0 || m[0] != '"' {
        return None;
    }
    let mut out = String::new();
    let mut i: usize = 1;
    loop
        invariant
            m@ == text@,
            1 <= i <= m@.len(),
            m@[0] == '"',
            read_string(m@.skip(1)) == match read_string(m@.skip(i as int)) {
                Some((r, n)) => Some((out@ + r, (i - 1 + n) as nat)),
                None => None,
            },
        decreases m@.len() - i,
    {
        if i >= m.len() {
            assert(m@.skip(i as int).len() == 0);
            return None;
        }
        match read_step(&m, i) {
            Step::Close => {
                if i + 1 == m.len() {
                    assert(out@ + Seq::<char>::empty() =~= out@);
                    return Some(out);
                } else {
                    return None;
                }
            },
            Step::Emit(ch, k) => {
                proof {
                    match read_string(m@.skip(i + k)) {
                        Some((r, n)) => {
                            assert(out@ + (seq![ch] + r) =~= out@.push(ch) + r);
                        },
                        None => {},
                    }
                }
                out.push(ch);
                i = i + k;
            },
            Step::Fail => {
                return None;
            },
        }
    }
}

} // verus!
