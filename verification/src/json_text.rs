use vstd::prelude::*;

verus! {

/// `String::push` of std: appends the character `ch` at the end of `s`; this
/// contract claims that the string's characters are then those it had before
/// followed by `ch`.
pub assume_specification[ String::push ](s: &mut String, ch: char)
    ensures
        final(s)@ == old(s)@.push(ch),
;

/// The text that stands for one character inside a JSON string literal.
pub open spec fn escape_char(c: char) -> Seq<char> {
    if c == '\\' {
        seq!['\\', '\\']
    } else if c == '"' {
        seq!['\\', '"']
    } else if c == '\n' {
        seq!['\\', 'n']
    } else if c == '\r' {
        seq!['\\', 'r']
    } else if c == '\t' {
        seq!['\\', 't']
    } else {
        seq![c]
    }
}

/// Each character of `s` replaced by its escaped text, in order.
pub open spec fn escape_seq(s: Seq<char>) -> Seq<char>
    decreases s.len(),
{
    if s.len() == 0 {
        Seq::empty()
    } else {
        escape_char(s[0]) + escape_seq(s.drop_first())
    }
}

/// Escaping distributes over concatenation.
pub proof fn lemma_escape_append(a: Seq<char>, b: Seq<char>)
    ensures
        escape_seq(a + b) == escape_seq(a) + escape_seq(b),
    decreases a.len(),
{
    if a.len() == 0 {
        assert(a + b =~= b);
        assert(escape_seq(a) + escape_seq(b) =~= escape_seq(b));
    } else {
        lemma_escape_append(a.drop_first(), b);
        assert((a + b).drop_first() =~= a.drop_first() + b);
        assert(escape_seq(a + b) =~= escape_char(a[0]) + (escape_seq(a.drop_first()) + escape_seq(b)));
    }
}

/// Text without a backslash, double quote, line feed, carriage return or tab
/// is its own escaped text.
pub proof fn lemma_escape_plain(w: Seq<char>)
    requires
        forall|i: int|
            0 <= i < w.len() ==> {
                let c = #[trigger] w[i];
                c != '\\' && c != '"' && c != '\n' && c != '\r' && c != '\t'
            },
    ensures
        escape_seq(w) == w,
    decreases w.len(),
{
    if w.len() == 0 {
        assert(escape_seq(w) =~= w);
    } else {
        let tail = w.drop_first();
        assert forall|i: int| 0 <= i < tail.len() implies {
            let c = #[trigger] tail[i];
            c != '\\' && c != '"' && c != '\n' && c != '\r' && c != '\t'
        } by {
            assert(tail[i] == w[i + 1]);
        }
        lemma_escape_plain(tail);
        let c = w[0];
        assert(c != '\\' && c != '"' && c != '\n' && c != '\r' && c != '\t');
        assert(escape_seq(w) =~= seq![c] + tail);
        assert(seq![c] + tail =~= w);
    }
}

/// Escapes backslash, double quote, line feed, carriage return and tab so
/// that `s` can stand between the quotes of a JSON string literal.
pub fn escape_json(s: &str) -> (res: String)
    ensures
        res@ == escape_seq(s@),
{
    let mut out = String::new();
    for c in it: s.chars()
        invariant
            it.seq() == s@,
            out@ == escape_seq(s@.take(it.index())),
    {
        proof {
            let i: int = it.index();
            lemma_escape_append(s@.take(i), seq![c]);
            assert(s@.take(i + 1) =~= s@.take(i) + seq![c]);
            assert(escape_seq(seq![c]) =~= escape_char(c)) by {
                assert(seq![c].drop_first() =~= Seq::<char>::empty());
                assert(escape_seq(Seq::<char>::empty()) =~= Seq::<char>::empty());
                assert(escape_char(c) + Seq::<char>::empty() =~= escape_char(c));
            }
        }
        if c == '\\' {
            out.push('\\');
            out.push('\\');
        } else if c == '"' {
            out.push('\\');
            out.push('"');
        } else if c == '\n' {
            out.push('\\');
            out.push('n');
        } else if c == '\r' {
            out.push('\\');
            out.push('r');
        } else if c == '\t' {
            out.push('\\');
            out.push('t');
        } else {
            out.push(c);
        }
    }
    proof {
        assert(s@.take(s@.len() as int) =~= s@);
    }
    out
}

/// The characters of `s`, in order.
pub(crate) fn chars_of(s: &str) -> (v: Vec<char>)
    ensures
        v@ == s@,
{
    let mut v: Vec<char> = Vec::new();
    for c in it: s.chars()
        invariant
            it.seq() == s@,
            v@ == s@.take(it.index()),
    {
        proof {
            assert(s@.take(it.index() + 1) =~= s@.take(it.index()).push(c));
        }
        v.push(c);
    }
    proof {
        assert(s@.take(s@.len() as int) =~= s@);
    }
    v
}

} // verus!
