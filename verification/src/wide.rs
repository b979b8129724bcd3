use vstd::prelude::*;

verus! {

/// The UTF-16 code units of one character: one unit below U+10000, else a
/// high surrogate then a low surrogate.
pub open spec fn utf16_units(c: char) -> Seq<u16> {
    let v: int = c as int;
    if v < 0x10000 {
        seq![v as u16]
    } else {
        let w: int = v - 0x10000;
        seq![(0xD800 + w / 0x400) as u16, (0xDC00 + w % 0x400) as u16]
    }
}

/// The UTF-16 encoding of a character sequence.
pub open spec fn encode_utf16(s: Seq<char>) -> Seq<u16>
    decreases s.len(),
{
    if s.len() == 0 {
        Seq::empty()
    } else {
        utf16_units(s[0]) + encode_utf16(s.drop_first())
    }
}

/// Decodes UTF-16 code units; `None` on an unpaired surrogate.
pub open spec fn decode_utf16(u: Seq<u16>) -> Option<Seq<char>>
    decreases u.len(),
{
    if u.len() == 0 {
        Some(Seq::empty())
    } else if 0xD800 <= u[0] < 0xDC00 {
        if u.len() >= 2 && 0xDC00 <= u[1] < 0xE000 {
            let cp: int = 0x10000 + (u[0] - 0xD800) * 0x400 + (u[1] - 0xDC00);
            match decode_utf16(u.skip(2)) {
                Some(rest) => Some(seq![cp as char] + rest),
                None => None,
            }
        } else {
            None
        }
    } else if 0xDC00 <= u[0] < 0xE000 {
        None
    } else {
        match decode_utf16(u.drop_first()) {
            Some(rest) => Some(seq![u[0] as char] + rest),
            None => None,
        }
    }
}

/// The range of a character's scalar value.
proof fn lemma_char_range(c: char)
    ensures
        0 <= (c as int) < 0x110000,
        !(0xD800 <= (c as int) && (c as int) < 0xE000),
        ((c as int) as char) == c,
{
}

/// Encoding distributes over concatenation.
pub proof fn lemma_encode_append(a: Seq<char>, b: Seq<char>)
    ensures
        encode_utf16(a + b) == encode_utf16(a) + encode_utf16(b),
    decreases a.len(),
{
    if a.len() == 0 {
        assert(a + b =~= b);
        assert(encode_utf16(a) + encode_utf16(b) =~= encode_utf16(b));
    } else {
        lemma_encode_append(a.drop_first(), b);
        assert((a + b).drop_first() =~= a.drop_first() + b);
        assert(encode_utf16(a + b) =~= utf16_units(a[0]) + (encode_utf16(a.drop_first())
            + encode_utf16(b)));
    }
}

/// Decoding the UTF-16 encoding of any text gives the text back.
pub proof fn lemma_utf16_roundtrip(s: Seq<char>)
    ensures
        decode_utf16(encode_utf16(s)) == Some(s),
    decreases s.len(),
{
    if s.len() > 0 {
        let rest = s.drop_first();
        lemma_utf16_roundtrip(rest);
        let c = s[0];
        lemma_char_range(c);
        let e = encode_utf16(s);
        assert(e == utf16_units(c) + encode_utf16(rest));
        let v: int = c as int;
        if v < 0x10000 {
            assert(e.drop_first() =~= encode_utf16(rest));
            assert(utf16_units(c)[0] as int == v);
            assert(e[0] == utf16_units(c)[0]);
            assert(!(0xD800 <= (c as int) && (c as int) < 0xE000));
            assert((v as char) == c);
        } else {
            let w: int = v - 0x10000;
            assert(e.skip(2) =~= encode_utf16(rest));
            assert(utf16_units(c)[0] as int == 0xD800 + w / 0x400);
            assert(utf16_units(c)[1] as int == 0xDC00 + w % 0x400);
            assert(e[0] == utf16_units(c)[0]);
            assert(e[1] == utf16_units(c)[1]);
            assert(0x10000 + (w / 0x400) * 0x400 + w % 0x400 == v);
            assert((v as char) == c);
        }
        assert(seq![c] + rest =~= s);
    }
}

/// Without a NUL character in the text, no code unit of its encoding is zero.
pub proof fn lemma_encode_no_zero(s: Seq<char>)
    requires
        !s.contains('\0'),
    ensures
        !encode_utf16(s).contains(0u16),
    decreases s.len(),
{
    if s.len() > 0 {
        let rest = s.drop_first();
        assert(!rest.contains('\0')) by {
            if rest.contains('\0') {
                let i: int = choose|i: int| 0 <= i < rest.len() && rest[i] == '\0';
                assert(s[i + 1] == '\0');
            }
        }
        lemma_encode_no_zero(rest);
        let e = encode_utf16(s);
        let head = utf16_units(s[0]);
        assert(s[0] != '\0');
        lemma_char_range(s[0]);
        assert(e == head + encode_utf16(rest));
        if e.contains(0u16) {
            let i: int = choose|i: int| 0 <= i < e.len() && e[i] == 0u16;
            if i >= head.len() {
                assert(encode_utf16(rest)[i - head.len()] == 0u16);
                assert(encode_utf16(rest).contains(0u16));
            } else {
                assert(e[i] == head[i]);
                if (s[0] as int) < 0x10000 {
                    assert(head[0] as int == s[0] as int);
                } else {
                    assert(head[0] as int >= 0xD800);
                    assert(head[1] as int >= 0xDC00);
                }
                assert(head[i] != 0u16);
            }
        }
    }
}

/// The UTF-16 encoding of `s` followed by a zero unit, the form in which the
/// platform takes a wide string. Where `s` holds no NUL character, the final
/// unit is the only zero, so a reader of the wide string sees all of `s`.
pub fn widen(s: &str) -> (res: Vec<u16>)
    ensures
        res@ == encode_utf16(s@).push(0u16),
        decode_utf16(res@.drop_last()) == Some(s@),
        !s@.contains('\0') ==> forall|i: int| 0 <= i < res@.len() - 1 ==> res@[i] != 0u16,
{
    let mut out: Vec<u16> = Vec::new();
    for c in it: s.chars()
        invariant
            it.seq() == s@,
            out@ == encode_utf16(s@.take(it.index())),
    {
        proof {
            let i: int = it.index();
            lemma_char_range(c);
            lemma_encode_append(s@.take(i), seq![c]);
            assert(s@.take(i + 1) =~= s@.take(i) + seq![c]);
            assert(encode_utf16(seq![c]) =~= utf16_units(c)) by {
                assert(seq![c].drop_first() =~= Seq::<char>::empty());
                assert(encode_utf16(Seq::<char>::empty()) =~= Seq::<u16>::empty());
                assert(utf16_units(c) + Seq::<u16>::empty() =~= utf16_units(c));
            }
        }
        let v: u32 = c as u32;
        if v < 0x10000 {
            out.push(v as u16);
        } else {
            let w: u32 = v - 0x10000;
            out.push((0xD800 + w / 0x400) as u16);
            out.push((0xDC00 + w % 0x400) as u16);
        }
        proof {
            assert(out@ =~= encode_utf16(s@.take(it.index() + 1)));
        }
    }
    proof {
        assert(s@.take(s@.len() as int) =~= s@);
    }
    out.push(0);
    proof {
        assert(out@.drop_last() =~= encode_utf16(s@));
        lemma_utf16_roundtrip(s@);
        if !s@.contains('\0') {
            lemma_encode_no_zero(s@);
            assert forall|i: int| 0 <= i < out@.len() - 1 implies out@[i] != 0u16 by {
                assert(out@[i] == encode_utf16(s@)[i]);
            }
        }
    }
    out
}

} // verus!
