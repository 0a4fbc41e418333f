//! Clipboard text: the NUL-terminated UTF-16 buffers that the Windows clipboard
//! and shell take and give, and what a pasted text adds to the shelf.
use vstd::prelude::*;
use crate::text::{chars_of, chars_start_with, push_char, trim, trim_bounds, string_from_chars};

verus! {

/// The UTF-16 code units of one character.
pub open spec fn utf16_units(c: char) -> Seq<u16> {
    let u = c as u32 as int;
    if u < 0x10000 {
        seq![u as u16]
    } else {
        seq![(0xD800 + (u - 0x10000) / 0x400) as u16, (0xDC00 + (u - 0x10000) % 0x400) as u16]
    }
}

/// The UTF-16 encoding of a text.
pub open spec fn encode_utf16(s: Seq<char>) -> Seq<u16>
    decreases s.len(),
{
    if s.len() == 0 {
        Seq::empty()
    } else {
        encode_utf16(s.drop_last()) + utf16_units(s.last())
    }
}

/// A text as the clipboard and the shell take it: UTF-16 with a terminating 0.
pub open spec fn wide_nul(s: Seq<char>) -> Seq<u16> {
    encode_utf16(s).push(0u16)
}

pub open spec fn is_high_surrogate(u: u16) -> bool {
    0xD800 <= u <= 0xDBFF
}

pub open spec fn is_low_surrogate(u: u16) -> bool {
    0xDC00 <= u <= 0xDFFF
}

/// The character a surrogate pair stands for.
pub open spec fn pair_char(hi: u16, lo: u16) -> char {
    (0x10000 + (hi - 0xD800) * 0x400 + (lo - 0xDC00)) as char
}

/// The replacement character that stands for a surrogate without its pair.
pub open spec fn replacement() -> char {
    '\u{FFFD}'
}

/// UTF-16 decoding that puts the replacement character in place of each surrogate
/// without its pair, as std's `String::from_utf16_lossy` does.
pub open spec fn decode_utf16(u: Seq<u16>) -> Seq<char>
    decreases u.len(),
{
    if u.len() == 0 {
        Seq::empty()
    } else if u.len() >= 2 && is_high_surrogate(u[0]) && is_low_surrogate(u[1]) {
        seq![pair_char(u[0], u[1])] + decode_utf16(u.subrange(2, u.len() as int))
    } else if is_high_surrogate(u[0]) || is_low_surrogate(u[0]) {
        seq![replacement()] + decode_utf16(u.drop_first())
    } else {
        seq![u[0] as char] + decode_utf16(u.drop_first())
    }
}

/// A character is the one its scalar value names.
proof fn lemma_char_of_value(c: char, k: int)
    requires
        k == c as u32,
    ensures
        k as char == c,
{
}

/// std's `char::from_u32`: the character with a scalar value, if there is one.
#[verifier::external_body]
fn char_from_u32(u: u32) -> (r: Option<char>)
    ensures
        r is Some <==> (u <= 0xD7FF || (0xE000 <= u <= 0x10FFFF)),
        r matches Some(c) ==> c as u32 == u,
{
    char::from_u32(u)
}

/// The UTF-16 code units of `s` followed by a terminating 0.
pub fn to_wide_nul(s: &str) -> (r: Vec<u16>)
    ensures
        r@ == wide_nul(s@),
{
    let v = chars_of(s);
    let mut r: Vec<u16> = Vec::new();
    let mut i: usize = 0;
    while i < v.len()
        invariant
            v@ == s@,
            i <= v.len(),
            r@ == encode_utf16(v@.take(i as int)),
        decreases v.len() - i,
    {
        let c = v[i];
        let u = c as u32;
        assert(v@.take(i + 1).drop_last() =~= v@.take(i as int));
        if u < 0x10000 {
            r.push(u as u16);
        } else {
            let w = u - 0x10000;
            r.push((0xD800 + w / 0x400) as u16);
            r.push((0xDC00 + w % 0x400) as u16);
        }
        assert(r@ =~= encode_utf16(v@.take(i + 1)));
        i = i + 1;
    }
    assert(v@.take(v.len() as int) =~= v@);
    r.push(0);
    r
}

/// The text that UTF-16 code units stand for, with a replacement character for
/// each surrogate without its pair.
pub fn decode_utf16_lossy(units: &[u16]) -> (r: String)
    ensures
        r@ == decode_utf16(units@),
{
    let n = units.len();
    let mut r = String::new();
    let mut i: usize = 0;
    assert(units@.subrange(0, n as int) =~= units@);
    while i < n
        invariant
            n == units@.len(),
            i <= n,
            decode_utf16(units@) == r@ + decode_utf16(units@.subrange(i as int, n as int)),
        decreases n - i,
    {
        let ghost rest = units@.subrange(i as int, n as int);
        let u = units[i];
        if i + 1 < n && 0xD800 <= u && u <= 0xDBFF && 0xDC00 <= units[i + 1] && units[i + 1]
            <= 0xDFFF {
            let lo = units[i + 1];
            let code: u32 = 0x10000 + ((u - 0xD800) as u32) * 0x400 + ((lo - 0xDC00) as u32);
            let ghost before = r@;
            match char_from_u32(code) {
                Some(c) => {
                    proof { lemma_char_of_value(c, code as int); }
                    assert(c == pair_char(u, lo));
                    push_char(&mut r, c)
                },
                None => push_char(&mut r, '\u{FFFD}'),
            }
            assert(rest.subrange(2, rest.len() as int) =~= units@.subrange(i + 2, n as int));
            assert(r@ == before.push(pair_char(u, lo)));
            assert(decode_utf16(rest) == seq![pair_char(u, lo)] + decode_utf16(units@.subrange(i + 2, n as int)));
            assert(before + decode_utf16(rest) =~= r@ + decode_utf16(units@.subrange(i + 2, n as int)));
            i = i + 2;
        } else if 0xD800 <= u && u <= 0xDFFF {
            let ghost before = r@;
            push_char(&mut r, '\u{FFFD}');
            assert(rest.drop_first() =~= units@.subrange(i + 1, n as int));
            assert(rest[0] == u);
            assert(i + 1 < n ==> rest[1] == units@[i + 1]);
            assert(decode_utf16(rest) == seq![replacement()] + decode_utf16(rest.drop_first()));
            assert(before + decode_utf16(rest) =~= r@ + decode_utf16(units@.subrange(i + 1, n as int)));
            i = i + 1;
        } else {
            let ghost before = r@;
            match char_from_u32(u as u32) {
                Some(c) => {
                    proof { lemma_char_of_value(c, u as int); }
                    push_char(&mut r, c)
                },
                None => push_char(&mut r, '\u{FFFD}'),
            }
            assert(rest.drop_first() =~= units@.subrange(i + 1, n as int));
            assert(rest[0] == u);
            assert(decode_utf16(rest) == seq![u as char] + decode_utf16(rest.drop_first()));
            assert(before + decode_utf16(rest) =~= r@ + decode_utf16(units@.subrange(i + 1, n as int)));
            i = i + 1;
        }
    }
    r
}

/// A character's scalar value is at most 0x10FFFF and is not a surrogate.
proof fn lemma_char_range(c: char)
    ensures
        c as u32 <= 0x10FFFF,
        !(0xD800 <= c as u32 <= 0xDFFF),
{
}

proof fn lemma_surrogate_parts(u: int)
    requires
        0x10000 <= u <= 0x10FFFF,
    ensures
        0 <= (u - 0x10000) / 0x400 < 0x400,
        0 <= (u - 0x10000) % 0x400 < 0x400,
        0x400 * ((u - 0x10000) / 0x400) + (u - 0x10000) % 0x400 == u - 0x10000,
{
    let w = u - 0x10000;
    assert(0 <= w / 0x400 < 0x400) by (nonlinear_arith)
        requires
            0 <= w < 0x100000,
    ;
    assert(0x400 * (w / 0x400) + w % 0x400 == w) by (nonlinear_arith);
}

proof fn lemma_encode_front(s: Seq<char>)
    requires
        s.len() > 0,
    ensures
        encode_utf16(s) == utf16_units(s[0]) + encode_utf16(s.drop_first()),
    decreases s.len(),
{
    if s.len() == 1 {
        assert(encode_utf16(s.drop_last()) =~= Seq::<u16>::empty());
        assert(encode_utf16(s.drop_first()) =~= Seq::<u16>::empty());
        assert(s.last() == s[0]);
        assert(encode_utf16(s) =~= utf16_units(s[0]) + encode_utf16(s.drop_first()));
    } else {
        lemma_encode_front(s.drop_last());
        assert(s.drop_last().drop_first() =~= s.drop_first().drop_last());
        assert(s.drop_last()[0] == s[0]);
        assert(s.drop_first().last() == s.last());
        assert(encode_utf16(s) =~= utf16_units(s[0]) + encode_utf16(s.drop_first()));
    }
}

proof fn lemma_decode_units(c: char, rest: Seq<u16>)
    ensures
        decode_utf16(utf16_units(c) + rest) == seq![c] + decode_utf16(rest),
{
    let u = c as u32 as int;
    let all = utf16_units(c) + rest;
    if u < 0x10000 {
        assert(all[0] == u as u16);
        assert(all.drop_first() =~= rest);
        lemma_char_of_value(c, u);
    } else {
        let w = u - 0x10000;
        lemma_surrogate_parts(u);
        assert(all[0] == (0xD800 + w / 0x400) as u16);
        assert(all[1] == (0xDC00 + w % 0x400) as u16);
        assert(all.subrange(2, all.len() as int) =~= rest);
        lemma_char_of_value(c, u);
    }
}

/// Decoding gives back what encoding took: `decode_utf16(encode_utf16(s)) == s`.
pub proof fn lemma_decode_encode(s: Seq<char>)
    ensures
        decode_utf16(encode_utf16(s)) == s,
    decreases s.len(),
{
    if s.len() == 0 {
        assert(encode_utf16(s) =~= Seq::<u16>::empty());
        assert(decode_utf16(Seq::<u16>::empty()) =~= s);
    } else {
        lemma_encode_front(s);
        lemma_decode_units(s[0], encode_utf16(s.drop_first()));
        lemma_decode_encode(s.drop_first());
        assert(seq![s[0]] + s.drop_first() =~= s);
    }
}

/// The clipboard's text from its UTF-16 code units before the terminating 0:
/// none when there are none, else their decoding.
pub fn text_from_clipboard(units: &[u16]) -> (r: Option<String>)
    ensures
        units@.len() == 0 ==> r is None,
        units@.len() > 0 ==> (r matches Some(t) && t@ == decode_utf16(units@)),
{
    if units.len() == 0 {
        None
    } else {
        Some(decode_utf16_lossy(units))
    }
}

/// The code units before the first 0, as a reader of a NUL-terminated buffer
/// takes them.
pub open spec fn before_nul(u: Seq<u16>) -> Seq<u16>
    decreases u.len(),
{
    if u.len() == 0 || u[0] == 0 {
        Seq::empty()
    } else {
        seq![u[0]] + before_nul(u.drop_first())
    }
}

proof fn lemma_encode_has_no_zero(s: Seq<char>)
    requires
        !s.contains('\0'),
    ensures
        forall|i: int| 0 <= i < encode_utf16(s).len() ==> encode_utf16(s)[i] != 0,
    decreases s.len(),
{
    if s.len() > 0 {
        assert(!s.drop_last().contains('\0')) by {
            if s.drop_last().contains('\0') {
                let j = choose|j: int| 0 <= j < s.drop_last().len() && s.drop_last()[j] == '\0';
                assert(s[j] == '\0');
            }
        }
        lemma_encode_has_no_zero(s.drop_last());
        let c = s.last();
        assert(c != '\0') by {
            assert(s[s.len() - 1] == c);
        }
        if c as u32 == 0 {
            lemma_char_of_value(c, 0);
            lemma_char_of_value('\0', 0);
        }
        let e = encode_utf16(s);
        let front = encode_utf16(s.drop_last());
        assert forall|i: int| 0 <= i < e.len() implies e[i] != 0 by {
            if i < front.len() {
                assert(e[i] == front[i]);
            } else {
                assert(e[i] == utf16_units(c)[i - front.len()]);
                let u = c as u32 as int;
                lemma_char_range(c);
                if u >= 0x10000 {
                    lemma_surrogate_parts(u);
                }
            }
        }
    }
}

proof fn lemma_before_nul_of_terminated(x: Seq<u16>)
    requires
        forall|i: int| 0 <= i < x.len() ==> x[i] != 0,
    ensures
        before_nul(x.push(0u16)) == x,
    decreases x.len(),
{
    if x.len() == 0 {
        assert(x.push(0u16)[0] == 0);
        assert(before_nul(x.push(0u16)) =~= x);
    } else {
        assert(x.push(0u16).drop_first() =~= x.drop_first().push(0u16));
        lemma_before_nul_of_terminated(x.drop_first());
        assert(seq![x[0]] + x.drop_first() =~= x);
    }
}

/// What is written to the clipboard is what is read back from it: for a text
/// without a NUL character, the UTF-16 units before the terminating 0 of the
/// written buffer decode to the same text.
pub proof fn lemma_clipboard_round_trip(s: Seq<char>)
    requires
        !s.contains('\0'),
    ensures
        before_nul(wide_nul(s)) == encode_utf16(s),
        decode_utf16(before_nul(wide_nul(s))) == s,
{
    lemma_encode_has_no_zero(s);
    lemma_before_nul_of_terminated(encode_utf16(s));
    lemma_decode_encode(s);
}

/// How one character is written in UTF-16: a character below U+10000 is the one
/// code unit equal to its scalar value; any other is a high surrogate
/// (D800-DBFF) and a low one (DC00-DFFF) that together give back its value.
pub proof fn lemma_utf16_units_law(c: char)
    ensures
        (c as u32) < 0x10000 ==> utf16_units(c).len() == 1 && utf16_units(c)[0] as u32 == c as u32,
        (c as u32) >= 0x10000 ==> {
            let hi = utf16_units(c)[0];
            let lo = utf16_units(c)[1];
            &&& utf16_units(c).len() == 2
            &&& 0xD800 <= hi <= 0xDBFF
            &&& 0xDC00 <= lo <= 0xDFFF
            &&& 0x10000 + (hi - 0xD800) * 0x400 + (lo - 0xDC00) == c as u32
        },
{
    lemma_char_range(c);
    let u = c as u32 as int;
    if u >= 0x10000 {
        lemma_surrogate_parts(u);
    }
}

/// A text of characters below U+10000 is written as one code unit per character,
/// each equal to the character's scalar value.
pub proof fn lemma_encode_bmp_text(s: Seq<char>)
    requires
        forall|i: int| 0 <= i < s.len() ==> ((#[trigger] s[i]) as u32) < 0x10000,
    ensures
        encode_utf16(s).len() == s.len(),
        forall|i: int| 0 <= i < s.len() ==> #[trigger] encode_utf16(s)[i] as u32 == s[i] as u32,
    decreases s.len(),
{
    if s.len() > 0 {
        assert(s.last() == s[s.len() - 1]);
        lemma_utf16_units_law(s.last());
        lemma_encode_bmp_text(s.drop_last());
        assert forall|i: int| 0 <= i < s.len() implies #[trigger] encode_utf16(s)[i] as u32
            == s[i] as u32 by {
            if i < s.len() - 1 {
                assert(s.drop_last()[i] == s[i]);
            }
        }
    }
}

/// Code units that are no surrogates are read one character each, of the unit's
/// value.
pub proof fn lemma_decode_plain_units(u: Seq<u16>)
    requires
        forall|i: int| 0 <= i < u.len() ==> !(0xD800 <= #[trigger] u[i] <= 0xDFFF),
    ensures
        decode_utf16(u).len() == u.len(),
        forall|i: int| 0 <= i < u.len() ==> #[trigger] decode_utf16(u)[i] as u32 == u[i] as u32,
    decreases u.len(),
{
    if u.len() > 0 {
        assert(!(0xD800 <= u[0] <= 0xDFFF));
        let rest = u.drop_first();
        assert forall|i: int| 0 <= i < rest.len() implies !(0xD800 <= #[trigger] rest[i] <= 0xDFFF) by {
            assert(rest[i] == u[i + 1]);
        }
        lemma_decode_plain_units(rest);
        assert forall|i: int| 0 <= i < u.len() implies #[trigger] decode_utf16(u)[i] as u32
            == u[i] as u32 by {
            if i > 0 {
                assert(rest[i - 1] == u[i]);
            }
        }
    }
}

/// A high surrogate followed by a low one is read as the one character they give;
/// a surrogate without its pair is read as U+FFFD.
pub proof fn lemma_decode_surrogates(hi: u16, lo: u16, rest: Seq<u16>)
    ensures
        0xD800 <= hi <= 0xDBFF && 0xDC00 <= lo <= 0xDFFF ==> decode_utf16(seq![hi, lo] + rest).len()
            >= 1 && decode_utf16(seq![hi, lo] + rest)[0] as u32 == 0x10000 + (hi - 0xD800) * 0x400 + (lo
            - 0xDC00) && decode_utf16(seq![hi, lo] + rest).drop_first() == decode_utf16(rest),
        0xDC00 <= hi <= 0xDFFF ==> decode_utf16(seq![hi] + rest) == seq!['\u{FFFD}'] + decode_utf16(rest),
        0xD800 <= hi <= 0xDBFF && !(0xDC00 <= lo <= 0xDFFF) ==> decode_utf16(seq![hi, lo] + rest)
            == seq!['\u{FFFD}'] + decode_utf16(seq![lo] + rest),
{
    let all = seq![hi, lo] + rest;
    assert(all.subrange(2, all.len() as int) =~= rest);
    assert(all.drop_first() =~= seq![lo] + rest);
    assert((seq![hi] + rest).drop_first() =~= rest);
    if 0xD800 <= hi <= 0xDBFF && 0xDC00 <= lo <= 0xDFFF {
        let v = 0x10000 + (hi - 0xD800) * 0x400 + (lo - 0xDC00);
        assert(v <= 0x10FFFF);
        let c = pair_char(hi, lo);
        assert(decode_utf16(all) == seq![c] + decode_utf16(rest));
        assert((seq![c] + decode_utf16(rest)).drop_first() =~= decode_utf16(rest));
    }
}

/// What a paste adds to the shelf.
#[derive(Debug)]
pub enum ClipItem {
    /// A web address, without the white space around it.
    Url(String),
    /// Any other text, as it was on the clipboard.
    Text(String),
}

/// Whether a text is a web address: it starts with `http://` or `https://`.
pub open spec fn is_web_address(t: Seq<char>) -> bool {
    (t.len() >= 7 && t.subrange(0, 7) == "http://"@) || (t.len() >= 8 && t.subrange(0, 8)
        == "https://"@)
}

/// What pasting the clipboard's text adds to the shelf: nothing when the
/// clipboard holds no text or only white space; the address, trimmed, when the
/// trimmed text starts with `http://` or `https://`; otherwise the text as it is.
pub fn paste_clipboard(clipboard: Option<&str>) -> (r: Option<ClipItem>)
    ensures
        clipboard is None ==> r is None,
        clipboard matches Some(text) ==> {
            let t = trim(text@);
            &&& t.len() == 0 ==> r is None
            &&& t.len() > 0 && is_web_address(t) ==> (r matches Some(ClipItem::Url(u)) && u@ == t)
            &&& t.len() > 0 && !is_web_address(t) ==> (r matches Some(ClipItem::Text(x)) && x@
                == text@)
        },
{
    match clipboard {
        None => None,
        Some(text) => {
            let v = chars_of(text);
            let (a, b) = trim_bounds(&v);
            if a == b {
                return None;
            }
            let t = string_from_chars(&v, a, b);
            let tv = chars_of(t.as_str());
            proof {
                reveal_strlit("http://");
                reveal_strlit("https://");
            }
            if chars_start_with(&tv, "http://") || chars_start_with(&tv, "https://") {
                Some(ClipItem::Url(t))
            } else {
                Some(ClipItem::Text(text.to_owned()))
            }
        },
    }
}

/// Texts that start with `http://` or `https://` are web addresses, and every web
/// address starts with `http`.
pub proof fn lemma_web_addresses(rest: Seq<char>, t: Seq<char>)
    ensures
        is_web_address("http://"@ + rest),
        is_web_address("https://"@ + rest),
        is_web_address(t) ==> t.len() >= 7 && t.subrange(0, 4) == "http"@,
{
    reveal_strlit("http://");
    reveal_strlit("https://");
    reveal_strlit("http");
    assert(("http://"@ + rest).subrange(0, 7) =~= "http://"@);
    assert(("https://"@ + rest).subrange(0, 8) =~= "https://"@);
    if is_web_address(t) {
        if t.len() >= 7 && t.subrange(0, 7) == "http://"@ {
            assert(t.subrange(0, 4) =~= t.subrange(0, 7).subrange(0, 4));
        } else {
            assert(t.subrange(0, 4) =~= t.subrange(0, 8).subrange(0, 4));
        }
        assert(t.subrange(0, 4) =~= "http"@);
    }
}

} // verus!
