//! Clipboard text between UTF-8 and the UTF-16 of the wire.
use std::borrow::Cow;

use vstd::prelude::*;
use vstd::utf8::{decode_utf8, valid_utf8};

verus! {

/// The UTF-16 units of a character.
pub open spec fn char_units(c: char) -> Seq<u16> {
    let v = c as int;
    if v < 0x1_0000 {
        seq![v as u16]
    } else {
        seq![
            (0xd800 + (v - 0x1_0000) / 0x400) as u16,
            (0xdc00 + (v - 0x1_0000) % 0x400) as u16,
        ]
    }
}

/// The UTF-16 units of text.
pub open spec fn utf16_units(text: Seq<char>) -> Seq<u16>
    decreases text.len(),
{
    if text.len() == 0 {
        seq![]
    } else {
        char_units(text[0]) + utf16_units(text.skip(1))
    }
}

/// Units as bytes, the low byte first.
pub open spec fn le_bytes(units: Seq<u16>) -> Seq<u8>
    decreases units.len(),
{
    if units.len() == 0 {
        seq![]
    } else {
        seq![(units[0] % 0x100) as u8, (units[0] / 0x100) as u8] + le_bytes(units.skip(1))
    }
}

/// Whether a unit is the first half of a pair.
pub open spec fn is_high(unit: u16) -> bool {
    0xd800 <= unit < 0xdc00
}

/// Whether a unit is the second half of a pair.
pub open spec fn is_low(unit: u16) -> bool {
    0xdc00 <= unit < 0xe000
}

/// The text that UTF-16 units stand for; a half without its other half becomes
/// the replacement character.
pub open spec fn utf16_text(units: Seq<u16>) -> Seq<char>
    decreases units.len(),
{
    if units.len() == 0 {
        seq![]
    } else if !is_high(units[0]) && !is_low(units[0]) {
        seq![units[0] as char] + utf16_text(units.skip(1))
    } else if is_high(units[0]) && units.len() > 1 && is_low(units[1]) {
        seq![
            (0x1_0000 + (units[0] - 0xd800) * 0x400 + (units[1] - 0xdc00)) as char,
        ] + utf16_text(units.skip(2))
    } else {
        seq!['\u{fffd}'] + utf16_text(units.skip(1))
    }
}

/// Decoding of UTF-16 by `String::from_utf16_lossy`: pairs of surrogates are one
/// character, and a surrogate without its counterpart is replaced by U+FFFD.
pub assume_specification[ String::from_utf16_lossy ](v: &[u16]) -> (r: String)
    ensures
        r@ == utf16_text(v@),
;

/// The text of bytes that should be UTF-8, each invalid part of them replaced.
pub uninterp spec fn utf8_text(bytes: Seq<u8>) -> Seq<char>;

/// Decoding of UTF-8 by `String::from_utf8_lossy`: valid bytes are decoded as
/// they are. How invalid bytes are cut into parts, each of which becomes one
/// U+FFFD, is left to the name of the result.
pub assume_specification[ String::from_utf8_lossy ](v: &[u8]) -> (r: Cow<'_, str>)
    ensures
        r@ == utf8_text(v@),
        valid_utf8(v@) ==> r@ == decode_utf8(v@),
;

/// The units of wire data before the first zero unit.
pub open spec fn text_units(data: Seq<u8>) -> Seq<u16>
    decreases data.len(),
{
    if data.len() < 2 {
        seq![]
    } else {
        let unit = (data[0] + data[1] * 0x100) as u16;
        if unit == 0 {
            seq![]
        } else {
            seq![unit] + text_units(data.skip(2))
        }
    }
}

/// The text of wire data.
pub open spec fn wire_text(data: Seq<u8>) -> Seq<char> {
    utf16_text(text_units(data))
}

/// The wire data of text.
pub open spec fn wire_data(text: Seq<char>) -> Seq<u8> {
    le_bytes(utf16_units(text)) + seq![0u8, 0u8]
}

/// Bytes with every line ending of CR and LF made a single LF.
pub open spec fn lf_only(s: Seq<u8>) -> Seq<u8>
    decreases s.len(),
{
    if s.len() == 0 {
        seq![]
    } else if s[0] == 13 && s.len() > 1 && s[1] == 10 {
        lf_only(s.skip(1))
    } else {
        seq![s[0]] + lf_only(s.skip(1))
    }
}

/// Reads wire data up to its first zero unit, replacing what is not valid.
pub fn utf16le_to_utf8(data: &[u8]) -> (r: String)
    ensures
        r@ == wire_text(data@),
{
    let mut units: Vec<u16> = Vec::new();
    let mut i: usize = 0;
    assert(data@.skip(0) =~= data@);
    assert(units@ + text_units(data@) =~= text_units(data@));
    while i < data.len() && data.len() - i >= 2
        invariant_except_break
            text_units(data@) == units@ + text_units(data@.skip(i as int)),
        invariant
            i <= data.len(),
        ensures
            text_units(data@) == units@,
        decreases data.len() - i,
    {
        let unit: u16 = data[i] as u16 + data[i + 1] as u16 * 0x100;
        let ghost rest = data@.skip(i as int);
        if unit == 0 {
            assert(units@ + text_units(rest) =~= units@);
            break ;
        }
        let ghost before = units@;
        units.push(unit);
        proof {
            assert(rest.skip(2) =~= data@.skip(i + 2));
            assert(before + (seq![unit] + text_units(rest.skip(2))) =~= units@ + text_units(
                rest.skip(2),
            ));
        }
        i = i + 2;
        proof {
            if !(i < data.len() && data.len() - i >= 2) {
                assert(units@ + text_units(data@.skip(i as int)) =~= units@);
            }
        }
    }
    String::from_utf16_lossy(units.as_slice())
}

/// Makes every CRLF a LF.
pub fn normalize_line_endings(s: &[u8]) -> (r: Vec<u8>)
    ensures
        r@ == lf_only(s@),
{
    let mut out: Vec<u8> = Vec::new();
    let mut i: usize = 0;
    assert(s@.skip(0) =~= s@);
    assert(out@ + lf_only(s@) =~= lf_only(s@));
    while i < s.len()
        invariant
            i <= s.len(),
            lf_only(s@) == out@ + lf_only(s@.skip(i as int)),
        decreases s.len() - i,
    {
        let ghost rest = s@.skip(i as int);
        assert(rest.skip(1) =~= s@.skip(i + 1));
        let is_pair: bool = s[i] == 13 && s.len() - i > 1 && s[i + 1] == 10;
        if !is_pair {
            let ghost before = out@;
            out.push(s[i]);
            assert(before + (seq![rest[0]] + lf_only(rest.skip(1))) =~= out@ + lf_only(
                rest.skip(1),
            ));
        }
        i = i + 1;
    }
    assert(out@ + lf_only(s@.skip(i as int)) =~= out@);
    out
}

/// The text of bytes that should be UTF-8, each invalid part replaced.
pub fn repaired_text(bytes: &[u8]) -> (r: String)
    ensures
        r@ == utf8_text(bytes@),
        valid_utf8(bytes@) ==> r@ == decode_utf8(bytes@),
{
    match String::from_utf8_lossy(bytes) {
        Cow::Borrowed(s) => s.to_owned(),
        Cow::Owned(s) => s,
    }
}

proof fn lemma_char_units(c: char, rest: Seq<u16>)
    ensures
        utf16_text(char_units(c) + rest) == seq![c] + utf16_text(rest),
{
    let units = char_units(c) + rest;
    let v = c as int;
    if v < 0x1_0000 {
        assert(units.skip(1) =~= rest);
        assert(units[0] == v);
    } else {
        assert(units.skip(2) =~= rest);
        let high = 0xd800 + (v - 0x1_0000) / 0x400;
        let low = 0xdc00 + (v - 0x1_0000) % 0x400;
        assert(units[0] == high && units[1] == low);
    }
}

/// Decoding the UTF-16 of text gives the text back.
pub proof fn utf16_round_trip(text: Seq<char>)
    ensures
        utf16_text(utf16_units(text)) == text,
    decreases text.len(),
{
    if text.len() > 0 {
        utf16_round_trip(text.skip(1));
        lemma_char_units(text[0], utf16_units(text.skip(1)));
        assert(seq![text[0]] + text.skip(1) =~= text);
    } else {
        assert(utf16_text(utf16_units(text)) =~= text);
    }
}

proof fn lemma_units_of_bytes(units: Seq<u16>)
    requires
        forall|i: int| 0 <= i < units.len() ==> #[trigger] units[i] != 0,
    ensures
        text_units(le_bytes(units) + seq![0u8, 0u8]) == units,
    decreases units.len(),
{
    let data = le_bytes(units) + seq![0u8, 0u8];
    if units.len() > 0 {
        let rest = units.skip(1);
        assert forall|i: int| 0 <= i < rest.len() implies #[trigger] rest[i] != 0 by {
            assert(rest[i] == units[i + 1]);
        }
        lemma_units_of_bytes(rest);
        assert(data.skip(2) =~= le_bytes(rest) + seq![0u8, 0u8]);
        assert(units[0] != 0);
        assert(seq![units[0]] + rest =~= units);
    } else {
        assert(text_units(data) =~= units);
    }
}

proof fn lemma_no_zero_unit(c: char)
    requires
        c != '\0',
    ensures
        forall|i: int| 0 <= i < char_units(c).len() ==> #[trigger] char_units(c)[i] != 0,
{
}

proof fn lemma_no_zero_units(text: Seq<char>)
    requires
        forall|i: int| 0 <= i < text.len() ==> #[trigger] text[i] != '\0',
    ensures
        forall|i: int| 0 <= i < utf16_units(text).len() ==> #[trigger] utf16_units(text)[i] != 0,
    decreases text.len(),
{
    if text.len() > 0 {
        let rest = text.skip(1);
        assert forall|i: int| 0 <= i < rest.len() implies #[trigger] rest[i] != '\0' by {
            assert(rest[i] == text[i + 1]);
        }
        lemma_no_zero_units(rest);
        assert(text[0] != '\0');
        lemma_no_zero_unit(text[0]);
        let first = char_units(text[0]);
        assert forall|i: int| 0 <= i < utf16_units(text).len() implies #[trigger] utf16_units(
            text,
        )[i] != 0 by {
            if i >= first.len() {
                assert(utf16_units(text)[i] == utf16_units(rest)[i - first.len()]);
            } else {
                assert(utf16_units(text)[i] == first[i]);
            }
        }
    }
}

/// Text without zero characters that is put on the wire is read back as it was.
pub proof fn wire_round_trip(text: Seq<char>)
    requires
        forall|i: int| 0 <= i < text.len() ==> #[trigger] text[i] != '\0',
    ensures
        wire_text(wire_data(text)) == text,
{
    lemma_no_zero_units(text);
    lemma_units_of_bytes(utf16_units(text));
    utf16_round_trip(text);
}

/// Line endings of CR and LF become LF wherever they stand; nothing else changes.
pub proof fn line_endings_become_plain(a: Seq<u8>, b: Seq<u8>)
    requires
        a.len() == 0 || a.last() != 13 || b.len() == 0 || b[0] != 10,
    ensures
        lf_only(a + b) == lf_only(a) + lf_only(b),
        lf_only(seq![13u8, 10u8]) == seq![10u8],
    decreases a.len(),
{
    reveal_with_fuel(lf_only, 3);
    let pair = seq![13u8, 10u8];
    assert(pair.skip(1) =~= seq![10u8]);
    assert(seq![10u8].skip(1) =~= Seq::<u8>::empty());
    assert(lf_only(pair) =~= seq![10u8]);
    if a.len() == 0 {
        assert(a + b =~= b);
        assert(lf_only(a) + lf_only(b) =~= lf_only(b));
    } else {
        let rest = a.skip(1);
        assert((a + b).skip(1) =~= rest + b);
        if rest.len() > 0 {
            assert(rest.last() == a.last());
        }
        line_endings_become_plain(rest, b);
        assert(lf_only(a + b) =~= lf_only(a) + lf_only(b));
    }
}

/// Text without such line endings is kept as it is, and no text disappears.
pub proof fn plain_text_is_kept(s: Seq<u8>)
    ensures
        (forall|i: int|
            0 <= i && i + 1 < s.len() ==> !(#[trigger] s[i] == 13 && s[i + 1] == 10)) ==> lf_only(s)
            == s,
        lf_only(s).len() <= s.len(),
        s.len() > 0 ==> lf_only(s).len() > 0,
    decreases s.len(),
{
    if s.len() > 0 {
        let rest = s.skip(1);
        plain_text_is_kept(rest);
        if forall|i: int| 0 <= i && i + 1 < s.len() ==> !(#[trigger] s[i] == 13 && s[i + 1] == 10) {
            assert forall|i: int| 0 <= i && i + 1 < rest.len() implies !(#[trigger] rest[i] == 13
                && rest[i + 1] == 10) by {
                assert(!(s[i + 1] == 13 && s[i + 2] == 10));
            }
            assert(!(s.len() > 1 && s[0] == 13 && s[1] == 10));
            assert(seq![s[0]] + rest =~= s);
        }
    } else {
        assert(lf_only(s) =~= s);
    }
}

proof fn lemma_plain_unit(c: char)
    requires
        (c as int) < 0x1_0000,
    ensures
        char_units(c).len() == 1,
        char_units(c)[0] as int == c as int,
{
}

/// Characters of one unit are two bytes each on the wire, the low one first, with two
/// zero bytes behind the last.
pub proof fn plain_characters_are_two_bytes(text: Seq<char>, i: int)
    requires
        forall|j: int| 0 <= j < text.len() ==> (#[trigger] text[j] as int) < 0x1_0000,
    ensures
        wire_data(text).len() == 2 * text.len() + 2,
        0 <= i < text.len() ==> wire_data(text)[2 * i] + wire_data(text)[2 * i + 1] * 0x100
            == text[i] as int,
        wire_data(text)[2 * text.len() as int] == 0,
        wire_data(text)[2 * text.len() as int + 1] == 0,
    decreases text.len(),
{
    if text.len() > 0 {
        let rest = text.skip(1);
        assert forall|j: int| 0 <= j < rest.len() implies (#[trigger] rest[j] as int)
            < 0x1_0000 by {
            assert((text[j + 1] as int) < 0x1_0000);
        }
        plain_characters_are_two_bytes(rest, i - 1);
        let first = text[0] as int;
        assert((text[0] as int) < 0x1_0000);
        let units = utf16_units(text);
        lemma_plain_unit(text[0]);
        assert(units =~= char_units(text[0]) + utf16_units(rest));
        assert(units.skip(1) =~= utf16_units(rest));
        let pair = seq![(units[0] % 0x100) as u8, (units[0] / 0x100) as u8];
        assert(wire_data(text) =~= pair + wire_data(rest));
        if 0 < i < text.len() {
            assert(rest[i - 1] == text[i]);
            assert(wire_data(text)[2 * i] == wire_data(rest)[2 * (i - 1)]);
            assert(wire_data(text)[2 * i + 1] == wire_data(rest)[2 * (i - 1) + 1]);
        }
        assert(units[0] as int == first);
        assert(wire_data(text)[0] == pair[0] && wire_data(text)[1] == pair[1]);
        let n = rest.len() as int;
        assert(wire_data(text)[2 * n + 2] == wire_data(rest)[2 * n]);
        assert(wire_data(text)[2 * n + 3] == wire_data(rest)[2 * n + 1]);
    } else {
        assert(utf16_units(text) =~= Seq::<u16>::empty());
        assert(le_bytes(utf16_units(text)) =~= Seq::<u8>::empty());
    }
}

/// Reading of the wire stops at the first zero unit, and an odd last byte is left out.
pub proof fn reading_stops_at_a_zero_unit(units: Seq<u16>, rest: Seq<u8>)
    requires
        forall|i: int| 0 <= i < units.len() ==> #[trigger] units[i] != 0,
        rest.len() < 2 || (rest[0] == 0 && rest[1] == 0),
    ensures
        text_units(le_bytes(units) + rest) == units,
    decreases units.len(),
{
    let data = le_bytes(units) + rest;
    if units.len() > 0 {
        let tail = units.skip(1);
        assert forall|i: int| 0 <= i < tail.len() implies #[trigger] tail[i] != 0 by {
            assert(tail[i] == units[i + 1]);
        }
        reading_stops_at_a_zero_unit(tail, rest);
        assert(data.skip(2) =~= le_bytes(tail) + rest);
        assert(units[0] != 0);
        assert(seq![units[0]] + tail =~= units);
    } else {
        assert(data =~= rest);
        assert(text_units(data) =~= units);
    }
}

} // verus!
