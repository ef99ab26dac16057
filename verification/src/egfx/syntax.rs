//! Parameter sets and slice headers as a decoder reads them, syntax element by
//! syntax element.
use vstd::prelude::*;

use super::bits::{
    bit_length, bits, lemma_bits_len, lemma_value_of_bits, parameter_sets_are_closed_by_a_one,
    read_ue, read_ue_undoes_ue_bits, se_bits, se_code, ue_bits, value_of, with_trailing_bits,
};
use super::headers::{
    crop_steps, macroblocks, nal_header, pps_bits, se, slice_bits, sps_bits, sps_frame,
    sps_profile, sps_vui, u, ue, StreamHeader,
};

verus! {

/// How a syntax element is coded.
pub enum Kind {
    /// As this many bits.
    Field(nat),
    /// As an unsigned Exp-Golomb code.
    Unsigned,
    /// As a signed Exp-Golomb code.
    Signed,
}

/// The signed value of a code number: 1, -1, 2, -2, ... in turn.
pub open spec fn signed_value(code: nat) -> int {
    if code % 2 == 1 {
        (code as int + 1) / 2
    } else {
        -(code as int / 2)
    }
}

/// The values of the elements of the given kinds that `s` begins with.
pub open spec fn read(s: Seq<bool>, kinds: Seq<Kind>) -> Seq<int>
    decreases kinds.len(),
{
    if kinds.len() == 0 {
        seq![]
    } else {
        match kinds[0] {
            Kind::Field(n) => if s.len() < n {
                seq![]
            } else {
                seq![value_of(s.take(n as int)) as int] + read(s.skip(n as int), kinds.skip(1))
            },
            Kind::Unsigned => match read_ue(s) {
                Some((value, rest)) => seq![value as int] + read(rest, kinds.skip(1)),
                None => seq![],
            },
            Kind::Signed => match read_ue(s) {
                Some((value, rest)) => seq![signed_value(value)] + read(rest, kinds.skip(1)),
                None => seq![],
            },
        }
    }
}

/// An element and its value.
pub struct Element {
    pub kind: Kind,
    pub value: int,
}

/// The bits of an element.
spec fn code(e: Element) -> Seq<bool> {
    match e.kind {
        Kind::Field(n) => bits(e.value as nat, n),
        Kind::Unsigned => ue_bits(e.value as nat),
        Kind::Signed => se_bits(e.value),
    }
}

/// The bits of a run of elements.
spec fn emitted(es: Seq<Element>) -> Seq<bool>
    decreases es.len(),
{
    if es.len() == 0 {
        seq![]
    } else {
        emitted(es.drop_last()) + code(es.last())
    }
}

spec fn kinds_of(es: Seq<Element>) -> Seq<Kind> {
    es.map_values(|e: Element| e.kind)
}

spec fn values_of(es: Seq<Element>) -> Seq<int> {
    es.map_values(|e: Element| e.value)
}

/// A value that its kind can code.
spec fn fits(e: Element) -> bool {
    match e.kind {
        Kind::Field(n) => e.value >= 0 && bit_length(e.value as nat) <= n,
        Kind::Unsigned => e.value >= 0,
        Kind::Signed => true,
    }
}

spec fn all_fit(es: Seq<Element>) -> bool {
    forall|i: int| 0 <= i < es.len() ==> fits(#[trigger] es[i])
}

proof fn lemma_emitted_front(es: Seq<Element>)
    requires
        es.len() > 0,
    ensures
        emitted(es) == code(es[0]) + emitted(es.skip(1)),
    decreases es.len(),
{
    if es.len() == 1 {
        assert(es.drop_last() =~= Seq::<Element>::empty());
        assert(es.skip(1) =~= Seq::<Element>::empty());
        assert(emitted(es) =~= code(es[0]) + emitted(es.skip(1)));
    } else {
        lemma_emitted_front(es.drop_last());
        assert(es.drop_last().skip(1) =~= es.skip(1).drop_last());
        assert(emitted(es) =~= code(es[0]) + emitted(es.skip(1)));
    }
}

proof fn lemma_signed(v: int)
    ensures
        signed_value(se_code(v)) == v,
{
}

proof fn lemma_read(es: Seq<Element>, rest: Seq<bool>)
    requires
        all_fit(es),
    ensures
        read(emitted(es) + rest, kinds_of(es)) == values_of(es),
    decreases es.len(),
{
    let kinds = kinds_of(es);
    if es.len() == 0 {
        assert(values_of(es) =~= Seq::<int>::empty());
    } else {
        let tail = es.skip(1);
        assert(all_fit(tail)) by {
            assert forall|i: int| 0 <= i < tail.len() implies fits(#[trigger] tail[i]) by {
                assert(fits(es[i + 1]));
            }
        }
        lemma_read(tail, rest);
        lemma_emitted_front(es);
        let s = emitted(es) + rest;
        let behind = emitted(tail) + rest;
        assert(s =~= code(es[0]) + behind);
        assert(kinds.skip(1) =~= kinds_of(tail));
        assert(values_of(es) =~= seq![es[0].value] + values_of(tail));
        assert(fits(es[0]));
        match es[0].kind {
            Kind::Field(n) => {
                let v = es[0].value as nat;
                lemma_bits_len(v, n);
                lemma_value_of_bits(v, n);
                assert(s.take(n as int) =~= bits(v, n));
                assert(s.skip(n as int) =~= behind);
            },
            Kind::Unsigned => {
                read_ue_undoes_ue_bits(es[0].value as nat, behind);
            },
            Kind::Signed => {
                read_ue_undoes_ue_bits(se_code(es[0].value), behind);
                lemma_signed(es[0].value);
            },
        }
    }
}

/// Elements that a field is appended to.
spec fn plus_u(es: Seq<Element>, value: int, n: nat) -> Seq<Element> {
    es.push(Element { kind: Kind::Field(n), value })
}

spec fn plus_ue(es: Seq<Element>, value: int) -> Seq<Element> {
    es.push(Element { kind: Kind::Unsigned, value })
}

spec fn plus_se(es: Seq<Element>, value: int) -> Seq<Element> {
    es.push(Element { kind: Kind::Signed, value })
}

broadcast proof fn lemma_plus_u(es: Seq<Element>, value: int, n: nat)
    requires
        value >= 0,
    ensures
        #[trigger] emitted(plus_u(es, value, n)) == u(emitted(es), value as nat, n),
{
    assert(plus_u(es, value, n).drop_last() =~= es);
}

broadcast proof fn lemma_plus_ue(es: Seq<Element>, value: int)
    requires
        value >= 0,
    ensures
        #[trigger] emitted(plus_ue(es, value)) == ue(emitted(es), value as nat),
{
    assert(plus_ue(es, value).drop_last() =~= es);
}

broadcast proof fn lemma_plus_se(es: Seq<Element>, value: int)
    ensures
        #[trigger] emitted(plus_se(es, value)) == se(emitted(es), value),
{
    assert(plus_se(es, value).drop_last() =~= es);
}

/// One bit.
pub open spec fn flag() -> Kind {
    Kind::Field(1)
}

/// The elements of every unit: the forbidden bit, the reference mark and the type.
pub open spec fn unit_syntax() -> Seq<Kind> {
    seq![flag(), Kind::Field(2), Kind::Field(5)]
}

/// The elements of a sequence parameter set up to its counters.
pub open spec fn profile_syntax(high: bool) -> Seq<Kind> {
    let first = seq![Kind::Field(8), Kind::Field(8), Kind::Field(8), Kind::Unsigned];
    if high {
        first + seq![Kind::Unsigned, Kind::Unsigned, Kind::Unsigned, flag(), flag()]
    } else {
        first
    }
}

/// The elements from the counters to the cropping.
pub open spec fn frame_syntax(cropped: bool) -> Seq<Kind> {
    let first = seq![
        Kind::Unsigned,
        Kind::Unsigned,
        Kind::Unsigned,
        Kind::Unsigned,
        flag(),
        Kind::Unsigned,
        Kind::Unsigned,
        flag(),
        flag(),
        flag(),
    ];
    if cropped {
        first + seq![Kind::Unsigned, Kind::Unsigned, Kind::Unsigned, Kind::Unsigned]
    } else {
        first
    }
}

/// The elements of the usability information.
pub open spec fn usability_syntax() -> Seq<Kind> {
    seq![
        flag(),
        flag(),
        flag(),
        flag(),
        Kind::Field(3),
        flag(),
        flag(),
        Kind::Field(8),
        Kind::Field(8),
        Kind::Field(8),
        flag(),
        flag(),
        Kind::Field(32),
        Kind::Field(32),
        flag(),
        flag(),
        flag(),
        flag(),
        flag(),
        flag(),
        Kind::Unsigned,
        Kind::Unsigned,
        Kind::Unsigned,
        Kind::Unsigned,
        Kind::Unsigned,
        Kind::Unsigned,
    ]
}

/// The elements of a sequence parameter set, with or without the chroma format of
/// the High profile and with or without cropping.
pub open spec fn sps_syntax(high: bool, cropped: bool) -> Seq<Kind> {
    unit_syntax() + profile_syntax(high) + frame_syntax(cropped) + usability_syntax()
}

/// What a decoder is to read of a sequence parameter set.
pub open spec fn sps_values(
    high: bool,
    level: int,
    width: int,
    height: int,
    fps: int,
    references: int,
) -> Seq<int> {
    let unit: Seq<int> = seq![0, 3, 7];
    let profile: Seq<int> = if high {
        seq![100, 0, level, 0, 1, 0, 0, 0, 0]
    } else {
        seq![77, 0, level, 0]
    };
    let frame: Seq<int> = seq![
        4,
        0,
        4,
        references,
        0,
        (width + 15) / 16 - 1,
        (height + 15) / 16 - 1,
        1,
        1,
    ];
    let crop: Seq<int> = if width % 16 == 0 && height % 16 == 0 {
        seq![0]
    } else {
        seq![1, 0, (16 - width % 16) % 16 / 2, 0, (16 - height % 16) % 16 / 2]
    };
    let usability: Seq<int> = seq![
        1,
        0,
        0,
        1,
        5,
        1,
        1,
        1,
        1,
        1,
        0,
        1,
        1,
        2 * fps,
        0,
        0,
        0,
        0,
        1,
        1,
        0,
        0,
        16,
        16,
        0,
        references,
    ];
    unit + profile + frame + crop + usability
}

#[verifier::opaque]
spec fn unit_elements(t: int) -> Seq<Element> {
    plus_u(plus_u(plus_u(Seq::empty(), 0, 1), 3, 2), t, 5)
}

#[verifier::opaque]
spec fn profile_elements(es: Seq<Element>, h: StreamHeader) -> Seq<Element> {
    let idc: int = if h.high_profile {
        100
    } else {
        77
    };
    let es = plus_ue(plus_u(plus_u(plus_u(es, idc, 8), 0, 8), h.level_idc as int, 8), 0);
    if h.high_profile {
        plus_u(plus_u(plus_ue(plus_ue(plus_ue(es, 1), 0), 0), 0, 1), 0, 1)
    } else {
        es
    }
}

#[verifier::opaque]
spec fn frame_elements(es: Seq<Element>, h: StreamHeader) -> Seq<Element> {
    let w = h.width as int;
    let k = h.height as int;
    let es = plus_ue(plus_ue(plus_ue(es, 4), 0), 4);
    let es = plus_u(plus_ue(es, h.max_num_ref_frames as int), 0, 1);
    let es = plus_ue(plus_ue(es, (w + 15) / 16 - 1), (k + 15) / 16 - 1);
    let es = plus_u(plus_u(es, 1, 1), 1, 1);
    if w % 16 != 0 || k % 16 != 0 {
        let es = plus_ue(plus_ue(plus_u(es, 1, 1), 0), (16 - w % 16) % 16 / 2);
        plus_ue(plus_ue(es, 0), (16 - k % 16) % 16 / 2)
    } else {
        plus_u(es, 0, 1)
    }
}

#[verifier::opaque]
spec fn usability_elements(es: Seq<Element>, h: StreamHeader) -> Seq<Element> {
    let es = plus_u(plus_u(plus_u(plus_u(es, 1, 1), 0, 1), 0, 1), 1, 1);
    let es = plus_u(plus_u(plus_u(es, 5, 3), 1, 1), 1, 1);
    let es = plus_u(plus_u(plus_u(es, 1, 8), 1, 8), 1, 8);
    let es = plus_u(plus_u(es, 0, 1), 1, 1);
    let es = plus_u(plus_u(es, 1, 32), 2 * h.fps, 32);
    let es = plus_u(plus_u(plus_u(plus_u(es, 0, 1), 0, 1), 0, 1), 0, 1);
    let es = plus_u(plus_u(es, 1, 1), 1, 1);
    let es = plus_ue(plus_ue(plus_ue(plus_ue(es, 0), 0), 16), 16);
    plus_ue(plus_ue(es, 0), h.max_num_ref_frames as int)
}

proof fn lemma_unit_elements(t: int)
    requires
        0 <= t < 32,
    ensures
        emitted(unit_elements(t)) == nal_header(t as nat),
{
    broadcast use lemma_plus_u;

    reveal(unit_elements);
    assert(emitted(Seq::<Element>::empty()) =~= Seq::<bool>::empty());
}

proof fn lemma_profile_elements(es: Seq<Element>, h: StreamHeader)
    ensures
        emitted(profile_elements(es, h)) == sps_profile(emitted(es), h),
{
    broadcast use {lemma_plus_u, lemma_plus_ue};

    reveal(profile_elements);
}

proof fn lemma_frame_elements(es: Seq<Element>, h: StreamHeader)
    requires
        h.width > 0,
        h.height > 0,
        h.width % 2 == 0,
        h.height % 2 == 0,
    ensures
        emitted(frame_elements(es, h)) == sps_frame(emitted(es), h),
{
    broadcast use {lemma_plus_u, lemma_plus_ue};

    reveal(frame_elements);
    lemma_side(h.width as int);
    lemma_side(h.height as int);
    let w = (h.width as int + 15) / 16 - 1;
    let k = (h.height as int + 15) / 16 - 1;
    let right = (16 - h.width as int % 16) % 16 / 2;
    let bottom = (16 - h.height as int % 16) % 16 / 2;
    let a = plus_u(
        plus_ue(plus_ue(plus_ue(plus_ue(es, 4), 0), 4), h.max_num_ref_frames as int),
        0,
        1,
    );
    assert(emitted(a) == u(
        ue(ue(ue(ue(emitted(es), 4), 0), 4), h.max_num_ref_frames as nat),
        0,
        1,
    ));
    let b = plus_ue(plus_ue(a, w), k);
    assert(emitted(b) == ue(ue(emitted(a), w as nat), k as nat));
    let c = plus_u(plus_u(b, 1, 1), 1, 1);
    assert(emitted(c) == u(u(emitted(b), 1, 1), 1, 1));
    let d = plus_ue(plus_ue(plus_u(c, 1, 1), 0), right);
    assert(emitted(d) == ue(ue(u(emitted(c), 1, 1), 0), right as nat));
    let e = plus_ue(plus_ue(d, 0), bottom);
    assert(emitted(e) == ue(ue(emitted(d), 0), bottom as nat));
    assert(emitted(plus_u(c, 0, 1)) == u(emitted(c), 0, 1));
}

proof fn lemma_side(n: int)
    requires
        0 < n,
        n % 2 == 0,
    ensures
        (n + 15) / 16 - 1 >= 0,
        (macroblocks(n as nat) - 1) as nat == (n + 15) / 16 - 1,
        (16 - n % 16) % 16 / 2 >= 0,
        crop_steps(n as nat) == (16 - n % 16) % 16 / 2,
{
}

proof fn lemma_usability_elements(es: Seq<Element>, h: StreamHeader)
    ensures
        emitted(usability_elements(es, h)) == sps_vui(emitted(es), h),
{
    broadcast use {lemma_plus_u, lemma_plus_ue};

    reveal(usability_elements);
}

/// `after` is `before` with elements of these kinds and values appended.
spec fn appended(
    before: Seq<Element>,
    after: Seq<Element>,
    kinds: Seq<Kind>,
    values: Seq<int>,
) -> bool {
    &&& kinds_of(after) == kinds_of(before) + kinds
    &&& values_of(after) == values_of(before) + values
    &&& all_fit(before) ==> all_fit(after)
}

proof fn lemma_appended_twice(
    a: Seq<Element>,
    b: Seq<Element>,
    c: Seq<Element>,
    k1: Seq<Kind>,
    v1: Seq<int>,
    k2: Seq<Kind>,
    v2: Seq<int>,
)
    requires
        appended(a, b, k1, v1),
        appended(b, c, k2, v2),
    ensures
        appended(a, c, k1 + k2, v1 + v2),
{
    assert(kinds_of(a) + k1 + k2 =~= kinds_of(a) + (k1 + k2));
    assert(values_of(a) + v1 + v2 =~= values_of(a) + (v1 + v2));
}

broadcast proof fn lemma_append_u(es: Seq<Element>, value: int, n: nat)
    ensures
        kinds_of(#[trigger] plus_u(es, value, n)) == kinds_of(es).push(Kind::Field(n)),
        values_of(plus_u(es, value, n)) == values_of(es).push(value),
        all_fit(es) && value >= 0 && bit_length(value as nat) <= n ==> all_fit(
            plus_u(es, value, n),
        ),
{
    assert(kinds_of(plus_u(es, value, n)) =~= kinds_of(es).push(Kind::Field(n)));
    assert(values_of(plus_u(es, value, n)) =~= values_of(es).push(value));
}

broadcast proof fn lemma_append_ue(es: Seq<Element>, value: int)
    ensures
        kinds_of(#[trigger] plus_ue(es, value)) == kinds_of(es).push(Kind::Unsigned),
        values_of(plus_ue(es, value)) == values_of(es).push(value),
        all_fit(es) && value >= 0 ==> all_fit(plus_ue(es, value)),
{
    assert(kinds_of(plus_ue(es, value)) =~= kinds_of(es).push(Kind::Unsigned));
    assert(values_of(plus_ue(es, value)) =~= values_of(es).push(value));
}

broadcast proof fn lemma_append_se(es: Seq<Element>, value: int)
    ensures
        kinds_of(#[trigger] plus_se(es, value)) == kinds_of(es).push(Kind::Signed),
        values_of(plus_se(es, value)) == values_of(es).push(value),
        all_fit(es) ==> all_fit(plus_se(es, value)),
{
    assert(kinds_of(plus_se(es, value)) =~= kinds_of(es).push(Kind::Signed));
    assert(values_of(plus_se(es, value)) =~= values_of(es).push(value));
}

proof fn lemma_lengths(v: nat)
    ensures
        v < 2 ==> bit_length(v) <= 1,
        v < 4 ==> bit_length(v) <= 2,
        v < 8 ==> bit_length(v) <= 3,
        v < 32 ==> bit_length(v) <= 5,
        v < 256 ==> bit_length(v) <= 8,
        v < 0x1_0000_0000 ==> bit_length(v) <= 32,
{
    reveal_with_fuel(bit_length, 34);
}

proof fn lemma_unit_lists(t: int)
    requires
        0 <= t < 32,
    ensures
        kinds_of(unit_elements(t)) == unit_syntax(),
        values_of(unit_elements(t)) == seq![0, 3, t],
        all_fit(unit_elements(t)),
{
    broadcast use lemma_append_u;

    reveal(unit_elements);
    lemma_lengths(0);
    lemma_lengths(3);
    lemma_lengths(t as nat);
    assert(kinds_of(Seq::<Element>::empty()) =~= Seq::<Kind>::empty());
    assert(values_of(Seq::<Element>::empty()) =~= Seq::<int>::empty());
    assert(kinds_of(unit_elements(t)) =~= unit_syntax());
    assert(values_of(unit_elements(t)) =~= seq![0, 3, t]);
}

proof fn lemma_profile_lists(es: Seq<Element>, h: StreamHeader)
    ensures
        appended(
            es,
            profile_elements(es, h),
            profile_syntax(h.high_profile),
            if h.high_profile {
                seq![100, 0, h.level_idc as int, 0, 1, 0, 0, 0, 0]
            } else {
                seq![77, 0, h.level_idc as int, 0]
            },
        ),
{
    broadcast use {lemma_append_u, lemma_append_ue};

    reveal(profile_elements);
    lemma_lengths(0);
    lemma_lengths(77);
    lemma_lengths(100);
    lemma_lengths(h.level_idc as nat);
    let after = profile_elements(es, h);
    let values: Seq<int> = if h.high_profile {
        seq![100, 0, h.level_idc as int, 0, 1, 0, 0, 0, 0]
    } else {
        seq![77, 0, h.level_idc as int, 0]
    };
    assert(kinds_of(after) =~= kinds_of(es) + profile_syntax(h.high_profile));
    assert(values_of(after) =~= values_of(es) + values);
}

/// The values of the frame part.
spec fn frame_values(h: StreamHeader) -> Seq<int> {
    let w = h.width as int;
    let k = h.height as int;
    let frame: Seq<int> = seq![
        4,
        0,
        4,
        h.max_num_ref_frames as int,
        0,
        (w + 15) / 16 - 1,
        (k + 15) / 16 - 1,
        1,
        1,
    ];
    let crop: Seq<int> = if w % 16 == 0 && k % 16 == 0 {
        seq![0]
    } else {
        seq![1, 0, (16 - w % 16) % 16 / 2, 0, (16 - k % 16) % 16 / 2]
    };
    frame + crop
}

proof fn lemma_frame_lists(es: Seq<Element>, h: StreamHeader)
    requires
        h.width > 0,
        h.height > 0,
    ensures
        appended(
            es,
            frame_elements(es, h),
            frame_syntax(h.width % 16 != 0 || h.height % 16 != 0),
            frame_values(h),
        ),
{
    broadcast use {lemma_append_u, lemma_append_ue};

    reveal(frame_elements);
    lemma_lengths(0);
    lemma_lengths(1);
    let after = frame_elements(es, h);
    assert(kinds_of(after) =~= kinds_of(es) + frame_syntax(
        h.width % 16 != 0 || h.height % 16 != 0,
    ));
    assert(values_of(after) =~= values_of(es) + frame_values(h));
}

/// The values of the usability information.
spec fn usability_values(h: StreamHeader) -> Seq<int> {
    seq![
        1,
        0,
        0,
        1,
        5,
        1,
        1,
        1,
        1,
        1,
        0,
        1,
        1,
        2 * h.fps,
        0,
        0,
        0,
        0,
        1,
        1,
        0,
        0,
        16,
        16,
        0,
        h.max_num_ref_frames as int,
    ]
}

proof fn lemma_usability_lists(es: Seq<Element>, h: StreamHeader)
    requires
        h.fps * 2 <= u32::MAX,
    ensures
        appended(es, usability_elements(es, h), usability_syntax(), usability_values(h)),
{
    broadcast use {lemma_append_u, lemma_append_ue};

    reveal(usability_elements);
    lemma_lengths(0);
    lemma_lengths(1);
    lemma_lengths(5);
    lemma_lengths((2 * h.fps) as nat);
    let after = usability_elements(es, h);
    assert(kinds_of(after) =~= kinds_of(es) + usability_syntax());
    assert(values_of(after) =~= values_of(es) + usability_values(h));
}

/// A decoder reads of a sequence parameter set the profile, the level, counters of
/// eight bits, the references, the size in macroblocks and its cropping, BT.709 in
/// full range, two ticks a frame, and a decoder buffer of the references.
pub proof fn sequence_parameter_sets_are_read_back(h: StreamHeader, rest: Seq<bool>)
    requires
        h.wf(),
        h.width % 2 == 0,
        h.height % 2 == 0,
    ensures
        read(
            sps_bits(h) + rest,
            sps_syntax(h.high_profile, h.width % 16 != 0 || h.height % 16 != 0),
        ) == sps_values(
            h.high_profile,
            h.level_idc as int,
            h.width as int,
            h.height as int,
            h.fps as int,
            h.max_num_ref_frames as int,
        ),
{
    let d = lemma_sps_elements(h);
    reveal(sps_bits);
    let s = sps_vui(sps_frame(sps_profile(nal_header(7), h), h), h);
    lemma_closed(s, rest);
    lemma_read(d, with_trailing_bits(s).skip(s.len() as int) + rest);
}

proof fn lemma_closed(s: Seq<bool>, rest: Seq<bool>)
    ensures
        with_trailing_bits(s) + rest == s + (with_trailing_bits(s).skip(s.len() as int) + rest),
{
    let closed = with_trailing_bits(s);
    assert(closed.take(s.len() as int) =~= s);
    assert(closed + rest =~= s + (closed.skip(s.len() as int) + rest));
}

proof fn lemma_sps_elements(h: StreamHeader) -> (d: Seq<Element>)
    requires
        h.wf(),
        h.width % 2 == 0,
        h.height % 2 == 0,
    ensures
        emitted(d) == sps_vui(sps_frame(sps_profile(nal_header(7), h), h), h),
        all_fit(d),
        kinds_of(d) == sps_syntax(h.high_profile, h.width % 16 != 0 || h.height % 16 != 0),
        values_of(d) == sps_values(
            h.high_profile,
            h.level_idc as int,
            h.width as int,
            h.height as int,
            h.fps as int,
            h.max_num_ref_frames as int,
        ),
{
    let a = unit_elements(7);
    let b = profile_elements(a, h);
    let c = frame_elements(b, h);
    let d = usability_elements(c, h);
    lemma_unit_elements(7);
    lemma_profile_elements(a, h);
    lemma_frame_elements(b, h);
    lemma_usability_elements(c, h);
    lemma_unit_lists(7);
    lemma_profile_lists(a, h);
    lemma_frame_lists(b, h);
    lemma_usability_lists(c, h);
    let w = h.width as int;
    let k = h.height as int;
    let frame: Seq<int> = seq![
        4,
        0,
        4,
        h.max_num_ref_frames as int,
        0,
        (w + 15) / 16 - 1,
        (k + 15) / 16 - 1,
        1,
        1,
    ];
    let crop: Seq<int> = if w % 16 == 0 && k % 16 == 0 {
        seq![0]
    } else {
        seq![1, 0, (16 - w % 16) % 16 / 2, 0, (16 - k % 16) % 16 / 2]
    };
    lemma_cat(values_of(b), frame, crop);
    d
}

proof fn lemma_cat(a: Seq<int>, b: Seq<int>, c: Seq<int>)
    ensures
        a + (b + c) == a + b + c,
{
    assert(a + (b + c) =~= a + b + c);
}

/// The elements of a picture parameter set.
pub open spec fn pps_syntax() -> Seq<Kind> {
    unit_syntax() + seq![
        Kind::Unsigned,
        Kind::Unsigned,
        flag(),
        flag(),
        Kind::Unsigned,
        Kind::Unsigned,
        Kind::Unsigned,
        flag(),
        Kind::Field(2),
        Kind::Signed,
        Kind::Signed,
        Kind::Signed,
        flag(),
        flag(),
        flag(),
        flag(),
        flag(),
        Kind::Signed,
    ]
}

#[verifier::opaque]
spec fn pps_elements(h: StreamHeader) -> Seq<Element> {
    let es = plus_u(plus_u(plus_ue(plus_ue(unit_elements(8), 0), 0), 1, 1), 0, 1);
    let es = plus_ue(plus_ue(plus_ue(es, 0), 0), 0);
    let es = plus_u(plus_u(es, 0, 1), 0, 2);
    let es = plus_se(plus_se(plus_se(es, h.pic_init_qp - 26), 0), 0);
    let es = plus_u(plus_u(plus_u(es, 1, 1), 0, 1), 0, 1);
    let transform: int = if h.high_profile {
        1
    } else {
        0
    };
    plus_se(plus_u(plus_u(es, transform, 1), 0, 1), 0)
}

/// A decoder reads of a picture parameter set CABAC, one reference, the starting
/// quantiser, deblocking control, and the 8x8 transform under the High profile.
pub proof fn picture_parameter_sets_are_read_back(h: StreamHeader, rest: Seq<bool>)
    ensures
        read(pps_bits(h) + rest, pps_syntax()) == seq![
            0,
            3,
            8,
            0,
            0,
            1,
            0,
            0,
            0,
            0,
            0,
            0,
            h.pic_init_qp - 26,
            0,
            0,
            1,
            0,
            0,
            if h.high_profile {
                1int
            } else {
                0
            },
            0,
            0,
        ],
{
    let d = pps_elements(h);
    lemma_pps_elements(h);
    lemma_pps_lists(h);
    lemma_closed(emitted(d), rest);
    lemma_read(d, pps_bits(h).skip(emitted(d).len() as int) + rest);
}

proof fn lemma_pps_elements(h: StreamHeader)
    ensures
        pps_bits(h) == with_trailing_bits(emitted(pps_elements(h))),
{
    broadcast use {lemma_plus_u, lemma_plus_ue, lemma_plus_se};

    reveal(pps_elements);
    reveal(pps_bits);
    lemma_unit_elements(8);
}

proof fn lemma_pps_lists(h: StreamHeader)
    ensures
        all_fit(pps_elements(h)),
        kinds_of(pps_elements(h)) == pps_syntax(),
        values_of(pps_elements(h)) == seq![
            0,
            3,
            8,
            0,
            0,
            1,
            0,
            0,
            0,
            0,
            0,
            0,
            h.pic_init_qp - 26,
            0,
            0,
            1,
            0,
            0,
            if h.high_profile {
                1int
            } else {
                0
            },
            0,
            0,
        ],
{
    broadcast use {lemma_append_u, lemma_append_ue, lemma_append_se};

    reveal(pps_elements);
    lemma_unit_lists(8);
    lemma_lengths(0);
    lemma_lengths(1);
    let d = pps_elements(h);
    assert(kinds_of(d) =~= pps_syntax());
    assert(values_of(d) =~= seq![
        0,
        3,
        8,
        0,
        0,
        1,
        0,
        0,
        0,
        0,
        0,
        0,
        h.pic_init_qp - 26,
        0,
        0,
        1,
        0,
        0,
        if h.high_profile {
            1int
        } else {
            0
        },
        0,
        0,
    ]);
}

/// The elements of a slice header.
pub open spec fn slice_syntax(is_idr: bool) -> Seq<Kind> {
    if is_idr {
        unit_syntax() + seq![
            Kind::Unsigned,
            Kind::Unsigned,
            Kind::Unsigned,
            Kind::Field(8),
            Kind::Unsigned,
            Kind::Field(8),
            flag(),
            flag(),
            Kind::Signed,
            Kind::Unsigned,
            Kind::Signed,
            Kind::Signed,
        ]
    } else {
        unit_syntax() + seq![
            Kind::Unsigned,
            Kind::Unsigned,
            Kind::Unsigned,
            Kind::Field(8),
            Kind::Field(8),
            flag(),
            flag(),
            flag(),
            Kind::Unsigned,
            Kind::Signed,
            Kind::Unsigned,
            Kind::Signed,
            Kind::Signed,
        ]
    }
}

/// What a decoder is to read of a slice header.
pub open spec fn slice_values(is_idr: bool, frame_num: int, idr_pic_id: int, poc: int) -> Seq<int> {
    if is_idr {
        seq![0, 3, 5, 0, 7, 0, frame_num, idr_pic_id, poc, 0, 0, 0, 0, 0, 0]
    } else {
        seq![0, 3, 1, 0, 5, 0, frame_num, poc, 0, 0, 0, 0, 0, 0, 0, 0]
    }
}

spec fn slice_elements(is_idr: bool, frame_num: u16, idr_pic_id: u32, poc_lsb: u8) -> Seq<Element> {
    if is_idr {
        let es = plus_ue(plus_ue(plus_ue(unit_elements(5), 0), 7), 0);
        let es = plus_ue(plus_u(es, frame_num as int, 8), (idr_pic_id % 0x1_0000) as int);
        let es = plus_u(plus_u(plus_u(es, poc_lsb as int, 8), 0, 1), 0, 1);
        plus_se(plus_se(plus_ue(plus_se(es, 0), 0), 0), 0)
    } else {
        let es = plus_ue(plus_ue(plus_ue(unit_elements(1), 0), 5), 0);
        let es = plus_u(plus_u(es, frame_num as int, 8), poc_lsb as int, 8);
        let es = plus_ue(plus_u(plus_u(plus_u(es, 0, 1), 0, 1), 0, 1), 0);
        plus_se(plus_se(plus_ue(plus_se(es, 0), 0), 0), 0)
    }
}

/// A decoder reads of a slice header the whole picture as one slice without or with
/// references, its frame number and picture order count, for an IDR its number, the
/// quantiser of the picture parameter set, and deblocking.
pub proof fn whole_slice_headers_are_read_back(
    is_idr: bool,
    frame_num: u16,
    idr_pic_id: u32,
    poc_lsb: u8,
    rest: Seq<bool>,
)
    requires
        frame_num < 256,
    ensures
        read(
            slice_bits(is_idr, frame_num, idr_pic_id, poc_lsb) + rest,
            slice_syntax(is_idr),
        ) == slice_values(
            is_idr,
            frame_num as int,
            idr_pic_id as int % 0x1_0000,
            poc_lsb as int,
        ),
{
    broadcast use {
        lemma_append_u,
        lemma_append_ue,
        lemma_append_se,
        lemma_plus_u,
        lemma_plus_ue,
        lemma_plus_se,
    };

    reveal(slice_bits);
    lemma_unit_elements(5);
    lemma_unit_elements(1);
    lemma_unit_lists(5);
    lemma_unit_lists(1);
    lemma_lengths(0);
    lemma_lengths(frame_num as nat);
    lemma_lengths(poc_lsb as nat);
    let d = slice_elements(is_idr, frame_num, idr_pic_id, poc_lsb);
    assert(slice_bits(is_idr, frame_num, idr_pic_id, poc_lsb) == emitted(d));
    assert(all_fit(d));
    lemma_read(d, rest);
    assert(kinds_of(d) =~= slice_syntax(is_idr));
    assert(values_of(d) =~= slice_values(
        is_idr,
        frame_num as int,
        idr_pic_id as int % 0x1_0000,
        poc_lsb as int,
    ));
}

/// A run of bits that holds elements of these kinds and values and nothing else but its
/// closing: a one bit, and zeros up to the next byte.
pub open spec fn is_closed_unit(s: Seq<bool>, kinds: Seq<Kind>, values: Seq<int>) -> bool {
    exists|n: int|
        {
            &&& 0 <= n < s.len() <= n + 8
            &&& s.len() % 8 == 0
            &&& s[n]
            &&& forall|i: int| n < i < s.len() ==> !(#[trigger] s[i])
            &&& read(#[trigger] s.take(n), kinds) == values
        }
}

/// Both parameter sets end behind their last element.
pub proof fn parameter_sets_hold_nothing_more(h: StreamHeader)
    requires
        h.wf(),
        h.width % 2 == 0,
        h.height % 2 == 0,
    ensures
        is_closed_unit(
            sps_bits(h),
            sps_syntax(h.high_profile, h.width % 16 != 0 || h.height % 16 != 0),
            sps_values(
                h.high_profile,
                h.level_idc as int,
                h.width as int,
                h.height as int,
                h.fps as int,
                h.max_num_ref_frames as int,
            ),
        ),
        is_closed_unit(
            pps_bits(h),
            pps_syntax(),
            read(pps_bits(h) + Seq::<bool>::empty(), pps_syntax()),
        ),
{
    let d = lemma_sps_elements(h);
    let s = sps_vui(sps_frame(sps_profile(nal_header(7), h), h), h);
    assert(sps_bits(h) == with_trailing_bits(s)) by {
        reveal(sps_bits);
    }
    parameter_sets_are_closed_by_a_one(s);
    lemma_read(d, Seq::empty());
    assert(emitted(d) + Seq::<bool>::empty() =~= s);
    assert(sps_bits(h).take(s.len() as int) == s);
    let e = pps_elements(h);
    let p = emitted(e);
    lemma_pps_elements(h);
    lemma_pps_lists(h);
    parameter_sets_are_closed_by_a_one(p);
    lemma_read(e, Seq::empty());
    assert(p + Seq::<bool>::empty() =~= p);
    picture_parameter_sets_are_read_back(h, Seq::empty());
    assert(pps_bits(h).take(p.len() as int) == p);
}

} // verus!
