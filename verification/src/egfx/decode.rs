//! What a decoder reads of the parameter sets and slice headers.
use vstd::prelude::*;

use super::bits::{
    bit_length, bits, lemma_bits_len, lemma_value_of_bits, read_ue, read_ue_undoes_ue_bits, ue_bits,
    value_of,
};
use super::headers::{
    crop_steps, cropping_restores_the_picture_size, macroblocks, nal_header, slice_bits,
    sps_bits, sps_frame, sps_profile, sps_vui, u, ue, StreamHeader, PROFILE_IDC_HIGH,
    PROFILE_IDC_MAIN,
};

verus! {

/// The value of an Exp-Golomb code at the front of `s`.
#[verifier::opaque]
pub open spec fn front(s: Seq<bool>) -> nat {
    match read_ue(s) {
        Some((value, _)) => value,
        None => 0,
    }
}

/// What follows an Exp-Golomb code at the front of `s`.
#[verifier::opaque]
pub open spec fn behind(s: Seq<bool>) -> Seq<bool> {
    match read_ue(s) {
        Some((_, rest)) => rest,
        None => Seq::empty(),
    }
}

/// The fields of a slice header that place its picture in the sequence.
pub struct SliceFields {
    pub nal_unit_type: nat,
    pub first_mb_in_slice: nat,
    pub slice_type: nat,
    pub pic_parameter_set_id: nat,
    pub frame_num: nat,
    pub idr_pic_id: Option<nat>,
    pub pic_order_cnt_lsb: nat,
}

/// What a decoder reads of a slice header, where frame numbers and picture order
/// counts have eight bits.
pub open spec fn read_slice(s: Seq<bool>) -> SliceFields {
    let nal_unit_type = value_of(s.subrange(3, 8));
    let a = s.skip(8);
    let b = behind(a);
    let c = behind(b);
    let d = behind(c);
    let e = d.skip(8);
    let f = if nal_unit_type == 5 {
        behind(e)
    } else {
        e
    };
    SliceFields {
        nal_unit_type,
        first_mb_in_slice: front(a),
        slice_type: front(b),
        pic_parameter_set_id: front(c),
        frame_num: value_of(d.take(8)),
        idr_pic_id: if nal_unit_type == 5 {
            Some(front(e))
        } else {
            None
        },
        pic_order_cnt_lsb: value_of(f.take(8)),
    }
}

/// The picture size that a decoder reads of a sequence parameter set.
pub open spec fn read_size(s: Seq<bool>) -> (int, int) {
    let profile_idc = value_of(s.subrange(8, 16));
    let a = behind(s.skip(32));
    let b = if profile_idc == PROFILE_IDC_HIGH {
        behind(behind(behind(a))).skip(2)
    } else {
        a
    };
    let c = behind(behind(behind(behind(b)))).skip(1);
    let d = behind(c);
    let e = behind(d).skip(2);
    let coded_width = 16 * (front(c) + 1);
    let coded_height = 16 * (front(d) + 1);
    if e[0] {
        let left = e.skip(1);
        let right = behind(left);
        let top = behind(right);
        let bottom = behind(top);
        (
            coded_width - 2 * (front(left) + front(right)),
            coded_height - 2 * (front(top) + front(bottom)),
        )
    } else {
        (coded_width as int, coded_height as int)
    }
}

proof fn lemma_cat(a: Seq<bool>, b: Seq<bool>, c: Seq<bool>)
    ensures
        (a + b) + c == a + (b + c),
{
    assert((a + b) + c =~= a + (b + c));
}

broadcast proof fn lemma_still_prefix(p: Seq<bool>, s: Seq<bool>, x: Seq<bool>)
    requires
        p.is_prefix_of(s),
    ensures
        #[trigger] p.is_prefix_of(s + x),
{
    assert(p =~= (s + x).take(p.len() as int));
}

proof fn lemma_rest(p: Seq<bool>, s: Seq<bool>)
    requires
        p.is_prefix_of(s),
    ensures
        s == p + s.skip(p.len() as int),
{
    assert(s =~= p + s.skip(p.len() as int));
}

/// A fixed field at the front is read as what was written, for values that fit.
proof fn lemma_read_field(v: nat, n: nat, rest: Seq<bool>)
    requires
        bit_length(v) <= n,
    ensures
        value_of((bits(v, n) + rest).take(n as int)) == v,
        (bits(v, n) + rest).skip(n as int) == rest,
{
    lemma_bits_len(v, n);
    lemma_value_of_bits(v, n);
    assert((bits(v, n) + rest).take(n as int) =~= bits(v, n));
    assert((bits(v, n) + rest).skip(n as int) =~= rest);
}

proof fn lemma_read_code(v: nat, rest: Seq<bool>)
    ensures
        front(ue_bits(v) + rest) == v,
        behind(ue_bits(v) + rest) == rest,
{
    reveal(front);
    reveal(behind);
    read_ue_undoes_ue_bits(v, rest);
}

proof fn lemma_nal_fields(t: nat, rest: Seq<bool>)
    requires
        t < 32,
    ensures
        (nal_header(t) + rest).skip(8) == rest,
        value_of((nal_header(t) + rest).subrange(3, 8)) == t,
{
    lemma_bits_len(0, 1);
    lemma_bits_len(3, 2);
    lemma_bits_len(t, 5);
    reveal_with_fuel(bit_length, 6);
    lemma_value_of_bits(t, 5);
    assert((nal_header(t) + rest).skip(8) =~= rest);
    assert((nal_header(t) + rest).subrange(3, 8) =~= bits(t, 5));
}

/// A slice header tells the decoder where its picture stands in the sequence: the
/// frame number, the picture order count and, for an IDR, its number are read
/// back as they were written.
pub proof fn slice_headers_are_read_back(is_idr: bool, frame_num: u16, idr_pic_id: u32, poc_lsb: u8)
    requires
        frame_num < 256,
    ensures
        read_slice(slice_bits(is_idr, frame_num, idr_pic_id, poc_lsb)) == (SliceFields {
            nal_unit_type: if is_idr {
                5
            } else {
                1
            },
            first_mb_in_slice: 0,
            slice_type: if is_idr {
                7
            } else {
                5
            },
            pic_parameter_set_id: 0,
            frame_num: frame_num as nat,
            idr_pic_id: if is_idr {
                Some((idr_pic_id % 0x1_0000) as nat)
            } else {
                None
            },
            pic_order_cnt_lsb: poc_lsb as nat,
        }),
{
    broadcast use lemma_still_prefix;

    reveal(slice_bits);
    let s = slice_bits(is_idr, frame_num, idr_pic_id, poc_lsb);
    let t: nat = if is_idr {
        5
    } else {
        1
    };
    let kind: nat = if is_idr {
        7
    } else {
        5
    };
    let id = (idr_pic_id % 0x1_0000) as nat;
    let s1 = nal_header(t);
    let s2 = ue(s1, 0);
    let s3 = ue(s2, kind);
    let s4 = ue(s3, 0);
    let s5 = u(s4, frame_num as nat, 8);
    let s6 = if is_idr {
        ue(s5, id)
    } else {
        s5
    };
    let s7 = u(s6, poc_lsb as nat, 8);
    assert(s7.is_prefix_of(s7)) by {
        assert(s7 =~= s7.take(s7.len() as int));
    }
    assert(s7.is_prefix_of(s));
    lemma_rest(s7, s);
    let r7 = s.skip(s7.len() as int);
    let r6 = bits(poc_lsb as nat, 8) + r7;
    let r5 = if is_idr {
        ue_bits(id) + r6
    } else {
        r6
    };
    let r4 = bits(frame_num as nat, 8) + r5;
    let r3 = ue_bits(0) + r4;
    let r2 = ue_bits(kind) + r3;
    let r1 = ue_bits(0) + r2;
    lemma_cat(s6, bits(poc_lsb as nat, 8), r7);
    if is_idr {
        lemma_cat(s5, ue_bits(id), r6);
    }
    lemma_cat(s4, bits(frame_num as nat, 8), r5);
    lemma_cat(s3, ue_bits(0), r4);
    lemma_cat(s2, ue_bits(kind), r3);
    lemma_cat(s1, ue_bits(0), r2);
    assert(s == s1 + r1);
    lemma_nal_fields(t, r1);
    lemma_read_code(0, r2);
    lemma_read_code(kind, r3);
    lemma_read_code(0, r4);
    lemma_byte(frame_num as nat);
    lemma_byte(poc_lsb as nat);
    lemma_read_field(frame_num as nat, 8, r5);
    if is_idr {
        lemma_read_code(id, r6);
    }
    lemma_read_field(poc_lsb as nat, 8, r7);
}

proof fn lemma_byte(v: nat)
    requires
        v < 256,
    ensures
        bit_length(v) <= 8,
{
    reveal_with_fuel(bit_length, 9);
}

/// The part of a sequence parameter set from the counters on, and what follows.
#[verifier::opaque]
spec fn frame_part(h: StreamHeader, rest: Seq<bool>) -> Seq<bool> {
    ue_bits(4) + (ue_bits(0) + (ue_bits(4) + (ue_bits(h.max_num_ref_frames as nat) + (bits(0, 1) + (
    ue_bits((macroblocks(h.width as nat) - 1) as nat) + (ue_bits(
        (macroblocks(h.height as nat) - 1) as nat,
    ) + (bits(1, 1) + (bits(1, 1) + crop_part(h, rest)))))))))
}

/// The cropping fields, and what follows.
#[verifier::opaque]
spec fn crop_part(h: StreamHeader, rest: Seq<bool>) -> Seq<bool> {
    if h.width % 16 != 0 || h.height % 16 != 0 {
        bits(1, 1) + (ue_bits(0) + (ue_bits(crop_steps(h.width as nat)) + (ue_bits(0) + (ue_bits(
            crop_steps(h.height as nat),
        ) + rest))))
    } else {
        bits(0, 1) + rest
    }
}

proof fn lemma_frame_part(s: Seq<bool>, h: StreamHeader, rest: Seq<bool>)
    ensures
        sps_frame(s, h) + rest == s + frame_part(h, rest),
{
    reveal(frame_part);
    reveal(crop_part);
    let refs = h.max_num_ref_frames as nat;
    let w = (macroblocks(h.width as nat) - 1) as nat;
    let k = (macroblocks(h.height as nat) - 1) as nat;
    let s1 = ue(s, 4);
    let s2 = ue(s1, 0);
    let s3 = ue(s2, 4);
    let s4 = ue(s3, refs);
    let s5 = u(s4, 0, 1);
    let s6 = ue(s5, w);
    let s7 = ue(s6, k);
    let s8 = u(s7, 1, 1);
    let s9 = u(s8, 1, 1);
    if h.width % 16 != 0 || h.height % 16 != 0 {
        let cw = crop_steps(h.width as nat);
        let ch = crop_steps(h.height as nat);
        let c1 = u(s9, 1, 1);
        let c2 = ue(c1, 0);
        let c3 = ue(c2, cw);
        let c4 = ue(c3, 0);
        let q4 = ue_bits(ch) + rest;
        let q3 = ue_bits(0) + q4;
        let q2 = ue_bits(cw) + q3;
        let q1 = ue_bits(0) + q2;
        lemma_cat(c4, ue_bits(ch), rest);
        lemma_cat(c3, ue_bits(0), q4);
        lemma_cat(c2, ue_bits(cw), q3);
        lemma_cat(c1, ue_bits(0), q2);
        lemma_cat(s9, bits(1, 1), q1);
        assert(sps_frame(s, h) + rest == s9 + crop_part(h, rest));
    } else {
        lemma_cat(s9, bits(0, 1), rest);
        assert(sps_frame(s, h) + rest == s9 + crop_part(h, rest));
    }
    let r9 = crop_part(h, rest);
    let r8 = bits(1, 1) + r9;
    let r7 = bits(1, 1) + r8;
    let r6 = ue_bits(k) + r7;
    let r5 = ue_bits(w) + r6;
    let r4 = bits(0, 1) + r5;
    let r3 = ue_bits(refs) + r4;
    let r2 = ue_bits(4) + r3;
    let r1 = ue_bits(0) + r2;
    lemma_cat(s8, bits(1, 1), r9);
    lemma_cat(s7, bits(1, 1), r8);
    lemma_cat(s6, ue_bits(k), r7);
    lemma_cat(s5, ue_bits(w), r6);
    lemma_cat(s4, bits(0, 1), r5);
    lemma_cat(s3, ue_bits(refs), r4);
    lemma_cat(s2, ue_bits(4), r3);
    lemma_cat(s1, ue_bits(0), r2);
    lemma_cat(s, ue_bits(4), r1);
}

/// The part of a sequence parameter set from its number to the counters, and what
/// follows.
#[verifier::opaque]
spec fn chroma_part(h: StreamHeader, rest: Seq<bool>) -> Seq<bool> {
    ue_bits(0) + if h.high_profile {
        ue_bits(1) + (ue_bits(0) + (ue_bits(0) + (bits(0, 1) + (bits(0, 1) + rest))))
    } else {
        rest
    }
}

proof fn lemma_profile_part(s: Seq<bool>, h: StreamHeader, rest: Seq<bool>)
    ensures
        ({
            let idc = if h.high_profile {
                PROFILE_IDC_HIGH as nat
            } else {
                PROFILE_IDC_MAIN as nat
            };
            sps_profile(s, h) + rest == s + (bits(idc, 8) + (bits(0, 8) + (bits(
                h.level_idc as nat,
                8,
            ) + chroma_part(h, rest))))
        }),
{
    reveal(chroma_part);
    let idc = if h.high_profile {
        PROFILE_IDC_HIGH as nat
    } else {
        PROFILE_IDC_MAIN as nat
    };
    let level = h.level_idc as nat;
    let s1 = u(s, idc, 8);
    let s2 = u(s1, 0, 8);
    let s3 = u(s2, level, 8);
    let s4 = ue(s3, 0);
    if h.high_profile {
        let c1 = ue(s4, 1);
        let c2 = ue(c1, 0);
        let c3 = ue(c2, 0);
        let c4 = u(c3, 0, 1);
        let q4 = bits(0, 1) + rest;
        let q3 = bits(0, 1) + q4;
        let q2 = ue_bits(0) + q3;
        let q1 = ue_bits(0) + q2;
        lemma_cat(c4, bits(0, 1), rest);
        lemma_cat(c3, bits(0, 1), q4);
        lemma_cat(c2, ue_bits(0), q3);
        lemma_cat(c1, ue_bits(0), q2);
        lemma_cat(s4, ue_bits(1), q1);
        lemma_cat(s3, ue_bits(0), ue_bits(1) + q1);
    } else {
        lemma_cat(s3, ue_bits(0), rest);
    }
    let r3 = chroma_part(h, rest);
    assert(sps_profile(s, h) + rest == s3 + r3);
    let r2 = bits(level, 8) + r3;
    let r1 = bits(0, 8) + r2;
    lemma_cat(s2, bits(level, 8), r3);
    lemma_cat(s1, bits(0, 8), r2);
    lemma_cat(s, bits(idc, 8), r1);
}

proof fn lemma_read_crop(h: StreamHeader, rest: Seq<bool>)
    ensures
        ({
            let e = crop_part(h, rest);
            let left = e.skip(1);
            let right = behind(left);
            let top = behind(right);
            let bottom = behind(top);
            &&& e.len() > 0
            &&& e[0] == (h.width % 16 != 0 || h.height % 16 != 0)
            &&& e[0] ==> front(left) == 0 && front(right) == crop_steps(h.width as nat) && front(
                top,
            ) == 0 && front(bottom) == crop_steps(h.height as nat)
        }),
{
    reveal(crop_part);
    reveal_with_fuel(bits, 2);
    if h.width % 16 != 0 || h.height % 16 != 0 {
        let q5 = rest;
        let q4 = ue_bits(crop_steps(h.height as nat)) + q5;
        let q3 = ue_bits(0) + q4;
        let q2 = ue_bits(crop_steps(h.width as nat)) + q3;
        let q1 = ue_bits(0) + q2;
        lemma_bits_len(1, 1);
        assert((bits(1, 1) + q1).skip(1) =~= q1);
        lemma_read_code(0, q2);
        lemma_read_code(crop_steps(h.width as nat), q3);
        lemma_read_code(0, q4);
        lemma_read_code(crop_steps(h.height as nat), q5);
    } else {
        lemma_bits_len(0, 1);
    }
}

/// The profile number of a stream.
spec fn profile_idc(h: StreamHeader) -> nat {
    if h.high_profile {
        PROFILE_IDC_HIGH as nat
    } else {
        PROFILE_IDC_MAIN as nat
    }
}

/// A sequence parameter set is its header, profile and level, and then the parts
/// that are read one after the other.
proof fn lemma_sps_shape(h: StreamHeader) -> (rest: Seq<bool>)
    ensures
        sps_bits(h) == nal_header(7) + (bits(profile_idc(h), 8) + (bits(0, 8) + (bits(
            h.level_idc as nat,
            8,
        ) + chroma_part(h, frame_part(h, rest))))),
{
    broadcast use lemma_still_prefix;

    reveal(sps_bits);
    let s = sps_bits(h);
    let nal = nal_header(7);
    let s1 = sps_profile(nal, h);
    let s2 = sps_frame(s1, h);
    assert(s2.is_prefix_of(s2)) by {
        assert(s2 =~= s2.take(s2.len() as int));
    }
    assert(s2.is_prefix_of(sps_vui(s2, h)));
    assert(s2.is_prefix_of(s));
    lemma_rest(s2, s);
    let rest = s.skip(s2.len() as int);
    lemma_frame_part(s1, h, rest);
    lemma_profile_part(nal, h, frame_part(h, rest));
    rest
}

proof fn lemma_read_start(s: Seq<bool>, h: StreamHeader, chroma: Seq<bool>)
    requires
        s == nal_header(7) + (bits(profile_idc(h), 8) + (bits(0, 8) + (bits(
            h.level_idc as nat,
            8,
        ) + chroma))),
    ensures
        value_of(s.subrange(8, 16)) == profile_idc(h),
        s.skip(32) == chroma,
{
    lemma_bits_len(0, 1);
    lemma_bits_len(3, 2);
    lemma_bits_len(7, 5);
    lemma_bits_len(profile_idc(h), 8);
    lemma_bits_len(0, 8);
    lemma_bits_len(h.level_idc as nat, 8);
    assert(s.subrange(8, 16) =~= bits(profile_idc(h), 8));
    assert(s.skip(32) =~= chroma);
    lemma_byte(profile_idc(h));
    lemma_value_of_bits(profile_idc(h), 8);
}

proof fn lemma_read_chroma(h: StreamHeader, frame: Seq<bool>)
    ensures
        ({
            let a = behind(chroma_part(h, frame));
            if h.high_profile {
                behind(behind(behind(a))).skip(2) == frame
            } else {
                a == frame
            }
        }),
{
    reveal(chroma_part);
    if h.high_profile {
        let q5 = bits(0, 1) + (bits(0, 1) + frame);
        let q4 = ue_bits(0) + q5;
        let q3 = ue_bits(0) + q4;
        let q2 = ue_bits(1) + q3;
        lemma_read_code(0, q2);
        lemma_read_code(1, q3);
        lemma_read_code(0, q4);
        lemma_read_code(0, q5);
        lemma_bits_len(0, 1);
        assert(q5.skip(2) =~= frame);
    } else {
        lemma_read_code(0, frame);
    }
}

proof fn lemma_read_frame(h: StreamHeader, rest: Seq<bool>)
    ensures
        ({
            let c = behind(behind(behind(behind(frame_part(h, rest))))).skip(1);
            let d = behind(c);
            &&& front(c) == (macroblocks(h.width as nat) - 1) as nat
            &&& front(d) == (macroblocks(h.height as nat) - 1) as nat
            &&& behind(d).skip(2) == crop_part(h, rest)
        }),
{
    reveal(frame_part);
    let refs = h.max_num_ref_frames as nat;
    let w = (macroblocks(h.width as nat) - 1) as nat;
    let k = (macroblocks(h.height as nat) - 1) as nat;
    let e = crop_part(h, rest);
    let r7 = bits(1, 1) + (bits(1, 1) + e);
    let r6 = ue_bits(k) + r7;
    let r5 = ue_bits(w) + r6;
    let r4 = bits(0, 1) + r5;
    let r3 = ue_bits(refs) + r4;
    let r2 = ue_bits(4) + r3;
    let r1 = ue_bits(0) + r2;
    lemma_read_code(4, r1);
    lemma_read_code(0, r2);
    lemma_read_code(4, r3);
    lemma_read_code(refs, r4);
    lemma_bits_len(0, 1);
    assert(r4.skip(1) =~= r5);
    lemma_read_code(w, r6);
    lemma_read_code(k, r7);
    lemma_bits_len(1, 1);
    assert(r7.skip(2) =~= e);
}

/// A sequence parameter set tells the decoder the size of the pictures, for every
/// even size.
pub proof fn the_picture_size_is_read_back(h: StreamHeader)
    requires
        h.width > 0,
        h.height > 0,
        h.width % 2 == 0,
        h.height % 2 == 0,
    ensures
        read_size(sps_bits(h)) == (h.width as int, h.height as int),
{
    let rest = lemma_sps_shape(h);
    let frame = frame_part(h, rest);
    lemma_read_start(sps_bits(h), h, chroma_part(h, frame));
    lemma_read_chroma(h, frame);
    lemma_read_frame(h, rest);
    lemma_read_crop(h, rest);
    cropping_restores_the_picture_size(h.width as nat);
    cropping_restores_the_picture_size(h.height as nat);
}

} // verus!
