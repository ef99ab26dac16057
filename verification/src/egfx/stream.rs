//! What holds of the encoded stream from frame to frame.
use vstd::prelude::*;

use super::bits::{
    bits, escape, escaped_payload_holds_no_start_code, lemma_bits_len, pack, pad, value_of,
};
use super::h264::{
    has_type, is_start_code, nal_type, next_start, sps_pps_of, unit_end, units, NAL_TYPE_PPS,
    NAL_TYPE_SPS,
};
use super::headers::{
    annex_b, nal_header, pps_bits, sps_bits, sps_frame, sps_profile, sps_vui, start_code,
    StreamHeader,
};
use super::reference::VaapiReferenceMode;
use super::vaapi::{
    bytes, DriverReport, EncodeStage, EncoderSettings, SubmitOutcome, VaapiEncoder, VaapiError,
    IDR_INTERVAL,
};

verus! {

broadcast proof fn lemma_append_keeps_first_byte(s: Seq<bool>, x: Seq<bool>)
    requires
        s.len() >= 8,
    ensures
        (#[trigger] (s + x)).take(8) == s.take(8),
        (s + x).len() >= 8,
{
    assert((s + x).take(8) =~= s.take(8));
}

proof fn lemma_nal_header(t: nat)
    requires
        t < 32,
    ensures
        nal_header(t).len() == 8,
        value_of(nal_header(t)) == 96 + t,
{
    lemma_bits_len(0, 1);
    lemma_bits_len(3, 2);
    lemma_bits_len(t, 5);
    reveal_with_fuel(bits, 6);
    reveal_with_fuel(value_of, 9);
    let s = nal_header(t);
    let b = bits(t, 5);
    assert(s[0] == false && s[1] == true && s[2] == true);
    assert(forall|i: int| 0 <= i < 5 ==> s[3 + i] == b[i]);
    assert(b[4] == (t % 2 == 1));
    assert(b[3] == (t / 2 % 2 == 1));
    assert(b[2] == (t / 2 / 2 % 2 == 1));
    assert(b[1] == (t / 2 / 2 / 2 % 2 == 1));
    assert(b[0] == (t / 2 / 2 / 2 / 2 % 2 == 1));
}

proof fn lemma_first_packed_byte(s: Seq<bool>)
    requires
        s.len() >= 8,
        s.len() % 8 == 0,
    ensures
        pack(s).len() > 0,
        pack(s)[0] == value_of(s.take(8)) as u8,
    decreases s.len(),
{
    if s.len() == 8 {
        assert(s.take(0) =~= Seq::<bool>::empty());
        assert(pack(s.take(0)) =~= Seq::<u8>::empty());
        assert(s.skip(0) =~= s.take(8));
    } else {
        let front = s.take(s.len() - 8);
        lemma_first_packed_byte(front);
        assert(front.take(8) =~= s.take(8));
    }
}

proof fn lemma_escape_keeps_first_byte(payload: Seq<u8>)
    requires
        payload.len() > 0,
    ensures
        escape(payload).len() > 0,
        escape(payload)[0] == payload[0],
    decreases payload.len(),
{
    if payload.len() > 1 {
        lemma_escape_keeps_first_byte(payload.drop_last());
    } else {
        assert(payload.drop_last() =~= Seq::<u8>::empty());
        assert(escape(payload.drop_last()) =~= Seq::<u8>::empty());
    }
}

/// A unit in a byte stream: the start code, then the unit's header byte, and no
/// start code behind it.
spec fn is_coded_unit(unit: Seq<u8>, t: int) -> bool {
    &&& unit.len() >= 5
    &&& unit.take(4) == start_code()
    &&& unit[4] == 96 + t
    &&& forall|i: int|
        4 <= i && i + 2 < unit.len() ==> !(#[trigger] unit[i] == 0 && unit[i + 1] == 0 && unit[i
            + 2] <= 2)
}

proof fn lemma_annex_b_unit(unit: Seq<bool>, t: nat)
    requires
        t < 32,
        unit.len() >= 8,
        unit.take(8) == nal_header(t),
    ensures
        is_coded_unit(annex_b(unit), t as int),
{
    broadcast use lemma_append_keeps_first_byte;

    let payload = pack(pad(unit));
    lemma_nal_header(t);
    lemma_first_packed_byte(pad(unit));
    lemma_escape_keeps_first_byte(payload);
    let coded = annex_b(unit);
    assert(coded.take(4) =~= start_code());
    assert forall|i: int| 4 <= i && i + 2 < coded.len() implies !(#[trigger] coded[i] == 0
        && coded[i + 1] == 0 && coded[i + 2] <= 2) by {
        escaped_payload_holds_no_start_code(payload, i - 4);
    }
}

proof fn lemma_sps_starts(h: StreamHeader)
    ensures
        sps_bits(h).len() >= 8,
        sps_bits(h).take(8) == nal_header(7),
{
    broadcast use lemma_append_keeps_first_byte;

    reveal(sps_bits);
    lemma_nal_header(7);
    let s0 = nal_header(7);
    assert(s0.take(8) =~= s0);
    let s1 = sps_profile(s0, h);
    assert(s1.len() >= 8 && s1.take(8) == s0);
    let s2 = sps_frame(s1, h);
    assert(s2.len() >= 8 && s2.take(8) == s0);
    let s3 = sps_vui(s2, h);
    assert(s3.len() >= 8 && s3.take(8) == s0);
}

proof fn lemma_pps_starts(h: StreamHeader)
    ensures
        pps_bits(h).len() >= 8,
        pps_bits(h).take(8) == nal_header(8),
{
    broadcast use lemma_append_keeps_first_byte;

    reveal(pps_bits);
    lemma_nal_header(8);
    assert(nal_header(8).take(8) =~= nal_header(8));
}

proof fn lemma_next_start_is(d: Seq<u8>, from: int, at: int)
    requires
        0 <= from <= at,
        is_start_code(d, at),
        forall|i: int| from <= i < at ==> !is_start_code(d, i),
    ensures
        next_start(d, from) == at,
    decreases at - from,
{
    if from < at {
        assert(!is_start_code(d, from));
        lemma_next_start_is(d, from + 1, at);
    }
}

proof fn lemma_next_start_range(d: Seq<u8>, from: int)
    requires
        0 <= from <= d.len(),
    ensures
        from <= next_start(d, from) <= d.len(),
    decreases d.len() - from,
{
    if from < d.len() && !is_start_code(d, from) {
        lemma_next_start_range(d, from + 1);
    }
}

proof fn lemma_first_unit(d: Seq<u8>, from: int, t: int)
    requires
        0 <= from,
        from + 3 < d.len(),
        is_start_code(d, from),
        d[from + 3] == 96 + t,
        0 <= t < 32,
    ensures
        units(d, from).len() > 0,
        units(d, from)[0].len() > 0,
        nal_type(units(d, from)[0][0]) == t,
        units(d, from).skip(1) == units(d, next_start(d, from + 3)),
{
    assert(next_start(d, from) == from);
    let next = next_start(d, from + 3);
    lemma_next_start_range(d, from + 4);
    assert(!is_start_code(d, from + 3));
    assert(next >= from + 4);
    let list = units(d, from);
    assert(list == seq![d.subrange(from + 3, unit_end(d, next))] + units(d, next));
    assert(list.skip(1) =~= units(d, next));
}

proof fn lemma_pair_is_found(sps: Seq<u8>, pps: Seq<u8>, rest: Seq<u8>)
    requires
        is_coded_unit(sps, 7),
        is_coded_unit(pps, 8),
    ensures
        sps_pps_of(sps + pps + rest) is Some,
{
    let d = sps + pps + rest;
    let n = sps.len() as int;
    assert(sps.take(4)[0] == 0 && sps.take(4)[1] == 0 && sps.take(4)[2] == 0 && sps.take(4)[3]
        == 1);
    assert(pps.take(4)[0] == 0 && pps.take(4)[1] == 0 && pps.take(4)[2] == 0 && pps.take(4)[3]
        == 1);
    assert(forall|i: int| 0 <= i < n ==> d[i] == sps[i]);
    assert(forall|i: int| 0 <= i < pps.len() ==> #[trigger] d[n + i] == pps[i]);
    assert(d[n] == 0 && d[n + 1] == 0 && d[n + 2] == 0 && d[n + 3] == 1);
    assert(d[n + 4] == pps[4]);
    assert(!is_start_code(d, 0));
    lemma_next_start_is(d, 0, 1);
    lemma_next_start_is(d, 1, 1);
    assert forall|i: int| 4 <= i < n + 1 implies !is_start_code(d, i) by {
        if i + 2 < n {
            assert(!(sps[i] == 0 && sps[i + 1] == 0 && sps[i + 2] <= 2));
        }
    }
    lemma_next_start_is(d, 4, n + 1);
    lemma_first_unit(d, 1, 7);
    lemma_first_unit(d, n + 1, 8);
    let list = units(d, 0);
    assert(units(d, 0) == units(d, 1));
    assert(list.skip(1) == units(d, n + 1));
    assert(has_type(list[0], NAL_TYPE_SPS));
    assert(list[1] == list.skip(1)[0]);
    assert(has_type(list[1], NAL_TYPE_PPS));
}

/// A stream that begins with an encoder's own parameter sets is found to hold
/// both kinds, whatever follows them.
pub proof fn own_parameter_sets_are_found(enc: VaapiEncoder, rest: Seq<u8>)
    ensures
        sps_pps_of(enc.sps_pps() + rest) is Some,
{
    lemma_sps_starts(enc.header());
    lemma_pps_starts(enc.header());
    lemma_annex_b_unit(sps_bits(enc.header()), 7);
    lemma_annex_b_unit(pps_bits(enc.header()), 8);
    lemma_pair_is_found(annex_b(sps_bits(enc.header())), annex_b(pps_bits(enc.header())), rest);
}

/// Every frame that starts a sequence holds the parameter sets that a decoder
/// needs, whether the driver wrote them or not.
pub proof fn every_idr_carries_parameter_sets(
    pre: VaapiEncoder,
    post: VaapiEncoder,
    outcome: SubmitOutcome,
    r: Result<Vec<u8>, VaapiError>,
)
    requires
        pre.frame_done(post, outcome, r),
        pre.idr_due(),
        r is Ok,
    ensures
        sps_pps_of(r->Ok_0@) is Some,
        post.cached_sps_pps is Some,
{
    let data = outcome->Coded_0@;
    own_parameter_sets_are_found(pre, data);
    if sps_pps_of(data) is Some {
        assert(r->Ok_0@ =~= data);
    }
    assert(bytes(post.cached_sps_pps) is Some);
}

/// Once parameter sets are known they stay known, and every later frame that
/// does not start a sequence begins with them.
pub proof fn known_parameter_sets_lead_every_frame(
    pre: VaapiEncoder,
    post: VaapiEncoder,
    outcome: SubmitOutcome,
    r: Result<Vec<u8>, VaapiError>,
)
    requires
        pre.frame_done(post, outcome, r),
        pre.cached_sps_pps is Some,
    ensures
        post.cached_sps_pps is Some,
        !pre.idr_due() && r is Ok ==> pre.cached_sps_pps->0@.is_prefix_of(r->Ok_0@),
        !pre.idr_due() ==> post.cached_sps_pps->0@ == pre.cached_sps_pps->0@,
{
    assert(bytes(post.cached_sps_pps) is Some);
    if !pre.idr_due() && r is Ok {
        let sets = pre.cached_sps_pps->0@;
        let data = outcome->Coded_0@;
        assert((sets + data).take(sets.len() as int) =~= sets);
    }
}

/// The first frame of an encoder starts a sequence.
pub proof fn a_fresh_encoder_starts_with_an_idr(
    enc: VaapiEncoder,
    settings: EncoderSettings,
    mode: VaapiReferenceMode,
    report: DriverReport,
)
    requires
        enc.is_fresh(settings, mode, report),
    ensures
        enc.idr_due(),
        enc.next_reference() is None,
{
}

/// After a coded frame, and unless asked for, a plain sequence starts anew
/// exactly at every thirtieth frame, and AVC444 pictures never do.
pub proof fn idr_cadence(
    pre: VaapiEncoder,
    post: VaapiEncoder,
    outcome: SubmitOutcome,
    r: Result<Vec<u8>, VaapiError>,
)
    requires
        pre.frame_done(post, outcome, r),
        r is Ok,
    ensures
        post.reference_mode == VaapiReferenceMode::Single ==> (post.idr_due() <==> (pre.frame_count
            + 1) % (IDR_INTERVAL as int) == 0),
        post.reference_mode == VaapiReferenceMode::Avc444Subframes ==> !post.idr_due(),
{
}

/// A frame that does not start a sequence refers to the frame coded before it,
/// and is coded into another surface than that one's.
pub proof fn a_frame_refers_to_the_one_before(
    pre: VaapiEncoder,
    post: VaapiEncoder,
    outcome: SubmitOutcome,
    r: Result<Vec<u8>, VaapiError>,
)
    requires
        pre.wf(),
        pre.recon_surfaces@.len() == 2,
        pre.recon_surfaces@.no_duplicates(),
        pre.frame_done(post, outcome, r),
        r is Ok,
        !post.idr_due(),
    ensures
        post.next_reference() == Some(pre.next_entry()),
        post.next_entry().surface_id != post.next_reference()->0.surface_id,
{
}

/// A frame that failed is not counted and does not use up a request for a new
/// sequence; unless it was rendered it is not referred to either.
pub proof fn a_failed_frame_is_not_counted(
    pre: VaapiEncoder,
    post: VaapiEncoder,
    outcome: SubmitOutcome,
    r: Result<Vec<u8>, VaapiError>,
)
    requires
        pre.frame_done(post, outcome, r),
        r is Err,
    ensures
        post.frame_count == pre.frame_count,
        post.idr_due() == pre.idr_due(),
        !outcome.passed(EncodeStage::Render) && !pre.idr_due() ==> post.next_reference()
            == pre.next_reference(),
{
}

} // verus!
