//! Reading of H.264 byte streams.
use vstd::prelude::*;

use super::headers::start_code;

verus! {

/// `nal_unit_type` of a sequence parameter set.
pub const NAL_TYPE_SPS: u8 = 7;

/// `nal_unit_type` of a picture parameter set.
pub const NAL_TYPE_PPS: u8 = 8;

/// Whether a three-byte start code stands at `i`.
pub open spec fn is_start_code(d: Seq<u8>, i: int) -> bool {
    0 <= i && i + 3 <= d.len() && d[i] == 0 && d[i + 1] == 0 && d[i + 2] == 1
}

/// The first start code at or behind `from`; the end of the stream where there
/// is none.
pub open spec fn next_start(d: Seq<u8>, from: int) -> int
    decreases d.len() - from,
{
    if from >= d.len() {
        d.len() as int
    } else if is_start_code(d, from) {
        from
    } else {
        next_start(d, from + 1)
    }
}

/// Where a unit ends that is followed by the start code at `next`: a zero byte
/// before it belongs to a four-byte start code.
pub open spec fn unit_end(d: Seq<u8>, next: int) -> int {
    if 0 < next < d.len() && d[next - 1] == 0 {
        next - 1
    } else {
        next
    }
}

/// The type of the NAL unit that starts with `byte`.
pub open spec fn nal_type(byte: u8) -> int {
    byte as int % 32
}

/// The units from `from` on, each without its start code.
pub open spec fn units(d: Seq<u8>, from: int) -> Seq<Seq<u8>>
    decreases d.len() - from,
{
    let i = next_start(d, from);
    let next = next_start(d, i + 3);
    if 0 <= from <= i && i + 3 <= next <= d.len() {
        seq![d.subrange(i + 3, unit_end(d, next))] + units(d, next)
    } else {
        seq![]
    }
}

/// Whether `unit` is of type `t`.
pub open spec fn has_type(unit: Seq<u8>, t: u8) -> bool {
    unit.len() > 0 && nal_type(unit[0]) == t
}

/// Whether one of `list` is of type `t`.
pub open spec fn any_of_type(list: Seq<Seq<u8>>, t: u8) -> bool {
    exists|i: int| 0 <= i < list.len() && has_type(#[trigger] list[i], t)
}

/// The parameter sets among `list`, each behind a four-byte start code.
pub open spec fn parameter_stream(list: Seq<Seq<u8>>) -> Seq<u8>
    decreases list.len(),
{
    if list.len() == 0 {
        seq![]
    } else if has_type(list[0], NAL_TYPE_SPS) || has_type(list[0], NAL_TYPE_PPS) {
        start_code() + list[0] + parameter_stream(list.skip(1))
    } else {
        parameter_stream(list.skip(1))
    }
}

/// The parameter sets of the stream `d`, where it holds both kinds.
pub open spec fn sps_pps_of(d: Seq<u8>) -> Option<Seq<u8>> {
    let list = units(d, 0);
    if any_of_type(list, NAL_TYPE_SPS) && any_of_type(list, NAL_TYPE_PPS) {
        Some(parameter_stream(list))
    } else {
        None
    }
}

proof fn lemma_next_start(d: Seq<u8>, from: int)
    requires
        0 <= from <= d.len(),
    ensures
        from <= next_start(d, from) <= d.len(),
        next_start(d, from) < d.len() ==> is_start_code(d, next_start(d, from)),
    decreases d.len() - from,
{
    if from < d.len() && !is_start_code(d, from) {
        lemma_next_start(d, from + 1);
    }
}

fn find_start(d: &[u8], from: usize) -> (i: usize)
    requires
        from <= d.len(),
    ensures
        i == next_start(d@, from as int),
        from <= i <= d.len(),
        i < d.len() ==> is_start_code(d@, i as int),
{
    let mut i: usize = from;
    while i < d.len()
        invariant_except_break
            next_start(d@, from as int) == next_start(d@, i as int),
        invariant
            from <= i <= d.len(),
        ensures
            i == next_start(d@, from as int),
        decreases d.len() - i,
    {
        if d.len() - i >= 3 && d[i] == 0 && d[i + 1] == 0 && d[i + 2] == 1 {
            break ;
        }
        i = i + 1;
    }
    proof {
        lemma_next_start(d@, from as int);
    }
    i
}

/// Copies the parameter sets out of a byte stream, each behind a four-byte
/// start code. There is nothing to copy unless both kinds are present.
pub fn extract_sps_pps(data: &[u8]) -> (r: Option<Vec<u8>>)
    ensures
        match r {
            Some(v) => sps_pps_of(data@) == Some(v@),
            None => sps_pps_of(data@) is None,
        },
{
    let mut out: Vec<u8> = Vec::new();
    let mut has_sps: bool = false;
    let mut has_pps: bool = false;
    let mut pos: usize = 0;
    let ghost all = units(data@, 0);
    assert(out@ + parameter_stream(all) =~= parameter_stream(all));
    loop
        invariant
            pos <= data.len(),
            all == units(data@, 0),
            parameter_stream(all) == out@ + parameter_stream(units(data@, pos as int)),
            any_of_type(all, NAL_TYPE_SPS) <==> has_sps || any_of_type(
                units(data@, pos as int),
                NAL_TYPE_SPS,
            ),
            any_of_type(all, NAL_TYPE_PPS) <==> has_pps || any_of_type(
                units(data@, pos as int),
                NAL_TYPE_PPS,
            ),
        ensures
            parameter_stream(all) == out@,
            any_of_type(all, NAL_TYPE_SPS) <==> has_sps,
            any_of_type(all, NAL_TYPE_PPS) <==> has_pps,
        decreases data.len() - pos,
    {
        let start: usize = find_start(data, pos);
        let ghost list = units(data@, pos as int);
        if start >= data.len() {
            assert(next_start(data@, start + 3) == data.len());
            assert(list.len() == 0);
            assert(out@ + parameter_stream(list) =~= out@);
            break ;
        }
        let body: usize = start + 3;
        let next: usize = find_start(data, body);
        let end: usize = if next < data.len() && data[next - 1] == 0 {
            next - 1
        } else {
            next
        };
        let ghost unit = data@.subrange(body as int, end as int);
        let ghost rest = units(data@, next as int);
        let ghost before = out@;
        proof {
            assert(list == seq![unit] + rest);
            assert(list[0] == unit);
            assert(list.skip(1) =~= rest);
            lemma_any_of_type_step(unit, rest, NAL_TYPE_SPS);
            lemma_any_of_type_step(unit, rest, NAL_TYPE_PPS);
        }
        if body < end {
            let kind: u8 = data[body] % 32;
            if kind == NAL_TYPE_SPS {
                has_sps = true;
            }
            if kind == NAL_TYPE_PPS {
                has_pps = true;
            }
            if kind == NAL_TYPE_SPS || kind == NAL_TYPE_PPS {
                push_unit_bytes(&mut out, data, body, end);
                assert(out@ + parameter_stream(rest) =~= before + parameter_stream(list));
            }
        }
        pos = next;
    }
    if has_sps && has_pps {
        Some(out)
    } else {
        None
    }
}

fn push_unit_bytes(out: &mut Vec<u8>, data: &[u8], from: usize, to: usize)
    requires
        from <= to <= data.len(),
    ensures
        final(out)@ == old(out)@ + (start_code() + data@.subrange(from as int, to as int)),
{
    out.push(0);
    out.push(0);
    out.push(0);
    out.push(1);
    let mut i: usize = from;
    assert(out@ =~= old(out)@ + (start_code() + data@.subrange(from as int, from as int)));
    while i < to
        invariant
            from <= i <= to <= data.len(),
            out@ == old(out)@ + (start_code() + data@.subrange(from as int, i as int)),
        decreases to - i,
    {
        out.push(data[i]);
        i = i + 1;
        assert(out@ =~= old(out)@ + (start_code() + data@.subrange(from as int, i as int)));
    }
}

proof fn lemma_any_of_type_step(unit: Seq<u8>, rest: Seq<Seq<u8>>, t: u8)
    ensures
        any_of_type(seq![unit] + rest, t) <==> has_type(unit, t) || any_of_type(rest, t),
{
    let list = seq![unit] + rest;
    if has_type(unit, t) {
        assert(has_type(list[0], t));
    }
    if any_of_type(rest, t) {
        let i = choose|i: int| 0 <= i < rest.len() && has_type(#[trigger] rest[i], t);
        assert(has_type(list[i + 1], t));
    }
    if any_of_type(list, t) {
        let i = choose|i: int| 0 <= i < list.len() && has_type(#[trigger] list[i], t);
        if i > 0 {
            assert(has_type(rest[i - 1], t));
        }
    }
}

/// A unit as it may stand in a stream: not empty, without a start code inside, and not
/// ending in a zero byte.
pub open spec fn is_plain_unit(unit: Seq<u8>) -> bool {
    &&& unit.len() > 0
    &&& unit.last() != 0
    &&& forall|i: int| 0 <= i && i + 2 < unit.len() ==> !(#[trigger] unit[i] == 0 && unit[i + 1]
        == 0 && unit[i + 2] == 1)
}

/// The stream of units, each behind a four-byte start code.
pub open spec fn stream_of(list: Seq<Seq<u8>>) -> Seq<u8>
    decreases list.len(),
{
    if list.len() == 0 {
        seq![]
    } else {
        seq![0u8, 0u8, 0u8, 1u8] + list[0] + stream_of(list.skip(1))
    }
}

/// Whether a unit is a parameter set, by the low five bits of its first byte.
pub open spec fn is_parameter_set(unit: Seq<u8>) -> bool {
    unit.len() > 0 && (unit[0] as int % 32 == 7 || unit[0] as int % 32 == 8)
}

/// The parameter sets among units, in order.
pub open spec fn parameter_sets_among(list: Seq<Seq<u8>>) -> Seq<Seq<u8>>
    decreases list.len(),
{
    if list.len() == 0 {
        seq![]
    } else if is_parameter_set(list[0]) {
        seq![list[0]] + parameter_sets_among(list.skip(1))
    } else {
        parameter_sets_among(list.skip(1))
    }
}

proof fn lemma_next_start_at(d: Seq<u8>, from: int, at: int)
    requires
        0 <= from <= at <= d.len(),
        at < d.len() ==> is_start_code(d, at),
        forall|i: int| from <= i < at ==> !is_start_code(d, i),
    ensures
        next_start(d, from) == at,
    decreases at - from,
{
    if from < at {
        assert(!is_start_code(d, from));
        lemma_next_start_at(d, from + 1, at);
    }
}

/// Where the units behind `done` begin: at the three-byte part of their start code.
proof fn lemma_units_of_stream(done: Seq<u8>, list: Seq<Seq<u8>>)
    requires
        forall|i: int| 0 <= i < list.len() ==> is_plain_unit(#[trigger] list[i]),
    ensures
        list.len() > 0 ==> units(done + stream_of(list), done.len() as int + 1) == list,
    decreases list.len(),
{
    if list.len() > 0 {
        let unit = list[0];
        let rest = list.skip(1);
        let head = seq![0u8, 0u8, 0u8, 1u8] + unit;
        let so_far = done + head;
        let d = done + stream_of(list);
        let n = done.len() as int;
        let m = so_far.len() as int;
        assert(is_plain_unit(unit));
        assert forall|i: int| 0 <= i < rest.len() implies is_plain_unit(#[trigger] rest[i]) by {
            assert(is_plain_unit(list[i + 1]));
        }
        assert(d =~= so_far + stream_of(rest));
        lemma_units_of_stream(so_far, rest);
        assert(forall|i: int| 0 <= i < m ==> d[i] == so_far[i]);
        assert(forall|i: int| 0 <= i < unit.len() ==> #[trigger] d[n + 4 + i] == unit[i]);
        assert(d[n] == 0 && d[n + 1] == 0 && d[n + 2] == 0 && d[n + 3] == 1);
        assert(is_start_code(d, n + 1));
        assert(d[m - 1] == unit.last());
        if rest.len() > 0 {
            let tail = stream_of(rest);
            assert(tail[0] == 0 && tail[1] == 0 && tail[2] == 0 && tail[3] == 1);
            assert(d[m] == tail[0] && d[m + 1] == tail[1] && d[m + 2] == tail[2] && d[m + 3]
                == tail[3]);
            assert(is_start_code(d, m + 1));
            assert forall|i: int| n + 4 <= i < m + 1 implies !is_start_code(d, i) by {
                if i + 2 < m {
                    lemma_no_code_inside(unit, i - n - 4);
                    assert(d[i] == unit[i - n - 4] && d[n + 4 + (i - n - 4) + 1] == unit[i - n - 4
                        + 1] && d[n + 4 + (i - n - 4) + 2] == unit[i - n - 4 + 2]);
                }
            }
            lemma_next_start_at(d, n + 4, m + 1);
            assert(unit_end(d, m + 1) == m);
            assert(d.subrange(n + 4, m) =~= unit);
            assert(units(d, n + 1) == seq![unit] + units(d, m + 1));
            assert(seq![unit] + rest =~= list);
        } else {
            assert(stream_of(rest) =~= Seq::<u8>::empty());
            assert(d.len() == m);
            assert forall|i: int| n + 4 <= i < m implies !is_start_code(d, i) by {
                if i + 2 < m {
                    lemma_no_code_inside(unit, i - n - 4);
                    assert(d[i] == unit[i - n - 4] && d[n + 4 + (i - n - 4) + 1] == unit[i - n - 4
                        + 1] && d[n + 4 + (i - n - 4) + 2] == unit[i - n - 4 + 2]);
                }
            }
            lemma_next_start_at(d, n + 4, m);
            assert(d.subrange(n + 4, m) =~= unit);
            assert(next_start(d, m) == m);
            assert(next_start(d, m + 3) == m);
            assert(units(d, m) =~= Seq::<Seq<u8>>::empty());
            assert(units(d, n + 1) == seq![unit] + units(d, m));
            assert(seq![unit] + units(d, m) =~= list);
        }
    }
}

proof fn lemma_no_code_inside(unit: Seq<u8>, i: int)
    requires
        is_plain_unit(unit),
        0 <= i,
        i + 2 < unit.len(),
    ensures
        !(unit[i] == 0 && unit[i + 1] == 0 && unit[i + 2] == 1),
{
}

proof fn lemma_parameter_stream(list: Seq<Seq<u8>>)
    ensures
        parameter_stream(list) == stream_of(parameter_sets_among(list)),
    decreases list.len(),
{
    if list.len() > 0 {
        let rest = list.skip(1);
        lemma_parameter_stream(rest);
        if is_parameter_set(list[0]) {
            let sets = parameter_sets_among(list);
            assert(sets.skip(1) =~= parameter_sets_among(rest));
            assert(start_code() =~= seq![0u8, 0u8, 0u8, 1u8]);
        }
    }
}

/// A stream of units is cut where its start codes are, and its parameter sets, all of
/// them and nothing else, are given as a stream of their own, provided that there is at
/// least one of either kind.
pub proof fn parameter_sets_are_cut_out(list: Seq<Seq<u8>>)
    requires
        list.len() > 0,
        forall|i: int| 0 <= i < list.len() ==> is_plain_unit(#[trigger] list[i]),
    ensures
        ({
            let has_sps = exists|i: int|
                0 <= i < list.len() && (#[trigger] list[i])[0] as int % 32 == 7;
            let has_pps = exists|i: int|
                0 <= i < list.len() && (#[trigger] list[i])[0] as int % 32 == 8;
            sps_pps_of(stream_of(list)) == if has_sps && has_pps {
                Some(stream_of(parameter_sets_among(list)))
            } else {
                None
            }
        }),
{
    let d = stream_of(list);
    let nothing = Seq::<u8>::empty();
    assert(nothing + d =~= d);
    lemma_units_of_stream(nothing, list);
    assert(d[0] == 0 && d[1] == 0 && d[2] == 0 && d[3] == 1);
    assert(!is_start_code(d, 0));
    assert(is_start_code(d, 1));
    assert(next_start(d, 0) == next_start(d, 1));
    assert(next_start(d, 1) == 1);
    assert(units(d, 0) == units(d, 1));
    lemma_parameter_stream(list);
    assert forall|i: int| 0 <= i < list.len() implies has_type(#[trigger] list[i], 7) == (
    list[i][0] as int % 32 == 7) && has_type(list[i], 8) == (list[i][0] as int % 32 == 8) by {
        assert(is_plain_unit(list[i]));
    }
    if any_of_type(list, NAL_TYPE_SPS) {
        let i = choose|i: int| 0 <= i < list.len() && has_type(#[trigger] list[i], NAL_TYPE_SPS);
        assert(list[i][0] as int % 32 == 7);
    }
    if any_of_type(list, NAL_TYPE_PPS) {
        let i = choose|i: int| 0 <= i < list.len() && has_type(#[trigger] list[i], NAL_TYPE_PPS);
        assert(list[i][0] as int % 32 == 8);
    }
}

} // verus!
