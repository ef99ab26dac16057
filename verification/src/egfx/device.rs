//! Choice of the render device and of the H.264 profile.
use vstd::prelude::*;

use crate::text::starts_with;

verus! {

/// The Main profile, as VA-API numbers it.
pub const VA_PROFILE_H264_MAIN: i32 = 6;

/// The High profile, as VA-API numbers it.
pub const VA_PROFILE_H264_HIGH: i32 = 7;

/// The slice encoder entry point, as VA-API numbers it.
pub const VA_ENTRYPOINT_ENC_SLICE: u32 = 6;

/// The H.264 profiles that are encoded to.
#[derive(Clone, Copy, Debug, PartialEq, Eq, Structural)]
pub enum H264Profile {
    High,
    Main,
}

/// What is found where the render devices are.
#[derive(Debug, PartialEq, Eq)]
pub enum DeviceDirectory {
    Missing,
    Unreadable,
    /// The names of the entries.
    Entries(Vec<String>),
}

/// Why no render device was chosen.
#[derive(Clone, Copy, Debug, PartialEq, Eq, Structural)]
pub enum DeviceError {
    /// There is no device directory.
    NoDirectory,
    UnreadableDirectory,
    NoRenderDevices,
    NoEncodeSupport { checked: usize },
}

impl H264Profile {
    /// The profile's VA-API number.
    pub open spec fn number(self) -> i32 {
        match self {
            H264Profile::High => VA_PROFILE_H264_HIGH,
            H264Profile::Main => VA_PROFILE_H264_MAIN,
        }
    }

    /// The profile's VA-API number.
    pub fn va_profile(self) -> (r: i32)
        ensures
            r == self.number(),
    {
        match self {
            H264Profile::High => VA_PROFILE_H264_HIGH,
            H264Profile::Main => VA_PROFILE_H264_MAIN,
        }
    }
}

/// High where the driver lists it, else Main.
pub open spec fn best_profile(profiles: Seq<i32>) -> Option<H264Profile> {
    if profiles.contains(VA_PROFILE_H264_HIGH) {
        Some(H264Profile::High)
    } else if profiles.contains(VA_PROFILE_H264_MAIN) {
        Some(H264Profile::Main)
    } else {
        None
    }
}

fn lists_profile(profiles: &[i32], wanted: i32) -> (r: bool)
    ensures
        r == profiles@.contains(wanted),
{
    let mut i: usize = 0;
    while i < profiles.len()
        invariant
            i <= profiles.len(),
            forall|j: int| 0 <= j < i ==> profiles@[j] != wanted,
        decreases profiles.len() - i,
    {
        if profiles[i] == wanted {
            return true;
        }
        i = i + 1;
    }
    false
}

/// Whether the driver can encode slices.
pub fn can_encode_slices(entrypoints: &[u32]) -> (r: bool)
    ensures
        r == entrypoints@.contains(VA_ENTRYPOINT_ENC_SLICE),
{
    let mut i: usize = 0;
    while i < entrypoints.len()
        invariant
            i <= entrypoints.len(),
            forall|j: int| 0 <= j < i ==> entrypoints@[j] != VA_ENTRYPOINT_ENC_SLICE,
        decreases entrypoints.len() - i,
    {
        if entrypoints[i] == VA_ENTRYPOINT_ENC_SLICE {
            return true;
        }
        i = i + 1;
    }
    false
}

/// Picks the profile to encode to from those that the driver lists.
pub fn select_h264_profile(profiles: &[i32]) -> (r: Option<H264Profile>)
    ensures
        r == best_profile(profiles@),
{
    if lists_profile(profiles, VA_PROFILE_H264_HIGH) {
        Some(H264Profile::High)
    } else if lists_profile(profiles, VA_PROFILE_H264_MAIN) {
        Some(H264Profile::Main)
    } else {
        None
    }
}

/// What a driver answered shows that it encodes H.264: it lists a usable
/// profile, and the slice encoder for that profile.
pub open spec fn encodes_h264(profiles: Option<Vec<i32>>, entrypoints: Option<Vec<u32>>) -> bool {
    &&& profiles is Some
    &&& best_profile(profiles->0@) is Some
    &&& entrypoints is Some
    &&& entrypoints->0@.contains(VA_ENTRYPOINT_ENC_SLICE)
}

/// Device `i` answered that it encodes H.264.
pub open spec fn accepted<P, E>(profiles_of: P, entrypoints_of: E, i: usize) -> bool where
    P: Fn(usize) -> Option<Vec<i32>>,
    E: Fn(usize, i32) -> Option<Vec<u32>>,
 {
    exists|profiles: Option<Vec<i32>>, entrypoints: Option<Vec<u32>>|
        profiles_of.ensures((i,), profiles) && #[trigger] encodes_h264(profiles, entrypoints)
            && entrypoints_of.ensures((i, best_profile(profiles->0@)->0.number()), entrypoints)
}

/// Device `i` gave no answer, or one that falls short.
pub open spec fn skipped<P, E>(profiles_of: P, entrypoints_of: E, i: usize) -> bool where
    P: Fn(usize) -> Option<Vec<i32>>,
    E: Fn(usize, i32) -> Option<Vec<u32>>,
 {
    exists|profiles: Option<Vec<i32>>, entrypoints: Option<Vec<u32>>|
        profiles_of.ensures((i,), profiles) && !#[trigger] encodes_h264(profiles, entrypoints) && (
        profiles is Some && best_profile(profiles->0@) is Some ==> entrypoints_of.ensures(
            (i, best_profile(profiles->0@)->0.number()),
            entrypoints,
        ))
}

/// Every device before `i` was skipped.
pub open spec fn all_skipped<P, E>(profiles_of: P, entrypoints_of: E, i: usize) -> bool where
    P: Fn(usize) -> Option<Vec<i32>>,
    E: Fn(usize, i32) -> Option<Vec<u32>>,
 {
    forall|j: usize| j < i ==> #[trigger] skipped(profiles_of, entrypoints_of, j)
}

/// What a scan of `count` devices may ask: a device only once all before it were
/// skipped, and its entry points only for the best profile that it lists.
pub open spec fn may_scan<P, E>(count: usize, profiles_of: P, entrypoints_of: E) -> bool where
    P: Fn(usize) -> Option<Vec<i32>>,
    E: Fn(usize, i32) -> Option<Vec<u32>>,
 {
    &&& forall|i: usize|
        i < count && all_skipped(profiles_of, entrypoints_of, i) ==> #[trigger] profiles_of.requires(
            (i,),
        )
    &&& forall|i: usize, profiles: Vec<i32>|
        i < count && all_skipped(profiles_of, entrypoints_of, i) && #[trigger] profiles_of.ensures(
            (i,),
            Some(profiles),
        ) && best_profile(profiles@) is Some ==> entrypoints_of.requires(
            (i, best_profile(profiles@)->0.number()),
        )
}

/// What a scan of `count` devices ends with: the first that was accepted, all before it
/// being skipped.
pub open spec fn is_found<P, E>(
    count: usize,
    profiles_of: P,
    entrypoints_of: E,
    r: Result<usize, DeviceError>,
) -> bool where
    P: Fn(usize) -> Option<Vec<i32>>,
    E: Fn(usize, i32) -> Option<Vec<u32>>,
 {
    match r {
        Ok(i) => i < count && accepted(profiles_of, entrypoints_of, i) && all_skipped(
            profiles_of,
            entrypoints_of,
            i,
        ),
        Err(DeviceError::NoRenderDevices) => count == 0,
        Err(DeviceError::NoEncodeSupport { checked }) => checked == count && count > 0
            && all_skipped(profiles_of, entrypoints_of, count),
        Err(_) => false,
    }
}

/// Scans the render devices in order for the first that supports H.264
/// encoding. `profiles_of` and `entrypoints_of` ask a device; a device that
/// cannot be opened or asked answers `None`.
pub fn find_vaapi_device<P, E>(count: usize, profiles_of: P, entrypoints_of: E) -> (r: Result<
    usize,
    DeviceError,
>) where P: Fn(usize) -> Option<Vec<i32>>, E: Fn(usize, i32) -> Option<Vec<u32>>
    requires
        may_scan(count, profiles_of, entrypoints_of),
    ensures
        is_found(count, profiles_of, entrypoints_of, r),
{
    if count == 0 {
        return Err(DeviceError::NoRenderDevices);
    }
    let mut i: usize = 0;
    while i < count
        invariant
            i <= count,
            may_scan(count, profiles_of, entrypoints_of),
            all_skipped(profiles_of, entrypoints_of, i),
        decreases count - i,
    {
        let profiles = profiles_of(i);
        let chosen = match &profiles {
            Some(list) => select_h264_profile(list.as_slice()),
            None => None,
        };
        match chosen {
            Some(profile) => {
                let entrypoints = entrypoints_of(i, profile.va_profile());
                let encodes: bool = match &entrypoints {
                    Some(list) => can_encode_slices(list.as_slice()),
                    None => false,
                };
                if encodes {
                    assert(encodes_h264(profiles, entrypoints));
                    return Ok(i);
                }
                assert(!encodes_h264(profiles, entrypoints));
            },
            None => {
                assert(!encodes_h264(profiles, None));
            },
        }
        assert(skipped(profiles_of, entrypoints_of, i));
        i = i + 1;
    }
    Err(DeviceError::NoEncodeSupport { checked: count })
}

/// What the names of render nodes begin with.
pub open spec fn is_render_node(name: Seq<char>) -> bool {
    "renderD"@.is_prefix_of(name)
}

/// Order by code points, as directory entries are sorted.
pub open spec fn name_le(a: Seq<char>, b: Seq<char>) -> bool
    decreases a.len(),
{
    if a.len() == 0 {
        true
    } else if b.len() == 0 {
        false
    } else if a[0] as u32 != b[0] as u32 {
        (a[0] as u32) < (b[0] as u32)
    } else {
        name_le(a.skip(1), b.skip(1))
    }
}

/// The names in a list of strings.
pub open spec fn names(v: Seq<String>) -> Seq<Seq<char>> {
    v.map_values(|s: String| s@)
}

/// No name stands before a smaller one.
pub open spec fn in_order(v: Seq<Seq<char>>) -> bool {
    forall|i: int, j: int| 0 <= i < j < v.len() ==> #[trigger] name_le(v[i], v[j])
}

proof fn lemma_name_le_total(a: Seq<char>, b: Seq<char>)
    ensures
        name_le(a, b) || name_le(b, a),
    decreases a.len(),
{
    if a.len() > 0 && b.len() > 0 && a[0] as u32 == b[0] as u32 {
        lemma_name_le_total(a.skip(1), b.skip(1));
    }
}

proof fn lemma_name_le_transitive(a: Seq<char>, b: Seq<char>, c: Seq<char>)
    requires
        name_le(a, b),
        name_le(b, c),
    ensures
        name_le(a, c),
    decreases a.len(),
{
    if a.len() > 0 && b.len() > 0 && c.len() > 0 && a[0] as u32 == b[0] as u32 && b[0] as u32
        == c[0] as u32 {
        lemma_name_le_transitive(a.skip(1), b.skip(1), c.skip(1));
    }
}

fn comes_before_or_with(a: &str, b: &str) -> (r: bool)
    ensures
        r == name_le(a@, b@),
{
    let a_len: usize = a.unicode_len();
    let b_len: usize = b.unicode_len();
    let mut i: usize = 0;
    assert(a@.skip(0) =~= a@);
    assert(b@.skip(0) =~= b@);
    while i < a_len
        invariant
            a_len == a@.len(),
            b_len == b@.len(),
            i <= a_len,
            i <= b_len,
            name_le(a@, b@) == name_le(a@.skip(i as int), b@.skip(i as int)),
        decreases a_len - i,
    {
        if i >= b_len {
            return false;
        }
        let x: u32 = a.get_char(i) as u32;
        let y: u32 = b.get_char(i) as u32;
        if x != y {
            return x < y;
        }
        proof {
            assert(a@.skip(i as int).skip(1) =~= a@.skip(i + 1));
            assert(b@.skip(i as int).skip(1) =~= b@.skip(i + 1));
        }
        i = i + 1;
    }
    true
}

fn insert_in_order(list: &mut Vec<String>, name: String)
    requires
        in_order(names(old(list)@)),
    ensures
        in_order(names(final(list)@)),
        names(final(list)@).to_multiset() == names(old(list)@).to_multiset().insert(name@),
{
    let mut at: usize = 0;
    while at < list.len() && !comes_before_or_with(name.as_str(), list[at].as_str())
        invariant
            at <= list.len(),
            list@ == old(list)@,
            forall|j: int| 0 <= j < at ==> !name_le(name@, #[trigger] list@[j]@),
        decreases list.len() - at,
    {
        at = at + 1;
    }
    let ghost before = names(list@);
    let ghost x = name@;
    list.insert(at, name);
    proof {
        let after = names(list@);
        assert(after =~= before.insert(at as int, x));
        before.to_multiset_ensures();
        vstd::seq_lib::to_multiset_insert(before, at as int, x);
        assert forall|i: int, j: int| 0 <= i < j < after.len() implies #[trigger] name_le(
            after[i],
            after[j],
        ) by {
            let bi = if i < at { i } else { i - 1 };
            let bj = if j < at { j } else { j - 1 };
            if i == at {
                lemma_name_le_total(x, before[bj]);
                if j > at + 1 {
                    assert(name_le(before[at as int], before[bj]));
                    lemma_name_le_transitive(x, before[at as int], before[bj]);
                }
            } else if j == at {
                assert(!name_le(x, old(list)@[bi]@));
                lemma_name_le_total(x, before[bi]);
            } else {
                assert(name_le(before[bi], before[bj]));
            }
        }
    }
}

/// `nodes` is the render nodes among `entries`, in order.
pub open spec fn are_render_nodes(nodes: Seq<String>, entries: Seq<String>) -> bool {
    &&& in_order(names(nodes))
    &&& names(nodes).to_multiset() == names(entries).filter(
        |n: Seq<char>| is_render_node(n),
    ).to_multiset()
}

/// The render nodes in the device directory, in order.
pub fn render_nodes(directory: DeviceDirectory) -> (r: Result<Vec<String>, DeviceError>)
    ensures
        match directory {
            DeviceDirectory::Missing => r == Err::<Vec<String>, _>(DeviceError::NoDirectory),
            DeviceDirectory::Unreadable => r == Err::<Vec<String>, _>(
                DeviceError::UnreadableDirectory,
            ),
            DeviceDirectory::Entries(entries) => r is Ok && are_render_nodes(
                r->Ok_0@,
                entries@,
            ),
        },
{
    match directory {
        DeviceDirectory::Missing => Err(DeviceError::NoDirectory),
        DeviceDirectory::Unreadable => Err(DeviceError::UnreadableDirectory),
        DeviceDirectory::Entries(entries) => Ok(sorted_render_nodes(entries)),
    }
}

fn sorted_render_nodes(entries: Vec<String>) -> (r: Vec<String>)
    ensures
        are_render_nodes(r@, entries@),
{
    let mut nodes: Vec<String> = Vec::new();
    let mut i: usize = 0;
    let ghost keep = |n: Seq<char>| is_render_node(n);
    proof {
        assert(names(nodes@) =~= Seq::<Seq<char>>::empty());
        assert(names(entries@).take(0) =~= Seq::<Seq<char>>::empty());
        reveal(Seq::filter);
    }
    while i < entries.len()
        invariant
            i <= entries.len(),
            keep == (|n: Seq<char>| is_render_node(n)),
            in_order(names(nodes@)),
            names(nodes@).to_multiset() == names(entries@).take(i as int).filter(
                keep,
            ).to_multiset(),
        decreases entries.len() - i,
    {
        let ghost done = names(entries@).take(i as int);
        proof {
            let next = names(entries@).take(i + 1);
            assert(next.drop_last() =~= done);
            assert(next.last() == entries@[i as int]@);
            reveal(Seq::filter);
            done.filter(keep).to_multiset_ensures();
        }
        if starts_with(entries[i].as_str(), "renderD") {
            insert_in_order(&mut nodes, entries[i].clone());
        }
        i = i + 1;
    }
    assert(names(entries@).take(entries@.len() as int) =~= names(entries@));
    nodes
}

/// A driver encodes H.264 where it lists the High or the Main profile, and slice
/// encoding for the one that is used: the High profile wherever it is listed.
pub proof fn what_encodes_h264(profiles: Vec<i32>, entrypoints: Vec<u32>)
    ensures
        encodes_h264(Some(profiles), Some(entrypoints)) <==> (profiles@.contains(7)
            || profiles@.contains(6)) && entrypoints@.contains(6),
        !encodes_h264(None, Some(entrypoints)),
        !encodes_h264(Some(profiles), None),
        profiles@.contains(7) ==> best_profile(profiles@) == Some(H264Profile::High),
        !profiles@.contains(7) && profiles@.contains(6) ==> best_profile(profiles@) == Some(
            H264Profile::Main,
        ),
        !profiles@.contains(7) && !profiles@.contains(6) ==> best_profile(profiles@) is None,
        H264Profile::High.number() == 7,
        H264Profile::Main.number() == 6,
{
}

/// A device is asked for the entry points of the profile that it is used with, and is
/// taken where they include slice encoding.
pub proof fn what_is_asked_of_a_device<P, E>(profiles_of: P, entrypoints_of: E, i: usize) where
    P: Fn(usize) -> Option<Vec<i32>>,
    E: Fn(usize, i32) -> Option<Vec<u32>>,

    requires
        accepted(profiles_of, entrypoints_of, i),
    ensures
        exists|profiles: Vec<i32>, entrypoints: Vec<u32>|
            {
                &&& #[trigger] profiles_of.ensures((i,), Some(profiles))
                &&& #[trigger] entrypoints@.contains(6u32)
                &&& if profiles@.contains(7i32) {
                    entrypoints_of.ensures((i, 7i32), Some(entrypoints))
                } else {
                    profiles@.contains(6i32) && entrypoints_of.ensures(
                        (i, 6i32),
                        Some(entrypoints),
                    )
                }
            },
{
    let (p, e) = choose|profiles: Option<Vec<i32>>, entrypoints: Option<Vec<u32>>|
        profiles_of.ensures((i,), profiles) && #[trigger] encodes_h264(profiles, entrypoints)
            && entrypoints_of.ensures((i, best_profile(profiles->0@)->0.number()), entrypoints);
    let profiles = p->0;
    let entrypoints = e->0;
    assert(profiles_of.ensures((i,), Some(profiles)));
    assert(entrypoints@.contains(6u32));
}

/// Render nodes are what is named `renderD` and something; names are in the order of
/// their first different character, and a name comes before those that go on from it.
pub proof fn how_render_nodes_are_named_and_ordered(
    common: Seq<char>,
    a: char,
    b: char,
    x: Seq<char>,
    y: Seq<char>,
)
    ensures
        is_render_node("renderD"@ + x),
        is_render_node(common) ==> common.len() >= 7 && common.take(7) == "renderD"@,
        name_le(common, common + x),
        a as u32 != b as u32 ==> (name_le(common + seq![a] + x, common + seq![b] + y) <==> (
        a as u32) < (b as u32)),
    decreases common.len(),
{
    reveal_strlit("renderD");
    assert(("renderD"@ + x).take(7) =~= "renderD"@);
    if common.len() == 0 {
        let p = common + seq![a] + x;
        let q = common + seq![b] + y;
        assert(p[0] == a && q[0] == b);
    } else {
        let rest = common.skip(1);
        how_render_nodes_are_named_and_ordered(rest, a, b, x, y);
        assert((common + x).skip(1) =~= rest + x);
        assert((common + seq![a] + x).skip(1) =~= rest + seq![a] + x);
        assert((common + seq![b] + y).skip(1) =~= rest + seq![b] + y);
    }
}

/// Nothing but render nodes is listed, each as often as it is there.
pub proof fn all_render_nodes_are_listed(nodes: Seq<String>, entries: Seq<String>)
    requires
        are_render_nodes(nodes, entries),
    ensures
        forall|i: int|
            0 <= i < nodes.len() ==> is_render_node(#[trigger] nodes[i]@) && names(
                entries,
            ).contains(nodes[i]@),
        forall|i: int|
            0 <= i < entries.len() && is_render_node(#[trigger] entries[i]@) ==> names(
                nodes,
            ).contains(entries[i]@),
        forall|i: int, j: int|
            0 <= i < j < nodes.len() ==> name_le(#[trigger] nodes[i]@, #[trigger] nodes[j]@),
{
    let keep = |n: Seq<char>| is_render_node(n);
    let all = names(entries);
    let kept = all.filter(keep);
    let listed = names(nodes);
    listed.to_multiset_ensures();
    kept.to_multiset_ensures();
    assert forall|i: int| 0 <= i < nodes.len() implies is_render_node(#[trigger] nodes[i]@)
        && all.contains(nodes[i]@) by {
        assert(listed[i] == nodes[i]@);
        assert(listed.contains(nodes[i]@));
        assert(listed.to_multiset().count(nodes[i]@) > 0);
        assert(kept.contains(nodes[i]@));
        all.lemma_filter_contains_rev(keep, nodes[i]@);
        let k = choose|k: int| 0 <= k < kept.len() && kept[k] == nodes[i]@;
        all.lemma_filter_pred(keep, k);
    }
    assert forall|i: int| 0 <= i < entries.len() && is_render_node(
        #[trigger] entries[i]@,
    ) implies listed.contains(entries[i]@) by {
        assert(all[i] == entries[i]@);
        all.lemma_filter_contains(keep, i);
        assert(kept.to_multiset().count(entries[i]@) > 0);
    }
    assert forall|i: int, j: int| 0 <= i < j < nodes.len() implies name_le(
        #[trigger] nodes[i]@,
        #[trigger] nodes[j]@,
    ) by {
        assert(name_le(listed[i], listed[j]));
    }
}

/// A device is passed over only for what it answered: no profiles, none that is usable,
/// no entry points, or none for slice encoding.
pub proof fn why_a_device_is_passed_over<P, E>(profiles_of: P, entrypoints_of: E, i: usize) where
    P: Fn(usize) -> Option<Vec<i32>>,
    E: Fn(usize, i32) -> Option<Vec<u32>>,

    requires
        skipped(profiles_of, entrypoints_of, i),
    ensures
        ({
            ||| profiles_of.ensures((i,), None)
            ||| exists|profiles: Vec<i32>|
                {
                    &&& #[trigger] profiles_of.ensures((i,), Some(profiles))
                    &&& {
                        ||| !profiles@.contains(7i32) && !profiles@.contains(6i32)
                        ||| profiles@.contains(7i32) && exists|entrypoints: Option<Vec<u32>>|
                            #[trigger] entrypoints_of.ensures((i, 7i32), entrypoints) && (
                            entrypoints is None || !entrypoints->0@.contains(6u32))
                        ||| !profiles@.contains(7i32) && exists|entrypoints: Option<Vec<u32>>|
                            #[trigger] entrypoints_of.ensures((i, 6i32), entrypoints) && (
                            entrypoints is None || !entrypoints->0@.contains(6u32))
                    }
                }
        }),
{
    let (p, e) = choose|profiles: Option<Vec<i32>>, entrypoints: Option<Vec<u32>>|
        profiles_of.ensures((i,), profiles) && !#[trigger] encodes_h264(profiles, entrypoints) && (
        profiles is Some && best_profile(profiles->0@) is Some ==> entrypoints_of.ensures(
            (i, best_profile(profiles->0@)->0.number()),
            entrypoints,
        ));
    if let Some(profiles) = p {
        assert(profiles_of.ensures((i,), Some(profiles)));
        if profiles@.contains(7i32) || profiles@.contains(6i32) {
            let asked = if profiles@.contains(7i32) {
                7i32
            } else {
                6i32
            };
            assert(entrypoints_of.ensures((i, asked), e));
        }
    }
}

/// The scan passes over every device before the one that it takes.
pub proof fn all_before_are_passed_over<P, E>(
    profiles_of: P,
    entrypoints_of: E,
    i: usize,
    j: usize,
) where P: Fn(usize) -> Option<Vec<i32>>, E: Fn(usize, i32) -> Option<Vec<u32>>
    requires
        all_skipped(profiles_of, entrypoints_of, i),
        j < i,
    ensures
        skipped(profiles_of, entrypoints_of, j),
{
}

/// The scan takes the first device that encodes H.264: of devices that always answer the
/// same, none before it does. Where none does, all of them were looked at.
pub proof fn the_first_device_is_taken<P, E>(
    count: usize,
    profiles_of: P,
    entrypoints_of: E,
    r: Result<usize, DeviceError>,
    profiles: Seq<Vec<i32>>,
    entrypoints: Seq<Vec<u32>>,
) where P: Fn(usize) -> Option<Vec<i32>>, E: Fn(usize, i32) -> Option<Vec<u32>>
    requires
        is_found(count, profiles_of, entrypoints_of, r),
        profiles.len() == count,
        entrypoints.len() == count,
        forall|i: usize, o: Option<Vec<i32>>|
            i < count && #[trigger] profiles_of.ensures((i,), o) ==> o == Some(profiles[i as int]),
        forall|i: usize, p: i32, o: Option<Vec<u32>>|
            i < count && #[trigger] entrypoints_of.ensures((i, p), o) ==> o == Some(
                entrypoints[i as int],
            ),
    ensures
        ({
            let usable = |i: int|
                (profiles[i]@.contains(7i32) || profiles[i]@.contains(6i32))
                    && entrypoints[i]@.contains(6u32);
            match r {
                Ok(i) => {
                    &&& i < count && usable(i as int)
                    &&& forall|j: int| 0 <= j < i ==> !#[trigger] usable(j)
                },
                Err(DeviceError::NoRenderDevices) => count == 0,
                Err(DeviceError::NoEncodeSupport { checked }) => {
                    &&& checked == count && count > 0
                    &&& forall|j: int| 0 <= j < count ==> !#[trigger] usable(j)
                },
                Err(_) => false,
            }
        }),
{
    let usable = |i: int|
        (profiles[i]@.contains(7i32) || profiles[i]@.contains(6i32)) && entrypoints[i]@.contains(
            6u32,
        );
    let n: int = match r {
        Ok(i) => i as int,
        Err(_) => count as int,
    };
    assert forall|j: int| 0 <= j < n implies !#[trigger] usable(j) by {
        let k = j as usize;
        assert(skipped(profiles_of, entrypoints_of, k));
        let (p, e) = choose|p: Option<Vec<i32>>, e: Option<Vec<u32>>|
            profiles_of.ensures((k,), p) && !#[trigger] encodes_h264(p, e) && (p is Some
                && best_profile(p->0@) is Some ==> entrypoints_of.ensures(
                (k, best_profile(p->0@)->0.number()),
                e,
            ));
        assert(p == Some(profiles[j]));
    }
    if let Ok(i) = r {
        let (p, e) = choose|p: Option<Vec<i32>>, e: Option<Vec<u32>>|
            profiles_of.ensures((i,), p) && #[trigger] encodes_h264(p, e)
                && entrypoints_of.ensures((i, best_profile(p->0@)->0.number()), e);
        assert(p == Some(profiles[i as int]));
        assert(e == Some(entrypoints[i as int]));
    }
}

} // verus!
