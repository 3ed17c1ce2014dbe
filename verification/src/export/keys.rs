//! Animation keys as file channels: one channel per bone and kind of key.
use vstd::prelude::*;
use crate::anim::{AnimationClip, BoneTrack};
use crate::bytes;
use crate::import::gltf;
use crate::import::gltf::{Channel, ChannelOutputs};
use crate::scalar::Scalar;

verus! {

/// The key values of a channel.
pub ghost enum Values {
    Translations(Seq<[Scalar; 3]>),
    Rotations(Seq<[Scalar; 4]>),
    Scales(Seq<[Scalar; 3]>),
    Other,
}

/// What a channel holds.
pub ghost struct ChannelView {
    pub node: int,
    pub times: Seq<Scalar>,
    pub values: Values,
}

impl View for Channel {
    type V = ChannelView;

    open spec fn view(&self) -> ChannelView {
        ChannelView {
            node: self.node as int,
            times: match self.times {
                Some(t) => t@,
                None => Seq::empty(),
            },
            values: match self.outputs {
                Some(ChannelOutputs::Translations(v)) => Values::Translations(v@),
                Some(ChannelOutputs::Rotations(v)) => Values::Rotations(v@),
                Some(ChannelOutputs::Scales(v)) => Values::Scales(v@),
                _ => Values::Other,
            },
        }
    }
}

/// The times of keys.
pub open spec fn times_of<T>(keys: Seq<(Scalar, T)>) -> Seq<Scalar> {
    Seq::new(keys.len(), |i: int| keys[i].0)
}

/// The values of keys.
pub open spec fn values_of<T>(keys: Seq<(Scalar, T)>) -> Seq<T> {
    Seq::new(keys.len(), |i: int| keys[i].1)
}

/// The translation channel of a track, if it has such keys.
pub open spec fn translation_channel(t: BoneTrack) -> Seq<ChannelView> {
    if t.translation@.len() == 0 {
        Seq::empty()
    } else {
        seq![
            ChannelView {
                node: t.bone + 1,
                times: times_of(t.translation@),
                values: Values::Translations(values_of(t.translation@)),
            },
        ]
    }
}

/// The rotation channel of a track, if it has such keys.
pub open spec fn rotation_channel(t: BoneTrack) -> Seq<ChannelView> {
    if t.rotation@.len() == 0 {
        Seq::empty()
    } else {
        seq![
            ChannelView {
                node: t.bone + 1,
                times: times_of(t.rotation@),
                values: Values::Rotations(values_of(t.rotation@)),
            },
        ]
    }
}

/// The scale channel of a track, if it has such keys.
pub open spec fn scale_channel(t: BoneTrack) -> Seq<ChannelView> {
    if t.scale@.len() == 0 {
        Seq::empty()
    } else {
        seq![
            ChannelView {
                node: t.bone + 1,
                times: times_of(t.scale@),
                values: Values::Scales(values_of(t.scale@)),
            },
        ]
    }
}

/// The channels of a track: none for a bone that the skeleton lacks. Bone `i`
/// is node `i + 1`.
pub open spec fn track_channels(t: BoneTrack, bones: nat) -> Seq<ChannelView> {
    if t.bone < bones {
        translation_channel(t) + rotation_channel(t) + scale_channel(t)
    } else {
        Seq::empty()
    }
}

/// The channels of the first `n` tracks.
pub open spec fn channels_upto(tracks: Seq<BoneTrack>, bones: nat, n: nat) -> Seq<ChannelView> {
    bytes::flat(n, |i: int| track_channels(tracks[i], bones))
}

/// The channels of a clip, in the order of its tracks.
pub open spec fn clip_channels(clip: AnimationClip, bones: nat) -> Seq<ChannelView> {
    channels_upto(clip.tracks@, bones, clip.tracks@.len())
}

/// What some channels hold.
pub open spec fn views(channels: Seq<Channel>) -> Seq<ChannelView> {
    channels.map_values(|c: Channel| c@)
}

fn split_keys<T: Copy>(keys: &Vec<(Scalar, T)>) -> (r: (Vec<Scalar>, Vec<T>))
    ensures
        r.0@ == times_of(keys@),
        r.1@ == values_of(keys@),
{
    let mut times: Vec<Scalar> = Vec::new();
    let mut values: Vec<T> = Vec::new();
    let mut i: usize = 0;
    while i < keys.len()
        invariant
            i <= keys.len(),
            times@.len() == i,
            values@.len() == i,
            forall|j: int| 0 <= j < i ==> #[trigger] times@[j] == keys@[j].0,
            forall|j: int| 0 <= j < i ==> #[trigger] values@[j] == keys@[j].1,
        decreases keys.len() - i,
    {
        times.push(keys[i].0);
        values.push(keys[i].1);
        i += 1;
    }
    assert(times@ =~= times_of(keys@));
    assert(values@ =~= values_of(keys@));
    (times, values)
}

fn push_channel(channels: &mut Vec<Channel>, node: usize, times: Vec<Scalar>, outputs: ChannelOutputs)
    ensures
        views(final(channels)@) == views(old(channels)@).push(
            (Channel { node, times: Some(times), outputs: Some(outputs) })@,
        ),
{
    channels.push(Channel { node, times: Some(times), outputs: Some(outputs) });
    assert(views(channels@) =~= views(old(channels)@).push(
        (Channel { node, times: Some(times), outputs: Some(outputs) })@,
    ));
}

fn push_track(channels: &mut Vec<Channel>, t: &BoneTrack)
    ensures
        views(final(channels)@) == views(old(channels)@) + translation_channel(*t)
            + rotation_channel(*t) + scale_channel(*t),
{
    let node: usize = t.bone as usize + 1;
    let ghost start = views(channels@);
    if t.translation.len() > 0 {
        let (times, values) = split_keys(&t.translation);
        push_channel(channels, node, times, ChannelOutputs::Translations(values));
    }
    assert(views(channels@) =~= start + translation_channel(*t));
    if t.rotation.len() > 0 {
        let (times, values) = split_keys(&t.rotation);
        push_channel(channels, node, times, ChannelOutputs::Rotations(values));
    }
    assert(views(channels@) =~= start + translation_channel(*t) + rotation_channel(*t));
    if t.scale.len() > 0 {
        let (times, values) = split_keys(&t.scale);
        push_channel(channels, node, times, ChannelOutputs::Scales(values));
    }
    assert(views(channels@) =~= start + translation_channel(*t) + rotation_channel(*t)
        + scale_channel(*t));
}

/// List the channels of a clip for a skeleton of `bones` bones.
pub fn exported_channels(clip: &AnimationClip, bones: usize) -> (r: Vec<Channel>)
    ensures
        views(r@) == clip_channels(*clip, bones as nat),
{
    let ghost piece = |i: int| track_channels(clip.tracks@[i], bones as nat);
    let mut r: Vec<Channel> = Vec::new();
    let mut i: usize = 0;
    assert(views(r@) =~= bytes::flat(0, piece));
    while i < clip.tracks.len()
        invariant
            i <= clip.tracks.len(),
            piece == (|i: int| track_channels(clip.tracks@[i], bones as nat)),
            views(r@) == bytes::flat(i as nat, piece),
        decreases clip.tracks.len() - i,
    {
        let ghost before = views(r@);
        let t = &clip.tracks[i];
        if (t.bone as usize) < bones {
            push_track(&mut r, t);
        }
        assert(views(r@) =~= before + piece(i as int));
        i += 1;
    }
    r
}

// ── reading back ──────────────────────────────────────────────────────────────

/// No two tracks belong to one bone.
pub open spec fn one_track_per_bone(tracks: Seq<BoneTrack>) -> bool {
    forall|i: int, j: int| 0 <= i < j < tracks.len() ==> tracks[i].bone != tracks[j].bone
}

/// A track that leaves a trace in the file: it has a key, and the skeleton has
/// its bone.
pub open spec fn exported(t: BoneTrack, bones: nat) -> bool {
    t.bone < bones && (t.translation@.len() > 0 || t.rotation@.len() > 0 || t.scale@.len() > 0)
}

/// The node numbering of the exporter: node 0 is the mesh, node `i + 1` bone
/// `i`.
pub open spec fn exporter_nodes(map: Seq<Option<u16>>, bones: nat) -> bool {
    &&& map.len() == bones + 1
    &&& map[0] is None
    &&& forall|i: int| 0 <= i < bones ==> #[trigger] map[i + 1] == Some(i as u16)
}

/// The keys that a bone has among the first `n` tracks.
pub open spec fn expected(tracks: Seq<BoneTrack>, bones: nat, bone: u16, n: nat) -> Option<gltf::Keys>
    decreases n,
{
    if n == 0 {
        None
    } else if tracks[n - 1].bone == bone && exported(tracks[n - 1], bones) {
        Some(gltf::keys_of(tracks[n - 1]))
    } else {
        expected(tracks, bones, bone, (n - 1) as nat)
    }
}

proof fn pairs_back<T>(keys: Seq<(Scalar, T)>)
    ensures
        gltf::paired(times_of(keys), values_of(keys)) == keys,
{
    assert(gltf::paired(times_of(keys), values_of(keys)) =~= keys);
}

proof fn expected_below(tracks: Seq<BoneTrack>, bones: nat, bone: u16, n: nat)
    requires
        n <= tracks.len(),
        forall|i: int| 0 <= i < n ==> (#[trigger] tracks[i]).bone != bone,
    ensures
        expected(tracks, bones, bone, n) is None,
    decreases n,
{
    if n > 0 {
        expected_below(tracks, bones, bone, (n - 1) as nat);
    }
}

/// One channel more, of a bone in the skeleton: it adds its keys to that bone
/// and leaves the others alone.
proof fn one_channel(channels: Seq<Channel>, map: Seq<Option<u16>>, bones: nat, n: nat, bone: u16)
    requires
        n < channels.len(),
        exporter_nodes(map, bones),
        bones <= u16::MAX,
        bone < bones,
        channels[n as int].node == bone + 1,
        channels[n as int].times is Some,
        channels[n as int].outputs is Some,
    ensures
        gltf::bone_keys(channels, map, bone, n + 1) == Some(
            gltf::keys_with(
                match gltf::bone_keys(channels, map, bone, n) {
                    Some(k) => k,
                    None => gltf::no_keys(),
                },
                channels[n as int],
            ),
        ),
        forall|b: u16|
            b != bone ==> #[trigger] gltf::bone_keys(channels, map, b, n + 1) == gltf::bone_keys(
                channels,
                map,
                b,
                n,
            ),
{
    assert(map[bone as int + 1] == Some(bone));
    assert(gltf::keyed_bone(channels[n as int], map) == Some(bone));
}

/// A channel of the exporter holds times and values.
proof fn channel_complete(c: Channel, v: ChannelView)
    requires
        c@ == v,
        v.times.len() > 0,
        v.values != Values::Other,
    ensures
        c.times is Some,
        c.outputs is Some,
        c.times->0@ == v.times,
{
}

proof fn prefix_reads_back(
    tracks: Seq<BoneTrack>,
    channels: Seq<Channel>,
    map: Seq<Option<u16>>,
    bones: nat,
    n: nat,
)
    requires
        n <= tracks.len(),
        bones <= u16::MAX,
        exporter_nodes(map, bones),
        one_track_per_bone(tracks),
        channels_upto(tracks, bones, n).len() <= channels.len(),
        views(channels).take(channels_upto(tracks, bones, n).len() as int) == channels_upto(
            tracks,
            bones,
            n,
        ),
    ensures
        forall|b: u16|
            #[trigger] gltf::bone_keys(channels, map, b, channels_upto(tracks, bones, n).len())
                == expected(tracks, bones, b, n),
    decreases n,
{
    if n > 0 {
        let m: nat = (n - 1) as nat;
        let t = tracks[m as int];
        let before = channels_upto(tracks, bones, m);
        let after = channels_upto(tracks, bones, n);
        let added = track_channels(t, bones);
        assert(after == before + added);
        assert(views(channels).take(before.len() as int) =~= before) by {
            assert(views(channels).take(after.len() as int).take(before.len() as int) =~= views(
                channels,
            ).take(before.len() as int));
            assert((before + added).take(before.len() as int) =~= before);
        }
        prefix_reads_back(tracks, channels, map, bones, m);
        assert forall|j: int| 0 <= j < added.len() implies (#[trigger] channels[before.len()
            + j])@ == added[j] by {
            assert(views(channels).take(after.len() as int)[before.len() + j] == after[before.len()
                + j]);
        }
        if t.bone < bones {
            track_reads_back(tracks, channels, map, bones, m);
        } else {
            assert(after =~= before);
        }
        assert forall|b: u16| #[trigger]
            gltf::bone_keys(channels, map, b, after.len()) == expected(tracks, bones, b, n) by {
            if t.bone < bones && b == t.bone {
            } else {
                assert(gltf::bone_keys(channels, map, b, before.len()) == expected(
                    tracks,
                    bones,
                    b,
                    m,
                ));
            }
        }
    }
}

proof fn track_reads_back(
    tracks: Seq<BoneTrack>,
    channels: Seq<Channel>,
    map: Seq<Option<u16>>,
    bones: nat,
    m: nat,
)
    requires
        m < tracks.len(),
        bones <= u16::MAX,
        exporter_nodes(map, bones),
        one_track_per_bone(tracks),
        tracks[m as int].bone < bones,
        ({
            let at = channels_upto(tracks, bones, m).len();
            let added = track_channels(tracks[m as int], bones);
            &&& at + added.len() <= channels.len()
            &&& forall|j: int| 0 <= j < added.len() ==> (#[trigger] channels[at + j])@ == added[j]
            &&& forall|b: u16|
                #[trigger] gltf::bone_keys(channels, map, b, at) == expected(tracks, bones, b, m)
        }),
    ensures
        ({
            let at = channels_upto(tracks, bones, m).len();
            let added = track_channels(tracks[m as int], bones);
            let t = tracks[m as int];
            &&& gltf::bone_keys(channels, map, t.bone, at + added.len()) == expected(
                tracks,
                bones,
                t.bone,
                m + 1,
            )
            &&& forall|b: u16|
                b != t.bone ==> #[trigger] gltf::bone_keys(channels, map, b, at + added.len())
                    == gltf::bone_keys(channels, map, b, at)
        }),
{
    let t = tracks[m as int];
    let bone = t.bone;
    let at = channels_upto(tracks, bones, m).len();
    let added = track_channels(t, bones);
    assert(forall|i: int| 0 <= i < m ==> (#[trigger] tracks[i]).bone != bone);
    expected_below(tracks, bones, bone, m);
    pairs_back(t.translation@);
    pairs_back(t.rotation@);
    pairs_back(t.scale@);
    let none = gltf::no_keys();
    let k1 = if t.translation@.len() > 0 {
        gltf::Keys { translation: t.translation@, ..none }
    } else {
        none
    };
    let k2 = if t.rotation@.len() > 0 {
        gltf::Keys { rotation: t.rotation@, ..k1 }
    } else {
        k1
    };
    let k3 = if t.scale@.len() > 0 {
        gltf::Keys { scale: t.scale@, ..k2 }
    } else {
        k2
    };
    assert(k3 =~= gltf::keys_of(t));
    let a: nat = translation_channel(t).len();
    let b: nat = rotation_channel(t).len();
    let c: nat = scale_channel(t).len();
    assert(added == translation_channel(t) + rotation_channel(t) + scale_channel(t));
    if a > 0 {
        assert(channels[at as int + 0]@ == added[0]);
        channel_complete(channels[at as int], added[0]);
        one_channel(channels, map, bones, at, bone);
        assert(gltf::bone_keys(channels, map, bone, at + 1) == Some(k1));
    }
    let got1 = gltf::bone_keys(channels, map, bone, at + a);
    assert(got1 == (if a > 0 {
        Some(k1)
    } else {
        None
    }));
    if b > 0 {
        let x: int = a as int;
        assert(channels[at + x]@ == added[x]);
        channel_complete(channels[at + x], added[x]);
        one_channel(channels, map, bones, at + a, bone);
        assert(gltf::bone_keys(channels, map, bone, at + a + 1) == Some(k2));
    }
    let got2 = gltf::bone_keys(channels, map, bone, at + a + b);
    assert(got2 == (if a > 0 || b > 0 {
        Some(k2)
    } else {
        None
    }));
    if c > 0 {
        let x: int = (a + b) as int;
        assert(channels[at + x]@ == added[x]);
        channel_complete(channels[at + x], added[x]);
        one_channel(channels, map, bones, at + a + b, bone);
        assert(gltf::bone_keys(channels, map, bone, at + a + b + 1) == Some(k3));
    }
}

/// What is exported reads back: from the channels of a clip with one track per
/// bone, the importer collects exactly the tracks that have a key and a bone,
/// each with all its keys.
pub proof fn exported_tracks_read_back(
    clip: AnimationClip,
    bones: nat,
    channels: Seq<Channel>,
    map: Seq<Option<u16>>,
    read: Seq<BoneTrack>,
)
    requires
        bones <= u16::MAX,
        exporter_nodes(map, bones),
        one_track_per_bone(clip.tracks@),
        views(channels) == clip_channels(clip, bones),
        gltf::tracks_hold(read, channels, map, channels.len()),
    ensures
        forall|i: int|
            0 <= i < clip.tracks@.len() && exported(#[trigger] clip.tracks@[i], bones)
                ==> exists|j: int|
                0 <= j < read.len() && (#[trigger] read[j]).bone == clip.tracks@[i].bone
                    && gltf::keys_of(read[j]) == gltf::keys_of(clip.tracks@[i]),
        forall|j: int|
            0 <= j < read.len() ==> exists|i: int|
                0 <= i < clip.tracks@.len() && (#[trigger] clip.tracks@[i]).bone == (
                #[trigger] read[j]).bone && exported(clip.tracks@[i], bones) && gltf::keys_of(
                    clip.tracks@[i],
                ) == gltf::keys_of(read[j]),
{
    let tracks = clip.tracks@;
    let n = tracks.len();
    let all = channels_upto(tracks, bones, n);
    assert(views(channels).take(all.len() as int) =~= all);
    assert(all.len() == channels.len());
    prefix_reads_back(tracks, channels, map, bones, n);
    assert forall|i: int| 0 <= i < n && exported(#[trigger] tracks[i], bones) implies exists|j: int|
        0 <= j < read.len() && (#[trigger] read[j]).bone == tracks[i].bone && gltf::keys_of(
            read[j],
        ) == gltf::keys_of(tracks[i]) by {
        let bone = tracks[i].bone;
        expected_at(tracks, bones, n, i);
        assert(gltf::bone_keys(channels, map, bone, all.len()) == Some(gltf::keys_of(tracks[i])));
        assert(gltf::has_track(read, bone));
        let j = choose|j: int| 0 <= j < read.len() && (#[trigger] read[j]).bone == bone;
        assert(gltf::keys_of(read[j]) == gltf::keys_of(tracks[i]));
    }
    assert forall|j: int| 0 <= j < read.len() implies exists|i: int|
        0 <= i < n && (#[trigger] tracks[i]).bone == (#[trigger] read[j]).bone && exported(
            tracks[i],
            bones,
        ) && gltf::keys_of(tracks[i]) == gltf::keys_of(read[j]) by {
        let bone = read[j].bone;
        assert(gltf::bone_keys(channels, map, bone, all.len()) == Some(gltf::keys_of(read[j])));
        let i = expected_source(tracks, bones, bone, n);
        assert(tracks[i].bone == bone);
    }
}

proof fn expected_at(tracks: Seq<BoneTrack>, bones: nat, n: nat, i: int)
    requires
        0 <= i < n <= tracks.len(),
        one_track_per_bone(tracks),
        exported(tracks[i], bones),
    ensures
        expected(tracks, bones, tracks[i].bone, n) == Some(gltf::keys_of(tracks[i])),
    decreases n,
{
    if i < n - 1 {
        expected_at(tracks, bones, (n - 1) as nat, i);
    }
}

proof fn expected_source(tracks: Seq<BoneTrack>, bones: nat, bone: u16, n: nat) -> (i: int)
    requires
        n <= tracks.len(),
        expected(tracks, bones, bone, n) is Some,
    ensures
        0 <= i < n,
        tracks[i].bone == bone,
        exported(tracks[i], bones),
        expected(tracks, bones, bone, n) == Some(gltf::keys_of(tracks[i])),
    decreases n,
{
    if tracks[n - 1].bone == bone && exported(tracks[n - 1], bones) {
        n - 1
    } else {
        expected_source(tracks, bones, bone, (n - 1) as nat)
    }
}

} // verus!
