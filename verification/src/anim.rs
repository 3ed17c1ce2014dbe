//! Keyframe animation: tracks per bone, and which keys bracket a moment.
use vstd::prelude::*;
use crate::scalar::Scalar;

verus! {

/// Keys for one bone; each list is ordered by time and may be empty.
#[derive(Clone, Debug, PartialEq, Eq)]
pub struct BoneTrack {
    pub bone: u16,
    pub translation: Vec<(Scalar, [Scalar; 3])>,
    pub rotation: Vec<(Scalar, [Scalar; 4])>,
    pub scale: Vec<(Scalar, [Scalar; 3])>,
}

impl BoneTrack {
    /// A track without keys.
    pub fn new(bone: u16) -> (t: BoneTrack)
        ensures
            t.bone == bone,
            t.translation@.len() == 0,
            t.rotation@.len() == 0,
            t.scale@.len() == 0,
    {
        BoneTrack { bone, translation: Vec::new(), rotation: Vec::new(), scale: Vec::new() }
    }
}

/// A named animation.
#[derive(Clone, Debug, PartialEq, Eq)]
pub struct AnimationClip {
    pub name: String,
    pub tracks: Vec<BoneTrack>,
}

// ── timing ────────────────────────────────────────────────────────────────────

/// Time of the last key of a list, or zero.
pub open spec fn last_key<T>(keys: Seq<(Scalar, T)>) -> Scalar {
    if keys.len() == 0 {
        Scalar::zero()
    } else {
        keys.last().0
    }
}

/// Time of the last key of a track.
pub open spec fn last_time_of(track: BoneTrack) -> Scalar {
    last_key(track.translation@).spec_max(last_key(track.rotation@)).spec_max(
        last_key(track.scale@),
    )
}

/// Latest key time of the first `n` tracks, at least zero.
pub open spec fn latest_key(tracks: Seq<BoneTrack>, n: nat) -> Scalar
    decreases n,
{
    if n == 0 {
        Scalar::zero()
    } else {
        latest_key(tracks, (n - 1) as nat).spec_max(last_time_of(tracks[n - 1]))
    }
}

fn last_key_time<T: Copy>(keys: &Vec<(Scalar, T)>) -> (r: Scalar)
    ensures
        r == last_key(keys@),
{
    if keys.len() == 0 {
        Scalar::zero()
    } else {
        keys[keys.len() - 1].0
    }
}

impl BoneTrack {
    /// Time of the last key of any kind.
    pub fn last_time(&self) -> (r: Scalar)
        ensures
            r == last_time_of(*self),
    {
        let t = last_key_time(&self.translation);
        let r = last_key_time(&self.rotation);
        let s = last_key_time(&self.scale);
        t.larger(r).larger(s)
    }
}

impl AnimationClip {
    /// A clip without tracks.
    pub fn new(name: &str) -> (c: AnimationClip)
        ensures
            c.name@ == name@,
            c.tracks@.len() == 0,
    {
        AnimationClip { name: name.to_owned(), tracks: Vec::new() }
    }

    /// Clip length: the latest key time across all tracks.
    pub fn duration(&self) -> (r: Scalar)
        ensures
            r == latest_key(self.tracks@, self.tracks@.len()),
    {
        let mut r = Scalar::zero();
        let mut i: usize = 0;
        while i < self.tracks.len()
            invariant
                i <= self.tracks@.len(),
                r == latest_key(self.tracks@, i as nat),
            decreases self.tracks@.len() - i,
        {
            r = r.larger(self.tracks[i].last_time());
            i += 1;
        }
        r
    }
}

/// The duration is a number, is not negative, and no track ends later.
pub proof fn duration_covers_tracks(tracks: Seq<BoneTrack>, n: nat)
    requires
        n <= tracks.len(),
    ensures
        Scalar::zero().spec_le(latest_key(tracks, n)),
        forall|i: int|
            0 <= i < n && !last_time_of(#[trigger] tracks[i]).nan() ==> last_time_of(
                tracks[i],
            ).spec_le(latest_key(tracks, n)),
    decreases n,
{
    if n > 0 {
        duration_covers_tracks(tracks, (n - 1) as nat);
    }
}

// ── sampling ──────────────────────────────────────────────────────────────────

/// Which keys a moment falls between.
#[derive(Clone, Copy, Debug, PartialEq, Eq, Structural)]
pub enum KeySpan {
    /// There is no key.
    Empty,
    /// The value of one key holds.
    At(usize),
    /// The value lies between this key and the one before it.
    Between(usize),
}

/// How many of the first `n` keys lead the list without being later than `t`.
pub open spec fn leading_keys(times: Seq<Scalar>, t: Scalar, n: nat) -> nat
    decreases n,
{
    if n == 0 {
        0
    } else if leading_keys(times, t, (n - 1) as nat) == n - 1 && times[n - 1].spec_le(t) {
        n
    } else {
        leading_keys(times, t, (n - 1) as nat)
    }
}

/// The keys that bracket `t`: outside the keys the nearest one holds.
pub open spec fn span_of(times: Seq<Scalar>, t: Scalar) -> KeySpan {
    let n = times.len();
    if n == 0 {
        KeySpan::Empty
    } else if n == 1 || t.spec_le(times[0]) {
        KeySpan::At(0)
    } else if times[n - 1].spec_le(t) {
        KeySpan::At((n - 1) as usize)
    } else {
        let i = leading_keys(times, t, n);
        KeySpan::Between(
            if i < 1 {
                1usize
            } else if i > n - 1 {
                (n - 1) as usize
            } else {
                i as usize
            },
        )
    }
}

proof fn leading_keys_stop(times: Seq<Scalar>, t: Scalar, i: nat, n: nat)
    requires
        i < n <= times.len(),
        leading_keys(times, t, i) == i,
        !times[i as int].spec_le(t),
    ensures
        leading_keys(times, t, n) == i,
    decreases n,
{
    if n > i + 1 {
        leading_keys_stop(times, t, i, (n - 1) as nat);
    }
}

/// Find the keys that bracket a moment.
pub fn key_span(times: &Vec<Scalar>, t: Scalar) -> (r: KeySpan)
    ensures
        r == span_of(times@, t),
{
    let n: usize = times.len();
    if n == 0 {
        return KeySpan::Empty;
    }
    if n == 1 || t.at_most(times[0]) {
        return KeySpan::At(0);
    }
    if times[n - 1].at_most(t) {
        return KeySpan::At(n - 1);
    }
    let mut i: usize = 0;
    while i < n && times[i].at_most(t)
        invariant
            i <= n,
            n == times@.len(),
            leading_keys(times@, t, i as nat) == i,
        decreases n - i,
    {
        i += 1;
    }
    proof {
        if i < n {
            leading_keys_stop(times@, t, i as nat, n as nat);
        }
    }
    if i < 1 {
        KeySpan::Between(1)
    } else if i > n - 1 {
        KeySpan::Between(n - 1)
    } else {
        KeySpan::Between(i)
    }
}

/// Key times in ascending order.
pub open spec fn ascending(times: Seq<Scalar>) -> bool {
    forall|i: int, j: int| 0 <= i <= j < times.len() ==> times[i].spec_le(times[j])
}

proof fn leading_keys_are_early(times: Seq<Scalar>, t: Scalar, n: nat)
    requires
        n <= times.len(),
    ensures
        leading_keys(times, t, n) <= n,
        forall|i: int|
            0 <= i < leading_keys(times, t, n) ==> (#[trigger] times[i]).spec_le(t),
        leading_keys(times, t, n) < n ==> !times[leading_keys(times, t, n) as int].spec_le(t),
    decreases n,
{
    if n > 0 {
        leading_keys_are_early(times, t, (n - 1) as nat);
    }
}

/// On ascending key times a moment lies between the two keys of its span.
pub proof fn span_brackets_moment(times: Seq<Scalar>, t: Scalar)
    requires
        ascending(times),
        times.len() <= usize::MAX,
        !t.nan(),
    ensures
        match span_of(times, t) {
            KeySpan::Empty => times.len() == 0,
            KeySpan::At(i) => i < times.len(),
            KeySpan::Between(i) => {
                &&& 0 < i < times.len()
                &&& times[i - 1].spec_le(t)
                &&& t.spec_lt(times[i as int])
            },
        },
{
    let n = times.len();
    if n > 0 {
        leading_keys_are_early(times, t, n);
        assert(times[0].spec_le(times[0]));
        assert(times[n - 1].spec_le(times[n - 1]));
        let k = leading_keys(times, t, n);
        if k < n {
            assert(times[k as int].spec_le(times[k as int]));
        }
    }
}

/// The tracks that drive a bone of a skeleton with `bones` bones; tracks of
/// other bones are ignored. A later track of a bone replaces an earlier one.
pub fn driving_track(clip: &AnimationClip, bone: u16, bones: usize) -> (r: Option<usize>)
    ensures
        match r {
            Some(i) => {
                &&& bone < bones
                &&& i < clip.tracks@.len()
                &&& clip.tracks@[i as int].bone == bone
                &&& forall|j: int|
                    i < j < clip.tracks@.len() ==> (#[trigger] clip.tracks@[j]).bone != bone
            },
            None => bone >= bones || forall|j: int|
                0 <= j < clip.tracks@.len() ==> (#[trigger] clip.tracks@[j]).bone != bone,
        },
{
    if bone as usize >= bones {
        return None;
    }
    let mut n: usize = clip.tracks.len();
    while n > 0
        invariant
            n <= clip.tracks@.len(),
            bone < bones,
            forall|j: int|
                n <= j < clip.tracks@.len() ==> (#[trigger] clip.tracks@[j]).bone != bone,
        decreases n,
    {
        if clip.tracks[n - 1].bone == bone {
            return Some(n - 1);
        }
        n -= 1;
    }
    None
}

/// The last time of a track is met by the last key of some kind, or is zero
/// where a kind has no key, and no kind of key ends later.
pub proof fn last_time_is_the_latest(track: BoneTrack)
    ensures
        track.translation@.len() > 0 && !track.translation@.last().0.nan()
            ==> track.translation@.last().0.spec_le(last_time_of(track)),
        track.rotation@.len() > 0 && !track.rotation@.last().0.nan()
            ==> track.rotation@.last().0.spec_le(last_time_of(track)),
        track.scale@.len() > 0 && !track.scale@.last().0.nan()
            ==> track.scale@.last().0.spec_le(last_time_of(track)),
        ({
            let t = last_time_of(track);
            ||| track.translation@.len() > 0 && t == track.translation@.last().0
            ||| track.rotation@.len() > 0 && t == track.rotation@.last().0
            ||| track.scale@.len() > 0 && t == track.scale@.last().0
            ||| t == Scalar::zero() && (track.translation@.len() == 0 || track.rotation@.len() == 0
                || track.scale@.len() == 0)
        }),
{
}

/// The duration is met by some track, or is zero.
pub proof fn duration_is_met(tracks: Seq<BoneTrack>, n: nat)
    requires
        n <= tracks.len(),
    ensures
        latest_key(tracks, n) == Scalar::zero() || exists|i: int|
            0 <= i < n && latest_key(tracks, n) == last_time_of(#[trigger] tracks[i]),
    decreases n,
{
    if n > 0 {
        duration_is_met(tracks, (n - 1) as nat);
        let before = latest_key(tracks, (n - 1) as nat);
        if latest_key(tracks, n) == before && before != Scalar::zero() {
            let i = choose|i: int|
                0 <= i < n - 1 && before == last_time_of(#[trigger] tracks[i]);
            assert(latest_key(tracks, n) == last_time_of(tracks[i]));
        } else if latest_key(tracks, n) != before {
            assert(latest_key(tracks, n) == last_time_of(tracks[n - 1]));
        }
    }
}

/// A single key holds only where there is no other key or the moment is not
/// inside the keys: the first key up to its time, the last one from its time
/// on. On ascending key times no other key is nearer.
pub proof fn outer_keys_hold_outside(times: Seq<Scalar>, t: Scalar, i: usize)
    requires
        span_of(times, t) == KeySpan::At(i),
        times.len() <= usize::MAX,
    ensures
        i < times.len(),
        times.len() > 1 && i == 0 ==> t.spec_le(times[0]),
        times.len() > 1 && i != 0 ==> i == times.len() - 1 && times[i as int].spec_le(t),
{
}

/// Up to the time of the first key that key holds, and from the time of the last
/// key on the last one; strictly between the two no single key does.
pub proof fn end_keys_hold_at_their_own_times(times: Seq<Scalar>, t: Scalar)
    requires
        0 < times.len() <= usize::MAX,
    ensures
        t.spec_le(times[0]) ==> span_of(times, t) == KeySpan::At(0),
        times.last().spec_le(t) && times[0].spec_lt(t) ==> span_of(times, t) == KeySpan::At(
            (times.len() - 1) as usize,
        ),
        times[0].spec_lt(t) && t.spec_lt(times.last()) && times.len() > 1 ==> span_of(
            times,
            t,
        ) is Between,
{
}

} // verus!
