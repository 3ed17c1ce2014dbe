//! Motion prior extraction: which files hold clips, and the figures of a bake.
use vstd::prelude::*;
use vstd::string::StringExecFns;
use crate::clip::Clip;
use crate::import::ImportError;
use crate::text;

verus! {

/// Figures of a bake.
#[derive(Clone, Copy, Debug, PartialEq, Eq, Structural)]
pub struct ExtractStats {
    /// Files that yielded at least one clip.
    pub files: usize,
    /// Clips across all files.
    pub clips: usize,
    /// Frames across all clips.
    pub frames: usize,
    /// Canonical bone count.
    pub bones: usize,
}

impl Default for ExtractStats {
    /// All zero.
    fn default() -> (s: ExtractStats)
        ensures
            s == (ExtractStats { files: 0, clips: 0, frames: 0, bones: 0 }),
    {
        ExtractStats { files: 0, clips: 0, frames: 0, bones: 0 }
    }
}

/// What can go wrong while loading clips.
#[derive(Debug, PartialEq, Eq)]
pub enum ExtractError {
    /// Reading a file or walking a directory failed.
    Io(String),
    /// A clip file does not hold a clip.
    Json(String),
    /// A model file could not be imported.
    Import(ImportError),
}

impl ExtractError {
    /// What the error says to the user.
    pub open spec fn message(self) -> Seq<char> {
        match self {
            ExtractError::Io(s) => "I/O error: "@ + s@,
            ExtractError::Json(s) => "JSON error: "@ + s@,
            ExtractError::Import(e) => "import error: "@ + e.message(),
        }
    }

    /// What the error says to the user.
    pub fn to_message(&self) -> (r: String)
        ensures
            r@ == self.message(),
    {
        match self {
            ExtractError::Io(s) => "I/O error: ".to_owned().concat(s.as_str()),
            ExtractError::Json(s) => "JSON error: ".to_owned().concat(s.as_str()),
            ExtractError::Import(e) => "import error: ".to_owned().concat(e.to_message().as_str()),
        }
    }
}

/// What a file may hold.
#[derive(Clone, Copy, Debug, PartialEq, Eq, Structural)]
pub enum ClipSource {
    /// One baked clip.
    Json,
    /// A skeleton with animations to bake.
    Gltf,
    /// No clips.
    Other,
}

/// What a file may hold, by its extension without regard to case.
pub fn clip_source(extension: &str) -> (r: ClipSource)
    ensures
        ({
            let ext = text::lower(extension@);
            match r {
                ClipSource::Json => ext == "json"@,
                ClipSource::Gltf => ext != "json"@ && (ext == "gltf"@ || ext == "glb"@),
                ClipSource::Other => ext != "json"@ && ext != "gltf"@ && ext != "glb"@,
            }
        }),
{
    let ext = text::to_lower(extension);
    if text::same_text(ext.as_str(), "json") {
        ClipSource::Json
    } else if text::same_text(ext.as_str(), "gltf") || text::same_text(ext.as_str(), "glb") {
        ClipSource::Gltf
    } else {
        ClipSource::Other
    }
}

/// Most rotations in one of the first `n` frames of a clip.
pub open spec fn most_rotations(clip: Clip, n: nat) -> nat
    decreases n,
{
    if n == 0 {
        0
    } else {
        let before = most_rotations(clip, (n - 1) as nat);
        let here = clip.frames@[n - 1].local_rotations@.len();
        if here > before {
            here
        } else {
            before
        }
    }
}

/// Most rotations in one frame of the first `n` clips.
pub open spec fn bone_count_of(clips: Seq<Clip>, n: nat) -> nat
    decreases n,
{
    if n == 0 {
        0
    } else {
        let before = bone_count_of(clips, (n - 1) as nat);
        let here = most_rotations(clips[n - 1], clips[n - 1].frames@.len());
        if here > before {
            here
        } else {
            before
        }
    }
}

/// Frames of the first `n` clips.
pub open spec fn frame_total(clips: Seq<Clip>, n: nat) -> nat
    decreases n,
{
    if n == 0 {
        0
    } else {
        frame_total(clips, (n - 1) as nat) + clips[n - 1].frames@.len()
    }
}

/// The canonical bone count: the most rotations that a frame holds.
pub fn canonical_bone_count(clips: &Vec<Clip>) -> (r: usize)
    ensures
        r == bone_count_of(clips@, clips@.len()),
{
    let mut r: usize = 0;
    let mut i: usize = 0;
    while i < clips.len()
        invariant
            i <= clips@.len(),
            r == bone_count_of(clips@, i as nat),
        decreases clips@.len() - i,
    {
        let mut most: usize = 0;
        let mut f: usize = 0;
        while f < clips[i].frames.len()
            invariant
                i < clips@.len(),
                f <= clips@[i as int].frames@.len(),
                most == most_rotations(clips@[i as int], f as nat),
            decreases clips@[i as int].frames@.len() - f,
        {
            let here: usize = clips[i].frames[f].local_rotations.len();
            if here > most {
                most = here;
            }
            f += 1;
        }
        if most > r {
            r = most;
        }
        i += 1;
    }
    r
}

/// No frame holds more rotations than the canonical bone count.
pub proof fn canonical_bone_count_bounds(clips: Seq<Clip>, n: nat, i: int, f: int)
    requires
        0 <= i < n <= clips.len(),
        0 <= f < clips[i].frames@.len(),
    ensures
        clips[i].frames@[f].local_rotations@.len() <= bone_count_of(clips, n),
    decreases n,
{
    if i < n - 1 {
        canonical_bone_count_bounds(clips, (n - 1) as nat, i, f);
    } else {
        frame_within_clip(clips[i], clips[i].frames@.len(), f);
    }
}

proof fn frame_within_clip(clip: Clip, n: nat, f: int)
    requires
        0 <= f < n <= clip.frames@.len(),
    ensures
        clip.frames@[f].local_rotations@.len() <= most_rotations(clip, n),
    decreases n,
{
    if f < n - 1 {
        frame_within_clip(clip, (n - 1) as nat, f);
    }
}

proof fn frame_total_grows(clips: Seq<Clip>, m: nat, n: nat)
    requires
        m <= n,
    ensures
        frame_total(clips, m) <= frame_total(clips, n),
    decreases n,
{
    if m < n {
        frame_total_grows(clips, m, (n - 1) as nat);
    }
}

/// The figures of a bake from the clips that `files` files yielded.
pub fn stats_of(files: usize, clips: &Vec<Clip>) -> (r: ExtractStats)
    requires
        frame_total(clips@, clips@.len()) <= usize::MAX,
    ensures
        r.files == files,
        r.clips == clips@.len(),
        r.frames == frame_total(clips@, clips@.len()),
        r.bones == bone_count_of(clips@, clips@.len()),
{
    let mut frames: usize = 0;
    let mut i: usize = 0;
    while i < clips.len()
        invariant
            i <= clips@.len(),
            frame_total(clips@, clips@.len()) <= usize::MAX,
            frames == frame_total(clips@, i as nat),
        decreases clips@.len() - i,
    {
        proof {
            frame_total_grows(clips@, (i + 1) as nat, clips@.len());
        }
        frames += clips[i].len();
        i += 1;
    }
    ExtractStats { files, clips: clips.len(), frames, bones: canonical_bone_count(clips) }
}

/// The number of bones of a prior that is conditioned on goals: enough for the
/// clips and for the skeleton.
pub fn goal_bone_count(clips: &Vec<Clip>, skeleton_bones: usize) -> (r: usize)
    ensures
        r >= skeleton_bones && r >= bone_count_of(clips@, clips@.len()),
        r == skeleton_bones || r == bone_count_of(clips@, clips@.len()),
        r == (if bone_count_of(clips@, clips@.len()) < skeleton_bones {
            skeleton_bones as nat
        } else {
            bone_count_of(clips@, clips@.len())
        }),
{
    let count = canonical_bone_count(clips);
    if count < skeleton_bones {
        skeleton_bones
    } else {
        count
    }
}

/// Where the canonical bone count is not zero, some frame holds that many
/// rotations.
pub proof fn canonical_bone_count_is_met(clips: Seq<Clip>, n: nat) -> (at: (int, int))
    requires
        n <= clips.len(),
        bone_count_of(clips, n) > 0,
    ensures
        0 <= at.0 < n,
        0 <= at.1 < clips[at.0].frames@.len(),
        clips[at.0].frames@[at.1].local_rotations@.len() == bone_count_of(clips, n),
    decreases n,
{
    let most = most_rotations(clips[n - 1], clips[n - 1].frames@.len());
    if bone_count_of(clips, n) > bone_count_of(clips, (n - 1) as nat) {
        let f = most_rotations_are_met(clips[n - 1], clips[n - 1].frames@.len());
        (n - 1, f)
    } else {
        canonical_bone_count_is_met(clips, (n - 1) as nat)
    }
}

proof fn most_rotations_are_met(clip: Clip, n: nat) -> (f: int)
    requires
        n <= clip.frames@.len(),
        most_rotations(clip, n) > 0,
    ensures
        0 <= f < n,
        clip.frames@[f].local_rotations@.len() == most_rotations(clip, n),
    decreases n,
{
    if most_rotations(clip, n) > most_rotations(clip, (n - 1) as nat) {
        n - 1
    } else {
        most_rotations_are_met(clip, (n - 1) as nat)
    }
}

/// The frame total of two lists of clips is that of both together; no clip has
/// none, and a single clip has its own frames.
pub proof fn frame_totals_add_up(a: Seq<Clip>, b: Seq<Clip>)
    ensures
        frame_total(a + b, (a + b).len()) == frame_total(a, a.len()) + frame_total(b, b.len()),
        frame_total(Seq::empty(), 0) == 0,
        a.len() == 1 ==> frame_total(a, 1) == a[0].frames@.len(),
    decreases b.len(),
{
    assert(frame_total(a, 0) == 0);
    if b.len() == 0 {
        assert(a + b =~= a);
    } else {
        let front = b.drop_last();
        frame_totals_add_up(a, front);
        assert(a + front =~= (a + b).drop_last());
        frame_total_same(a + front, a + b, (a + front).len());
        frame_total_same(front, b, front.len());
    }
}

proof fn frame_total_same(a: Seq<Clip>, b: Seq<Clip>, n: nat)
    requires
        n <= a.len() <= b.len(),
        forall|i: int| 0 <= i < n ==> a[i] == b[i],
    ensures
        frame_total(a, n) == frame_total(b, n),
    decreases n,
{
    if n > 0 {
        frame_total_same(a, b, (n - 1) as nat);
    }
}

/// A message ends in the cause that the error carries, and errors of different
/// kinds start differently.
pub proof fn messages_tell_kind_and_cause(e: ExtractError)
    ensures
        e matches ExtractError::Io(s) ==> text::ends_in(e.message(), s@) && e.message()[0] == 'I',
        e matches ExtractError::Json(s) ==> text::ends_in(e.message(), s@) && e.message()[0] == 'J',
        e matches ExtractError::Import(cause) ==> text::ends_in(e.message(), cause.message())
            && e.message()[0] == 'i',
{
    reveal_strlit("I/O error: ");
    reveal_strlit("JSON error: ");
    reveal_strlit("import error: ");
    match e {
        ExtractError::Io(s) => {
            text::endings_come_off("I/O error: "@, s@, s@);
        },
        ExtractError::Json(s) => {
            text::endings_come_off("JSON error: "@, s@, s@);
        },
        ExtractError::Import(cause) => {
            text::endings_come_off("import error: "@, cause.message(), cause.message());
        },
    }
}

} // verus!
