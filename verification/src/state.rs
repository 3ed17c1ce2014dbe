//! The rigging session: mesh, skeleton, active bone, selection, tool, and an
//! undo history of influence snapshots.
use vstd::prelude::*;
use crate::mesh::{SkinnedMesh, VertexInfluences};
use crate::scalar::Scalar;
use crate::select::VertexSelection;
use crate::skeleton::Skeleton;

verus! {

/// Undo steps kept.
pub const MAX_UNDO: usize = 64;

/// Brush radius of a new session, in pixels: the bit pattern of twenty-four.
pub const BRUSH_RADIUS_BITS: u32 = 0x41C0_0000;

/// Weight per paint dab of a new session: the bit pattern of a quarter.
pub const PAINT_STRENGTH_BITS: u32 = 0x3E80_0000;

/// Which interaction tool is active.
#[derive(Clone, Copy, Debug, PartialEq, Eq, Structural)]
pub enum Tool {
    /// Pick bones in the viewport.
    BoneSelect,
    /// Rectangle vertex selection.
    Marquee,
    /// Free-hand polygon vertex selection.
    Lasso,
    /// Radial brush vertex selection.
    BrushSelect,
    /// Paint weight for the active bone.
    WeightPaint,
}

impl Default for Tool {
    /// Bone picking.
    fn default() -> (t: Tool)
        ensures
            t == Tool::BoneSelect,
    {
        Tool::BoneSelect
    }
}

/// The influences before a reversible edit.
#[derive(Debug)]
pub struct InfluenceSnapshot {
    pub label: &'static str,
    pub influences: Vec<VertexInfluences>,
}

/// Everything the rigging editor needs for one session.
#[derive(Debug)]
pub struct RigState {
    pub mesh: SkinnedMesh,
    pub skeleton: Skeleton,
    pub selection: VertexSelection,
    /// The bone targeted by bind and paint actions.
    pub active_bone: Option<u16>,
    pub tool: Tool,
    /// Brush radius in pixels.
    pub brush_radius: Scalar,
    /// Weight per paint dab; a negative one erases.
    pub paint_strength: Scalar,
    /// Only affect vertices that face the camera in screen tools.
    pub front_facing_only: bool,
    /// Snapshots to go back to, the latest last.
    pub undo: Vec<InfluenceSnapshot>,
    /// Snapshots to go forward to, the next last.
    pub redo: Vec<InfluenceSnapshot>,
}

// ── history ───────────────────────────────────────────────────────────────────

/// A snapshot as label and influences.
pub ghost struct Snapshot {
    pub label: Seq<char>,
    pub influences: Seq<VertexInfluences>,
}

/// The undo history and the influences it moves.
#[verifier::ext_equal]
pub ghost struct History {
    pub undo: Seq<Snapshot>,
    pub redo: Seq<Snapshot>,
    pub current: Seq<VertexInfluences>,
}

/// Snapshots as labels and influences.
pub open spec fn snapshots(list: Seq<InfluenceSnapshot>) -> Seq<Snapshot> {
    list.map_values(
        |s: InfluenceSnapshot| Snapshot { label: s.label@, influences: s.influences@ },
    )
}

impl History {
    /// After noting the current influences under a label: nothing can be redone,
    /// and beyond the limit the oldest step is forgotten.
    pub open spec fn pushed(self, label: Seq<char>) -> History {
        let grown = self.undo.push(Snapshot { label, influences: self.current });
        History {
            undo: if grown.len() > MAX_UNDO {
                grown.drop_first()
            } else {
                grown
            },
            redo: Seq::empty(),
            current: self.current,
        }
    }

    /// After stepping back: the latest snapshot becomes current, and what was
    /// current can be redone.
    pub open spec fn undone(self) -> History {
        if self.undo.len() == 0 {
            self
        } else {
            let s = self.undo.last();
            History {
                undo: self.undo.drop_last(),
                redo: self.redo.push(Snapshot { label: s.label, influences: self.current }),
                current: s.influences,
            }
        }
    }

    /// After stepping forward: the next snapshot becomes current, and what was
    /// current can be undone.
    pub open spec fn redone(self) -> History {
        if self.redo.len() == 0 {
            self
        } else {
            let s = self.redo.last();
            History {
                undo: self.undo.push(Snapshot { label: s.label, influences: self.current }),
                redo: self.redo.drop_last(),
                current: s.influences,
            }
        }
    }

    /// The same history with other influences, as after an edit.
    pub open spec fn edited(self, influences: Seq<VertexInfluences>) -> History {
        History { current: influences, ..self }
    }

    /// At most as many steps as are kept.
    pub open spec fn bounded(self) -> bool {
        self.undo.len() + self.redo.len() <= MAX_UNDO
    }
}

/// Redo takes an undo back, and undo takes a redo back.
pub proof fn undo_and_redo_cancel(h: History)
    ensures
        h.undo.len() > 0 ==> h.undone().redone() == h,
        h.redo.len() > 0 ==> h.redone().undone() == h,
{
    if h.undo.len() > 0 {
        assert(h.undone().redone() =~= h);
    }
    if h.redo.len() > 0 {
        assert(h.redone().undone() =~= h);
    }
}

/// Whatever an edit did to the influences, undo restores those that were noted
/// before it, and redo then brings the edit back.
pub proof fn undo_restores_noted_influences(
    h: History,
    label: Seq<char>,
    influences: Seq<VertexInfluences>,
)
    ensures
        h.pushed(label).edited(influences).undone().current == h.current,
        h.pushed(label).edited(influences).undone().redone().current == influences,
{
    let e = h.pushed(label).edited(influences);
    assert(e.undo.last() == Snapshot { label, influences: h.current });
    undo_and_redo_cancel(e);
}

/// No operation lets the history grow beyond its limit.
pub proof fn history_stays_bounded(h: History, label: Seq<char>)
    requires
        h.bounded(),
    ensures
        h.pushed(label).bounded(),
        h.undone().bounded(),
        h.redone().bounded(),
{
}

// ── session ───────────────────────────────────────────────────────────────────

/// Whether a distance is within reach.
pub open spec fn in_reach(distance: Option<Scalar>, max_pixels: Scalar) -> bool {
    distance matches Some(d) && d.spec_le(max_pixels)
}

/// Of the first `n` bones the one whose head is nearest, among those within
/// reach; of equally near ones the first.
pub open spec fn nearest_head(distances: Seq<Option<Scalar>>, max_pixels: Scalar, n: nat) -> Option<
    int,
>
    decreases n,
{
    if n == 0 {
        None
    } else {
        let best = nearest_head(distances, max_pixels, (n - 1) as nat);
        if in_reach(distances[n - 1], max_pixels) && (best is None
            || distances[n - 1]->0.spec_lt(distances[best->0]->0)) {
            Some(n - 1)
        } else {
            best
        }
    }
}

/// The nearest head is within reach, no head is nearer, and it is found as soon
/// as some head is within reach.
pub proof fn nearest_head_is_nearest(distances: Seq<Option<Scalar>>, max_pixels: Scalar, n: nat)
    requires
        n <= distances.len(),
    ensures
        match nearest_head(distances, max_pixels, n) {
            Some(k) => 0 <= k < n && in_reach(distances[k], max_pixels) && forall|j: int|
                0 <= j < n && in_reach(#[trigger] distances[j], max_pixels)
                    ==> distances[k]->0.spec_le(distances[j]->0),
            None => forall|j: int|
                0 <= j < n ==> !in_reach(#[trigger] distances[j], max_pixels),
        },
    decreases n,
{
    if n > 0 {
        nearest_head_is_nearest(distances, max_pixels, (n - 1) as nat);
    }
}

/// What is drawn for bone `i`: a line to each child, or a stub for a bone
/// without children.
pub open spec fn lines_of(skeleton: Skeleton, i: int) -> Seq<(usize, Option<usize>)> {
    let children = crate::listing::indices_where(
        skeleton.bones@.len(),
        |j: int| skeleton.bones@[j].parent == Some(i as usize),
    );
    if children.len() == 0 {
        seq![(i as usize, None)]
    } else {
        children.map_values(|c: int| (i as usize, Some(c as usize)))
    }
}

fn copy_influences(list: &Vec<VertexInfluences>) -> (r: Vec<VertexInfluences>)
    ensures
        r@ == list@,
{
    let mut r: Vec<VertexInfluences> = Vec::new();
    let mut i: usize = 0;
    while i < list.len()
        invariant
            i <= list@.len(),
            r@ == list@.take(i as int),
        decreases list@.len() - i,
    {
        r.push(list[i]);
        assert(r@ =~= list@.take(i + 1));
        i += 1;
    }
    assert(list@.take(i as int) =~= list@);
    r
}

fn same_influences(a: &Vec<VertexInfluences>, b: &Vec<VertexInfluences>) -> (r: bool)
    ensures
        r == (a@ == b@),
{
    if a.len() != b.len() {
        return false;
    }
    let mut v: usize = 0;
    while v < a.len()
        invariant
            v <= a@.len(),
            a@.len() == b@.len(),
            forall|w: int| 0 <= w < v ==> a@[w] == b@[w],
        decreases a@.len() - v,
    {
        let (left, right) = (a[v], b[v]);
        let same = left[0] == right[0] && left[1] == right[1] && left[2] == right[2] && left[3]
            == right[3];
        if !same {
            assert(a@[v as int] != b@[v as int]);
            return false;
        }
        assert(left@ =~= right@);
        assert(left == right);
        v += 1;
    }
    assert(a@ =~= b@);
    true
}

/// The active bone among `bones` bones: the wanted one or the first, moved to
/// the last where there are too few; none without bones.
pub open spec fn clamped_bone(wanted: Option<u16>, bones: nat) -> Option<u16> {
    let bone = match wanted {
        Some(w) => w,
        None => 0,
    };
    if bones == 0 {
        None
    } else if bone < bones {
        Some(bone)
    } else {
        Some((bones - 1) as u16)
    }
}

impl RigState {
    /// The undo history with the current influences.
    pub open spec fn history(self) -> History {
        History {
            undo: snapshots(self.undo@),
            redo: snapshots(self.redo@),
            current: self.mesh.influences@,
        }
    }

    /// Everything but the history and the influences agrees.
    pub open spec fn same_setup(self, other: RigState) -> bool {
        &&& self.mesh.same_shape(other.mesh)
        &&& self.skeleton == other.skeleton
        &&& self.selection == other.selection
        &&& self.same_tools(other)
    }

    /// Active bone, tool and tool settings agree.
    pub open spec fn same_tools(self, other: RigState) -> bool {
        &&& self.active_bone == other.active_bone
        &&& self.tool == other.tool
        &&& self.brush_radius == other.brush_radius
        &&& self.paint_strength == other.paint_strength
        &&& self.front_facing_only == other.front_facing_only
    }

    /// The selection covers the mesh, and the active bone is one of the bones.
    pub open spec fn well_formed(self) -> bool {
        &&& self.selection@.len() == self.mesh.vertices@.len()
        &&& (self.active_bone matches Some(b) ==> b < self.skeleton.bones@.len())
        &&& self.history().bounded()
    }

    /// Start a session from a mesh and a skeleton. The first bone is active, if
    /// there is one.
    pub fn new(mesh: SkinnedMesh, skeleton: Skeleton) -> (s: RigState)
        ensures
            s.mesh == mesh,
            s.skeleton == skeleton,
            s.selection@ == Seq::new(mesh.vertices@.len(), |v: int| false),
            s.active_bone == (if skeleton.bones@.len() == 0 {
                None
            } else {
                Some(0u16)
            }),
            s.tool == Tool::BoneSelect,
            s.brush_radius.bits == BRUSH_RADIUS_BITS,
            s.paint_strength.bits == PAINT_STRENGTH_BITS,
            s.front_facing_only,
            s.undo@.len() == 0,
            s.redo@.len() == 0,
            s.well_formed(),
    {
        let selection = VertexSelection::new(mesh.vertex_count());
        let active_bone = if skeleton.is_empty() {
            None
        } else {
            Some(0u16)
        };
        RigState {
            mesh,
            skeleton,
            selection,
            active_bone,
            tool: Tool::default(),
            brush_radius: Scalar::from_bits(BRUSH_RADIUS_BITS),
            paint_strength: Scalar::from_bits(PAINT_STRENGTH_BITS),
            front_facing_only: true,
            undo: Vec::new(),
            redo: Vec::new(),
        }
    }

    /// A session with nothing imported yet.
    pub fn empty() -> (s: RigState)
        ensures
            s.mesh.vertices@.len() == 0,
            s.mesh.indices@.len() == 0,
            s.mesh.influences@.len() == 0,
            s.mesh.cached() is None,
            s.skeleton.bones@.len() == 0,
            s.selection@.len() == 0,
            s.active_bone is None,
            s.tool == Tool::BoneSelect,
            s.brush_radius.bits == BRUSH_RADIUS_BITS,
            s.paint_strength.bits == PAINT_STRENGTH_BITS,
            s.front_facing_only,
            s.undo@.len() == 0,
            s.redo@.len() == 0,
            s.well_formed(),
    {
        RigState::new(SkinnedMesh::default(), Skeleton::new())
    }

    /// Replace the mesh: the selection is emptied and covers the new mesh, and
    /// the history is cleared.
    pub fn set_mesh(&mut self, mesh: SkinnedMesh)
        ensures
            final(self).mesh == mesh,
            final(self).selection@ == Seq::new(mesh.vertices@.len(), |v: int| false),
            final(self).undo@.len() == 0,
            final(self).redo@.len() == 0,
            final(self).skeleton == old(self).skeleton,
            final(self).same_tools(*old(self)),
            old(self).well_formed() ==> final(self).well_formed(),
    {
        self.selection = VertexSelection::new(mesh.vertex_count());
        self.mesh = mesh;
        self.undo.clear();
        self.redo.clear();
    }

    /// Replace the skeleton, keeping mesh and weights. The active bone is
    /// clamped to the new range.
    pub fn set_skeleton(&mut self, skeleton: Skeleton)
        ensures
            final(self).skeleton == skeleton,
            final(self).active_bone == clamped_bone(old(self).active_bone, skeleton.bones@.len()),
            final(self).mesh == old(self).mesh,
            final(self).selection == old(self).selection,
            final(self).tool == old(self).tool,
            final(self).brush_radius == old(self).brush_radius,
            final(self).paint_strength == old(self).paint_strength,
            final(self).front_facing_only == old(self).front_facing_only,
            final(self).undo == old(self).undo,
            final(self).redo == old(self).redo,
            old(self).well_formed() ==> final(self).well_formed(),
    {
        let count: usize = skeleton.len();
        if count == 0 {
            self.active_bone = None;
        } else {
            let wanted: u16 = match self.active_bone {
                Some(w) => w,
                None => 0,
            };
            if (wanted as usize) < count {
                self.active_bone = Some(wanted);
            } else {
                self.active_bone = Some((count - 1) as u16);
            }
        }
        self.skeleton = skeleton;
    }

    /// Make a bone the active one; a bone that does not exist is ignored.
    pub fn select_bone(&mut self, bone: u16)
        ensures
            final(self).active_bone == (if bone < old(self).skeleton.bones@.len() {
                Some(bone)
            } else {
                old(self).active_bone
            }),
            final(self).mesh == old(self).mesh,
            final(self).skeleton == old(self).skeleton,
            final(self).selection == old(self).selection,
            final(self).tool == old(self).tool,
            final(self).brush_radius == old(self).brush_radius,
            final(self).paint_strength == old(self).paint_strength,
            final(self).front_facing_only == old(self).front_facing_only,
            final(self).undo == old(self).undo,
            final(self).redo == old(self).redo,
            old(self).well_formed() ==> final(self).well_formed(),
    {
        if (bone as usize) < self.skeleton.len() {
            self.active_bone = Some(bone);
        }
    }

    /// Pick the bone whose projected head is nearest to a screen point, within
    /// `max_pixels`. `distances` holds the distance in pixels per bone, `None`
    /// for a head behind the camera.
    pub fn pick_bone(&self, distances: &Vec<Option<Scalar>>, max_pixels: Scalar) -> (r: Option<u16>)
        requires
            distances@.len() == self.skeleton.bones@.len(),
        ensures
            r == (match nearest_head(distances@, max_pixels, distances@.len()) {
                Some(k) => Some(k as u16),
                None => None,
            }),
    {
        let mut best: Option<(usize, Scalar)> = None;
        let mut i: usize = 0;
        while i < self.skeleton.len()
            invariant
                i <= self.skeleton.bones@.len(),
                distances@.len() == self.skeleton.bones@.len(),
                match nearest_head(distances@, max_pixels, i as nat) {
                    Some(k) => best is Some && (best->0).0 == k && 0 <= k < i && distances@[k]
                        == Some((best->0).1),
                    None => best is None,
                },
            decreases self.skeleton.bones@.len() - i,
        {
            if let Some(d) = distances[i] {
                if d.at_most(max_pixels) {
                    let nearer = match best {
                        None => true,
                        Some((_, bd)) => d.less(bd),
                    };
                    if nearer {
                        best = Some((i, d));
                    }
                }
            }
            i += 1;
        }
        match best {
            Some((k, _)) => Some(k as u16),
            None => None,
        }
    }

    /// The lines that draw the bones: from each bone to each of its children,
    /// or a stub (`None`) for a bone without children.
    pub fn bone_segments(&self) -> (r: Vec<(usize, Option<usize>)>)
        ensures
            r@ == crate::bytes::flat(
                self.skeleton.bones@.len(),
                |i: int| lines_of(self.skeleton, i),
            ),
    {
        let ghost f = |i: int| lines_of(self.skeleton, i);
        let mut r: Vec<(usize, Option<usize>)> = Vec::new();
        let mut i: usize = 0;
        while i < self.skeleton.len()
            invariant
                i <= self.skeleton.bones@.len(),
                f == (|i: int| lines_of(self.skeleton, i)),
                r@ == crate::bytes::flat(i as nat, f),
            decreases self.skeleton.bones@.len() - i,
        {
            let ghost start = r@;
            let ghost piece = f(i as int);
            let children = self.skeleton.children(i);
            if children.len() == 0 {
                r.push((i, None));
                assert(r@ =~= start + piece);
            } else {
                let mut k: usize = 0;
                assert(r@ =~= start + piece.take(0));
                while k < children.len()
                    invariant
                        k <= children@.len(),
                        piece.len() == children@.len(),
                        forall|j: int|
                            0 <= j < children@.len() ==> #[trigger] piece[j] == (
                                i,
                                Some(children@[j]),
                            ),
                        r@ == start + piece.take(k as int),
                    decreases children@.len() - k,
                {
                    r.push((i, Some(children[k])));
                    assert(r@ =~= start + piece.take(k + 1));
                    k += 1;
                }
                assert(piece.take(k as int) =~= piece);
            }
            i += 1;
        }
        r
    }

    /// Note the current influences before an edit, under a label for the menu.
    pub fn push_undo(&mut self, label: &'static str)
        ensures
            final(self).history() == old(self).history().pushed(label@),
            final(self).same_setup(*old(self)),
            final(self).mesh == old(self).mesh,
            old(self).well_formed() ==> final(self).well_formed(),
    {
        let ghost before = self.history();
        self.redo.clear();
        let influences = copy_influences(&self.mesh.influences);
        self.undo.push(InfluenceSnapshot { label, influences });
        assert(snapshots(self.undo@) =~= before.undo.push(
            Snapshot { label: label@, influences: before.current },
        ));
        if self.undo.len() > MAX_UNDO {
            let ghost grown = self.undo@;
            let _ = self.undo.remove(0);
            assert(snapshots(self.undo@) =~= snapshots(grown).drop_first());
        }
        assert(self.history() =~= before.pushed(label@));
    }

    /// The label of the next undo step.
    pub fn peek_undo(&self) -> (r: Option<&'static str>)
        ensures
            match r {
                Some(label) => self.undo@.len() > 0 && label@ == self.history().undo.last().label,
                None => self.undo@.len() == 0,
            },
    {
        if self.undo.len() == 0 {
            None
        } else {
            Some(self.undo[self.undo.len() - 1].label)
        }
    }

    /// Whether the influences differ from those that were noted last. With
    /// nothing noted they do not.
    pub fn changed_since_noted(&self) -> (r: bool)
        ensures
            r == (self.undo@.len() > 0 && self.history().undo.last().influences
                != self.history().current),
    {
        if self.undo.len() == 0 {
            false
        } else {
            let latest = self.undo.len() - 1;
            !same_influences(&self.undo[latest].influences, &self.mesh.influences)
        }
    }

    /// Step back. Returns whether there was a step to undo.
    pub fn undo(&mut self) -> (r: bool)
        ensures
            r == (old(self).undo@.len() > 0),
            final(self).history() == old(self).history().undone(),
            final(self).same_setup(*old(self)),
            old(self).well_formed() ==> final(self).well_formed(),
    {
        let ghost before = self.history();
        let ghost list = self.undo@;
        match self.undo.pop() {
            Some(snap) => {
                let label = snap.label;
                let influences = self.mesh.replace_influences(snap.influences);
                self.redo.push(InfluenceSnapshot { label, influences });
                proof {
                    assert(snapshots(self.undo@) =~= before.undo.drop_last());
                    assert(snapshots(list).last() == before.undo.last());
                    assert(snapshots(self.redo@) =~= before.redo.push(
                        Snapshot {
                            label: before.undo.last().label,
                            influences: before.current,
                        },
                    ));
                    assert(self.history() =~= before.undone());
                }
                true
            },
            None => false,
        }
    }

    /// Step forward. Returns whether there was a step to redo.
    pub fn redo(&mut self) -> (r: bool)
        ensures
            r == (old(self).redo@.len() > 0),
            final(self).history() == old(self).history().redone(),
            final(self).same_setup(*old(self)),
            old(self).well_formed() ==> final(self).well_formed(),
    {
        let ghost before = self.history();
        let ghost list = self.redo@;
        match self.redo.pop() {
            Some(snap) => {
                let label = snap.label;
                let influences = self.mesh.replace_influences(snap.influences);
                self.undo.push(InfluenceSnapshot { label, influences });
                proof {
                    assert(snapshots(self.redo@) =~= before.redo.drop_last());
                    assert(snapshots(list).last() == before.redo.last());
                    assert(snapshots(self.undo@) =~= before.undo.push(
                        Snapshot {
                            label: before.redo.last().label,
                            influences: before.current,
                        },
                    ));
                    assert(self.history() =~= before.redone());
                }
                true
            },
            None => false,
        }
    }
}

/// Noting a step puts it last, forgets what could be redone, and keeps the
/// steps before it in their order; only where the history is full the oldest is
/// forgotten.
pub proof fn noting_keeps_the_latest_steps(h: History, label: Seq<char>)
    requires
        h.undo.len() <= MAX_UNDO,
    ensures
        h.pushed(label).undo.last().label == label,
        h.pushed(label).undo.last().influences == h.current,
        h.pushed(label).current == h.current,
        h.pushed(label).redo.len() == 0,
        h.undo.len() < MAX_UNDO ==> h.pushed(label).undo.drop_last() == h.undo,
        h.undo.len() == MAX_UNDO ==> h.pushed(label).undo.drop_last() == h.undo.drop_first(),
{
    let all = h.pushed(label).undo;
    if h.undo.len() < MAX_UNDO {
        assert(all.drop_last() =~= h.undo);
    } else {
        assert(all.drop_last() =~= h.undo.drop_first());
    }
}

/// A step is undone under its own label, and only the latest one is.
pub proof fn undo_takes_the_latest_step(h: History)
    requires
        h.undo.len() > 0,
    ensures
        h.undone().undo == h.undo.drop_last(),
        h.undone().current == h.undo.last().influences,
        h.undone().redo.len() == h.redo.len() + 1,
        h.undone().redo.last().label == h.undo.last().label,
        h.undone().redo.last().influences == h.current,
        h.undone().redo.drop_last() == h.redo,
{
    assert(h.undone().redo.drop_last() =~= h.redo);
}

/// Of equally near heads the first is picked: every earlier one within reach is
/// farther.
pub proof fn earlier_heads_are_farther(
    distances: Seq<Option<Scalar>>,
    max_pixels: Scalar,
    n: nat,
    j: int,
)
    requires
        n <= distances.len(),
        nearest_head(distances, max_pixels, n) matches Some(k) && 0 <= j < k,
        distances[j] matches Some(d) && d.spec_le(max_pixels),
    ensures
        distances[nearest_head(distances, max_pixels, n)->0]->0.spec_lt(distances[j]->0),
    decreases n,
{
    nearest_head_is_nearest(distances, max_pixels, (n - 1) as nat);
    let best = nearest_head(distances, max_pixels, (n - 1) as nat);
    if nearest_head(distances, max_pixels, n) == best {
        earlier_heads_are_farther(distances, max_pixels, (n - 1) as nat, j);
    } else if in_reach(distances[j], max_pixels) {
        assert(best is Some);
    }
}

/// A head within reach is projected and not farther than the reach.
pub proof fn heads_in_reach_are_near(distance: Option<Scalar>, max_pixels: Scalar, more: Scalar)
    requires
        max_pixels.spec_le(more),
    ensures
        in_reach(distance, max_pixels) ==> in_reach(distance, more),
        in_reach(Some(max_pixels), max_pixels),
        !in_reach(None, max_pixels),
        distance matches Some(d) && max_pixels.spec_lt(d) ==> !in_reach(distance, max_pixels),
{
}

/// A bone is joined by a line to another exactly if it is the other's parent,
/// and it is drawn as a stub exactly if it is nobody's parent.
pub proof fn lines_join_parents_to_children(skeleton: Skeleton, i: int, c: int)
    requires
        skeleton.bones@.len() <= usize::MAX,
        0 <= i < skeleton.bones@.len(),
        0 <= c < skeleton.bones@.len(),
    ensures
        lines_of(skeleton, i).contains((i as usize, Some(c as usize)))
            <==> skeleton.bones@[c].parent == Some(i as usize),
        lines_of(skeleton, i).contains((i as usize, None)) <==> forall|j: int|
            0 <= j < skeleton.bones@.len() ==> (#[trigger] skeleton.bones@[j]).parent != Some(
                i as usize,
            ),
        forall|k: int|
            0 <= k < lines_of(skeleton, i).len() ==> (#[trigger] lines_of(skeleton, i)[k]).0 == i,
{
    let n = skeleton.bones@.len();
    let p = |j: int| skeleton.bones@[j].parent == Some(i as usize);
    let children = crate::listing::indices_where(n, p);
    let lines = lines_of(skeleton, i);
    crate::listing::listed_iff_satisfied(n, p, c);
    crate::listing::listed_ascending(n, p);
    if children.contains(c) {
        assert(lines[children.index_of(c)] == (i as usize, Some(c as usize)));
    }
    if lines.contains((i as usize, Some(c as usize))) {
        let k = lines.index_of((i as usize, Some(c as usize)));
        assert(lines[k] == (i as usize, Some(children[k] as usize)));
        assert(children[k] == c);
    }
    if children.len() == 0 {
        assert(lines[0] == (i as usize, None::<usize>));
        assert forall|j: int| 0 <= j < n implies (#[trigger] skeleton.bones@[j]).parent != Some(
            i as usize,
        ) by {
            crate::listing::listed_iff_satisfied(n, p, j);
        }
    } else {
        assert(p(children[0]));
        assert(skeleton.bones@[children[0]].parent == Some(i as usize));
        assert(0 <= children[0] < n);
    }
}

/// The active bone exists exactly if there are bones; it is the wanted one where
/// that exists, and otherwise no bone lies between it and the wanted one. With
/// none wanted it is the first.
pub proof fn active_bone_is_nearest_to_the_wanted(wanted: u16, bones: nat, c: u16)
    ensures
        clamped_bone(Some(wanted), bones) is None <==> bones == 0,
        clamped_bone(Some(wanted), bones) matches Some(b) ==> b < bones && b <= wanted && (c < bones
            && c <= wanted ==> c <= b),
        clamped_bone(None, bones) is None <==> bones == 0,
        bones > 0 ==> clamped_bone(None, bones) == Some(0u16),
{
}

} // verus!
