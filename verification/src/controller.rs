//! The editor's controller: turns editor actions into operations on the
//! session and prepares what is drawn.
use vstd::prelude::*;
use crate::import::Imported;
use crate::listing;
use crate::mesh::RigVertex;
use crate::mesh;
use crate::scalar::Scalar;
use crate::select::{ScreenFilter, ScreenPoint, ScreenVertex, SelectMode};
use crate::select;
use crate::skeleton::Skeleton;
use crate::state::{RigState, Tool};
use crate::state;
use crate::viz::WeightView;
use crate::weights;

verus! {

/// Reach of a bone pick in pixels: the bit pattern of twenty-four.
pub const PICK_REACH_BITS: u32 = 0x41C0_0000;

/// A vertex ready to draw.
#[derive(Clone, Copy, Debug, PartialEq, Eq)]
pub struct RenderVertex {
    pub position: [Scalar; 3],
    pub normal: [Scalar; 3],
    pub uv: [Scalar; 2],
    pub color: [Scalar; 4],
}

/// What a click does under the active tool.
#[derive(Clone, Copy, Debug, PartialEq, Eq, Structural)]
pub enum ClickAction {
    /// Pick the nearest bone.
    PickBone,
    /// Select the vertices under the brush.
    BrushSelect,
    /// Begin a stroke and paint.
    Paint,
    /// Nothing; the tool is driven by a drag.
    Nothing,
}

/// A weight edit over the whole mesh or the selection.
#[derive(Clone, Copy, Debug, PartialEq, Eq, Structural)]
pub enum Edit {
    Smooth,
    Normalize,
    Prune,
    Mirror,
}

/// The label of an edit in the undo menu.
pub open spec fn edit_label(edit: Edit) -> Seq<char> {
    match edit {
        Edit::Smooth => "smooth"@,
        Edit::Normalize => "normalize"@,
        Edit::Prune => "prune"@,
        Edit::Mirror => "mirror"@,
    }
}

/// The editor-side controller.
pub struct RigController {
    pub state: RigState,
    pub view: WeightView,
    pub select_mode: SelectMode,
    /// Where the last import came from.
    pub source: String,
    /// Whether colours or geometry changed since the last upload.
    pub render_dirty: bool,
}

impl RigController {
    /// View, mode and source agree.
    pub open spec fn same_settings(self, other: RigController) -> bool {
        &&& self.view == other.view
        &&& self.select_mode == other.select_mode
        &&& self.source == other.source
    }

    /// Everything but the selection agrees, and the mesh may have gained cached
    /// neighbour lists.
    pub open spec fn only_selection_changed(self, other: RigController) -> bool {
        &&& self.same_settings(other)
        &&& self.state.mesh.vertices == other.state.mesh.vertices
        &&& self.state.mesh.indices == other.state.mesh.indices
        &&& self.state.mesh.influences == other.state.mesh.influences
        &&& self.state.mesh.neighbours() == other.state.mesh.neighbours()
        &&& self.state.skeleton == other.state.skeleton
        &&& self.state.same_tools(other.state)
        &&& self.state.undo == other.state.undo
        &&& self.state.redo == other.state.redo
    }

    /// Nothing is imported and every setting has its initial value.
    pub open spec fn is_fresh(self) -> bool {
        &&& self.state.mesh.vertices@.len() == 0
        &&& self.state.mesh.indices@.len() == 0
        &&& self.state.mesh.influences@.len() == 0
        &&& self.state.skeleton.bones@.len() == 0
        &&& self.state.active_bone is None
        &&& self.state.tool == Tool::BoneSelect
        &&& self.state.brush_radius.bits == state::BRUSH_RADIUS_BITS
        &&& self.state.paint_strength.bits == state::PAINT_STRENGTH_BITS
        &&& self.state.front_facing_only
        &&& self.state.undo@.len() == 0
        &&& self.state.redo@.len() == 0
        &&& self.state.well_formed()
        &&& self.view == WeightView::DominantBone
        &&& self.select_mode == SelectMode::Replace
        &&& self.source@.len() == 0
        &&& self.render_dirty
    }

    /// A controller with nothing imported.
    pub fn new() -> (c: RigController)
        ensures
            c.is_fresh(),
    {
        RigController {
            state: RigState::empty(),
            view: WeightView::DominantBone,
            select_mode: SelectMode::Replace,
            source: String::new(),
            render_dirty: true,
        }
    }

    /// Whether there is a mesh.
    pub fn has_mesh(&self) -> (r: bool)
        ensures
            r == (self.state.mesh.vertices@.len() > 0),
    {
        self.state.mesh.vertex_count() > 0
    }

    // ── import ────────────────────────────────────────────────────────────────

    /// Take over an imported model: its mesh, and its skeleton if it has one.
    pub fn accept_mesh(&mut self, imported: Imported)
        ensures
            final(self).source == imported.source,
            final(self).state.mesh == imported.mesh,
            final(self).state.selection@ == Seq::new(
                imported.mesh.vertices@.len(),
                |v: int| false,
            ),
            final(self).state.undo@.len() == 0,
            final(self).state.redo@.len() == 0,
            match imported.skeleton {
                Some(s) => final(self).state.skeleton == s && final(self).state.active_bone
                    == state::clamped_bone(old(self).state.active_bone, s.bones@.len()),
                None => final(self).state.skeleton == old(self).state.skeleton
                    && final(self).state.active_bone == old(self).state.active_bone,
            },
            final(self).state.tool == old(self).state.tool,
            final(self).state.brush_radius == old(self).state.brush_radius,
            final(self).state.paint_strength == old(self).state.paint_strength,
            final(self).state.front_facing_only == old(self).state.front_facing_only,
            final(self).render_dirty,
            final(self).view == old(self).view,
            final(self).select_mode == old(self).select_mode,
            old(self).state.well_formed() ==> final(self).state.well_formed(),
    {
        self.source = imported.source;
        self.state.set_mesh(imported.mesh);
        if let Some(s) = imported.skeleton {
            self.state.set_skeleton(s);
        }
        self.render_dirty = true;
    }

    /// Take over a skeleton, keeping mesh and weights.
    pub fn accept_skeleton(&mut self, skeleton: Skeleton)
        ensures
            final(self).state.skeleton == skeleton,
            final(self).state.active_bone == state::clamped_bone(
                old(self).state.active_bone,
                skeleton.bones@.len(),
            ),
            final(self).state.tool == old(self).state.tool,
            final(self).state.brush_radius == old(self).state.brush_radius,
            final(self).state.paint_strength == old(self).state.paint_strength,
            final(self).state.front_facing_only == old(self).state.front_facing_only,
            final(self).state.mesh == old(self).state.mesh,
            final(self).state.selection == old(self).state.selection,
            final(self).state.undo == old(self).state.undo,
            final(self).state.redo == old(self).state.redo,
            final(self).render_dirty,
            final(self).same_settings(*old(self)),
            old(self).state.well_formed() ==> final(self).state.well_formed(),
    {
        self.state.set_skeleton(skeleton);
        self.render_dirty = true;
    }

    // ── viewport ──────────────────────────────────────────────────────────────

    /// The filter of the screen tools.
    pub fn filter(&self) -> (f: ScreenFilter)
        ensures
            f.front_facing_only == self.state.front_facing_only,
    {
        ScreenFilter { front_facing_only: self.state.front_facing_only }
    }

    /// What a click does under the active tool.
    pub fn click_action(&self) -> (a: ClickAction)
        ensures
            a == (match self.state.tool {
                Tool::BoneSelect => ClickAction::PickBone,
                Tool::BrushSelect => ClickAction::BrushSelect,
                Tool::WeightPaint => ClickAction::Paint,
                Tool::Marquee => ClickAction::Nothing,
                Tool::Lasso => ClickAction::Nothing,
            }),
    {
        match self.state.tool {
            Tool::BoneSelect => ClickAction::PickBone,
            Tool::BrushSelect => ClickAction::BrushSelect,
            Tool::WeightPaint => ClickAction::Paint,
            Tool::Marquee => ClickAction::Nothing,
            Tool::Lasso => ClickAction::Nothing,
        }
    }

    /// Pick the bone nearest to a click, by the distance of each projected head.
    /// Returns whether another bone than before is active.
    pub fn click_bone(&mut self, distances: &Vec<Option<Scalar>>) -> (r: bool)
        requires
            distances@.len() == old(self).state.skeleton.bones@.len(),
        ensures
            ({
                let picked = crate::state::nearest_head(
                    distances@,
                    Scalar { bits: PICK_REACH_BITS },
                    distances@.len(),
                );
                match picked {
                    Some(k) => {
                        &&& final(self).state.active_bone == Some(k as u16)
                        &&& final(self).render_dirty
                    },
                    None => {
                        &&& final(self).state.active_bone == old(self).state.active_bone
                        &&& final(self).render_dirty == old(self).render_dirty
                    },
                }
            }),
            r == (final(self).state.active_bone != old(self).state.active_bone),
            final(self).state.tool == old(self).state.tool,
            final(self).state.brush_radius == old(self).state.brush_radius,
            final(self).state.paint_strength == old(self).state.paint_strength,
            final(self).state.front_facing_only == old(self).state.front_facing_only,
            final(self).same_settings(*old(self)),
            final(self).state.mesh == old(self).state.mesh,
            final(self).state.skeleton == old(self).state.skeleton,
            final(self).state.selection == old(self).state.selection,
            final(self).state.undo == old(self).state.undo,
            final(self).state.redo == old(self).state.redo,
            old(self).state.well_formed() ==> final(self).state.well_formed(),
    {
        proof {
            crate::state::nearest_head_is_nearest(
                distances@,
                Scalar { bits: PICK_REACH_BITS },
                distances@.len(),
            );
        }
        match self.state.pick_bone(distances, Scalar::from_bits(PICK_REACH_BITS)) {
            Some(b) => {
                let changed = match self.state.active_bone {
                    Some(active) => active != b,
                    None => true,
                };
                self.state.select_bone(b);
                self.render_dirty = true;
                changed
            },
            None => false,
        }
    }

    /// Apply a brush dab to the selection. Returns whether that changed the
    /// selection.
    pub fn click_brush(
        &mut self,
        screen: &Vec<ScreenVertex>,
        distance_squared: &Vec<Scalar>,
        radius_squared: Scalar,
    ) -> (r: bool)
        requires
            distance_squared@.len() == screen@.len(),
        ensures
            ({
                let hits = select::screen_hits(
                    screen@,
                    ScreenFilter { front_facing_only: old(self).state.front_facing_only },
                    |v: int| distance_squared@[v].spec_le(radius_squared),
                );
                final(self).state.selection@ == select::applied(
                    old(self).state.selection@,
                    hits,
                    old(self).select_mode,
                )
            }),
            r == (final(self).state.selection@ != old(self).state.selection@),
            final(self).render_dirty,
            final(self).only_selection_changed(*old(self)),
    {
        let hits = select::brush(screen, distance_squared, radius_squared, self.filter());
        let changed = self.state.selection.changes(hits.as_slice(), self.select_mode);
        self.state.selection.apply(hits.as_slice(), self.select_mode);
        self.render_dirty = true;
        changed
    }

    /// Apply a rectangle to the selection.
    pub fn marquee(&mut self, screen: &Vec<ScreenVertex>, min: ScreenPoint, max: ScreenPoint)
        ensures
            final(self).state.selection@ == select::applied(
                old(self).state.selection@,
                select::screen_hits(
                    screen@,
                    ScreenFilter { front_facing_only: old(self).state.front_facing_only },
                    |i: int| select::in_rect(screen@[i].point->0, min, max),
                ),
                old(self).select_mode,
            ),
            final(self).render_dirty,
            final(self).only_selection_changed(*old(self)),
    {
        let hits = select::marquee(screen, min, max, self.filter());
        self.state.selection.apply(hits.as_slice(), self.select_mode);
        self.render_dirty = true;
    }

    /// Apply a freehand polygon to the selection.
    pub fn lasso(
        &mut self,
        screen: &Vec<ScreenVertex>,
        polygon: &Vec<ScreenPoint>,
        x_at: &Vec<Vec<Scalar>>,
    )
        requires
            x_at@.len() == screen@.len(),
            forall|v: int|
                0 <= v < screen@.len() && screen@[v].point is Some ==> (#[trigger] x_at@[v])@.len()
                    == polygon@.len(),
        ensures
            final(self).state.selection@ == select::applied(
                old(self).state.selection@,
                if polygon@.len() < 3 {
                    Seq::empty()
                } else {
                    select::screen_hits(
                        screen@,
                        ScreenFilter { front_facing_only: old(self).state.front_facing_only },
                        |v: int|
                            select::inside_polygon(screen@[v].point->0, polygon@, x_at@[v]@),
                    )
                },
                old(self).select_mode,
            ),
            final(self).render_dirty,
            final(self).only_selection_changed(*old(self)),
    {
        let hits = select::lasso(screen, polygon, x_at, self.filter());
        self.state.selection.apply(hits.as_slice(), self.select_mode);
        self.render_dirty = true;
    }

    /// The bone to paint and the vertices under the brush, by their distance to
    /// the brush centre. `None` without an active bone or without a hit.
    pub fn paint_hits(&self, screen: &Vec<ScreenVertex>, distances: &Vec<Scalar>) -> (r: Option<
        (u16, Vec<u32>),
    >)
        requires
            distances@.len() == screen@.len(),
        ensures
            ({
                let hits = select::painted_hits(
                    screen@,
                    ScreenFilter { front_facing_only: self.state.front_facing_only },
                    distances@,
                    self.state.brush_radius,
                );
                match r {
                    Some((bone, list)) => {
                        &&& self.state.active_bone == Some(bone)
                        &&& list@ == hits
                        &&& hits.len() > 0
                    },
                    None => self.state.active_bone is None || hits.len() == 0,
                }
            }),
    {
        match self.state.active_bone {
            None => None,
            Some(bone) => {
                let hits = select::paint_brush(
                    screen,
                    distances,
                    self.state.brush_radius,
                    self.filter(),
                );
                if hits.len() == 0 {
                    None
                } else {
                    Some((bone, hits))
                }
            },
        }
    }

    /// Note the influences for undo at the start of a paint stroke.
    pub fn begin_stroke(&mut self, label: &'static str)
        ensures
            final(self).state.history() == old(self).state.history().pushed(label@),
            final(self).state.same_setup(old(self).state),
            final(self).render_dirty == old(self).render_dirty,
            final(self).same_settings(*old(self)),
            old(self).state.well_formed() ==> final(self).state.well_formed(),
    {
        self.state.push_undo(label);
    }

    // ── selection ─────────────────────────────────────────────────────────────

    /// Grow the selection by one ring.
    pub fn grow(&mut self)
        requires
            old(self).state.mesh.adjacency_ready(),
            select::seeds_in_range(old(self).state.mesh.neighbours(), old(self).state.selection@),
        ensures
            final(self).state.selection@ == select::applied(
                old(self).state.selection@,
                select::ring_of(old(self).state.mesh.neighbours(), old(self).state.selection@),
                SelectMode::Add,
            ),
            final(self).render_dirty,
            final(self).only_selection_changed(*old(self)),
    {
        let _ = select::grow(&mut self.state.mesh, &mut self.state.selection);
        self.render_dirty = true;
    }

    /// Shrink the selection by one ring.
    pub fn shrink(&mut self)
        requires
            old(self).state.mesh.adjacency_ready(),
            select::seeds_in_range(old(self).state.mesh.neighbours(), old(self).state.selection@),
        ensures
            final(self).state.selection@ == select::applied(
                old(self).state.selection@,
                select::border_of(old(self).state.mesh.neighbours(), old(self).state.selection@),
                SelectMode::Subtract,
            ),
            final(self).render_dirty,
            final(self).only_selection_changed(*old(self)),
    {
        let _ = select::shrink(&mut self.state.mesh, &mut self.state.selection);
        self.render_dirty = true;
    }

    /// Select the connected components that the selection touches.
    pub fn select_linked(&mut self)
        requires
            old(self).state.mesh.adjacency_ready(),
            select::walk_ends(old(self).state.mesh.neighbours(), old(self).state.selection@),
            select::numbered(old(self).state.selection@),
        ensures
            final(self).state.selection@ == select::linked_mask(
                old(self).state.mesh.neighbours(),
                old(self).state.selection@,
            ),
            final(self).render_dirty,
            final(self).only_selection_changed(*old(self)),
    {
        let _ = select::select_linked(&mut self.state.mesh, &mut self.state.selection);
        self.render_dirty = true;
    }

    /// Exchange selected and unselected vertices.
    pub fn invert(&mut self)
        ensures
            final(self).state.selection@ == old(self).state.selection@.map_values(|on: bool| !on),
            final(self).render_dirty,
            final(self).only_selection_changed(*old(self)),
    {
        self.state.selection.invert();
        self.render_dirty = true;
    }

    /// Select everything.
    pub fn select_all(&mut self)
        ensures
            final(self).state.selection@ == Seq::new(
                old(self).state.selection@.len(),
                |v: int| true,
            ),
            final(self).render_dirty,
            final(self).only_selection_changed(*old(self)),
    {
        self.state.selection.select_all();
        self.render_dirty = true;
    }

    /// Deselect everything.
    pub fn clear_selection(&mut self)
        ensures
            final(self).state.selection@ == Seq::new(
                old(self).state.selection@.len(),
                |v: int| false,
            ),
            final(self).render_dirty,
            final(self).only_selection_changed(*old(self)),
    {
        self.state.selection.clear();
        self.render_dirty = true;
    }

    /// Select the vertices whose dominant bone is the active bone.
    pub fn select_by_active_bone(&mut self)
        requires
            old(self).state.mesh.vertices@.len() <= old(self).state.mesh.influences@.len(),
        ensures
            match old(self).state.active_bone {
                Some(b) => {
                    &&& final(self).state.selection@ == select::applied(
                        old(self).state.selection@,
                        crate::listing::as_u32(
                            crate::listing::indices_where(
                                old(self).state.mesh.vertices@.len(),
                                |v: int|
                                    mesh::dominant_of(old(self).state.mesh.influences@[v]@)
                                        == Some(b),
                            ),
                        ),
                        SelectMode::Replace,
                    )
                    &&& final(self).render_dirty
                },
                None => *final(self) == *old(self),
            },
            final(self).only_selection_changed(*old(self)),
    {
        if let Some(b) = self.state.active_bone {
            let hits = select::by_dominant_bone(&self.state.mesh, b);
            self.state.selection.apply(hits.as_slice(), SelectMode::Replace);
            self.render_dirty = true;
        }
    }

    // ── weights ───────────────────────────────────────────────────────────────

    /// Bind the selection rigidly to the active bone, undoably.
    pub fn bind_selection(&mut self)
        requires
            weights::selection_fits(old(self).state.selection@, old(self).state.mesh),
        ensures
            match old(self).state.active_bone {
                Some(b) => {
                    let bound = final(self).state.mesh.influences@;
                    &&& final(self).state.history() == old(self).state.history().pushed(
                        "bind"@,
                    ).edited(bound)
                    &&& bound.len() == old(self).state.mesh.influences@.len()
                    &&& forall|v: int|
                        0 <= v < bound.len() ==> if select::names(
                            select::selected_numbers(old(self).state.selection@),
                            v,
                        ) {
                            (#[trigger] bound[v])@ == weights::rigid(b)
                        } else {
                            bound[v] == old(self).state.mesh.influences@[v]
                        }
                    &&& final(self).render_dirty
                },
                None => *final(self) == *old(self),
            },
            final(self).state.same_setup(old(self).state),
            final(self).same_settings(*old(self)),
            old(self).state.well_formed() ==> final(self).state.well_formed(),
    {
        if let Some(b) = self.state.active_bone {
            self.state.push_undo("bind");
            weights::bind_rigid(&mut self.state.mesh, &self.state.selection, b);
            self.render_dirty = true;
            assert(self.state.history() =~= old(self).state.history().pushed("bind"@).edited(
                self.state.mesh.influences@,
            ));
        }
    }

    /// Begin a weight edit: note the influences for undo.
    pub fn begin_edit(&mut self, edit: Edit)
        ensures
            final(self).state.history() == old(self).state.history().pushed(edit_label(edit)),
            final(self).state.same_setup(old(self).state),
            final(self).render_dirty,
            final(self).same_settings(*old(self)),
            old(self).state.well_formed() ==> final(self).state.well_formed(),
    {
        match edit {
            Edit::Smooth => self.state.push_undo("smooth"),
            Edit::Normalize => self.state.push_undo("normalize"),
            Edit::Prune => self.state.push_undo("prune"),
            Edit::Mirror => self.state.push_undo("mirror"),
        }
        self.render_dirty = true;
    }

    /// Step back.
    pub fn undo(&mut self)
        ensures
            final(self).state.history() == old(self).state.history().undone(),
            final(self).render_dirty == (old(self).render_dirty || old(self).state.undo@.len() > 0),
            final(self).state.same_setup(old(self).state),
            final(self).same_settings(*old(self)),
            old(self).state.well_formed() ==> final(self).state.well_formed(),
    {
        if self.state.undo() {
            self.render_dirty = true;
        }
    }

    /// Step forward.
    pub fn redo(&mut self)
        ensures
            final(self).state.history() == old(self).state.history().redone(),
            final(self).render_dirty == (old(self).render_dirty || old(self).state.redo@.len() > 0),
            final(self).state.same_setup(old(self).state),
            final(self).same_settings(*old(self)),
            old(self).state.well_formed() ==> final(self).state.well_formed(),
    {
        if self.state.redo() {
            self.render_dirty = true;
        }
    }

    // ── drawing ───────────────────────────────────────────────────────────────

    /// The mesh vertices with their colours; surplus ones of either are left
    /// out.
    pub fn mesh_vertices(&self, colors: &Vec<[Scalar; 4]>) -> (r: Vec<RenderVertex>)
        ensures
            ({
                let n = if self.state.mesh.vertices@.len() < colors@.len() {
                    self.state.mesh.vertices@.len()
                } else {
                    colors@.len()
                };
                r@ == Seq::new(n, |v: int| colored(self.state.mesh.vertices@[v], colors@[v]))
            }),
    {
        let mut r: Vec<RenderVertex> = Vec::new();
        let mut v: usize = 0;
        while v < self.state.mesh.vertices.len() && v < colors.len()
            invariant
                v <= self.state.mesh.vertices@.len(),
                v <= colors@.len(),
                r@ == Seq::new(
                    v as nat,
                    |v: int| colored(self.state.mesh.vertices@[v], colors@[v]),
                ),
            decreases colors@.len() - v,
        {
            let vertex = self.state.mesh.vertices[v];
            r.push(
                RenderVertex {
                    position: vertex.position,
                    normal: vertex.normal,
                    uv: vertex.uv,
                    color: colors[v],
                },
            );
            assert(r@ =~= Seq::new(
                (v + 1) as nat,
                |v: int| colored(self.state.mesh.vertices@[v], colors@[v]),
            ));
            v += 1;
        }
        r
    }

    /// The triangle indices.
    pub fn mesh_indices(&self) -> (r: Vec<u32>)
        ensures
            r@ == self.state.mesh.indices@,
    {
        let mut r: Vec<u32> = Vec::new();
        let mut k: usize = 0;
        while k < self.state.mesh.indices.len()
            invariant
                k <= self.state.mesh.indices@.len(),
                r@ == self.state.mesh.indices@.take(k as int),
            decreases self.state.mesh.indices@.len() - k,
        {
            r.push(self.state.mesh.indices[k]);
            assert(r@ =~= self.state.mesh.indices@.take(k + 1));
            k += 1;
        }
        assert(self.state.mesh.indices@.take(k as int) =~= self.state.mesh.indices@);
        r
    }

    /// The edges of the whole triangles as a line list.
    pub fn wireframe(&self) -> (r: Vec<u32>)
        ensures
            r@ == crate::bytes::flat(
                self.state.mesh.indices@.len() / 3,
                |t: int| triangle_lines(self.state.mesh.indices@, t),
            ),
            r@.len() == 6 * (self.state.mesh.indices@.len() / 3),
    {
        let ghost indices = self.state.mesh.indices@;
        let ghost f = |t: int| triangle_lines(indices, t);
        let count: usize = self.state.mesh.indices.len() / 3;
        let mut r: Vec<u32> = Vec::new();
        let mut t: usize = 0;
        while t < count
            invariant
                t <= count,
                count == self.state.mesh.indices.len() / 3,
                indices == self.state.mesh.indices@,
                f == (|t: int| triangle_lines(indices, t)),
                r@ == crate::bytes::flat(t as nat, f),
                r@.len() == 6 * t,
            decreases count - t,
        {
            let ghost piece = f(t as int);
            let ghost start = r@;
            let a: u32 = self.state.mesh.indices[3 * t];
            let b: u32 = self.state.mesh.indices[3 * t + 1];
            let c: u32 = self.state.mesh.indices[3 * t + 2];
            r.push(a);
            r.push(b);
            r.push(b);
            r.push(c);
            r.push(c);
            r.push(a);
            assert(r@ =~= start + piece);
            t += 1;
        }
        r
    }
}

/// Distance from the active bone's head up to which a line starts there: the
/// bit pattern of a ten-thousandth.
pub const SAME_HEAD_BITS: u32 = 0x38D1_B717;

/// Whether a bone line is highlighted, given how far it starts from the head of
/// the active bone, if a bone is active.
pub fn is_highlighted(distance: Option<Scalar>) -> (r: bool)
    ensures
        r == (distance matches Some(d) && d.spec_lt(Scalar { bits: SAME_HEAD_BITS })),
{
    match distance {
        Some(d) => d.less(Scalar::from_bits(SAME_HEAD_BITS)),
        None => false,
    }
}

/// Indices of a line list that takes its vertices in order.
pub fn line_indices(vertex_count: usize) -> (r: Vec<u32>)
    ensures
        r@ == Seq::new((vertex_count as u32) as nat, |i: int| i as u32),
{
    let count: u32 = vertex_count as u32;
    let mut r: Vec<u32> = Vec::new();
    let mut i: u32 = 0;
    while i < count
        invariant
            i <= count,
            r@ == Seq::new(i as nat, |i: int| i as u32),
        decreases count - i,
    {
        r.push(i);
        assert(r@ =~= Seq::new((i + 1) as nat, |i: int| i as u32));
        i += 1;
    }
    r
}

/// A mesh vertex with a colour.
pub open spec fn colored(v: RigVertex, color: [Scalar; 4]) -> RenderVertex {
    RenderVertex { position: v.position, normal: v.normal, uv: v.uv, color }
}

/// The three edges of triangle `t`.
pub open spec fn triangle_lines(indices: Seq<u32>, t: int) -> Seq<u32> {
    let (a, b, c) = (indices[3 * t], indices[3 * t + 1], indices[3 * t + 2]);
    seq![a, b, b, c, c, a]
}

impl Default for RigController {
    /// A controller with nothing imported.
    fn default() -> (c: RigController)
        ensures
            c.is_fresh(),
    {
        RigController::new()
    }
}

/// On a session over a sound mesh every selection and weight tool works: all
/// that they ask of the session holds.
pub proof fn tools_are_ready(session: RigState)
    requires
        session.well_formed(),
        session.mesh.sound(),
    ensures
        session.mesh.adjacency_ready(),
        select::seeds_in_range(session.mesh.neighbours(), session.selection@),
        select::walk_ends(session.mesh.neighbours(), session.selection@),
        session.mesh.vertices@.len() <= 0x1_0000_0000 ==> select::numbered(session.selection@),
        weights::selection_fits(session.selection@, session.mesh),
        weights::graph_fits(session.mesh.neighbours(), session.mesh.influences@),
{
    mesh::sound_neighbours_stay(session.mesh);
    let mask = session.selection@;
    let list = select::selected(mask);
    listing::listed_ascending(mask.len(), |v: int| mask[v]);
    assert forall|k: int| 0 <= k < select::selected_numbers(mask).len() implies (
    #[trigger] select::selected_numbers(mask)[k]) < session.mesh.vertices@.len() by {
        assert(0 <= list[k] < mask.len());
        assert(select::selected_numbers(mask)[k] == list[k] as u32);
    }
    select::covered_walks_end(session.mesh.neighbours(), mask);
}

/// The selection tools, which at most note the neighbour lists and never resize
/// the selection, leave the session ready for the next tool.
pub proof fn selection_tools_keep_sessions_ready(before: RigController, after: RigController)
    requires
        before.state.well_formed(),
        before.state.mesh.sound(),
        after.only_selection_changed(before),
        after.state.selection@.len() == before.state.selection@.len(),
    ensures
        after.state.well_formed(),
        after.state.mesh.sound(),
{
}

/// The lines of a triangle run round it: each joins two different corners, the
/// next starts where one ends, the last ends where the first starts, and the
/// starts are the corners in their order.
pub proof fn triangle_lines_run_round(indices: Seq<u32>, t: int, k: int)
    requires
        0 <= t,
        3 * t + 3 <= indices.len(),
        0 <= k < 3,
    ensures
        triangle_lines(indices, t).len() == 6,
        triangle_lines(indices, t)[2 * k] == indices[3 * t + k],
        triangle_lines(indices, t)[2 * k + 1] == triangle_lines(indices, t)[(2 * k + 2) % 6],
{
    assert(k == 0 || k == 1 || k == 2);
}

/// A coloured vertex is the vertex with the colour, so any two colourings of it
/// agree in all but the colour.
pub proof fn coloring_keeps_the_vertex(v: RigVertex, color: [Scalar; 4])
    ensures
        colored(v, color).color == color,
        (RigVertex {
            position: colored(v, color).position,
            normal: colored(v, color).normal,
            uv: colored(v, color).uv,
        }) == v,
{
}

} // verus!
