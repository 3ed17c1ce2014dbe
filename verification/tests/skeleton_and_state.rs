use cube_rig::controller::{line_indices, ClickAction, Edit, RigController};
use cube_rig::import::{Imported, ImportError};
use cube_rig::mesh::{Influence, RigVertex, SkinnedMesh};
use cube_rig::scalar::Scalar;
use cube_rig::select::{ScreenPoint, ScreenVertex, SelectMode};
use cube_rig::skeleton::{identity, Bone, Matrix, Skeleton};
use cube_rig::skeleton_io::{
    checked_skeleton, required_skeleton, skeleton_format, SkeletonFormat,
};
use cube_rig::state::{RigState, Tool, MAX_UNDO};
use cube_rig::viz::WeightView;
use glam::{Mat4, Vec2, Vec3};

fn sc(x: f32) -> Scalar {
    Scalar::from_bits(x.to_bits())
}

fn fl(s: Scalar) -> f32 {
    f32::from_bits(s.to_bits())
}

fn mat(m: Mat4) -> Matrix {
    m.to_cols_array().map(sc)
}

fn mat4(m: &Matrix) -> Mat4 {
    Mat4::from_cols_array(&m.map(fl))
}

fn shift(x: f32, y: f32, z: f32) -> Matrix {
    mat(Mat4::from_translation(Vec3::new(x, y, z)))
}

fn vertex(x: f32, y: f32) -> RigVertex {
    RigVertex {
        position: [sc(x), sc(y), sc(0.0)],
        normal: [sc(0.0), sc(0.0), sc(1.0)],
        uv: [sc(0.0), sc(0.0)],
    }
}

fn chain() -> Skeleton {
    let mut s = Skeleton::new();
    let r = s.add(Bone::root("root"));
    let c = s.add(Bone::new("child", Some(r), shift(2.0, 0.0, 0.0)));
    s.add(Bone::new("grand", Some(c), shift(3.0, 0.0, 0.0)));
    s
}

fn head(s: &Skeleton, i: usize) -> Vec3 {
    let mut m = Mat4::IDENTITY;
    for b in s.bind_path(i) {
        m = m * mat4(&s.bones[b].local_bind);
    }
    m.w_axis.truncate()
}

#[test]
fn global_bind_composes_chain() {
    let s = chain();
    assert_eq!(head(&s, 0), Vec3::ZERO);
    assert_eq!(head(&s, 1), Vec3::new(2.0, 0.0, 0.0));
    assert_eq!(head(&s, 2), Vec3::new(5.0, 0.0, 0.0));
}

#[test]
fn children_and_roots() {
    let s = chain();
    assert_eq!(s.roots(), vec![0]);
    assert_eq!(s.children(0), vec![1]);
    assert_eq!(s.children(1), vec![2]);
    assert!(s.children(2).is_empty());
}

#[test]
fn validate_rejects_forward_parent() {
    let mut s = Skeleton::new();
    s.bones.push(Bone::new("a", Some(1), identity()));
    s.bones.push(Bone::root("b"));
    assert!(s.validate().is_err());
}

#[test]
fn validate_accepts_topological() {
    assert!(chain().validate().is_ok());
}

#[test]
fn bones_are_found_by_name() {
    let s = chain();
    assert_eq!(s.index_of("grand"), Some(2));
    assert_eq!(s.index_of("nobody"), None);
    assert_eq!(s.parents(), vec![None, Some(0), Some(1)]);
    assert_eq!(s.len(), 3);
    assert!(!s.is_empty());
    assert!(Skeleton::default().is_empty());
    assert_eq!(s.bind_path(2), vec![0, 1, 2]);
    assert_eq!(Bone::root("r").local_bind, mat(Mat4::IDENTITY));
}

#[test]
fn rejects_invalid_hierarchy_on_load() {
    let json = r#"{"bones":[
            {"name":"a","parent":1,"local_bind":[1,0,0,0, 0,1,0,0, 0,0,1,0, 0,0,0,1]},
            {"name":"b","parent":null,"local_bind":[1,0,0,0, 0,1,0,0, 0,0,1,0, 0,0,0,1]}
        ]}"#;
    let value: serde_json::Value = serde_json::from_str(json).unwrap();
    let mut s = Skeleton::new();
    for b in value["bones"].as_array().unwrap() {
        let mut m = identity();
        for (k, x) in b["local_bind"].as_array().unwrap().iter().enumerate() {
            m[k] = sc(x.as_f64().unwrap() as f32);
        }
        let parent = b["parent"].as_u64().map(|p| p as usize);
        s.bones.push(Bone::new(b["name"].as_str().unwrap(), parent, m));
    }
    match checked_skeleton(s) {
        Err(ImportError::Parse(m)) => assert!(m.contains('1')),
        _ => panic!("a parent behind its child was accepted"),
    }
}

#[test]
fn skeleton_readers_are_picked_by_extension() {
    assert_eq!(skeleton_format("JSON").unwrap(), SkeletonFormat::Json);
    assert_eq!(skeleton_format("gltf").unwrap(), SkeletonFormat::Gltf);
    assert_eq!(skeleton_format("GLB").unwrap(), SkeletonFormat::Gltf);
    assert_eq!(
        skeleton_format("Fbx").err(),
        Some(ImportError::UnsupportedFormat("fbx".to_string()))
    );
    assert_eq!(checked_skeleton(chain()).unwrap().len(), 3);
    assert_eq!(required_skeleton(Some(chain())).unwrap().len(), 3);
    assert_eq!(
        required_skeleton(None).err(),
        Some(ImportError::Parse("glTF file contains no skeleton".to_string()))
    );
}

fn tri_mesh() -> SkinnedMesh {
    SkinnedMesh::new(vec![vertex(0.0, 0.0), vertex(1.0, 0.0), vertex(2.0, 0.0)], vec![0, 1, 2])
}

#[test]
fn undo_redo_restores_influences() {
    let mut sk = Skeleton::new();
    sk.add(Bone::root("root"));
    let mut st = RigState::new(tri_mesh(), sk);

    st.push_undo("bind");
    st.mesh.set_rigid(0, 0);
    assert_eq!(st.mesh.dominant_bone(0), Some(0));

    assert!(st.undo());
    assert_eq!(st.mesh.dominant_bone(0), None);

    assert!(st.redo());
    assert_eq!(st.mesh.dominant_bone(0), Some(0));
}

fn project(vp: &Mat4, p: Vec3, viewport: Vec2) -> Option<Vec2> {
    let clip = *vp * p.extend(1.0);
    if clip.w <= 0.0 {
        return None;
    }
    let ndc = clip.truncate() / clip.w;
    Some(Vec2::new((ndc.x * 0.5 + 0.5) * viewport.x, (1.0 - (ndc.y * 0.5 + 0.5)) * viewport.y))
}

#[test]
fn pick_nearest_bone() {
    let mut sk = Skeleton::new();
    sk.add(Bone::new("a", None, shift(-1.0, 0.0, 0.0)));
    sk.add(Bone::new("b", None, shift(1.0, 0.0, 0.0)));
    let st = RigState::new(tri_mesh(), sk);

    let view = Mat4::look_at_rh(Vec3::new(0.0, 0.0, 5.0), Vec3::ZERO, Vec3::Y);
    let proj = Mat4::perspective_rh(1.0, 1.0, 0.1, 100.0);
    let vp = proj * view;
    let viewport = Vec2::new(100.0, 100.0);

    let left = project(&vp, Vec3::new(-1.0, 0.0, 0.0), viewport).unwrap();
    let distances: Vec<Option<Scalar>> = (0..2)
        .map(|i| project(&vp, head(&st.skeleton, i), viewport).map(|p| sc((p - left).length())))
        .collect();
    assert_eq!(st.pick_bone(&distances, sc(50.0)), Some(0));
}

#[test]
fn picking_skips_hidden_and_distant_heads() {
    let st = RigState::new(tri_mesh(), chain());
    assert_eq!(st.pick_bone(&vec![None, Some(sc(30.0)), Some(sc(20.0))], sc(25.0)), Some(2));
    assert_eq!(st.pick_bone(&vec![None, Some(sc(30.0)), None], sc(25.0)), None);
}

#[test]
fn set_mesh_resizes_selection() {
    let mut st = RigState::empty();
    let m = tri_mesh();
    st.set_mesh(m);
    assert_eq!(st.selection.len(), 3);
}

#[test]
fn history_keeps_the_latest_edits() {
    let mut st = RigState::new(tri_mesh(), chain());
    for _ in 0..MAX_UNDO + 5 {
        st.push_undo("edit");
    }
    assert_eq!(st.peek_undo(), Some("edit"));
    let mut steps = 0;
    while st.undo() {
        steps += 1;
    }
    assert_eq!(steps, MAX_UNDO);
    assert_eq!(st.peek_undo(), None);
    assert!(st.redo());
    st.push_undo("fork");
    assert!(!st.redo());
}

#[test]
fn new_skeleton_drops_an_active_bone_out_of_range() {
    let mut st = RigState::new(tri_mesh(), chain());
    st.select_bone(2);
    assert_eq!(st.active_bone, Some(2));
    st.select_bone(9);
    assert_eq!(st.active_bone, Some(2));
    let mut small = Skeleton::new();
    small.add(Bone::root("only"));
    st.set_skeleton(small);
    assert_eq!(st.active_bone, Some(0));
    st.set_skeleton(Skeleton::new());
    assert_eq!(st.active_bone, None);
}

#[test]
fn segments_lead_to_children_or_end_in_a_stub() {
    let st = RigState::new(tri_mesh(), chain());
    assert_eq!(st.bone_segments(), vec![(0, Some(1)), (1, Some(2)), (2, None)]);
}

fn loaded_controller() -> RigController {
    let mesh = SkinnedMesh::new(
        vec![vertex(0.0, 0.0), vertex(1.0, 0.0), vertex(0.0, 1.0), vertex(1.0, 1.0)],
        vec![0, 1, 2, 1, 3, 2],
    );
    let mut sk = Skeleton::new();
    let r = sk.add(Bone::root("root"));
    sk.add(Bone::new("tip", Some(r), shift(0.0, 1.0, 0.0)));
    let mut c = RigController::new();
    c.state = RigState::new(mesh, sk);
    c
}

#[test]
fn render_vertices_match_mesh() {
    let c = loaded_controller();
    let white = vec![[sc(1.0); 4]; 4];
    assert_eq!(c.mesh_vertices(&white).len(), 4);
    assert_eq!(c.mesh_indices().len(), 6);
}

#[test]
fn wireframe_is_line_list_of_edges() {
    let c = loaded_controller();
    let idx = c.wireframe();
    let verts = c.mesh_vertices(&vec![[sc(0.0); 4]; 4]);
    assert_eq!(verts.len(), 4);
    assert_eq!(idx.len(), 12);
    assert_eq!(idx.len() % 2, 0);
    assert_eq!(&idx[0..6], &[0, 1, 1, 2, 2, 0]);
}

#[test]
fn bone_lines_two_verts_per_segment() {
    let c = loaded_controller();
    let mut verts = Vec::new();
    for (bone, child) in c.state.bone_segments() {
        verts.push(bone);
        verts.push(child.unwrap_or(bone));
    }
    let idx = line_indices(verts.len());
    assert_eq!(verts.len() % 2, 0);
    assert_eq!(verts.len(), idx.len());
    assert!(!verts.is_empty());
}

#[test]
fn bind_selection_to_active_bone() {
    let mut c = loaded_controller();
    c.state.active_bone = Some(1);
    c.state.selection.select_all();
    c.bind_selection();
    assert_eq!(c.state.mesh.dominant_bone(0), Some(1));
}

#[test]
fn grow_after_seed_expands() {
    let mut c = loaded_controller();
    c.state.selection.set(0, true);
    c.grow();
    assert!(c.state.selection.count() > 1);
}

#[test]
fn binding_can_be_undone_and_redone() {
    let mut c = loaded_controller();
    c.state.active_bone = Some(1);
    c.select_all();
    c.render_dirty = false;
    c.bind_selection();
    assert!(c.render_dirty);
    c.undo();
    assert_eq!(c.state.mesh.unweighted_vertices().len(), 4);
    c.redo();
    assert!(c.state.mesh.is_fully_skinned());
    c.clear_selection();
    c.select_by_active_bone();
    assert_eq!(c.state.selection.count(), 4);
    c.invert();
    assert_eq!(c.state.selection.count(), 0);
}

#[test]
fn selection_shrinks_and_links() {
    let mut c = loaded_controller();
    c.state.selection.set(0, true);
    c.select_linked();
    assert_eq!(c.state.selection.count(), 4);
    c.state.selection.set(3, false);
    c.shrink();
    assert_eq!(c.state.selection.indices(), vec![0]);
}

#[test]
fn clicks_follow_the_tool() {
    let mut c = loaded_controller();
    assert_eq!(c.state.tool, Tool::default());
    c.state.tool = Tool::BoneSelect;
    assert_eq!(c.click_action(), ClickAction::PickBone);
    c.state.tool = Tool::BrushSelect;
    assert_eq!(c.click_action(), ClickAction::BrushSelect);
    c.state.tool = Tool::WeightPaint;
    assert_eq!(c.click_action(), ClickAction::Paint);
    c.state.tool = Tool::Marquee;
    assert_eq!(c.click_action(), ClickAction::Nothing);
    c.state.tool = Tool::Lasso;
    assert_eq!(c.click_action(), ClickAction::Nothing);
    assert!(c.click_bone(&vec![None, Some(sc(3.0))]));
    assert_eq!(c.state.active_bone, Some(1));
    assert!(!c.click_bone(&vec![None, Some(sc(300.0))]));
}

fn screen() -> Vec<ScreenVertex> {
    (0..4)
        .map(|i| ScreenVertex {
            point: Some(ScreenPoint { x: sc(i as f32), y: sc(0.0) }),
            leaning: sc(1.0),
        })
        .collect()
}

#[test]
fn screen_tools_edit_the_selection() {
    let mut c = loaded_controller();
    let d = vec![sc(0.0), sc(1.0), sc(4.0), sc(9.0)];
    assert!(c.click_brush(&screen(), &d, sc(1.0)));
    assert_eq!(c.state.selection.indices(), vec![0, 1]);
    c.select_mode = SelectMode::Add;
    assert!(!c.click_brush(&screen(), &vec![sc(50.0); 4], sc(1.0)));
    let (lo, hi) = (ScreenPoint { x: sc(2.5), y: sc(-1.0) }, ScreenPoint { x: sc(4.0), y: sc(1.0) });
    c.marquee(&screen(), lo, hi);
    assert_eq!(c.state.selection.indices(), vec![0, 1, 3]);
    c.select_mode = SelectMode::Subtract;
    let corners = vec![
        ScreenPoint { x: sc(-0.5), y: sc(-1.0) },
        ScreenPoint { x: sc(0.5), y: sc(-1.0) },
        ScreenPoint { x: sc(0.0), y: sc(1.0) },
    ];
    let x_at: Vec<Vec<Scalar>> = (0..4).map(|_| vec![sc(-0.25), sc(0.0), sc(0.25)]).collect();
    c.lasso(&screen(), &corners, &x_at);
    assert_eq!(c.state.selection.indices(), vec![1, 3]);
}

#[test]
fn painting_needs_a_bone_and_a_hit() {
    let mut c = loaded_controller();
    let d = vec![sc(0.0), sc(1.0), sc(4.0), sc(900.0)];
    c.state.active_bone = None;
    assert!(c.paint_hits(&screen(), &d).is_none());
    c.state.active_bone = Some(1);
    c.state.brush_radius = sc(2.0);
    assert_eq!(c.paint_hits(&screen(), &d), Some((1, vec![0, 1])));
    assert!(c.paint_hits(&screen(), &vec![sc(5.0); 4]).is_none());
}

#[test]
fn painting_skips_only_what_is_turned_away() {
    let mut c = loaded_controller();
    c.state.active_bone = Some(1);
    c.state.brush_radius = sc(2.0);
    let mut seen = screen();
    seen[1].leaning = sc(0.0);
    seen[2].leaning = sc(f32::NAN);
    seen[3].leaning = sc(-1.0);
    let d = vec![sc(1.0); 4];
    c.state.front_facing_only = true;
    assert_eq!(c.paint_hits(&seen, &d), Some((1, vec![0, 2])));
    assert!(c.click_brush(&seen, &d, sc(4.0)));
    assert_eq!(c.state.selection.indices(), vec![0]);
    c.state.front_facing_only = false;
    assert_eq!(c.paint_hits(&seen, &d), Some((1, vec![0, 1, 2, 3])));
}

#[test]
fn clicks_tell_whether_anything_changed() {
    let mut c = loaded_controller();
    let far = vec![sc(50.0); 4];
    let near = vec![sc(0.0), sc(50.0), sc(50.0), sc(50.0)];
    c.state.selection.set(2, true);
    assert!(c.click_brush(&screen(), &far, sc(1.0)));
    assert_eq!(c.state.selection.count(), 0);
    assert!(!c.click_brush(&screen(), &far, sc(1.0)));
    c.select_mode = SelectMode::Add;
    assert!(c.click_brush(&screen(), &near, sc(1.0)));
    assert!(!c.click_brush(&screen(), &near, sc(1.0)));
    c.state.active_bone = None;
    let heads = vec![None, Some(sc(3.0))];
    assert!(c.click_bone(&heads));
    c.render_dirty = false;
    assert!(!c.click_bone(&heads));
    assert!(c.render_dirty);
    assert_eq!(c.state.active_bone, Some(1));
}

#[test]
fn strokes_tell_whether_weights_changed() {
    let mut c = loaded_controller();
    assert!(!c.state.changed_since_noted());
    c.begin_stroke("paint");
    assert!(!c.state.changed_since_noted());
    c.state.mesh.set_rigid(2, 1);
    assert!(c.state.changed_since_noted());
    c.begin_stroke("paint");
    assert!(!c.state.changed_since_noted());
}

#[test]
fn imports_replace_mesh_and_skeleton() {
    let mut c = RigController::default();
    assert!(!c.has_mesh());
    c.accept_mesh(Imported {
        mesh: tri_mesh(),
        skeleton: Some(chain()),
        source: "tri.glb".to_string(),
    });
    assert!(c.has_mesh());
    assert_eq!(c.state.skeleton.len(), 3);
    assert_eq!(c.source, "tri.glb");
    let mut one = Skeleton::new();
    one.add(Bone::root("one"));
    c.accept_skeleton(one);
    assert_eq!(c.state.skeleton.len(), 1);
    c.begin_edit(Edit::Normalize);
    assert!(c.state.peek_undo().is_some());
    assert_eq!(c.view, WeightView::DominantBone);
    assert_eq!(c.filter().front_facing_only, c.state.front_facing_only);
    c.begin_stroke("paint");
    assert_eq!(c.state.peek_undo(), Some("paint"));
    c.begin_stroke("paint");
    assert_eq!(c.state.undo.len(), 3);
    assert_eq!(c.state.mesh.influences[0][0], Influence::none());
}
