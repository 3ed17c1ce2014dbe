use cube_rig::anim::{AnimationClip, BoneTrack};
use cube_rig::bytes::{join_texts, push_u16, push_u32};
use cube_rig::export::fbx::{build_fbx, clusters, format_f, Decimal, FbxNumbers, SKIN_ID};
use cube_rig::export::glb::{
    assemble_glb, build_glb, build_glb_animated, exported_keys, json_string, packed_influences,
    push_view, BufferView, GlbNumbers, KeyNumbers, RestTexts, WeightTotal, CHUNK_BIN, CHUNK_JSON,
    GLB_MAGIC,
};
use cube_rig::export::keys::exported_channels;
use cube_rig::export::obj::{build_obj, ObjVertex};
use cube_rig::export::ExportError;
use cube_rig::import::fbx::{
    build_skin, fan, find_parent, topo_order_clusters, ClusterRec, ClusterWeight, LimbLink,
};
use cube_rig::import::gltf::{
    build_skeleton_mapped, collect_clips, collect_tracks, merge_primitives, node_path,
    orig_joint_map, parent_joints, parent_table, read_primitive, topo_order, Animation, Channel,
    ChannelOutputs, Primitive,
};
use cube_rig::import::obj::{merge_models, ObjModel};
use cube_rig::import::{append_mesh, model_format, ImportError, ModelFormat};
use cube_rig::mesh::{Influence, RigVertex, SkinnedMesh, VertexInfluences};
use cube_rig::scalar::Scalar;
use cube_rig::skeleton::{Bone, Matrix, Skeleton};
use cube_rig::text::{push_decimal, push_signed_decimal};
use glam::{Mat4, Quat, Vec3};

fn sc(x: f32) -> Scalar {
    Scalar::from_bits(x.to_bits())
}

fn fl(s: Scalar) -> f32 {
    f32::from_bits(s.to_bits())
}

fn mat(m: Mat4) -> Matrix {
    m.to_cols_array().map(sc)
}

fn mat4(m: &Matrix) -> Mat4 {
    Mat4::from_cols_array(&m.map(fl))
}

fn inf(bone: u16, weight: f32) -> Influence {
    Influence { bone, weight: sc(weight) }
}

fn vertex(x: f32, y: f32, uv: [f32; 2]) -> RigVertex {
    RigVertex {
        position: [sc(x), sc(y), sc(0.0)],
        normal: [sc(0.0), sc(0.0), sc(1.0)],
        uv: uv.map(sc),
    }
}

fn flat(x: f32) -> RigVertex {
    vertex(x, 0.0, [0.0, 0.0])
}

fn two_bones() -> Skeleton {
    let mut sk = Skeleton::new();
    let r = sk.add(Bone::root("root"));
    sk.add(Bone::new("tip", Some(r), mat(Mat4::from_translation(Vec3::X))));
    sk
}

fn global_bind(sk: &Skeleton, i: usize) -> Mat4 {
    sk.bind_path(i)
        .iter()
        .fold(Mat4::IDENTITY, |m, &b| m * mat4(&sk.bones[b].local_bind))
}

fn total(set: &VertexInfluences) -> WeightTotal {
    let mut sum = 0.0f32;
    for i in set {
        if fl(i.weight) > 0.0 {
            sum += fl(i.weight);
        }
    }
    let scaled = [0, 1, 2, 3].map(|k: usize| {
        let w = fl(set[k].weight);
        sc(if w > 0.0 { w / sum } else { 0.0 / sum })
    });
    WeightTotal { total: sc(sum), deviation: sc((sum - 1.0).abs()), scaled }
}

fn glb_numbers(mesh: &SkinnedMesh, sk: &Skeleton) -> GlbNumbers {
    let (lo, hi) = mesh.bounds();
    GlbNumbers {
        sums: mesh.influences.iter().map(total).collect(),
        inverse_binds: (0..sk.len()).map(|i| mat(global_bind(sk, i).inverse())).collect(),
        min_text: lo.map(|s| fl(s).to_string()),
        max_text: hi.map(|s| fl(s).to_string()),
        matrix_texts: sk
            .bones
            .iter()
            .map(|b| b.local_bind.iter().map(|s| fl(*s).to_string()).collect())
            .collect(),
    }
}

fn key_numbers(clips: &Vec<AnimationClip>, sk: &Skeleton) -> KeyNumbers {
    let spans = exported_keys(clips, sk.len())
        .iter()
        .map(|c| {
            let times: Vec<f32> = c.times.as_ref().unwrap().iter().map(|s| fl(*s)).collect();
            let lo = times.iter().cloned().fold(f32::INFINITY, f32::min);
            let hi = times.iter().cloned().fold(f32::NEG_INFINITY, f32::max);
            [lo.to_string(), hi.to_string()]
        })
        .collect();
    let rests = sk
        .bones
        .iter()
        .map(|b| {
            let (s, r, t) = mat4(&b.local_bind).to_scale_rotation_translation();
            RestTexts {
                translation: t.to_array().iter().map(|x| x.to_string()).collect(),
                rotation: r.to_array().iter().map(|x| x.to_string()).collect(),
                scale: s.to_array().iter().map(|x| x.to_string()).collect(),
            }
        })
        .collect();
    KeyNumbers { spans, rests }
}

fn rig() -> (SkinnedMesh, Skeleton) {
    let mut mesh = SkinnedMesh::new(vec![flat(0.0), flat(1.0), flat(2.0)], vec![0, 1, 2]);
    mesh.set_rigid(0, 0);
    mesh.set_rigid(1, 1);
    (mesh, two_bones())
}

fn word(bytes: &[u8], at: usize) -> u32 {
    u32::from_le_bytes([bytes[at], bytes[at + 1], bytes[at + 2], bytes[at + 3]])
}

// ── glb ──────────────────────────────────────────────────────────────────────

#[test]
fn glb_has_valid_header_and_chunks() {
    let (mesh, sk) = rig();
    let bytes = build_glb(&mesh, &sk, &glb_numbers(&mesh, &sk)).unwrap();

    assert_eq!(&bytes[0..4], &GLB_MAGIC.to_le_bytes());
    let total = word(&bytes, 8) as usize;
    assert_eq!(total, bytes.len());

    let json_len = word(&bytes, 12) as usize;
    assert_eq!(&bytes[16..20], &CHUNK_JSON.to_le_bytes());
    let json = std::str::from_utf8(&bytes[20..20 + json_len]).unwrap();
    assert!(json.contains("\"JOINTS_0\""));
    assert!(json.contains("\"skins\""));
    assert!(json.contains("inverseBindMatrices"));

    assert_eq!(bytes.len() % 4, 0);
}

#[test]
fn unweighted_vertex_falls_back_to_root() {
    let set = [Influence::none(); 4];
    let packed = packed_influences(&set, &total(&set));
    assert_eq!(packed.joints, [0, 0, 0, 0]);
    assert_eq!(packed.weights, [sc(1.0), sc(0.0), sc(0.0), sc(0.0)]);
}

#[test]
fn off_sums_are_rescaled() {
    let set = [inf(3, 1.0), inf(4, 1.0), Influence::none(), Influence::none()];
    let packed = packed_influences(&set, &total(&set));
    assert_eq!(packed.joints, [3, 4, 0, 0]);
    assert_eq!(packed.weights, [sc(0.5), sc(0.5), sc(0.0), sc(0.0)]);
}

#[test]
fn empty_mesh_errors() {
    let sk = Skeleton::new();
    let mesh = SkinnedMesh::default();
    let numbers = GlbNumbers {
        sums: Vec::new(),
        inverse_binds: Vec::new(),
        min_text: [String::new(), String::new(), String::new()],
        max_text: [String::new(), String::new(), String::new()],
        matrix_texts: Vec::new(),
    };
    assert_eq!(build_glb(&mesh, &sk, &numbers).err(), Some(ExportError::Empty));
}

#[test]
fn too_many_bones_are_refused() {
    let (mesh, _) = rig();
    let mut sk = Skeleton::new();
    for _ in 0..65536 {
        sk.bones.push(Bone::root("b"));
    }
    let mut numbers = glb_numbers(&mesh, &Skeleton::new());
    numbers.inverse_binds = vec![mat(Mat4::IDENTITY); 65536];
    numbers.matrix_texts = vec![Vec::new(); 65536];
    let e = build_glb(&mesh, &sk, &numbers).err().unwrap();
    assert_eq!(e, ExportError::TooManyBones(65536));
    assert_eq!(
        e.to_message(),
        "65536 bones exceeds the glTF joint limit for u16 indices"
    );
    assert_eq!(ExportError::Empty.to_message(), "nothing to export (empty mesh)");
    assert_eq!(ExportError::Io("x".to_string()).to_message(), "I/O error: x");
}

#[test]
fn containers_pad_both_chunks() {
    let out = assemble_glb(b"{}".to_vec(), vec![1, 2, 3, 4, 5]);
    assert_eq!(out.len(), 12 + 8 + 4 + 8 + 8);
    assert_eq!(&out[20..24], b"{}  ");
    assert_eq!(word(&out, 24), 8);
    assert_eq!(word(&out, 28), CHUNK_BIN);
    assert_eq!(&out[32..40], &[1, 2, 3, 4, 5, 0, 0, 0]);
}

#[test]
fn views_start_at_multiples_of_four() {
    let mut bin = Vec::new();
    let mut views: Vec<BufferView> = Vec::new();
    assert_eq!(push_view(&mut bin, &mut views, None, &vec![1, 2, 3]), 0);
    assert_eq!(push_view(&mut bin, &mut views, Some(7), &vec![9, 9]), 1);
    assert_eq!(bin, vec![1, 2, 3, 0, 9, 9]);
    assert_eq!((views[1].offset, views[1].length, views[1].target), (4, 2, Some(7)));
}

#[test]
fn quoted_text_is_escaped() {
    assert_eq!(json_string("a\"b\\c"), "\"a\\\"b\\\\c\"");
    let mut s = String::new();
    push_decimal(&mut s, 1024);
    push_signed_decimal(&mut s, -70);
    assert_eq!(s, "1024-70");
    assert_eq!(join_texts(&vec!["a".to_string(), "b".to_string()]), "a,b");
    let mut b = Vec::new();
    push_u16(&mut b, 0x0102);
    push_u32(&mut b, 0x0304_0506);
    assert_eq!(b, vec![2, 1, 6, 5, 4, 3]);
}

fn sample_rig() -> (SkinnedMesh, Skeleton) {
    let v = |x: f32, y: f32| vertex(x, y, [x, y]);
    let verts = vec![v(0.0, 0.0), v(1.0, 0.0), v(0.0, 1.0), v(1.0, 1.0)];
    let mut mesh = SkinnedMesh::new(verts, vec![0, 1, 2, 1, 3, 2]);

    let mut sk = Skeleton::new();
    let root = sk.add(Bone::root("root"));
    let shift = mat(Mat4::from_translation(Vec3::new(0.0, 1.0, 0.0)));
    let tip = sk.add(Bone::new("tip", Some(root), shift));

    mesh.set_rigid(0, root as u16);
    mesh.set_rigid(2, root as u16);
    let none = Influence::none();
    mesh.set_influences(1, [inf(root as u16, 0.5), inf(tip as u16, 0.5), none, none]);
    mesh.set_rigid(3, tip as u16);
    (mesh, sk)
}

type Document = (gltf::Document, Vec<gltf::buffer::Data>);

fn read_document(bytes: &[u8]) -> Document {
    let (doc, buffers, _) = gltf::import_slice(bytes).expect("a readable file");
    (doc, buffers)
}

fn read_skeleton(doc: &gltf::Document) -> (Skeleton, Vec<Option<u16>>, Vec<usize>) {
    let children: Vec<Vec<usize>> =
        doc.nodes().map(|n| n.children().map(|c| c.index()).collect()).collect();
    let parents = parent_table(&children);
    let skin = doc.skins().next().expect("a skin");
    let joints: Vec<usize> = skin.joints().map(|j| j.index()).collect();
    let names: Vec<Option<String>> =
        skin.joints().map(|j| j.name().map(|s| s.to_string())).collect();
    let binds: Vec<Matrix> = skin
        .joints()
        .map(|j| mat(Mat4::from_cols_array_2d(&j.transform().matrix())))
        .collect();
    let (skeleton, map) = build_skeleton_mapped(&parents, &joints, &names, &binds);
    (skeleton.expect("a skeleton"), map, joints)
}

fn read_mesh(document: &Document, table: &Vec<Option<u16>>) -> SkinnedMesh {
    let (doc, buffers) = document;
    let mut prims = Vec::new();
    for m in doc.meshes() {
        for p in m.primitives() {
            let reader = p.reader(|b| Some(&buffers[b.index()]));
            prims.push(Primitive {
                positions: reader.read_positions().map(|it| it.map(|p| p.map(sc)).collect()),
                normals: reader.read_normals().map(|it| it.map(|p| p.map(sc)).collect()),
                uvs: reader
                    .read_tex_coords(0)
                    .map(|it| it.into_f32().map(|p| p.map(sc)).collect()),
                indices: reader.read_indices().map(|it| it.into_u32().collect()),
                joints: reader.read_joints(0).map(|it| it.into_u16().collect()),
                weights: reader
                    .read_weights(0)
                    .map(|it| it.into_f32().map(|w| w.map(sc)).collect()),
            });
        }
    }
    merge_primitives(&prims, table).expect("geometry")
}

fn read_animations(document: &Document) -> Vec<Animation> {
    let (doc, buffers) = document;
    doc.animations()
        .map(|a| Animation {
            name: a.name().map(|s| s.to_string()),
            channels: a
                .channels()
                .map(|c| {
                    let reader = c.reader(|b| Some(&buffers[b.index()]));
                    Channel {
                        node: c.target().node().index(),
                        times: reader.read_inputs().map(|it| it.map(sc).collect()),
                        outputs: reader.read_outputs().map(|out| match out {
                            gltf::animation::util::ReadOutputs::Translations(it) => {
                                ChannelOutputs::Translations(it.map(|v| v.map(sc)).collect())
                            }
                            gltf::animation::util::ReadOutputs::Rotations(it) => {
                                ChannelOutputs::Rotations(
                                    it.into_f32().map(|v| v.map(sc)).collect(),
                                )
                            }
                            gltf::animation::util::ReadOutputs::Scales(it) => {
                                ChannelOutputs::Scales(it.map(|v| v.map(sc)).collect())
                            }
                            gltf::animation::util::ReadOutputs::MorphTargetWeights(_) => {
                                ChannelOutputs::MorphWeights
                            }
                        }),
                    }
                })
                .collect(),
        })
        .collect()
}

#[test]
fn glb_export_reimports_with_skeleton_and_weights() {
    let (mesh, sk) = sample_rig();
    let bytes = build_glb(&mesh, &sk, &glb_numbers(&mesh, &sk)).expect("export");
    let document = read_document(&bytes);
    let (skel, map, joints) = read_skeleton(&document.0);
    let table = orig_joint_map(&joints, &map);
    let imported = read_mesh(&document, &table);

    assert_eq!(imported.vertex_count(), 4);
    assert_eq!(imported.triangle_count(), 2);
    assert_eq!(imported.vertices, mesh.vertices);
    assert_eq!(imported.indices, mesh.indices);

    assert_eq!(skel.len(), 2);
    assert_eq!(skel.bones[0].name, "root");
    assert_eq!(skel.bones[1].name, "tip");
    assert_eq!(skel.bones[1].parent, Some(0));
    assert_eq!(skel.bones[1].local_bind, sk.bones[1].local_bind);

    assert_eq!(imported.dominant_bone(3), Some(1));
    let infl = imported.influences[1];
    let active = infl.iter().filter(|i| fl(i.weight) > 0.0).count();
    assert_eq!(active, 2);
    let sum: f32 = infl.iter().map(|i| fl(i.weight)).sum();
    assert!((sum - 1.0).abs() < 1e-4);
}

fn moves(a: Vec3, b: Vec3) -> Vec<(Scalar, [Scalar; 3])> {
    vec![(sc(0.0), a.to_array().map(sc)), (sc(1.0), b.to_array().map(sc))]
}

fn turns(end: f32, a: Quat, b: Quat) -> Vec<(Scalar, [Scalar; 4])> {
    vec![(sc(0.0), a.to_array().map(sc)), (sc(end), b.to_array().map(sc))]
}

#[test]
fn glb_animation_exports_channels_readable_by_gltf() {
    let (mesh, sk) = sample_rig();
    let mut clip = AnimationClip::new("wiggle");
    let mut root_tr = BoneTrack::new(0);
    root_tr.translation = moves(Vec3::ZERO, Vec3::new(0.0, 0.5, 0.0));
    let mut tip_tr = BoneTrack::new(1);
    let turn = Quat::from_rotation_z(std::f32::consts::FRAC_PI_2);
    tip_tr.rotation = turns(1.0, Quat::IDENTITY, turn);
    clip.tracks.push(root_tr);
    clip.tracks.push(tip_tr);
    let clips = vec![clip];

    let keys = key_numbers(&clips, &sk);
    let bytes = build_glb_animated(&mesh, &sk, &glb_numbers(&mesh, &sk), &clips, &keys).unwrap();

    let (doc, _) = read_document(&bytes);
    let anims: Vec<_> = doc.animations().collect();
    assert_eq!(anims.len(), 1);
    assert_eq!(anims[0].name(), Some("wiggle"));
    let channels: Vec<_> = anims[0].channels().collect();
    assert_eq!(channels.len(), 2);
    let props: Vec<_> = channels.iter().map(|c| c.target().property()).collect();
    assert!(props.iter().any(|p| matches!(p, gltf::animation::Property::Translation)));
    assert!(props.iter().any(|p| matches!(p, gltf::animation::Property::Rotation)));
}

#[test]
fn gltf_animation_roundtrips_through_export_import() {
    let (mesh, sk) = rig();
    let mut clip = AnimationClip::new("walk");
    let mut root_tr = BoneTrack::new(0);
    let root_t1 = Vec3::new(0.0, 0.5, 0.25);
    root_tr.translation = moves(Vec3::ZERO, root_t1);
    let mut tip_tr = BoneTrack::new(1);
    let tip_q1 = Quat::from_rotation_z(std::f32::consts::FRAC_PI_2);
    tip_tr.rotation = turns(0.5, Quat::IDENTITY, tip_q1);
    clip.tracks.push(root_tr.clone());
    clip.tracks.push(tip_tr.clone());
    let clips = vec![clip];

    let keys = key_numbers(&clips, &sk);
    let bytes = build_glb_animated(&mesh, &sk, &glb_numbers(&mesh, &sk), &clips, &keys).unwrap();
    let document = read_document(&bytes);
    let (_, map, _) = read_skeleton(&document.0);
    let recovered = collect_clips(&read_animations(&document), &Some(map));

    assert_eq!(recovered.len(), 1);
    assert_eq!(recovered[0].name, "walk");
    let root = recovered[0].tracks.iter().find(|t| t.bone == 0).expect("root track");
    let tip = recovered[0].tracks.iter().find(|t| t.bone == 1).expect("tip track");
    assert_eq!(root.translation.len(), 2);
    assert_eq!(root.translation, root_tr.translation);
    assert_eq!(tip.rotation.len(), 2);
    assert_eq!(tip.rotation, tip_tr.rotation);
}

#[test]
fn clips_without_exported_keys_leave_the_file_alone() {
    let (mesh, sk) = rig();
    let plain = build_glb(&mesh, &sk, &glb_numbers(&mesh, &sk)).unwrap();
    let mut clip = AnimationClip::new("idle");
    clip.tracks.push(BoneTrack::new(0));
    let mut far = BoneTrack::new(9);
    far.scale = moves(Vec3::ONE, Vec3::ONE);
    clip.tracks.push(far);
    let clips = vec![clip, AnimationClip::new("none")];
    assert!(exported_channels(&clips[0], sk.len()).is_empty());
    let keys = key_numbers(&clips, &sk);
    let animated =
        build_glb_animated(&mesh, &sk, &glb_numbers(&mesh, &sk), &clips, &keys).unwrap();
    assert_eq!(plain, animated);
}

#[test]
fn several_clips_number_their_channels_on() {
    let (mesh, sk) = rig();
    let mut clips = Vec::new();
    for name in ["one", "two"] {
        let mut clip = AnimationClip::new(name);
        let mut t = BoneTrack::new(1);
        t.translation = moves(Vec3::ZERO, Vec3::X);
        t.rotation = turns(2.0, Quat::IDENTITY, Quat::from_rotation_x(0.5));
        t.scale = moves(Vec3::ONE, Vec3::splat(2.0));
        clip.tracks.push(t);
        clips.push(clip);
    }
    let keys = key_numbers(&clips, &sk);
    assert_eq!(keys.spans.len(), 6);
    let bytes = build_glb_animated(&mesh, &sk, &glb_numbers(&mesh, &sk), &clips, &keys).unwrap();
    let document = read_document(&bytes);
    let (_, map, _) = read_skeleton(&document.0);
    let read = collect_clips(&read_animations(&document), &Some(map));
    assert_eq!(read.len(), 2);
    for (a, b) in read.iter().zip(&clips) {
        assert_eq!(a.name, b.name);
        assert_eq!(a.tracks, b.tracks);
    }
}

// ── fbx ──────────────────────────────────────────────────────────────────────

fn dec(x: f32) -> Decimal {
    Decimal { is_zero: x == 0.0, fixed: format!("{x:.6}") }
}

fn fbx_numbers(mesh: &SkinnedMesh, sk: &Skeleton) -> FbxNumbers {
    let d = |s: Scalar| dec(fl(s));
    let parts: Vec<_> = sk
        .bones
        .iter()
        .map(|b| mat4(&b.local_bind).to_scale_rotation_translation())
        .collect();
    let list = |v: Vec3| v.to_array().iter().map(|x| dec(*x)).collect::<Vec<_>>();
    FbxNumbers {
        positions: mesh.vertices.iter().flat_map(|v| v.position.map(d)).collect(),
        normals: mesh.vertices.iter().flat_map(|v| v.normal.map(d)).collect(),
        uvs: mesh.vertices.iter().flat_map(|v| v.uv.map(d)).collect(),
        weights: mesh.influences.iter().map(|set| set.map(|i| d(i.weight))).collect(),
        translations: parts.iter().map(|p| list(p.2)).collect(),
        rotations: parts.iter().map(|_| list(Vec3::ZERO)).collect(),
        scales: parts.iter().map(|p| list(p.0)).collect(),
        global_binds: (0..sk.len())
            .map(|i| global_bind(sk, i).to_cols_array().iter().map(|x| dec(*x)).collect())
            .collect(),
    }
}

fn fbx_rig() -> (SkinnedMesh, Skeleton) {
    let (mut mesh, sk) = rig();
    mesh.set_rigid(2, 1);
    (mesh, sk)
}

#[test]
fn emits_skin_objects_and_connections() {
    let (mesh, sk) = fbx_rig();
    let fbx = build_fbx(&mesh, &sk, &fbx_numbers(&mesh, &sk)).unwrap();
    assert!(fbx.contains("\"Skin\""));
    assert!(fbx.contains("\"Cluster\""));
    assert!(fbx.contains("\"LimbNode\""));
    assert!(fbx.contains("BindPose"));
    assert!(fbx.contains("Connections:"));
    let cluster_links = fbx.matches(&format!(",{SKIN_ID}\n")).count();
    assert_eq!(cluster_links, sk.len());
}

#[test]
fn cluster_carries_vertex_indices() {
    let (mesh, sk) = fbx_rig();
    let fbx = build_fbx(&mesh, &sk, &fbx_numbers(&mesh, &sk)).unwrap();
    assert!(fbx.contains("Indexes: *2"));
    assert_eq!(clusters(&mesh.influences, 2)[1], vec![(1, 0), (2, 0)]);
}

#[test]
fn format_f_no_scientific() {
    assert_eq!(format_f(&dec(0.0)), "0");
    assert!(!format_f(&dec(0.0000001)).contains('e'));
    assert_eq!(format_f(&dec(1.5)), "1.5");
    assert_eq!(format_f(&dec(2.0)), "2.0");
}

#[test]
fn empty_mesh_is_refused_by_every_writer() {
    let mesh = SkinnedMesh::default();
    let sk = Skeleton::new();
    let none = fbx_numbers(&mesh, &sk);
    assert_eq!(build_fbx(&mesh, &sk, &none).err(), Some(ExportError::Empty));
    assert_eq!(build_obj(&mesh, &Vec::new()).err(), Some(ExportError::Empty));
}

#[test]
fn topo_orders_parents_first() {
    let recs = vec![
        LimbLink { id: 10, parent: Some(20) },
        LimbLink { id: 20, parent: None },
        LimbLink { id: 30, parent: Some(10) },
    ];
    let order = topo_order_clusters(&recs);
    let pos = |id: i64| order.iter().position(|&i| recs[i].id == id).unwrap();
    assert!(pos(20) < pos(10));
    assert!(pos(10) < pos(30));
    assert_eq!(find_parent(&recs, 2), Some(0));
    assert_eq!(find_parent(&recs, 1), None);
}

#[test]
fn skins_become_bones_and_influences() {
    let links = vec![LimbLink { id: 2, parent: Some(1) }, LimbLink { id: 1, parent: None }];
    let w = |vertex: u32, weight: f32| ClusterWeight {
        vertex,
        positive: weight > 0.0,
        weight: sc(weight),
    };
    let recs = vec![
        ClusterRec { name: "tip".to_string(), weights: vec![w(0, 0.25), w(9, 1.0)] },
        ClusterRec { name: "root".to_string(), weights: vec![w(0, 0.75), w(1, 0.0)] },
    ];
    let binds = vec![mat(Mat4::from_translation(Vec3::Y)), mat(Mat4::IDENTITY)];
    let mut mesh = SkinnedMesh::new(vec![flat(0.0), flat(1.0)], vec![]);
    let sk = build_skin(&links, &recs, &binds, &mut mesh).unwrap();
    assert_eq!(sk.bones[0].name, "root");
    assert_eq!(sk.bones[1].name, "tip");
    assert_eq!(sk.bones[1].parent, Some(0));
    assert_eq!(mesh.influences[0][0], inf(0, 0.75));
    assert_eq!(mesh.influences[0][1], inf(1, 0.25));
    assert_eq!(mesh.unweighted_vertices(), vec![1]);
    assert!(build_skin(&Vec::new(), &Vec::new(), &Vec::new(), &mut mesh).is_none());
}

#[test]
fn polygons_are_split_into_a_fan() {
    assert_eq!(fan(4), vec![(0, 1, 2), (0, 2, 3)]);
    assert!(fan(2).is_empty());
}

// ── obj ──────────────────────────────────────────────────────────────────────

fn obj_vertices(mesh: &SkinnedMesh) -> Vec<ObjVertex> {
    mesh.vertices
        .iter()
        .map(|v| ObjVertex {
            position: v.position.map(|s| fl(s).to_string()),
            uv: v.uv.map(|s| fl(s).to_string()),
            normal: v.normal.map(|s| fl(s).to_string()),
        })
        .collect()
}

#[test]
fn writes_obj_with_faces() {
    let mesh = SkinnedMesh::new(vec![flat(0.0), flat(1.0), flat(0.0)], vec![0, 1, 2]);
    let text = build_obj(&mesh, &obj_vertices(&mesh)).unwrap();
    assert!(text.contains("f 1/1/1 2/2/2 3/3/3"));
}

fn read_obj(text: &str) -> Vec<ObjModel> {
    let options = tobj::LoadOptions { triangulate: true, single_index: true, ..Default::default() };
    let mut reader = text.as_bytes();
    let (models, _) =
        tobj::load_obj_buf(&mut reader, &options, |_| Err(tobj::LoadError::OpenFileFailed))
            .expect("a readable file");
    let list = |v: Vec<f32>| v.into_iter().map(sc).collect::<Vec<_>>();
    models
        .into_iter()
        .map(|m| ObjModel {
            positions: list(m.mesh.positions),
            normals: list(m.mesh.normals),
            texcoords: list(m.mesh.texcoords),
            indices: m.mesh.indices,
        })
        .collect()
}

#[test]
fn obj_export_reimports_geometry() {
    let (mesh, _sk) = sample_rig();
    let text = build_obj(&mesh, &obj_vertices(&mesh)).expect("export obj");
    let (imported, lacks_normals) = merge_models(&read_obj(&text)).expect("reimport obj");
    assert_eq!(imported.vertex_count(), 4);
    assert_eq!(imported.triangle_count(), 2);
    assert!(!lacks_normals);
}

#[test]
fn imports_a_triangle_and_recomputes_normals() {
    let (mesh, lacks_normals) =
        merge_models(&read_obj("v 0 0 0\nv 1 0 0\nv 0 1 0\nf 1 2 3\n")).unwrap();
    assert_eq!(mesh.vertex_count(), 3);
    assert_eq!(mesh.triangle_count(), 1);
    assert!(lacks_normals);
    assert_eq!(merge_models(&Vec::new()).err(), Some(ImportError::NoGeometry));
}

// ── import ───────────────────────────────────────────────────────────────────

#[test]
fn import_unsupported_errors() {
    assert_eq!(
        model_format("xyz", true).err(),
        Some(ImportError::UnsupportedFormat("xyz".to_string()))
    );
    assert_eq!(model_format("OBJ", false).unwrap(), ModelFormat::Obj);
    assert_eq!(model_format("glb", false).unwrap(), ModelFormat::Gltf);
    assert_eq!(model_format("fbx", true).unwrap(), ModelFormat::Fbx);
    assert!(model_format("fbx", false).is_err());
}

#[test]
fn import_errors_say_what_happened() {
    assert_eq!(ImportError::Io("a".to_string()).to_message(), "I/O error: a");
    assert_eq!(ImportError::Parse("b".to_string()).to_message(), "parse error: b");
    assert_eq!(
        ImportError::UnsupportedFormat("c".to_string()).to_message(),
        "unsupported format: c"
    );
    assert_eq!(ImportError::NoGeometry.to_message(), "file contained no geometry");
}

#[test]
fn appended_triangles_point_at_their_own_vertices() {
    let mut a = SkinnedMesh::new(vec![flat(0.0), flat(1.0), flat(2.0)], vec![0, 1, 2]);
    let b = SkinnedMesh::new(vec![flat(3.0), flat(4.0), flat(5.0)], vec![2, 1, 0]);
    append_mesh(&mut a, b);
    assert_eq!(a.indices, vec![0, 1, 2, 5, 4, 3]);
    assert_eq!(a.vertices[5], flat(5.0));
    assert_eq!(a.influences.len(), 6);
}

#[test]
fn joints_skip_nodes_that_are_none() {
    let children = vec![vec![1], vec![2], vec![3], vec![]];
    let parents = parent_table(&children);
    assert_eq!(parents, vec![None, Some(0), Some(1), Some(2)]);
    assert_eq!(node_path(&parents, 3), vec![0, 1, 2, 3]);
    let joints = vec![3usize, 1];
    assert_eq!(parent_joints(&parents, &joints), vec![Some(1), None]);
    assert_eq!(topo_order(&vec![Some(1), None]), vec![1, 0]);
    let names = vec![Some("leaf".to_string()), None];
    let binds = vec![mat(Mat4::from_translation(Vec3::X)), mat(Mat4::IDENTITY)];
    let (sk, map) = build_skeleton_mapped(&parents, &joints, &names, &binds);
    let sk = sk.unwrap();
    assert_eq!(sk.bones[0].name, "bone0");
    assert_eq!(sk.bones[1].name, "leaf");
    assert_eq!(sk.bones[1].parent, Some(0));
    assert_eq!(map, vec![None, Some(0), None, Some(1)]);
    let table = orig_joint_map(&joints, &map);
    assert_eq!(table[0], Some(1));
    assert_eq!(table[1], Some(0));
    assert_eq!(table[2], None);
}

#[test]
fn primitives_without_positions_are_refused() {
    let table = vec![None; 65536];
    let none = Primitive {
        positions: None,
        normals: None,
        uvs: None,
        indices: None,
        joints: None,
        weights: None,
    };
    assert_eq!(read_primitive(&none, &table).err(), Some(ImportError::NoGeometry));
    let bare = Primitive { positions: Some(vec![[sc(1.0); 3]; 3]), ..none };
    let mesh = read_primitive(&bare, &table).unwrap();
    assert_eq!(mesh.indices, vec![0, 1, 2]);
    assert_eq!(mesh.vertices[0].normal, [sc(0.0); 3]);
    assert_eq!(merge_primitives(&Vec::new(), &table).err(), Some(ImportError::NoGeometry));
}

#[test]
fn channels_of_other_nodes_are_skipped() {
    let keys = |node: usize| Channel {
        node,
        times: Some(vec![sc(0.0), sc(1.0)]),
        outputs: Some(ChannelOutputs::Scales(vec![[sc(1.0); 3]; 2])),
    };
    let map = vec![None, Some(0), Some(1)];
    let tracks = collect_tracks(&vec![keys(2), keys(0), keys(1)], &map);
    assert_eq!(tracks.len(), 2);
    assert_eq!((tracks[0].bone, tracks[1].bone), (0, 1));
    assert_eq!(tracks[1].scale.len(), 2);
    let nameless = Animation { name: None, channels: Vec::new() };
    assert_eq!(collect_clips(&vec![nameless.clone()], &Some(map))[0].name, "animation0");
    assert!(collect_clips(&vec![nameless], &None).is_empty());
}
