use cube_rig::mesh::{
    build_adjacency, empty_influences, painted_influences, strongest_influences, Influence,
    RigVertex, SkinnedMesh, MAX_INFLUENCES,
};
use cube_rig::scalar::Scalar;
use cube_rig::select::{
    brush, by_any_influence, by_dominant_bone, grow, lasso, marquee, point_in_polygon,
    select_linked, shrink, ScreenFilter, ScreenPoint, ScreenVertex, SelectMode, VertexSelection,
};

fn sc(x: f32) -> Scalar {
    Scalar::from_bits(x.to_bits())
}

fn vertex(x: f32, y: f32) -> RigVertex {
    RigVertex {
        position: [sc(x), sc(y), sc(0.0)],
        normal: [sc(0.0), sc(0.0), sc(1.0)],
        uv: [sc(0.0), sc(0.0)],
    }
}

fn inf(bone: u16, weight: f32) -> Influence {
    Influence { bone, weight: sc(weight) }
}

fn quad() -> SkinnedMesh {
    let verts = vec![vertex(0.0, 0.0), vertex(1.0, 0.0), vertex(0.0, 1.0), vertex(1.0, 1.0)];
    SkinnedMesh::new(verts, vec![0, 1, 2, 1, 3, 2])
}

fn grid_mesh() -> SkinnedMesh {
    let mut verts = Vec::new();
    for gy in 0..3 {
        for gx in 0..3 {
            verts.push(vertex(gx as f32 * 0.5, gy as f32 * 0.5));
        }
    }
    let mut idx = Vec::new();
    let at = |x: u32, y: u32| y * 3 + x;
    for cy in 0..2 {
        for cx in 0..2 {
            let (a, b, c, d) = (at(cx, cy), at(cx + 1, cy), at(cx, cy + 1), at(cx + 1, cy + 1));
            idx.extend_from_slice(&[a, b, c, b, d, c]);
        }
    }
    SkinnedMesh::new(verts, idx)
}

#[test]
fn rigid_bind_sets_full_weight() {
    let mut m = quad();
    m.set_rigid(0, 7);
    assert_eq!(m.influences[0][0], inf(7, 1.0));
    assert_eq!(m.dominant_bone(0), Some(7));
    assert!(!m.is_fully_skinned());
}

#[test]
fn adjacency_from_shared_edge() {
    let mut m = quad();
    let adj = m.adjacency().to_vec();
    let mut n1 = adj[1].clone();
    n1.sort();
    assert_eq!(n1, vec![0, 2, 3]);
}

#[test]
fn unweighted_listing() {
    let mut m = quad();
    m.set_rigid(0, 0);
    assert_eq!(m.unweighted_vertices(), vec![1, 2, 3]);
}

#[test]
fn fully_skinned_once_every_vertex_is_bound() {
    let mut m = quad();
    for v in 0..4 {
        m.set_rigid(v, 1);
    }
    assert!(m.is_fully_skinned());
    assert!(m.unweighted_vertices().is_empty());
    assert_eq!(m.vertex_count(), 4);
    assert_eq!(m.triangle_count(), 2);
}

#[test]
fn vertex_parts_are_handed_out() {
    let v = vertex(3.0, 4.0);
    assert_eq!(v.pos(), [sc(3.0), sc(4.0), sc(0.0)]);
    assert_eq!(v.nrm(), [sc(0.0), sc(0.0), sc(1.0)]);
}

#[test]
fn dominant_bone_is_the_heaviest_and_the_last_of_equals() {
    let mut m = quad();
    m.set_influences(0, [inf(3, 0.25), inf(4, 0.5), inf(5, 0.25), Influence::none()]);
    m.set_influences(1, [inf(3, 0.5), inf(4, 0.5), Influence::none(), Influence::none()]);
    m.set_influences(2, [inf(3, 0.0), inf(4, -1.0), Influence::none(), Influence::none()]);
    assert_eq!(m.dominant_bone(0), Some(4));
    assert_eq!(m.dominant_bone(1), Some(4));
    assert_eq!(m.dominant_bone(2), None);
}

#[test]
fn current_weight_and_other_influences_split_a_set() {
    let mut m = quad();
    m.set_influences(0, [inf(3, 0.25), inf(4, 0.75), Influence::none(), Influence::none()]);
    assert_eq!(m.current_weight(0, 4), sc(0.75));
    assert_eq!(m.current_weight(0, 9), sc(0.0));
    let others = m.other_influences(0, 4);
    assert_eq!(others.len(), 1);
    assert_eq!(others[0], inf(3, 0.25));
}

#[test]
fn painted_sets_keep_the_four_strongest() {
    let others = vec![inf(0, 0.1), inf(1, 0.2), inf(2, 0.3), inf(3, 0.4)];
    let set = painted_influences(others, 9, sc(0.5));
    let bones: Vec<u16> = set.iter().map(|i| i.bone).collect();
    assert_eq!(bones, vec![9, 3, 2, 1]);
    assert_eq!(set.len(), MAX_INFLUENCES);
}

#[test]
fn strongest_influences_come_heaviest_first() {
    let all = vec![inf(0, 0.1), inf(1, 0.9), inf(2, 0.5), inf(3, 0.7), inf(4, 0.3)];
    let set = strongest_influences(&all);
    let bones: Vec<u16> = set.iter().map(|i| i.bone).collect();
    assert_eq!(bones, vec![1, 3, 2, 4]);
    let few = strongest_influences(&vec![inf(8, 0.5)]);
    assert_eq!(few[0], inf(8, 0.5));
    assert_eq!(few[1], Influence::none());
    assert_eq!(empty_influences(), [Influence::none(); 4]);
}

#[test]
fn adjacency_is_undirected_and_lists_each_neighbour_once() {
    let adj = build_adjacency(4, &vec![0, 1, 2, 1, 3, 2]);
    for a in 0..4usize {
        for b in 0..4usize {
            let forth = adj[a].iter().filter(|&&n| n as usize == b).count();
            let back = adj[b].iter().filter(|&&n| n as usize == a).count();
            assert_eq!(forth, back);
            assert!(forth <= 1);
        }
    }
    assert_eq!(adj[0].len(), 2);
    assert_eq!(adj[3].len(), 2);
}

#[test]
fn adjacency_is_read_anew_after_invalidation() {
    let mut m = quad();
    assert_eq!(m.adjacency()[0].len(), 2);
    m.indices = vec![0, 3, 1];
    assert_eq!(m.adjacency()[0].len(), 2);
    m.invalidate_adjacency();
    let mut n0 = m.adjacency()[0].clone();
    n0.sort();
    assert_eq!(n0, vec![1, 3]);
}

#[test]
fn bounds_enclose_every_vertex() {
    let m = SkinnedMesh::new(vec![vertex(-2.0, 5.0), vertex(3.0, -1.0)], vec![]);
    let (lo, hi) = m.bounds();
    assert_eq!(lo, [sc(-2.0), sc(-1.0), sc(0.0)]);
    assert_eq!(hi, [sc(3.0), sc(5.0), sc(0.0)]);
}

#[test]
fn replaced_influences_are_handed_back() {
    let mut m = quad();
    m.set_rigid(2, 6);
    let old = m.replace_influences(vec![empty_influences(); 4]);
    assert_eq!(old[2][0], inf(6, 1.0));
    assert_eq!(m.dominant_bone(2), None);
}

fn at(x: f32, y: f32) -> ScreenPoint {
    ScreenPoint { x: sc(x), y: sc(y) }
}

fn x_crossings(p: (f32, f32), poly: &[(f32, f32)]) -> Vec<Scalar> {
    let n = poly.len();
    (0..n)
        .map(|i| {
            let j = if i == 0 { n - 1 } else { i - 1 };
            let (pi, pj) = (poly[i], poly[j]);
            sc((pj.0 - pi.0) * (p.1 - pi.1) / (pj.1 - pi.1) + pi.0)
        })
        .collect()
}

const SQUARE: [(f32, f32); 4] = [(0.0, 0.0), (2.0, 0.0), (2.0, 2.0), (0.0, 2.0)];

fn square() -> Vec<ScreenPoint> {
    SQUARE.iter().map(|&(x, y)| at(x, y)).collect()
}

#[test]
fn point_in_polygon_square() {
    let sq = square();
    assert!(point_in_polygon(at(1.0, 1.0), &sq, &x_crossings((1.0, 1.0), &SQUARE)));
    assert!(!point_in_polygon(at(3.0, 1.0), &sq, &x_crossings((3.0, 1.0), &SQUARE)));
}

#[test]
fn grow_then_shrink_roundtrips_interior() {
    let mut m = grid_mesh();
    let mut sel = VertexSelection::new(m.vertex_count());
    sel.set(4, true);
    let added = grow(&mut m, &mut sel);
    assert!(!added.is_empty());
    assert!(sel.count() > 1);
    shrink(&mut m, &mut sel);
    assert!(sel.contains(4));
}

#[test]
fn linked_selects_whole_component() {
    let mut m = grid_mesh();
    let mut sel = VertexSelection::new(m.vertex_count());
    sel.set(0, true);
    let all = select_linked(&mut m, &mut sel);
    assert_eq!(all.len(), m.vertex_count());
}

#[test]
fn linked_stays_inside_its_component() {
    let verts = (0..6).map(|i| vertex(i as f32, 0.0)).collect();
    let mut m = SkinnedMesh::new(verts, vec![0, 1, 2, 3, 4, 5]);
    let mut sel = VertexSelection::new(6);
    sel.set(4, true);
    select_linked(&mut m, &mut sel);
    assert_eq!(sel.indices(), vec![3, 4, 5]);
}

#[test]
fn linked_needs_a_mask_only_where_it_walks() {
    let verts = (0..6).map(|i| vertex(i as f32, 0.0)).collect();
    let mut m = SkinnedMesh::new(verts, vec![0, 1, 2, 3, 4, 5]);
    let mut sel = VertexSelection::new(3);
    sel.set(1, true);
    assert_eq!(select_linked(&mut m, &mut sel), vec![0, 1, 2]);
    let mut short = VertexSelection::new(2);
    short.set(0, true);
    assert_eq!(select_linked(&mut m, &mut short), vec![0, 1]);
}

#[test]
fn linking_again_changes_nothing() {
    let verts = (0..7).map(|i| vertex(i as f32, 0.0)).collect();
    let mut m = SkinnedMesh::new(verts, vec![0, 1, 2, 2, 3, 4]);
    let mut sel = VertexSelection::new(7);
    sel.set(0, true);
    sel.set(5, true);
    let all = select_linked(&mut m, &mut sel);
    assert_eq!(all, vec![0, 1, 2, 3, 4, 5]);
    assert_eq!(select_linked(&mut m, &mut sel), all);
    assert_eq!(sel.indices(), all);
}

#[test]
fn hits_may_change_nothing() {
    let mut sel = VertexSelection::new(3);
    assert!(!sel.changes(&[], SelectMode::Replace));
    sel.set(1, true);
    assert!(sel.changes(&[], SelectMode::Replace));
    assert!(!sel.changes(&[1], SelectMode::Replace));
    assert!(!sel.changes(&[1, 7], SelectMode::Add));
    assert!(sel.changes(&[2], SelectMode::Add));
    assert!(sel.changes(&[1], SelectMode::Subtract));
    assert!(!sel.changes(&[0], SelectMode::Subtract));
    assert_eq!(sel.indices(), vec![1]);
}

#[test]
fn by_bone_filters_dominant() {
    let mut m = grid_mesh();
    m.set_rigid(0, 5);
    m.set_rigid(1, 5);
    m.set_rigid(2, 9);
    let mut got = by_dominant_bone(&m, 5);
    got.sort();
    assert_eq!(got, vec![0, 1]);
}

#[test]
fn by_any_influence_honours_the_threshold() {
    let mut m = quad();
    m.set_influences(0, [inf(3, 0.25), inf(4, 0.75), Influence::none(), Influence::none()]);
    m.set_influences(1, [inf(4, 0.9), inf(3, 0.1), Influence::none(), Influence::none()]);
    assert_eq!(by_any_influence(&m, 3, sc(0.2)), vec![0]);
    assert_eq!(by_any_influence(&m, 3, sc(0.0)), vec![0, 1]);
}

#[test]
fn apply_modes() {
    let mut sel = VertexSelection::new(5);
    sel.apply(&[0, 1, 2], SelectMode::Replace);
    assert_eq!(sel.count(), 3);
    sel.apply(&[2, 3], SelectMode::Add);
    assert_eq!(sel.count(), 4);
    sel.apply(&[0, 1], SelectMode::Subtract);
    assert_eq!(sel.indices(), vec![2, 3]);
}

#[test]
fn selection_sets_resizes_and_inverts() {
    let mut sel = VertexSelection::new(3);
    assert!(!sel.is_empty());
    sel.set(1, true);
    sel.set(7, true);
    assert_eq!(sel.indices(), vec![1]);
    sel.invert();
    assert_eq!(sel.iter(), vec![0, 2]);
    sel.invert();
    assert_eq!(sel.iter(), vec![1]);
    sel.select_all();
    assert_eq!(sel.count(), 3);
    sel.resize(5);
    assert_eq!(sel.len(), 5);
    assert_eq!(sel.count(), 3);
    sel.resize(2);
    assert_eq!(sel.count(), 2);
    sel.clear();
    assert_eq!(sel.count(), 0);
    assert!(!sel.contains(99));
    assert!(VertexSelection::new(0).is_empty());
    assert_eq!(VertexSelection::default().len(), 0);
}

#[test]
fn adding_and_subtracting_the_same_hits_cancels() {
    let mut sel = VertexSelection::new(6);
    sel.apply(&[0, 5], SelectMode::Replace);
    let before = sel.indices();
    sel.apply(&[2, 3, 17], SelectMode::Add);
    assert_eq!(sel.count(), 4);
    sel.apply(&[2, 3, 17], SelectMode::Subtract);
    assert_eq!(sel.indices(), before);
}

fn screen() -> Vec<ScreenVertex> {
    vec![
        ScreenVertex { point: Some(at(1.0, 1.0)), leaning: sc(1.0) },
        ScreenVertex { point: Some(at(5.0, 1.0)), leaning: sc(1.0) },
        ScreenVertex { point: Some(at(1.5, 0.5)), leaning: sc(-1.0) },
        ScreenVertex { point: None, leaning: sc(1.0) },
    ]
}

#[test]
fn marquee_takes_corners_in_any_order_and_filters_backsides() {
    let front = ScreenFilter { front_facing_only: true };
    let any = ScreenFilter { front_facing_only: false };
    assert_eq!(marquee(&screen(), at(0.0, 0.0), at(2.0, 2.0), front), vec![0]);
    assert_eq!(marquee(&screen(), at(2.0, 2.0), at(0.0, 0.0), any), vec![0, 2]);
    assert_eq!(marquee(&screen(), at(2.0, 0.0), at(0.0, 2.0), any), vec![0, 2]);
}

#[test]
fn lasso_needs_three_corners() {
    let any = ScreenFilter { front_facing_only: false };
    let x_at: Vec<Vec<Scalar>> = screen()
        .iter()
        .map(|v| match v.point {
            Some(p) => x_crossings(
                (f32::from_bits(p.x.to_bits()), f32::from_bits(p.y.to_bits())),
                &SQUARE,
            ),
            None => Vec::new(),
        })
        .collect();
    assert_eq!(lasso(&screen(), &square(), &x_at, any), vec![0, 2]);
    let line = vec![at(0.0, 0.0), at(2.0, 2.0)];
    let none: Vec<Vec<Scalar>> = screen().iter().map(|_| vec![sc(0.0); 2]).collect();
    assert!(lasso(&screen(), &line, &none, any).is_empty());
}

#[test]
fn brush_takes_its_rim() {
    let any = ScreenFilter { front_facing_only: false };
    let d = vec![sc(4.0), sc(4.5), sc(1.0), sc(0.0)];
    assert_eq!(brush(&screen(), &d, sc(4.0), any), vec![0, 2]);
    assert!(!ScreenFilter::default().front_facing_only);
}

#[test]
fn scalars_order_like_the_numbers_they_stand_for() {
    let all = [-1.0e30f32, -2.5, -0.0, 0.0, 1.0e-30, 0.75, 1.0, 3.0e20];
    for a in all {
        for b in all {
            assert_eq!(sc(a).less(sc(b)), a < b);
            assert_eq!(sc(a).at_most(sc(b)), a <= b);
            assert_eq!(sc(a).total_less(sc(b)), a.total_cmp(&b).is_lt());
        }
        assert_eq!(sc(a).abs(), sc(a.abs()));
        assert_eq!(sc(a).negated(), sc(-a));
        assert_eq!(sc(a).is_positive(), a > 0.0);
    }
    let nan = sc(f32::NAN);
    assert!(nan.is_nan());
    assert!(!nan.less(sc(1.0)) && !sc(1.0).less(nan) && !nan.at_most(nan));
    assert_eq!(sc(1.0).smaller(sc(2.0)), sc(1.0));
    assert_eq!(sc(1.0).larger(sc(2.0)), sc(2.0));
    assert_eq!(sc(f32::INFINITY), Scalar::infinity());
    assert_eq!(sc(f32::NEG_INFINITY), Scalar::neg_infinity());
    assert_eq!(sc(1.0), Scalar::one());
    assert_eq!(sc(0.0), Scalar::zero());
    assert_eq!(Scalar::one().to_bits(), 1.0f32.to_bits());
}
