//! Wavefront OBJ export: geometry, normals and texture coordinates only, since
//! the format carries neither skeleton nor weights.
use vstd::prelude::*;
use vstd::string::StringExecFns;
use crate::mesh::SkinnedMesh;
use crate::reading;
use crate::text;
use super::ExportError;

verus! {

/// The decimal text of a vertex.
pub struct ObjVertex {
    pub position: [String; 3],
    pub uv: [String; 2],
    pub normal: [String; 3],
}

/// A position line.
pub open spec fn position_line(out: Seq<char>, v: ObjVertex) -> Seq<char> {
    out + "v "@ + v.position@[0]@ + " "@ + v.position@[1]@ + " "@ + v.position@[2]@ + "\n"@
}

/// A texture coordinate line.
pub open spec fn uv_line(out: Seq<char>, v: ObjVertex) -> Seq<char> {
    out + "vt "@ + v.uv@[0]@ + " "@ + v.uv@[1]@ + "\n"@
}

/// A normal line.
pub open spec fn normal_line(out: Seq<char>, v: ObjVertex) -> Seq<char> {
    out + "vn "@ + v.normal@[0]@ + " "@ + v.normal@[1]@ + " "@ + v.normal@[2]@ + "\n"@
}

/// A corner names position, texture coordinate and normal by the same number,
/// counted from one.
pub open spec fn corner(out: Seq<char>, index: u32) -> Seq<char> {
    let number = text::decimal((index + 1) as nat);
    out + number + "/"@ + number + "/"@ + number
}

/// A face line.
pub open spec fn face_line(out: Seq<char>, a: u32, b: u32, c: u32) -> Seq<char> {
    corner(corner(corner(out + "f "@, a) + " "@, b) + " "@, c) + "\n"@
}

/// The position lines of the first `n` vertices.
pub open spec fn position_lines(out: Seq<char>, vertices: Seq<ObjVertex>, n: nat) -> Seq<char>
    decreases n,
{
    if n == 0 {
        out
    } else {
        position_line(position_lines(out, vertices, (n - 1) as nat), vertices[n - 1])
    }
}

/// The texture coordinate lines of the first `n` vertices.
pub open spec fn uv_lines(out: Seq<char>, vertices: Seq<ObjVertex>, n: nat) -> Seq<char>
    decreases n,
{
    if n == 0 {
        out
    } else {
        uv_line(uv_lines(out, vertices, (n - 1) as nat), vertices[n - 1])
    }
}

/// The normal lines of the first `n` vertices.
pub open spec fn normal_lines(out: Seq<char>, vertices: Seq<ObjVertex>, n: nat) -> Seq<char>
    decreases n,
{
    if n == 0 {
        out
    } else {
        normal_line(normal_lines(out, vertices, (n - 1) as nat), vertices[n - 1])
    }
}

/// The face lines of the first `t` triangles.
pub open spec fn face_lines(out: Seq<char>, indices: Seq<u32>, t: nat) -> Seq<char>
    decreases t,
{
    if t == 0 {
        out
    } else {
        face_line(
            face_lines(out, indices, (t - 1) as nat),
            indices[3 * t - 3],
            indices[3 * t - 2],
            indices[3 * t - 1],
        )
    }
}

/// The whole file.
pub open spec fn file_text(indices: Seq<u32>, vertices: Seq<ObjVertex>) -> Seq<char> {
    let head = "# Exported by Cube Bauhaus rig bay\no rigged_mesh\n"@;
    let n = vertices.len();
    face_lines(
        normal_lines(uv_lines(position_lines(head, vertices, n), vertices, n), vertices, n),
        indices,
        indices.len() / 3,
    )
}

fn write_corner(s: &mut String, index: u32)
    requires
        index < u32::MAX,
    ensures
        final(s)@ == corner(old(s)@, index),
{
    let number: u64 = index as u64 + 1;
    text::push_decimal(s, number);
    s.append("/");
    text::push_decimal(s, number);
    s.append("/");
    text::push_decimal(s, number);
}

/// Build the file in memory from the decimal text of each vertex. An empty mesh
/// is refused.
pub fn build_obj(mesh: &SkinnedMesh, vertices: &Vec<ObjVertex>) -> (r: Result<String, ExportError>)
    requires
        vertices@.len() == mesh.vertices@.len(),
        forall|j: int|
            0 <= j < 3 * (mesh.indices@.len() / 3) ==> (#[trigger] mesh.indices@[j]) < u32::MAX,
    ensures
        match r {
            Ok(out) => mesh.vertices@.len() > 0 && out@ == file_text(mesh.indices@, vertices@),
            Err(e) => mesh.vertices@.len() == 0 && e == ExportError::Empty,
        },
{
    if mesh.vertices.len() == 0 {
        return Err(ExportError::Empty);
    }
    let mut s = "# Exported by Cube Bauhaus rig bay\no rigged_mesh\n".to_owned();
    let ghost before_position = s@;
    let mut i: usize = 0;
    while i < vertices.len()
        invariant
            i <= vertices.len(),
            s@ == position_lines(before_position, vertices@, i as nat),
        decreases vertices.len() - i,
    {
        s.append("v ");
        s.append(vertices[i].position[0].as_str());
        s.append(" ");
        s.append(vertices[i].position[1].as_str());
        s.append(" ");
        s.append(vertices[i].position[2].as_str());
        s.append("\n");
        i += 1;
    }
    let ghost before_uv = s@;
    let mut j: usize = 0;
    while j < vertices.len()
        invariant
            j <= vertices.len(),
            s@ == uv_lines(before_uv, vertices@, j as nat),
        decreases vertices.len() - j,
    {
        s.append("vt ");
        s.append(vertices[j].uv[0].as_str());
        s.append(" ");
        s.append(vertices[j].uv[1].as_str());
        s.append("\n");
        j += 1;
    }
    let ghost before_normal = s@;
    let mut k: usize = 0;
    while k < vertices.len()
        invariant
            k <= vertices.len(),
            s@ == normal_lines(before_normal, vertices@, k as nat),
        decreases vertices.len() - k,
    {
        s.append("vn ");
        s.append(vertices[k].normal[0].as_str());
        s.append(" ");
        s.append(vertices[k].normal[1].as_str());
        s.append(" ");
        s.append(vertices[k].normal[2].as_str());
        s.append("\n");
        k += 1;
    }
    let ghost before_faces = s@;
    let count: usize = mesh.indices.len() / 3;
    let mut t: usize = 0;
    while t < count
        invariant
            t <= count,
            count == mesh.indices.len() / 3,
            forall|j: int|
                0 <= j < 3 * (mesh.indices@.len() / 3) ==> (#[trigger] mesh.indices@[j]) < u32::MAX,
            s@ == face_lines(before_faces, mesh.indices@, t as nat),
        decreases count - t,
    {
        s.append("f ");
        write_corner(&mut s, mesh.indices[3 * t]);
        s.append(" ");
        write_corner(&mut s, mesh.indices[3 * t + 1]);
        s.append(" ");
        write_corner(&mut s, mesh.indices[3 * t + 2]);
        s.append("\n");
        t += 1;
    }
    Ok(s)
}

// ── reading back ──────────────────────────────────────────────────────────────

/// What a reader finds in a file: the fields of each kind of line, in order. A
/// corner of a face has the fields between its slashes.
#[verifier::ext_equal]
pub ghost struct ObjReading {
    pub positions: Seq<Seq<Seq<char>>>,
    pub uvs: Seq<Seq<Seq<char>>>,
    pub normals: Seq<Seq<Seq<char>>>,
    pub faces: Seq<Seq<Seq<Seq<char>>>>,
}

/// Nothing read yet.
pub open spec fn unread() -> ObjReading {
    ObjReading {
        positions: Seq::empty(),
        uvs: Seq::empty(),
        normals: Seq::empty(),
        faces: Seq::empty(),
    }
}

/// What a line adds: its first field says what it is, and the others follow
/// after blanks.
pub open spec fn with_line(known: ObjReading, line: Seq<char>) -> ObjReading {
    let fields = reading::split(line, ' ');
    let rest = fields.skip(1);
    if fields[0] == seq!['v'] {
        ObjReading { positions: known.positions.push(rest), ..known }
    } else if fields[0] == seq!['v', 't'] {
        ObjReading { uvs: known.uvs.push(rest), ..known }
    } else if fields[0] == seq!['v', 'n'] {
        ObjReading { normals: known.normals.push(rest), ..known }
    } else if fields[0] == seq!['f'] {
        ObjReading {
            faces: known.faces.push(
                rest.map_values(|corner: Seq<char>| reading::split(corner, '/')),
            ),
            ..known
        }
    } else {
        known
    }
}

/// Reading a file line by line.
pub open spec fn read_obj(file: Seq<char>) -> ObjReading {
    reading::read(file, unread(), |known: ObjReading, line: Seq<char>| with_line(known, line))
}

/// Whether a text can stand between blanks in a line.
pub open spec fn is_field(s: Seq<char>) -> bool {
    !s.contains(' ') && !s.contains('\n')
}

/// Whether all texts of a vertex can stand in lines.
pub open spec fn has_fields(v: ObjVertex) -> bool {
    &&& forall|k: int| 0 <= k < 3 ==> is_field((#[trigger] v.position@[k])@)
    &&& forall|k: int| 0 <= k < 2 ==> is_field((#[trigger] v.uv@[k])@)
    &&& forall|k: int| 0 <= k < 3 ==> is_field((#[trigger] v.normal@[k])@)
}

proof fn empty_lines_are_skipped()
    ensures
        reading::skips_empty(|known: ObjReading, line: Seq<char>| with_line(known, line)),
{
    let nothing = Seq::<char>::empty();
    reading::split_nothing(' ');
    assert(nothing.len() == 0);
    assert(seq!['v'].len() == 1 && seq!['f'].len() == 1);
    assert(seq!['v', 't'].len() == 2 && seq!['v', 'n'].len() == 2);
}

proof fn three_fields(tag: Seq<char>, a: Seq<char>, b: Seq<char>, c: Seq<char>)
    requires
        is_field(tag) && is_field(a) && is_field(b) && is_field(c),
    ensures
        ({
            let line = tag + seq![' '] + a + seq![' '] + b + seq![' '] + c;
            &&& !line.contains('\n')
            &&& reading::split(line, ' ') == seq![tag, a, b, c]
        }),
{
    let blank = seq![' '];
    let line = tag + blank + a + blank + b + blank + c;
    assert(!blank.contains('\n')) by {
        assert(blank[0] == ' ');
    }
    reading::sum_lacks(tag, blank, '\n');
    reading::sum_lacks(tag + blank, a, '\n');
    reading::sum_lacks(tag + blank + a, blank, '\n');
    reading::sum_lacks(tag + blank + a + blank, b, '\n');
    reading::sum_lacks(tag + blank + a + blank + b, blank, '\n');
    reading::sum_lacks(tag + blank + a + blank + b + blank, c, '\n');
    reading::split_whole(c, ' ');
    reading::split_first(b, c, ' ');
    reading::split_first(a, b + blank + c, ' ');
    reading::split_first(tag, a + blank + (b + blank + c), ' ');
    assert(line =~= tag + blank + (a + blank + (b + blank + c)));
    assert(seq![tag] + (seq![a] + (seq![b] + seq![c])) =~= seq![tag, a, b, c]);
}

proof fn two_fields(tag: Seq<char>, a: Seq<char>, b: Seq<char>)
    requires
        is_field(tag) && is_field(a) && is_field(b),
    ensures
        ({
            let line = tag + seq![' '] + a + seq![' '] + b;
            &&& !line.contains('\n')
            &&& reading::split(line, ' ') == seq![tag, a, b]
        }),
{
    let blank = seq![' '];
    let line = tag + blank + a + blank + b;
    assert(!blank.contains('\n')) by {
        assert(blank[0] == ' ');
    }
    reading::sum_lacks(tag, blank, '\n');
    reading::sum_lacks(tag + blank, a, '\n');
    reading::sum_lacks(tag + blank + a, blank, '\n');
    reading::sum_lacks(tag + blank + a + blank, b, '\n');
    reading::split_whole(b, ' ');
    reading::split_first(a, b, ' ');
    reading::split_first(tag, a + blank + b, ' ');
    assert(line =~= tag + blank + (a + blank + b));
    assert(seq![tag] + (seq![a] + seq![b]) =~= seq![tag, a, b]);
}

/// The three texts of a triple.
pub open spec fn texts3(t: [String; 3]) -> Seq<Seq<char>> {
    seq![t@[0]@, t@[1]@, t@[2]@]
}

/// The two texts of a pair.
pub open spec fn texts2(t: [String; 2]) -> Seq<Seq<char>> {
    seq![t@[0]@, t@[1]@]
}

proof fn head_is_read()
    ensures
        ({
            let head = "# Exported by Cube Bauhaus rig bay\no rigged_mesh\n"@;
            reading::line_ends(head) && read_obj(head) == unread()
        }),
{
    let step = |known: ObjReading, line: Seq<char>| with_line(known, line);
    let head = "# Exported by Cube Bauhaus rig bay\no rigged_mesh\n"@;
    reveal_strlit("# Exported by Cube Bauhaus rig bay\no rigged_mesh\n");
    reveal_strlit("# Exported by Cube Bauhaus rig bay");
    reveal_strlit("Exported by Cube Bauhaus rig bay");
    reveal_strlit("o rigged_mesh");
    reveal_strlit("rigged_mesh");
    let nothing = Seq::<char>::empty();
    let (first, second) = ("# Exported by Cube Bauhaus rig bay"@, "o rigged_mesh"@);
    empty_lines_are_skipped();
    reading::split_nothing('\n');
    assert(seq![nothing].drop_last() =~= Seq::<Seq<char>>::empty());
    assert(reading::after_lines(Seq::<Seq<char>>::empty(), unread(), step) == unread());
    assert(reading::after_lines(seq![nothing], unread(), step) == step(unread(), nothing));
    assert(read_obj(nothing) == unread());
    reading::read_line(nothing, first, unread(), step);
    reading::read_line(nothing + first + seq!['\n'], second, unread(), step);
    assert(head =~= nothing + first + seq!['\n'] + second + seq!['\n']);
    assert(first =~= seq!['#'] + seq![' '] + "Exported by Cube Bauhaus rig bay"@);
    assert(second =~= seq!['o'] + seq![' '] + "rigged_mesh"@);
    reading::split_first(seq!['#'], "Exported by Cube Bauhaus rig bay"@, ' ');
    reading::split_first(seq!['o'], "rigged_mesh"@, ' ');
    assert(reading::split(first, ' ')[0] == seq!['#']);
    assert(reading::split(second, ' ')[0] == seq!['o']);
    assert(seq!['#'][0] == '#' && seq!['o'][0] == 'o');
    assert(seq!['v'][0] == 'v' && seq!['f'][0] == 'f');
    assert(seq!['v', 't'].len() == 2 && seq!['v', 'n'].len() == 2);
    assert(with_line(unread(), first) == unread());
    assert(with_line(unread(), second) == unread());
}

proof fn position_lines_are_read(out: Seq<char>, vertices: Seq<ObjVertex>, n: nat)
    requires
        n <= vertices.len(),
        reading::line_ends(out),
        forall|k: int| 0 <= k < vertices.len() ==> has_fields(#[trigger] vertices[k]),
    ensures
        ({
            let all = position_lines(out, vertices, n);
            &&& reading::line_ends(all)
            &&& read_obj(all) == (ObjReading {
                positions: read_obj(out).positions + Seq::new(
                    n,
                    |k: int| texts3(vertices[k].position),
                ),
                ..read_obj(out)
            })
        }),
    decreases n,
{
    if n == 0 {
        assert(read_obj(out).positions + Seq::new(0, |k: int| texts3(vertices[k].position))
            =~= read_obj(out).positions);
    } else {
        let step = |known: ObjReading, line: Seq<char>| with_line(known, line);
        let before = position_lines(out, vertices, (n - 1) as nat);
        position_lines_are_read(out, vertices, (n - 1) as nat);
        let v = vertices[n - 1];
        assert(has_fields(v));
        let (a, b, c) = (v.position@[0]@, v.position@[1]@, v.position@[2]@);
        reveal_strlit("v ");
        reveal_strlit(" ");
        reveal_strlit("\n");
        let tag = seq!['v'];
        assert(is_field(tag)) by {
            assert(tag[0] == 'v');
        }
        three_fields(tag, a, b, c);
        let line = tag + seq![' '] + a + seq![' '] + b + seq![' '] + c;
        empty_lines_are_skipped();
        reading::read_line(before, line, unread(), step);
        assert(position_lines(out, vertices, n) =~= before + line + seq!['\n']);
        assert(seq![tag, a, b, c].skip(1) =~= texts3(v.position));
        assert(Seq::new(n, |k: int| texts3(vertices[k].position)) =~= Seq::new(
            (n - 1) as nat,
            |k: int| texts3(vertices[k].position),
        ).push(texts3(v.position)));
        assert(read_obj(position_lines(out, vertices, n)).positions =~= read_obj(out).positions
            + Seq::new(n, |k: int| texts3(vertices[k].position)));
    }
}

proof fn uv_lines_are_read(out: Seq<char>, vertices: Seq<ObjVertex>, n: nat)
    requires
        n <= vertices.len(),
        reading::line_ends(out),
        forall|k: int| 0 <= k < vertices.len() ==> has_fields(#[trigger] vertices[k]),
    ensures
        ({
            let all = uv_lines(out, vertices, n);
            &&& reading::line_ends(all)
            &&& read_obj(all) == (ObjReading {
                uvs: read_obj(out).uvs + Seq::new(n, |k: int| texts2(vertices[k].uv)),
                ..read_obj(out)
            })
        }),
    decreases n,
{
    if n == 0 {
        assert(read_obj(out).uvs + Seq::new(0, |k: int| texts2(vertices[k].uv)) =~= read_obj(
            out,
        ).uvs);
    } else {
        let step = |known: ObjReading, line: Seq<char>| with_line(known, line);
        let before = uv_lines(out, vertices, (n - 1) as nat);
        uv_lines_are_read(out, vertices, (n - 1) as nat);
        let v = vertices[n - 1];
        assert(has_fields(v));
        let (a, b) = (v.uv@[0]@, v.uv@[1]@);
        reveal_strlit("vt ");
        reveal_strlit(" ");
        reveal_strlit("\n");
        let tag = seq!['v', 't'];
        assert(is_field(tag)) by {
            assert(tag[0] == 'v' && tag[1] == 't');
        }
        two_fields(tag, a, b);
        let line = tag + seq![' '] + a + seq![' '] + b;
        empty_lines_are_skipped();
        reading::read_line(before, line, unread(), step);
        assert(uv_lines(out, vertices, n) =~= before + line + seq!['\n']);
        assert(tag.len() == 2 && seq!['v'].len() == 1);
        assert(seq![tag, a, b].skip(1) =~= texts2(v.uv));
        assert(Seq::new(n, |k: int| texts2(vertices[k].uv)) =~= Seq::new(
            (n - 1) as nat,
            |k: int| texts2(vertices[k].uv),
        ).push(texts2(v.uv)));
        assert(read_obj(uv_lines(out, vertices, n)).uvs =~= read_obj(out).uvs + Seq::new(
            n,
            |k: int| texts2(vertices[k].uv),
        ));
    }
}

proof fn normal_lines_are_read(out: Seq<char>, vertices: Seq<ObjVertex>, n: nat)
    requires
        n <= vertices.len(),
        reading::line_ends(out),
        forall|k: int| 0 <= k < vertices.len() ==> has_fields(#[trigger] vertices[k]),
    ensures
        ({
            let all = normal_lines(out, vertices, n);
            &&& reading::line_ends(all)
            &&& read_obj(all) == (ObjReading {
                normals: read_obj(out).normals + Seq::new(n, |k: int| texts3(vertices[k].normal)),
                ..read_obj(out)
            })
        }),
    decreases n,
{
    if n == 0 {
        assert(read_obj(out).normals + Seq::new(0, |k: int| texts3(vertices[k].normal)) =~= read_obj(
            out,
        ).normals);
    } else {
        let step = |known: ObjReading, line: Seq<char>| with_line(known, line);
        let before = normal_lines(out, vertices, (n - 1) as nat);
        normal_lines_are_read(out, vertices, (n - 1) as nat);
        let v = vertices[n - 1];
        assert(has_fields(v));
        let (a, b, c) = (v.normal@[0]@, v.normal@[1]@, v.normal@[2]@);
        reveal_strlit("vn ");
        reveal_strlit(" ");
        reveal_strlit("\n");
        let tag = seq!['v', 'n'];
        assert(is_field(tag)) by {
            assert(tag[0] == 'v' && tag[1] == 'n');
        }
        three_fields(tag, a, b, c);
        let line = tag + seq![' '] + a + seq![' '] + b + seq![' '] + c;
        empty_lines_are_skipped();
        reading::read_line(before, line, unread(), step);
        assert(normal_lines(out, vertices, n) =~= before + line + seq!['\n']);
        assert(tag.len() == 2 && seq!['v'].len() == 1);
        assert(tag[1] == 'n' && seq!['v', 't'][1] == 't');
        assert(seq![tag, a, b, c].skip(1) =~= texts3(v.normal));
        assert(Seq::new(n, |k: int| texts3(vertices[k].normal)) =~= Seq::new(
            (n - 1) as nat,
            |k: int| texts3(vertices[k].normal),
        ).push(texts3(v.normal)));
        assert(read_obj(normal_lines(out, vertices, n)).normals =~= read_obj(out).normals
            + Seq::new(n, |k: int| texts3(vertices[k].normal)));
    }
}

/// A corner as a reader finds it: three times the number of its vertex, counted
/// from one.
pub open spec fn corner_fields(index: u32) -> Seq<Seq<char>> {
    let number = text::decimal((index + 1) as nat);
    seq![number, number, number]
}

/// The three corners of triangle `t`.
pub open spec fn face_fields(indices: Seq<u32>, t: int) -> Seq<Seq<Seq<char>>> {
    seq![
        corner_fields(indices[3 * t]),
        corner_fields(indices[3 * t + 1]),
        corner_fields(indices[3 * t + 2]),
    ]
}

proof fn corner_is_read(index: u32)
    ensures
        is_field(corner(Seq::empty(), index)),
        reading::split(corner(Seq::empty(), index), '/') == corner_fields(index),
{
    let number = text::decimal((index + 1) as nat);
    let slash = seq!['/'];
    reveal_strlit("/");
    reading::decimal_lacks((index + 1) as nat, '/');
    reading::decimal_lacks((index + 1) as nat, ' ');
    reading::decimal_lacks((index + 1) as nat, '\n');
    assert(slash[0] == '/');
    let all = number + slash + number + slash + number;
    assert(corner(Seq::empty(), index) =~= all);
    assert forall|c: char| c == ' ' || c == '\n' implies !(#[trigger] all.contains(c)) by {
        reading::sum_lacks(number, slash, c);
        reading::sum_lacks(number + slash, number, c);
        reading::sum_lacks(number + slash + number, slash, c);
        reading::sum_lacks(number + slash + number + slash, number, c);
    }
    assert(!all.contains(' ') && !all.contains('\n'));
    reading::split_whole(number, '/');
    reading::split_first(number, number, '/');
    reading::split_first(number, number + slash + number, '/');
    assert(all =~= number + slash + (number + slash + number));
    assert(seq![number] + (seq![number] + seq![number]) =~= seq![number, number, number]);
}

proof fn corner_follows(out: Seq<char>, index: u32)
    ensures
        corner(out, index) == out + corner(Seq::empty(), index),
{
    let number = text::decimal((index + 1) as nat);
    assert(corner(out, index) =~= out + corner(Seq::empty(), index));
}

proof fn face_line_follows(out: Seq<char>, i: u32, j: u32, k: u32)
    ensures
        ({
            let nothing = Seq::<char>::empty();
            let (a, b, c) = (corner(nothing, i), corner(nothing, j), corner(nothing, k));
            face_line(out, i, j, k) == out + (seq!['f'] + seq![' '] + a + seq![' '] + b + seq![' ']
                + c) + seq!['\n']
        }),
{
    let nothing = Seq::<char>::empty();
    let (a, b, c) = (corner(nothing, i), corner(nothing, j), corner(nothing, k));
    reveal_strlit("f ");
    reveal_strlit(" ");
    reveal_strlit("\n");
    assert("f "@ =~= seq!['f'] + seq![' ']);
    assert(" "@ =~= seq![' ']);
    assert("\n"@ =~= seq!['\n']);
    let first = out + "f "@;
    corner_follows(first, i);
    let second = corner(first, i) + " "@;
    corner_follows(second, j);
    let third = corner(second, j) + " "@;
    corner_follows(third, k);
    assert(face_line(out, i, j, k) == out + (seq!['f'] + seq![' ']) + a + seq![' '] + b + seq![' ']
        + c + seq!['\n']);
    assert(out + (seq!['f'] + seq![' ']) + a + seq![' '] + b + seq![' '] + c + seq!['\n'] =~= out
        + (seq!['f'] + seq![' '] + a + seq![' '] + b + seq![' '] + c) + seq!['\n']);
}

proof fn face_lines_are_read(out: Seq<char>, indices: Seq<u32>, t: nat)
    requires
        t <= indices.len() / 3,
        reading::line_ends(out),
    ensures
        ({
            let all = face_lines(out, indices, t);
            &&& reading::line_ends(all)
            &&& read_obj(all) == (ObjReading {
                faces: read_obj(out).faces + Seq::new(t, |k: int| face_fields(indices, k)),
                ..read_obj(out)
            })
        }),
    decreases t,
{
    if t == 0 {
        assert(read_obj(out).faces + Seq::new(0, |k: int| face_fields(indices, k)) =~= read_obj(
            out,
        ).faces);
    } else {
        let step = |known: ObjReading, line: Seq<char>| with_line(known, line);
        let before = face_lines(out, indices, (t - 1) as nat);
        face_lines_are_read(out, indices, (t - 1) as nat);
        let (i, j, k) = (indices[3 * t - 3], indices[3 * t - 2], indices[3 * t - 1]);
        let nothing = Seq::<char>::empty();
        let (a, b, c) = (corner(nothing, i), corner(nothing, j), corner(nothing, k));
        corner_is_read(i);
        corner_is_read(j);
        corner_is_read(k);
        let tag = seq!['f'];
        assert(is_field(tag)) by {
            assert(tag[0] == 'f');
        }
        three_fields(tag, a, b, c);
        let line = tag + seq![' '] + a + seq![' '] + b + seq![' '] + c;
        empty_lines_are_skipped();
        reading::read_line(before, line, unread(), step);
        face_line_follows(before, i, j, k);
        assert(face_lines(out, indices, t) == before + line + seq!['\n']);
        assert(tag[0] == 'f' && seq!['v'][0] == 'v');
        assert(seq!['v', 't'].len() == 2 && seq!['v', 'n'].len() == 2);
        let found = seq![tag, a, b, c].skip(1).map_values(
            |corner: Seq<char>| reading::split(corner, '/'),
        );
        assert(found =~= face_fields(indices, t - 1));
        assert(Seq::new(t, |k: int| face_fields(indices, k)) =~= Seq::new(
            (t - 1) as nat,
            |k: int| face_fields(indices, k),
        ).push(found));
        assert(read_obj(face_lines(out, indices, t)).faces =~= read_obj(out).faces + Seq::new(
            t,
            |k: int| face_fields(indices, k),
        ));
    }
}

/// The file reads back as the mesh: line after line, the coordinates of each
/// vertex in order, its texture coordinates and its normal, and for each whole
/// triangle three corners that name their vertex for all three. The texts of the
/// numbers hold no blanks and no line breaks.
pub proof fn file_reads_back(indices: Seq<u32>, vertices: Seq<ObjVertex>)
    requires
        forall|k: int| 0 <= k < vertices.len() ==> has_fields(#[trigger] vertices[k]),
    ensures
        ({
            let found = read_obj(file_text(indices, vertices));
            &&& found.positions.len() == vertices.len()
            &&& found.uvs.len() == vertices.len()
            &&& found.normals.len() == vertices.len()
            &&& found.faces.len() == indices.len() / 3
            &&& forall|v: int, k: int|
                0 <= v < vertices.len() && 0 <= k < 3 ==> #[trigger] found.positions[v][k]
                    == vertices[v].position@[k]@
            &&& forall|v: int, k: int|
                0 <= v < vertices.len() && 0 <= k < 2 ==> #[trigger] found.uvs[v][k]
                    == vertices[v].uv@[k]@
            &&& forall|v: int, k: int|
                0 <= v < vertices.len() && 0 <= k < 3 ==> #[trigger] found.normals[v][k]
                    == vertices[v].normal@[k]@
            &&& forall|v: int|
                0 <= v < vertices.len() ==> (#[trigger] found.positions[v]).len() == 3
            &&& forall|v: int| 0 <= v < vertices.len() ==> (#[trigger] found.uvs[v]).len() == 2
            &&& forall|v: int| 0 <= v < vertices.len() ==> (#[trigger] found.normals[v]).len() == 3
            &&& forall|t: int|
                0 <= t < indices.len() / 3 ==> (#[trigger] found.faces[t]).len() == 3
            &&& forall|t: int, c: int, k: int|
                0 <= t < indices.len() / 3 && 0 <= c < 3 && 0 <= k < 3 ==> reading::value(
                    #[trigger] found.faces[t][c][k],
                ) == indices[3 * t + c] + 1 && found.faces[t][c].len() == 3
        }),
{
    let n = vertices.len();
    let head = "# Exported by Cube Bauhaus rig bay\no rigged_mesh\n"@;
    head_is_read();
    position_lines_are_read(head, vertices, n);
    let placed = position_lines(head, vertices, n);
    uv_lines_are_read(placed, vertices, n);
    let mapped = uv_lines(placed, vertices, n);
    normal_lines_are_read(mapped, vertices, n);
    let turned = normal_lines(mapped, vertices, n);
    face_lines_are_read(turned, indices, indices.len() / 3);
    let found = read_obj(file_text(indices, vertices));
    assert(found.positions =~= Seq::new(n, |k: int| texts3(vertices[k].position)));
    assert(found.uvs =~= Seq::new(n, |k: int| texts2(vertices[k].uv)));
    assert(found.normals =~= Seq::new(n, |k: int| texts3(vertices[k].normal)));
    assert(found.faces =~= Seq::new(indices.len() / 3, |k: int| face_fields(indices, k)));
    assert forall|t: int, c: int, k: int|
        0 <= t < indices.len() / 3 && 0 <= c < 3 && 0 <= k < 3 implies reading::value(
        #[trigger] found.faces[t][c][k],
    ) == indices[3 * t + c] + 1 && found.faces[t][c].len() == 3 by {
        assert(found.faces[t][c] == corner_fields(indices[3 * t + c]));
        reading::decimal_reads_back((indices[3 * t + c] + 1) as nat);
    }
}

} // verus!
