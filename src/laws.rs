use vstd::prelude::*;

use crate::lexer::{is_float_text, slash_fields, tokens, unsigned_value};
use crate::wavefront::{
    apply_line, corner_fields, corner_indices, corner_ok, empty_model, index_value,
    lemma_error_persists, load_model, model_after, read_face, resolve, ErrorKind, ObjectModel,
    ParseError, TextureView,
};

verus! {

/// A well-formed `v x y z` line adds the vertex `(x, y, z)`, as written, at
/// the position after the vertices read so far, and changes nothing else.
pub proof fn lemma_vertex_line_stored(m: ObjectModel, line: Seq<char>)
    requires
        tokens(line).len() == 4,
        tokens(line)[0] == seq!['v'],
        is_float_text(tokens(line)[1]),
        is_float_text(tokens(line)[2]),
        is_float_text(tokens(line)[3]),
    ensures
        apply_line(m, line) == Ok::<ObjectModel, ErrorKind>(
            ObjectModel {
                vertices: m.vertices.push((tokens(line)[1], tokens(line)[2], tokens(line)[3])),
                ..m
            },
        ),
        apply_line(m, line) matches Ok(n) && n.vertices[m.vertices.len() as int] == (
            tokens(line)[1],
            tokens(line)[2],
            tokens(line)[3],
        ),
{
    reveal(apply_line);
    let rest = tokens(line).drop_first();
    assert(rest[0] == tokens(line)[1]);
    assert(rest[1] == tokens(line)[2]);
    assert(rest[2] == tokens(line)[3]);
}

proof fn lemma_two_field_corner(t: Seq<char>, a: nat, b: nat)
    requires
        slash_fields(t).len() == 2,
        unsigned_value(slash_fields(t)[0]) == Some(a),
        unsigned_value(slash_fields(t)[1]) == Some(b),
        a >= 1,
        b >= 1,
    ensures
        corner_ok(t),
        corner_indices(t) == seq![(a - 1) as usize, (b - 1) as usize],
{
    assert(corner_fields(t) == slash_fields(t));
    assert(index_value(slash_fields(t)[0]) == Some((a - 1) as usize));
    assert(index_value(slash_fields(t)[1]) == Some((b - 1) as usize));
    assert(corner_indices(t) =~= seq![(a - 1) as usize, (b - 1) as usize]);
}

/// A face line `f i1/j1 i2/j2 i3/j3`, read once at least `max(i1, i2, i3)`
/// vertices and `max(j1, j2, j3)` texture coordinates are stored, adds one
/// face, whose triangle has the `(ik - 1)`-th vertex and the `(jk - 1)`-th
/// texture coordinate at its `k`-th corner.
pub proof fn lemma_face_line_resolves(m: ObjectModel, line: Seq<char>, i: Seq<nat>, j: Seq<nat>)
    requires
        tokens(line).len() == 4,
        tokens(line)[0] == seq!['f'],
        i.len() == 3,
        j.len() == 3,
        forall|k: int|
            0 <= k < 3 ==> {
                let f = #[trigger] slash_fields(tokens(line)[k + 1]);
                &&& f.len() == 2
                &&& unsigned_value(f[0]) == Some(i[k])
                &&& unsigned_value(f[1]) == Some(j[k])
                &&& 1 <= i[k] <= m.vertices.len()
                &&& 1 <= j[k] <= m.texcoords.len()
            },
    ensures
        apply_line(m, line) matches Ok(n) && {
            &&& n.vertices == m.vertices
            &&& n.texcoords == m.texcoords
            &&& n.faces.len() == m.faces.len() + 1
            &&& resolve(n, n.faces.last()) == Some(
                (
                    seq![
                        m.vertices[i[0] - 1],
                        m.vertices[i[1] - 1],
                        m.vertices[i[2] - 1],
                    ],
                    seq![
                        m.texcoords[j[0] - 1],
                        m.texcoords[j[1] - 1],
                        m.texcoords[j[2] - 1],
                    ],
                ),
            )
        },
{
    reveal(apply_line);
    let rest = tokens(line).drop_first();
    assert(rest[0] == tokens(line)[1]);
    assert(rest[1] == tokens(line)[2]);
    assert(rest[2] == tokens(line)[3]);
    assert(slash_fields(tokens(line)[0int + 1]).len() == 2);
    assert(slash_fields(tokens(line)[1int + 1]).len() == 2);
    assert(slash_fields(tokens(line)[2int + 1]).len() == 2);
    lemma_two_field_corner(rest[0], i[0], j[0]);
    lemma_two_field_corner(rest[1], i[1], j[1]);
    lemma_two_field_corner(rest[2], i[2], j[2]);
    assert(seq!['f'] != seq!['v']) by {
        assert(seq!['f'][0] != seq!['v'][0]);
    }
    assert(seq!['f'] != seq!['v', 't']) by {
        assert(seq!['f'].len() != seq!['v', 't'].len());
    }
    assert(read_face(rest) is Ok);
    let f = read_face(rest)->Ok_0;
    assert(f.0 =~= seq![(i[0] - 1) as usize, (i[1] - 1) as usize, (i[2] - 1) as usize]);
    assert(f.1 =~= seq![(j[0] - 1) as usize, (j[1] - 1) as usize, (j[2] - 1) as usize]);
    let n = apply_line(m, line)->Ok_0;
    assert(n.faces.last() == f);
}

/// A `v` or `vt` line without exactly three coordinates stops the load
/// with an error that names its 1-based line number.
pub proof fn lemma_bad_coordinate_count(lines: Seq<Seq<char>>, t: TextureView, k: nat)
    requires
        lines.len() <= usize::MAX,
        k < lines.len(),
        model_after(empty_model(t), lines, k) is Ok,
        tokens(lines[k as int]).len() >= 1,
        tokens(lines[k as int]).len() != 4,
        tokens(lines[k as int])[0] == seq!['v'] || tokens(lines[k as int])[0] == seq!['v', 't'],
    ensures
        load_model(lines, t) == Err::<ObjectModel, ParseError>(
            ParseError {
                kind: if tokens(lines[k as int])[0] == seq!['v'] {
                    ErrorKind::VertexTokenCount
                } else {
                    ErrorKind::TexcoordTokenCount
                },
                line: Some((k + 1) as usize),
            },
        ),
{
    reveal(apply_line);
    assert(seq!['v'].len() == 1 && seq!['v', 't'].len() == 2);
    assert(model_after(empty_model(t), lines, k + 1) is Err);
    lemma_error_persists(empty_model(t), lines, k + 1, lines.len());
}

/// A face line without exactly three corners is an error; quads are refused.
pub proof fn lemma_face_token_count(m: ObjectModel, line: Seq<char>)
    requires
        tokens(line).len() >= 1,
        tokens(line).len() != 4,
        tokens(line)[0] == seq!['f'],
    ensures
        apply_line(m, line) == Err::<ObjectModel, ErrorKind>(ErrorKind::FaceTokenCount),
{
    reveal(apply_line);
    assert(seq!['f'] != seq!['v']) by {
        assert(seq!['f'][0] != seq!['v'][0]);
    }
    assert(seq!['f'] != seq!['v', 't']) by {
        assert(seq!['f'].len() != seq!['v', 't'].len());
    }
}

/// Blank lines, comments and lines with an unknown keyword change nothing
/// and are never an error.
pub proof fn lemma_ignored_lines(m: ObjectModel, line: Seq<char>)
    requires
        tokens(line).len() == 0 || (tokens(line)[0] != seq!['v'] && tokens(line)[0] != seq![
            'v',
            't',
        ] && tokens(line)[0] != seq!['f']),
    ensures
        apply_line(m, line) == Ok::<ObjectModel, ErrorKind>(m),
{
    reveal(apply_line);
}

/// The line's first token is `f`.
pub open spec fn is_face_line(line: Seq<char>) -> bool {
    tokens(line).len() >= 1 && tokens(line)[0] == seq!['f']
}

/// The number of face lines among the first `k` of `lines`.
pub open spec fn face_line_count(lines: Seq<Seq<char>>, k: nat) -> nat
    decreases k,
{
    if k == 0 {
        0
    } else {
        face_line_count(lines, (k - 1) as nat) + if is_face_line(lines[k - 1]) {
            1nat
        } else {
            0nat
        }
    }
}

/// The faces that the first `k` of `lines` read, in the order of the lines.
pub open spec fn faces_read(lines: Seq<Seq<char>>, k: nat) -> Seq<(Seq<usize>, Seq<usize>, Seq<usize>)>
    decreases k,
{
    if k == 0 {
        seq![]
    } else if is_face_line(lines[k - 1]) {
        faces_read(lines, (k - 1) as nat).push(
            read_face(tokens(lines[k - 1]).drop_first())->Ok_0,
        )
    } else {
        faces_read(lines, (k - 1) as nat)
    }
}

proof fn lemma_faces_after(m: ObjectModel, lines: Seq<Seq<char>>, k: nat)
    requires
        k <= lines.len(),
        model_after(m, lines, k) is Ok,
    ensures
        model_after(m, lines, k) matches Ok(p) && p.faces == m.faces + faces_read(lines, k)
            && faces_read(lines, k).len() == face_line_count(lines, k),
    decreases k,
{
    reveal(apply_line);
    if k == 0 {
        assert(m.faces + faces_read(lines, 0) =~= m.faces);
    } else {
        let j = (k - 1) as nat;
        lemma_faces_after(m, lines, j);
        let p = model_after(m, lines, j)->Ok_0;
        let q = model_after(m, lines, k)->Ok_0;
        assert(apply_line(p, lines[j as int]) == Ok::<ObjectModel, ErrorKind>(q));
        assert(seq!['f'] != seq!['v']) by {
            assert(seq!['f'][0] != seq!['v'][0]);
        }
        assert(seq!['f'] != seq!['v', 't']) by {
            assert(seq!['f'].len() != seq!['v', 't'].len());
        }
        if is_face_line(lines[j as int]) {
            assert(q.faces =~= m.faces + faces_read(lines, k));
        } else {
            assert(q.faces =~= p.faces);
        }
    }
}

/// A successful load holds one face for each face line, in the order of the
/// lines.
pub proof fn lemma_faces_in_line_order(lines: Seq<Seq<char>>, t: TextureView)
    requires
        load_model(lines, t) is Ok,
    ensures
        load_model(lines, t) matches Ok(m) && m.faces == faces_read(lines, lines.len())
            && m.faces.len() == face_line_count(lines, lines.len()),
{
    lemma_faces_after(empty_model(t), lines, lines.len());
    assert(empty_model(t).faces + faces_read(lines, lines.len()) =~= faces_read(
        lines,
        lines.len(),
    ));
}

} // verus!
