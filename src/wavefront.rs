use vstd::prelude::*;

use crate::lexer::{
    chars_of, float_text, is_float_text, parse_unsigned, slash_fields, split_slashes, split_spans,
    spans_view, sub_chars, token_spans, tokens, unsigned_value,
};

verus! {

/// The text of the three coordinates of a vertex.
pub type Coords = (Seq<char>, Seq<char>, Seq<char>);

/// The vertex, texture-coordinate and normal index lists of a face.
pub type IndexLists = (Seq<usize>, Seq<usize>, Seq<usize>);

/// A resolved triangle: three positions and three texture coordinates.
pub type Triangle = (Seq<Coords>, Seq<Coords>);

/// Width, height and row-major pixels of a texture.
pub type TextureView = (nat, nat, Seq<Rgb>);

/// A point with three coordinates, each held as the floating-point literal
/// that it was read from.
#[derive(Clone, Debug)]
pub struct Vertex {
    pub x: String,
    pub y: String,
    pub z: String,
}

impl View for Vertex {
    type V = Coords;

    open spec fn view(&self) -> Coords {
        (self.x@, self.y@, self.z@)
    }
}

impl Vertex {
    /// A copy of this vertex.
    pub fn copy(&self) -> (r: Vertex)
        ensures
            r@ == self@,
    {
        Vertex { x: self.x.clone(), y: self.y.clone(), z: self.z.clone() }
    }
}

/// An RGB colour.
#[derive(Clone, Copy, Debug, PartialEq, Eq, Structural)]
pub struct Rgb {
    pub r: u8,
    pub g: u8,
    pub b: u8,
}

/// A grid of colours, stored row by row.
#[derive(Clone, Debug)]
pub struct Texture {
    width: usize,
    height: usize,
    pixels: Vec<Rgb>,
}

impl View for Texture {
    type V = TextureView;

    closed spec fn view(&self) -> TextureView {
        (self.width as nat, self.height as nat, self.pixels@)
    }
}

/// The colour at column `x` and row `y` of a texture, if the grid holds it.
pub open spec fn texel_of(t: TextureView, x: int, y: int) -> Option<Rgb> {
    if 0 <= x < t.0 && 0 <= y < t.1 {
        Some(t.2[y * t.0 + x])
    } else {
        None
    }
}

impl Texture {
    /// The texture holds exactly `width * height` pixels.
    pub open spec fn wf(&self) -> bool {
        self@.2.len() == self@.0 * self@.1
    }

    /// A texture of `width` by `height` pixels, given row by row; `None` when
    /// the number of pixels is not `width * height`.
    pub fn new(width: usize, height: usize, pixels: Vec<Rgb>) -> (r: Option<Texture>)
        ensures
            r is Some <==> pixels@.len() == width * height,
            r matches Some(t) ==> t@ == (width as nat, height as nat, pixels@) && t.wf(),
    {
        let n = pixels.len();
        if width == 0 || height == 0 {
            if n == 0 {
                proof {
                    assert(width * height == 0) by (nonlinear_arith)
                        requires
                            width == 0 || height == 0,
                    ;
                }
                Some(Texture { width, height, pixels })
            } else {
                proof {
                    assert(width * height == 0) by (nonlinear_arith)
                        requires
                            width == 0 || height == 0,
                    ;
                }
                None
            }
        } else if n / width != height || n % width != 0 {
            proof {
                if n as int == width * height {
                    assert(n as int / width as int == height as int && n as int % width as int
                        == 0) by (nonlinear_arith)
                        requires
                            n as int == width * height,
                            width > 0,
                    ;
                }
            }
            None
        } else {
            proof {
                assert(n as int == width * height) by (nonlinear_arith)
                    requires
                        n as int / width as int == height as int,
                        n as int % width as int == 0,
                        width > 0,
                ;
            }
            Some(Texture { width, height, pixels })
        }
    }

    pub fn width(&self) -> (r: usize)
        ensures
            r as nat == self@.0,
    {
        self.width
    }

    pub fn height(&self) -> (r: usize)
        ensures
            r as nat == self@.1,
    {
        self.height
    }

    /// The colour at column `x` and row `y`; `None` outside the grid.
    pub fn texel(&self, x: usize, y: usize) -> (r: Option<Rgb>)
        requires
            self.wf(),
        ensures
            r == texel_of(self@, x as int, y as int),
    {
        let n = self.pixels.len();
        if x < self.width && y < self.height {
            proof {
                assert(y * self.width + x < self.width * self.height) by (nonlinear_arith)
                    requires
                        x < self.width,
                        y < self.height,
                ;
                assert(0 <= y * self.width) by (nonlinear_arith);
                assert(y * self.width + x < n);
            }
            Some(self.pixels[y * self.width + x])
        } else {
            None
        }
    }
}

/// The per-corner index lists of one triangle, 0-based: vertex indices,
/// texture-coordinate indices and normal indices.
#[derive(Clone, Debug)]
pub struct FaceIndex {
    v_idxs: Vec<usize>,
    t_idxs: Vec<usize>,
    n_idxs: Vec<usize>,
}

impl View for FaceIndex {
    type V = IndexLists;

    closed spec fn view(&self) -> IndexLists {
        (self.v_idxs@, self.t_idxs@, self.n_idxs@)
    }
}

impl FaceIndex {
    /// A face with no indices yet.
    pub fn new() -> (r: FaceIndex)
        ensures
            r@ == (Seq::<usize>::empty(), Seq::<usize>::empty(), Seq::<usize>::empty()),
    {
        FaceIndex { v_idxs: Vec::new(), t_idxs: Vec::new(), n_idxs: Vec::new() }
    }
}

/// A triangle with its three positions and three texture coordinates.
#[derive(Clone, Debug)]
pub struct Face {
    pub vertices: [Vertex; 3],
    pub texcoords: [Vertex; 3],
}

impl View for Face {
    type V = Triangle;

    open spec fn view(&self) -> Triangle {
        (
            self.vertices@.map_values(|v: Vertex| v@),
            self.texcoords@.map_values(|v: Vertex| v@),
        )
    }
}

/// What is wrong with a line.
#[derive(Clone, Copy, Debug, PartialEq, Eq)]
pub enum ErrorKind {
    /// A `v` line without exactly three coordinates.
    VertexTokenCount,
    /// A `vt` line without exactly three coordinates.
    TexcoordTokenCount,
    /// An `f` line without exactly three corners.
    FaceTokenCount,
    /// A coordinate that is not a floating-point literal.
    InvalidNumber,
    /// A corner index that is not a positive integer that fits in `usize`.
    InvalidIndex,
    /// Corners of one face with different numbers of indices.
    MixedCorners,
}

/// A malformed line: what is wrong, and its 1-based line number once the
/// line is known.
#[derive(Clone, Copy, Debug, PartialEq, Eq)]
pub struct ParseError {
    pub kind: ErrorKind,
    pub line: Option<usize>,
}

/// The contents of an object.
pub struct ObjectModel {
    pub vertices: Seq<Coords>,
    pub texcoords: Seq<Coords>,
    pub faces: Seq<IndexLists>,
    pub texture: TextureView,
}

/// An object with no vertices, texture coordinates or faces.
pub open spec fn empty_model(t: TextureView) -> ObjectModel {
    ObjectModel { vertices: Seq::empty(), texcoords: Seq::empty(), faces: Seq::empty(), texture: t }
}

/// The three coordinates that follow a `v` or `vt` keyword.
pub open spec fn read_coords(rest: Seq<Seq<char>>, count_error: ErrorKind) -> Result<
    Coords,
    ErrorKind,
> {
    if rest.len() != 3 {
        Err(count_error)
    } else if !(is_float_text(rest[0]) && is_float_text(rest[1]) && is_float_text(rest[2])) {
        Err(ErrorKind::InvalidNumber)
    } else {
        Ok((rest[0], rest[1], rest[2]))
    }
}

/// The fields of a corner that are read: the first three at most.
pub open spec fn corner_fields(t: Seq<char>) -> Seq<Seq<char>> {
    let f = slash_fields(t);
    if f.len() > 3 {
        f.take(3)
    } else {
        f
    }
}

/// A 1-based index read from `f`, as a 0-based one.
pub open spec fn index_value(f: Seq<char>) -> Option<usize> {
    match unsigned_value(f) {
        Some(v) => if v >= 1 {
            Some((v - 1) as usize)
        } else {
            None
        },
        None => None,
    }
}

/// Every field read from corner `t` is a valid index.
pub open spec fn corner_ok(t: Seq<char>) -> bool {
    forall|j: int|
        0 <= j < corner_fields(t).len() ==> (#[trigger] index_value(corner_fields(t)[j])) is Some
}

/// The 0-based indices read from corner `t`.
pub open spec fn corner_indices(t: Seq<char>) -> Seq<usize> {
    corner_fields(t).map_values(|f: Seq<char>| index_value(f)->0)
}

/// The `j`-th index of each of three corners, or nothing if they have none.
pub open spec fn slot(a: Seq<usize>, b: Seq<usize>, c: Seq<usize>, j: int) -> Seq<usize> {
    if a.len() > j {
        seq![a[j], b[j], c[j]]
    } else {
        seq![]
    }
}

/// The index lists of the three corners that follow an `f` keyword.
pub open spec fn read_face(rest: Seq<Seq<char>>) -> Result<IndexLists, ErrorKind> {
    if rest.len() != 3 {
        Err(ErrorKind::FaceTokenCount)
    } else if !(corner_ok(rest[0]) && corner_ok(rest[1]) && corner_ok(rest[2])) {
        Err(ErrorKind::InvalidIndex)
    } else {
        let a = corner_indices(rest[0]);
        let b = corner_indices(rest[1]);
        let c = corner_indices(rest[2]);
        if a.len() != b.len() || a.len() != c.len() {
            Err(ErrorKind::MixedCorners)
        } else {
            Ok((slot(a, b, c, 0), slot(a, b, c, 1), slot(a, b, c, 2)))
        }
    }
}

/// The object after one line: a vertex, a texture coordinate or a face is
/// added, or nothing changes (blank lines, comments, normals and unknown
/// keywords); or what is wrong with the line.
#[verifier::opaque]
pub open spec fn apply_line(m: ObjectModel, line: Seq<char>) -> Result<ObjectModel, ErrorKind> {
    let toks = tokens(line);
    if toks.len() == 0 {
        Ok(m)
    } else {
        let key = toks[0];
        let rest = toks.drop_first();
        if key == seq!['v'] {
            match read_coords(rest, ErrorKind::VertexTokenCount) {
                Ok(c) => Ok(ObjectModel { vertices: m.vertices.push(c), ..m }),
                Err(e) => Err(e),
            }
        } else if key == seq!['v', 't'] {
            match read_coords(rest, ErrorKind::TexcoordTokenCount) {
                Ok(c) => Ok(ObjectModel { texcoords: m.texcoords.push(c), ..m }),
                Err(e) => Err(e),
            }
        } else if key == seq!['f'] {
            match read_face(rest) {
                Ok(f) => Ok(ObjectModel { faces: m.faces.push(f), ..m }),
                Err(e) => Err(e),
            }
        } else {
            Ok(m)
        }
    }
}

/// The object after the first `k` of `lines`, starting from `m`; the first
/// error stops it, with its 1-based line number.
pub open spec fn model_after(m: ObjectModel, lines: Seq<Seq<char>>, k: nat) -> Result<
    ObjectModel,
    ParseError,
>
    decreases k,
{
    if k == 0 {
        Ok(m)
    } else {
        match model_after(m, lines, (k - 1) as nat) {
            Ok(p) => match apply_line(p, lines[k - 1]) {
                Ok(q) => Ok(q),
                Err(e) => Err(ParseError { kind: e, line: Some(k as usize) }),
            },
            Err(e) => Err(e),
        }
    }
}

/// Once a line has failed, the lines after it change nothing.
pub proof fn lemma_error_persists(m: ObjectModel, lines: Seq<Seq<char>>, k: nat, j: nat)
    requires
        k <= j,
        model_after(m, lines, k) is Err,
    ensures
        model_after(m, lines, j) == model_after(m, lines, k),
    decreases j,
{
    if j > k {
        lemma_error_persists(m, lines, k, (j - 1) as nat);
    }
}

/// The object read from `lines`, bound to texture `t`.
pub open spec fn load_model(lines: Seq<Seq<char>>, t: TextureView) -> Result<
    ObjectModel,
    ParseError,
> {
    model_after(empty_model(t), lines, lines.len())
}

/// The triangle that face `f` stands for in `m`: `None` when it lacks three
/// vertex or three texture-coordinate indices, or one of them is out of range.
pub open spec fn resolve(m: ObjectModel, f: IndexLists) -> Option<Triangle> {
    if f.0.len() == 3 && f.1.len() == 3 && (forall|k: int|
        0 <= k < 3 ==> (#[trigger] f.0[k]) < m.vertices.len() && f.1[k] < m.texcoords.len()) {
        Some(
            (
                seq![m.vertices[f.0[0] as int], m.vertices[f.0[1] as int], m.vertices[f.0[2] as int]],
                seq![
                    m.texcoords[f.1[0] as int],
                    m.texcoords[f.1[1] as int],
                    m.texcoords[f.1[2] as int],
                ],
            ),
        )
    } else {
        None
    }
}

/// The view of an optional triangle.
pub open spec fn face_view(o: Option<Face>) -> Option<Triangle> {
    match o {
        Some(f) => Some(f@),
        None => None,
    }
}

/// A triangle mesh: vertices, texture coordinates and faces in the order of
/// their lines, and the texture that the mesh is drawn with.
pub struct Object {
    vertices: Vec<Vertex>,
    texcoords: Vec<Vertex>,
    faces: Vec<FaceIndex>,
    tex: Texture,
}

impl View for Object {
    type V = ObjectModel;

    closed spec fn view(&self) -> ObjectModel {
        ObjectModel {
            vertices: self.vertices@.map_values(|v: Vertex| v@),
            texcoords: self.texcoords@.map_values(|v: Vertex| v@),
            faces: self.faces@.map_values(|f: FaceIndex| f@),
            texture: self.tex@,
        }
    }
}

proof fn lemma_token(s: Seq<char>, spans: Seq<(usize, usize)>, k: int)
    requires
        spans_view(spans) == token_spans(s),
        0 <= k < spans.len(),
    ensures
        s.subrange(spans[k].0 as int, spans[k].1 as int) == tokens(s)[k],
        tokens(s).len() == spans.len(),
{
    assert(spans_view(spans)[k] == (spans[k].0 as int, spans[k].1 as int));
}

fn is_word1(s: &Vec<char>, a: usize, b: usize, c: char) -> (r: bool)
    requires
        a <= b <= s@.len(),
    ensures
        r == (s@.subrange(a as int, b as int) == seq![c]),
{
    if b - a == 1 && s[a] == c {
        assert(s@.subrange(a as int, b as int) =~= seq![c]);
        true
    } else {
        assert(seq![c].len() == 1 && seq![c][0] == c);
        if b - a == 1 {
            assert(s@.subrange(a as int, b as int)[0] == s@[a as int]);
        }
        false
    }
}

fn is_word2(s: &Vec<char>, a: usize, b: usize, c: char, d: char) -> (r: bool)
    requires
        a <= b <= s@.len(),
    ensures
        r == (s@.subrange(a as int, b as int) == seq![c, d]),
{
    if b - a == 2 && s[a] == c && s[a + 1] == d {
        assert(s@.subrange(a as int, b as int) =~= seq![c, d]);
        true
    } else {
        assert(seq![c, d].len() == 2 && seq![c, d][0] == c && seq![c, d][1] == d);
        if b - a == 2 {
            assert(s@.subrange(a as int, b as int)[0] == s@[a as int]);
            assert(s@.subrange(a as int, b as int)[1] == s@[a + 1]);
        }
        false
    }
}

/// Reads the three coordinates that follow the keyword of a `v` or `vt` line.
fn read_vertex(line: &str, s: &Vec<char>, spans: &Vec<(usize, usize)>, count_error: ErrorKind) -> (r:
    Result<Vertex, ErrorKind>)
    requires
        s@ == line@,
        spans_view(spans@) == token_spans(s@),
        spans@.len() >= 1,
        crate::lexer::spans_within(token_spans(s@), 0, s@.len() as int),
    ensures
        match read_coords(tokens(s@).drop_first(), count_error) {
            Ok(c) => r matches Ok(v) && v@ == c,
            Err(e) => r == Err::<Vertex, ErrorKind>(e),
        },
{
    let ghost rest = tokens(s@).drop_first();
    proof {
        lemma_token(s@, spans@, 0);
    }
    if spans.len() != 4 {
        return Err(count_error);
    }
    let mut k: usize = 1;
    while k < 4
        invariant
            spans@.len() == 4,
            1 <= k <= 4,
            rest == tokens(s@).drop_first(),
            tokens(s@).len() == 4,
            spans_view(spans@) == token_spans(s@),
            crate::lexer::spans_within(token_spans(s@), 0, s@.len() as int),
            forall|j: int| 0 <= j < k - 1 ==> is_float_text(#[trigger] rest[j]),
        decreases 4 - k,
    {
        let (a, b) = spans[k];
        proof {
            lemma_token(s@, spans@, k as int);
            assert(spans_view(spans@)[k as int] == token_spans(s@)[k as int]);
        }
        let t = sub_chars(s, a, b);
        if !float_text(&t) {
            assert(rest[k - 1] == tokens(s@)[k as int]);
            return Err(ErrorKind::InvalidNumber);
        }
        assert(rest[k - 1] == tokens(s@)[k as int]);
        k = k + 1;
    }
    let (a1, b1) = spans[1];
    let (a2, b2) = spans[2];
    let (a3, b3) = spans[3];
    proof {
        lemma_token(s@, spans@, 1);
        lemma_token(s@, spans@, 2);
        lemma_token(s@, spans@, 3);
        assert(spans_view(spans@)[1] == token_spans(s@)[1]);
        assert(spans_view(spans@)[2] == token_spans(s@)[2]);
        assert(spans_view(spans@)[3] == token_spans(s@)[3]);
        assert(rest[0] == tokens(s@)[1]);
        assert(rest[1] == tokens(s@)[2]);
        assert(rest[2] == tokens(s@)[3]);
    }
    let x = line.substring_char(a1, b1).to_owned();
    let y = line.substring_char(a2, b2).to_owned();
    let z = line.substring_char(a3, b3).to_owned();
    Ok(Vertex { x, y, z })
}

/// Reads the indices of one corner of a face, such as `3/1/2`.
fn parse_corner(t: &Vec<char>) -> (r: Option<Vec<usize>>)
    ensures
        r is Some <==> corner_ok(t@),
        r matches Some(v) ==> v@ == corner_indices(t@),
{
    let f = split_slashes(t);
    let n: usize = if f.len() > 3 {
        3
    } else {
        f.len()
    };
    let ghost cf = corner_fields(t@);
    assert(cf.len() == n);
    let mut out: Vec<usize> = Vec::new();
    let mut j: usize = 0;
    while j < n
        invariant
            cf == corner_fields(t@),
            cf.len() == n,
            n <= f@.len(),
            f@.len() == slash_fields(t@).len(),
            forall|k: int|
                0 <= k < f@.len() ==> (#[trigger] f@[k]).0 <= f@[k].1 <= t@.len() && t@.subrange(
                    f@[k].0 as int,
                    f@[k].1 as int,
                ) == slash_fields(t@)[k],
            j <= n,
            out@.len() == j,
            forall|k: int| 0 <= k < j ==> index_value(#[trigger] cf[k]) == Some(out@[k]),
        decreases n - j,
    {
        let (a, b) = f[j];
        assert(f@[j as int].0 <= f@[j as int].1 <= t@.len());
        assert(cf[j as int] == slash_fields(t@)[j as int]);
        match parse_unsigned(t, a, b) {
            Some(v) => {
                if v == 0 {
                    assert(index_value(cf[j as int]) is None);
                    return None;
                }
                out.push(v - 1);
            },
            None => {
                assert(index_value(cf[j as int]) is None);
                return None;
            },
        }
        j = j + 1;
    }
    assert(out@ =~= corner_indices(t@));
    Some(out)
}

/// Reads the three corners that follow the keyword of an `f` line.
fn read_face_indices(s: &Vec<char>, spans: &Vec<(usize, usize)>) -> (r: Result<
    FaceIndex,
    ErrorKind,
>)
    requires
        spans_view(spans@) == token_spans(s@),
        spans@.len() >= 1,
        crate::lexer::spans_within(token_spans(s@), 0, s@.len() as int),
    ensures
        match read_face(tokens(s@).drop_first()) {
            Ok(f) => r matches Ok(g) && g@ == f,
            Err(e) => r == Err::<FaceIndex, ErrorKind>(e),
        },
{
    let ghost rest = tokens(s@).drop_first();
    proof {
        lemma_token(s@, spans@, 0);
    }
    if spans.len() != 4 {
        return Err(ErrorKind::FaceTokenCount);
    }
    let (a1, b1) = spans[1];
    let (a2, b2) = spans[2];
    let (a3, b3) = spans[3];
    proof {
        lemma_token(s@, spans@, 1);
        lemma_token(s@, spans@, 2);
        lemma_token(s@, spans@, 3);
        assert(spans_view(spans@)[1] == token_spans(s@)[1]);
        assert(spans_view(spans@)[2] == token_spans(s@)[2]);
        assert(spans_view(spans@)[3] == token_spans(s@)[3]);
        assert(rest[0] == tokens(s@)[1]);
        assert(rest[1] == tokens(s@)[2]);
        assert(rest[2] == tokens(s@)[3]);
    }
    let t1 = sub_chars(s, a1, b1);
    let t2 = sub_chars(s, a2, b2);
    let t3 = sub_chars(s, a3, b3);
    let c1 = match parse_corner(&t1) {
        Some(c) => c,
        None => {
            return Err(ErrorKind::InvalidIndex);
        },
    };
    let c2 = match parse_corner(&t2) {
        Some(c) => c,
        None => {
            return Err(ErrorKind::InvalidIndex);
        },
    };
    let c3 = match parse_corner(&t3) {
        Some(c) => c,
        None => {
            return Err(ErrorKind::InvalidIndex);
        },
    };
    if c1.len() != c2.len() || c1.len() != c3.len() {
        return Err(ErrorKind::MixedCorners);
    }
    let mut f = FaceIndex::new();
    if c1.len() > 0 {
        f.v_idxs.push(c1[0]);
        f.v_idxs.push(c2[0]);
        f.v_idxs.push(c3[0]);
    }
    if c1.len() > 1 {
        f.t_idxs.push(c1[1]);
        f.t_idxs.push(c2[1]);
        f.t_idxs.push(c3[1]);
    }
    if c1.len() > 2 {
        f.n_idxs.push(c1[2]);
        f.n_idxs.push(c2[2]);
        f.n_idxs.push(c3[2]);
    }
    proof {
        let (a, b, c) = (c1@, c2@, c3@);
        assert(f@.0 =~= slot(a, b, c, 0));
        assert(f@.1 =~= slot(a, b, c, 1));
        assert(f@.2 =~= slot(a, b, c, 2));
    }
    Ok(f)
}

impl Object {
    /// The texture holds exactly as many pixels as its size says.
    pub open spec fn wf(&self) -> bool {
        self@.texture.2.len() == self@.texture.0 * self@.texture.1
    }

    /// An object with no vertices, texture coordinates or faces, drawn with
    /// `tex`.
    pub fn new(tex: Texture) -> (r: Object)
        requires
            tex.wf(),
        ensures
            r@ == empty_model(tex@),
            r.wf(),
    {
        let r = Object { vertices: Vec::new(), texcoords: Vec::new(), faces: Vec::new(), tex };
        assert(r@.vertices =~= Seq::<Coords>::empty());
        assert(r@.texcoords =~= Seq::<Coords>::empty());
        assert(r@.faces =~= Seq::<IndexLists>::empty());
        r
    }

    /// Reads `lines` in order into a new object drawn with `tex`; stops at
    /// the first malformed line, and names it by its 1-based number.
    pub fn parse(lines: &Vec<String>, tex: Texture) -> (r: Result<Object, ParseError>)
        requires
            tex.wf(),
        ensures
            match load_model(lines@.map_values(|l: String| l@), tex@) {
                Ok(m) => r matches Ok(o) && o@ == m && o.wf(),
                Err(e) => r matches Err(g) && g == e,
            },
    {
        let ghost ls = lines@.map_values(|l: String| l@);
        let ghost t = tex@;
        let mut obj = Object::new(tex);
        let mut i: usize = 0;
        while i < lines.len()
            invariant
                ls == lines@.map_values(|l: String| l@),
                t == tex@,
                i <= lines@.len(),
                model_after(empty_model(t), ls, i as nat) == Ok::<ObjectModel, ParseError>(obj@),
                obj.wf(),
            decreases lines@.len() - i,
        {
            assert(ls[i as int] == lines@[i as int]@);
            let ghost before = obj@;
            match obj.parse_line(lines[i].as_str()) {
                Ok(()) => {
                    assert(model_after(empty_model(t), ls, (i + 1) as nat) == Ok::<
                        ObjectModel,
                        ParseError,
                    >(obj@));
                },
                Err(e) => {
                    assert(model_after(empty_model(t), ls, (i + 1) as nat) == Err::<
                        ObjectModel,
                        ParseError,
                    >(ParseError { kind: e.kind, line: Some((i + 1) as usize) }));
                    proof {
                        assert(ls.len() == lines@.len());
                        lemma_error_persists(empty_model(t), ls, (i + 1) as nat, ls.len());
                        assert(load_model(ls, t) == model_after(empty_model(t), ls, ls.len()));
                    }
                    return Err(ParseError { kind: e.kind, line: Some(i + 1) });
                },
            }
            i = i + 1;
        }
        assert(ls.len() == lines@.len());
        Ok(obj)
    }

    /// Applies one line: adds a vertex (`v`), a texture coordinate (`vt`) or
    /// a face (`f`), or leaves the object as it is (blank lines, comments,
    /// normals and unknown keywords); on a malformed line the object is left
    /// as it was and the error has no line number.
    pub fn parse_line(&mut self, line: &str) -> (r: Result<(), ParseError>)
        requires
            old(self).wf(),
        ensures
            final(self).wf(),
            match apply_line(old(self)@, line@) {
                Ok(m) => r is Ok && final(self)@ == m,
                Err(e) => r == Err::<(), ParseError>(ParseError { kind: e, line: None })
                    && final(self)@ == old(self)@,
            },
    {
        reveal(apply_line);
        let s = chars_of(line);
        let spans = split_spans(&s);
        if spans.len() == 0 {
            return Ok(());
        }
        let (a, b) = spans[0];
        proof {
            lemma_token(s@, spans@, 0);
            assert(spans_view(spans@)[0] == token_spans(s@)[0]);
        }
        if is_word1(&s, a, b, 'v') {
            self.add_vertex(line, &s, &spans)
        } else if is_word2(&s, a, b, 'v', 't') {
            self.add_texcoord(line, &s, &spans)
        } else if is_word1(&s, a, b, 'f') {
            self.add_face(&s, &spans)
        } else {
            Ok(())
        }
    }

    fn add_vertex(&mut self, line: &str, s: &Vec<char>, spans: &Vec<(usize, usize)>) -> (r: Result<
        (),
        ParseError,
    >)
        requires
            s@ == line@,
            spans_view(spans@) == token_spans(s@),
            spans@.len() >= 1,
            crate::lexer::spans_within(token_spans(s@), 0, s@.len() as int),
        ensures
            match read_coords(tokens(s@).drop_first(), ErrorKind::VertexTokenCount) {
                Ok(c) => r is Ok && final(self)@ == ObjectModel {
                    vertices: old(self)@.vertices.push(c),
                    ..old(self)@
                },
                Err(e) => r == Err::<(), ParseError>(ParseError { kind: e, line: None })
                    && final(self)@ == old(self)@,
            },
    {
        match read_vertex(line, s, spans, ErrorKind::VertexTokenCount) {
            Ok(v) => {
                self.vertices.push(v);
                assert(self@.vertices =~= old(self)@.vertices.push(v@));
                Ok(())
            },
            Err(e) => Err(ParseError { kind: e, line: None }),
        }
    }

    fn add_texcoord(&mut self, line: &str, s: &Vec<char>, spans: &Vec<(usize, usize)>) -> (r:
        Result<(), ParseError>)
        requires
            s@ == line@,
            spans_view(spans@) == token_spans(s@),
            spans@.len() >= 1,
            crate::lexer::spans_within(token_spans(s@), 0, s@.len() as int),
        ensures
            match read_coords(tokens(s@).drop_first(), ErrorKind::TexcoordTokenCount) {
                Ok(c) => r is Ok && final(self)@ == ObjectModel {
                    texcoords: old(self)@.texcoords.push(c),
                    ..old(self)@
                },
                Err(e) => r == Err::<(), ParseError>(ParseError { kind: e, line: None })
                    && final(self)@ == old(self)@,
            },
    {
        match read_vertex(line, s, spans, ErrorKind::TexcoordTokenCount) {
            Ok(v) => {
                self.texcoords.push(v);
                assert(self@.texcoords =~= old(self)@.texcoords.push(v@));
                Ok(())
            },
            Err(e) => Err(ParseError { kind: e, line: None }),
        }
    }

    fn add_face(&mut self, s: &Vec<char>, spans: &Vec<(usize, usize)>) -> (r: Result<
        (),
        ParseError,
    >)
        requires
            spans_view(spans@) == token_spans(s@),
            spans@.len() >= 1,
            crate::lexer::spans_within(token_spans(s@), 0, s@.len() as int),
        ensures
            match read_face(tokens(s@).drop_first()) {
                Ok(f) => r is Ok && final(self)@ == ObjectModel {
                    faces: old(self)@.faces.push(f),
                    ..old(self)@
                },
                Err(e) => r == Err::<(), ParseError>(ParseError { kind: e, line: None })
                    && final(self)@ == old(self)@,
            },
    {
        match read_face_indices(s, spans) {
            Ok(f) => {
                let ghost fv = f@;
                self.faces.push(f);
                assert(self@.faces =~= old(self)@.faces.push(fv));
                Ok(())
            },
            Err(e) => Err(ParseError { kind: e, line: None }),
        }
    }
}

impl Object {
    pub fn vertex_count(&self) -> (r: usize)
        ensures
            r == self@.vertices.len(),
    {
        self.vertices.len()
    }

    pub fn texcoord_count(&self) -> (r: usize)
        ensures
            r == self@.texcoords.len(),
    {
        self.texcoords.len()
    }

    pub fn face_count(&self) -> (r: usize)
        ensures
            r == self@.faces.len(),
    {
        self.faces.len()
    }

    /// The vertex at 0-based position `idx`; `None` past the last one.
    pub fn vertex(&self, idx: usize) -> (r: Option<Vertex>)
        ensures
            r is Some <==> idx < self@.vertices.len(),
            r matches Some(v) ==> v@ == self@.vertices[idx as int],
    {
        if idx < self.vertices.len() {
            Some(self.vertices[idx].copy())
        } else {
            None
        }
    }

    /// The texture coordinate at 0-based position `idx`; `None` past the last
    /// one.
    pub fn texcoord(&self, idx: usize) -> (r: Option<Vertex>)
        ensures
            r is Some <==> idx < self@.texcoords.len(),
            r matches Some(v) ==> v@ == self@.texcoords[idx as int],
    {
        if idx < self.texcoords.len() {
            Some(self.texcoords[idx].copy())
        } else {
            None
        }
    }

    /// The colour of the texture at column `x` and row `y`; `None` outside it.
    pub fn texel(&self, x: usize, y: usize) -> (r: Option<Rgb>)
        requires
            self.wf(),
        ensures
            r == texel_of(self@.texture, x as int, y as int),
    {
        self.tex.texel(x, y)
    }

    /// The texture that the object is drawn with.
    pub fn texture(&self) -> (r: &Texture)
        ensures
            r@ == self@.texture,
            self.wf() ==> r.wf(),
    {
        &self.tex
    }

    /// The triangle of the `k`-th face, in the order of the lines; `None` when
    /// the face has no texture coordinates or refers past the stored ones.
    pub fn face(&self, k: usize) -> (r: Option<Face>)
        requires
            k < self@.faces.len(),
        ensures
            face_view(r) == resolve(self@, self@.faces[k as int]),
    {
        let f = &self.faces[k];
        let ghost fv = f@;
        assert(fv == self@.faces[k as int]);
        if f.v_idxs.len() != 3 || f.t_idxs.len() != 3 {
            return None;
        }
        let nv = self.vertices.len();
        let nt = self.texcoords.len();
        let mut j: usize = 0;
        while j < 3
            invariant
                fv == f@,
                k < self@.faces.len(),
                fv == self@.faces[k as int],
                fv.0.len() == 3,
                fv.1.len() == 3,
                nv == self@.vertices.len(),
                nt == self@.texcoords.len(),
                j <= 3,
                forall|i: int|
                    0 <= i < j ==> (#[trigger] fv.0[i]) < nv && fv.1[i] < nt,
            decreases 3 - j,
        {
            if f.v_idxs[j] >= nv || f.t_idxs[j] >= nt {
                assert(fv.0[j as int] == f.v_idxs@[j as int]);
                assert(fv.1[j as int] == f.t_idxs@[j as int]);
                return None;
            }
            j = j + 1;
        }
        let face = Face {
            vertices: [
                self.vertices[f.v_idxs[0]].copy(),
                self.vertices[f.v_idxs[1]].copy(),
                self.vertices[f.v_idxs[2]].copy(),
            ],
            texcoords: [
                self.texcoords[f.t_idxs[0]].copy(),
                self.texcoords[f.t_idxs[1]].copy(),
                self.texcoords[f.t_idxs[2]].copy(),
            ],
        };
        let ghost tri: Triangle = resolve(self@, fv)->Some_0;
        assert(face@.0 =~= tri.0);
        assert(face@.1 =~= tri.1);
        Some(face)
    }

    /// The triangles of all faces, one for each face, in the order of the
    /// lines.
    pub fn faces(&self) -> (r: Vec<Option<Face>>)
        ensures
            r@.len() == self@.faces.len(),
            forall|k: int|
                0 <= k < r@.len() ==> face_view(#[trigger] r@[k]) == resolve(self@, self@.faces[k]),
    {
        let mut out: Vec<Option<Face>> = Vec::new();
        let mut k: usize = 0;
        while k < self.faces.len()
            invariant
                k <= self@.faces.len(),
                out@.len() == k,
                forall|i: int|
                    0 <= i < k ==> face_view(#[trigger] out@[i]) == resolve(self@, self@.faces[i]),
            decreases self@.faces.len() - k,
        {
            out.push(self.face(k));
            k = k + 1;
        }
        out
    }
}

} // verus!
