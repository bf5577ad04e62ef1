use vstd::prelude::*;

verus! {

/// A token of the text, by the index of its first char and one past its last.
#[derive(Clone, Copy, Debug, PartialEq, Eq, Structural)]
pub struct Span {
    pub start: usize,
    pub end: usize,
}

/// The three number tokens of a `v` (position) or `vn` (normal) line.
#[derive(Clone, Copy, Debug, PartialEq, Eq, Structural)]
pub struct CoordTokens {
    pub x: Span,
    pub y: Span,
    pub z: Span,
}

/// The two number tokens of a `vt` (texture coordinate) line.
#[derive(Clone, Copy, Debug, PartialEq, Eq, Structural)]
pub struct UvTokens {
    pub u: Span,
    pub v: Span,
}

/// A vertex of the mesh: which entry of the position table it takes, and
/// which entries of the texture-coordinate and normal tables, if any.
#[derive(Clone, Copy, Debug, PartialEq, Eq, Structural)]
pub struct VertexRef {
    pub position: usize,
    pub uv: Option<usize>,
    pub normal: Option<usize>,
}

/// Why an OBJ text was refused.
#[derive(Clone, Copy, Debug, PartialEq, Eq, Structural)]
pub enum ObjError {
    /// A face vertex holds an index that is not an integer.
    InvalidIndex,
    /// A face vertex refers to a table entry that does not exist (yet).
    IndexOutOfRange,
}

/// The state of a parse after some lines: the three attribute tables
/// (as the tokens that hold their numbers), the mesh built so far, and the
/// vertex cache from face-vertex text to mesh vertex.
#[verifier::ext_equal]
pub struct ObjModel {
    pub positions: Seq<CoordTokens>,
    pub normals: Seq<CoordTokens>,
    pub uvs: Seq<UvTokens>,
    pub vertices: Seq<VertexRef>,
    pub indices: Seq<usize>,
    pub cache: Map<Seq<char>, usize>,
}

pub open spec fn empty_model() -> ObjModel {
    ObjModel {
        positions: Seq::empty(),
        normals: Seq::empty(),
        uvs: Seq::empty(),
        vertices: Seq::empty(),
        indices: Seq::empty(),
        cache: Map::empty(),
    }
}

/// White space as Rust's `char::is_whitespace` defines it (Unicode `White_Space`).
pub open spec fn is_whitespace(c: char) -> bool {
    ||| c == '\t'
    ||| c == '\n'
    ||| c == '\u{0B}'
    ||| c == '\u{0C}'
    ||| c == '\r'
    ||| c == ' '
    ||| c == '\u{85}'
    ||| c == '\u{A0}'
    ||| c == '\u{1680}'
    ||| ('\u{2000}' <= c && c <= '\u{200A}')
    ||| c == '\u{2028}'
    ||| c == '\u{2029}'
    ||| c == '\u{202F}'
    ||| c == '\u{205F}'
    ||| c == '\u{3000}'
}

pub open spec fn span(a: int, b: int) -> Span {
    Span { start: a as usize, end: b as usize }
}

/// The chars that a span covers.
pub open spec fn text_of(text: Seq<char>, s: Span) -> Seq<char> {
    text.subrange(s.start as int, s.end as int)
}

/// The end of the line that starts at `i`: the first `'\n'` at or after
/// `i`, or the end of the text.
pub open spec fn line_end(text: Seq<char>, i: int) -> int
    decreases text.len() - i,
{
    if i >= text.len() {
        text.len() as int
    } else if text[i] == '\n' {
        i
    } else {
        line_end(text, i + 1)
    }
}

/// The maximal runs of non-white-space chars in `[i, end)`, left to right,
/// given that a token started at `open` if it is `Some`.
pub open spec fn tokens_from(text: Seq<char>, i: int, end: int, open: Option<int>) -> Seq<Span>
    decreases end - i,
{
    if i >= end {
        match open {
            Some(s) => seq![span(s, end)],
            None => Seq::empty(),
        }
    } else if is_whitespace(text[i]) {
        match open {
            Some(s) => seq![span(s, i)] + tokens_from(text, i + 1, end, None),
            None => tokens_from(text, i + 1, end, None),
        }
    } else {
        tokens_from(text, i + 1, end, if open is Some { open } else { Some(i) })
    }
}

/// The white-space separated tokens of `text[i..end]`.
pub open spec fn tokens(text: Seq<char>, i: int, end: int) -> Seq<Span> {
    tokens_from(text, i, end, None)
}

/// The first `'/'` in `[i, end)`, or `end`.
pub open spec fn slash_at(text: Seq<char>, i: int, end: int) -> int
    decreases end - i,
{
    if i >= end {
        end
    } else if text[i] == '/' {
        i
    } else {
        slash_at(text, i + 1, end)
    }
}

pub proof fn lemma_slash_at_bounds(text: Seq<char>, i: int, end: int)
    requires
        i <= end,
    ensures
        i <= slash_at(text, i, end) <= end,
    decreases end - i,
{
    if i < end && text[i] != '/' {
        lemma_slash_at_bounds(text, i + 1, end);
    }
}

/// The `k`-th `'/'`-separated field of `text[i..end]`, as a pair of positions.
pub open spec fn field(text: Seq<char>, i: int, end: int, k: nat) -> Option<(int, int)>
    decreases k,
{
    let e = slash_at(text, i, end);
    if k == 0 {
        Some((i, e))
    } else if e >= end {
        None
    } else {
        field(text, e + 1, end, (k - 1) as nat)
    }
}

pub open spec fn is_digit(c: char) -> bool {
    '0' <= c && c <= '9'
}

pub open spec fn all_digits(text: Seq<char>, a: int, b: int) -> bool {
    forall|k: int| a <= k < b ==> is_digit(#[trigger] text[k])
}

/// The value of the decimal digits `text[a..b]`.
pub open spec fn digits_value(text: Seq<char>, a: int, b: int) -> int
    decreases b - a,
{
    if b <= a {
        0
    } else {
        digits_value(text, a, b - 1) * 10 + (text[b - 1] as int - '0' as int)
    }
}

/// What `str::parse::<isize>` gives for `text[a..b]`: an optional `+` or
/// `-`, then at least one ASCII digit and nothing else, with a value that
/// fits in `isize`.
pub open spec fn parse_isize(text: Seq<char>, a: int, b: int) -> Option<int> {
    if a >= b {
        None
    } else {
        let signed = text[a] == '+' || text[a] == '-';
        let d = if signed { a + 1 } else { a };
        if d >= b || !all_digits(text, d, b) {
            None
        } else {
            let v = if text[a] == '-' { -digits_value(text, d, b) } else { digits_value(text, d, b) };
            if isize::MIN <= v && v <= isize::MAX {
                Some(v)
            } else {
                None
            }
        }
    }
}

/// An OBJ index resolved against a table of `len` entries, as the Wavefront
/// format defines it: `1` to `len` name the entries in order, `-1` to `-len`
/// count back from the latest entry (`-1` is the latest), and `0` names
/// nothing.
pub open spec fn resolve_index(raw: int, len: nat) -> Option<nat> {
    if raw < 0 {
        if len + raw >= 0 {
            Some((len + raw) as nat)
        } else {
            None
        }
    } else if 0 < raw <= len {
        Some((raw - 1) as nat)
    } else {
        None
    }
}

/// A face-vertex field that may be absent or empty (no index given), or
/// must hold an integer.
pub open spec fn optional_index(text: Seq<char>, f: Option<(int, int)>) -> Result<Option<int>, ObjError> {
    match f {
        Some((a, b)) => if a < b {
            match parse_isize(text, a, b) {
                Some(v) => Ok(Some(v)),
                None => Err(ObjError::InvalidIndex),
            }
        } else {
            Ok(None)
        },
        None => Ok(None),
    }
}

/// An optional raw index resolved against a table of `len` entries.
pub open spec fn resolve_optional(raw: Option<int>, len: nat) -> Result<Option<usize>, ObjError> {
    match raw {
        Some(r) => match resolve_index(r, len) {
            Some(k) => Ok(Some(k as usize)),
            None => Err(ObjError::IndexOutOfRange),
        },
        None => Ok(None),
    }
}

/// The vertex that a face-vertex token `p` (`pos`, `pos/uv`, `pos//normal`
/// or `pos/uv/normal`) denotes, given the tables read so far. All fields
/// are read as integers before any is looked up.
pub open spec fn vertex_ref(text: Seq<char>, m: ObjModel, p: Span) -> Result<VertexRef, ObjError> {
    let f0 = field(text, p.start as int, p.end as int, 0).unwrap();
    match parse_isize(text, f0.0, f0.1) {
        None => Err(ObjError::InvalidIndex),
        Some(pr) => match optional_index(text, field(text, p.start as int, p.end as int, 1)) {
            Err(e) => Err(e),
            Ok(uvr) => match optional_index(text, field(text, p.start as int, p.end as int, 2)) {
                Err(e) => Err(e),
                Ok(nr) => match resolve_index(pr, m.positions.len()) {
                    None => Err(ObjError::IndexOutOfRange),
                    Some(pi) => match resolve_optional(nr, m.normals.len()) {
                        Err(e) => Err(e),
                        Ok(ni) => match resolve_optional(uvr, m.uvs.len()) {
                            Err(e) => Err(e),
                            Ok(ui) => Ok(VertexRef { position: pi as usize, uv: ui, normal: ni }),
                        },
                    },
                },
            },
        },
    }
}

/// One face-vertex token: the cached vertex for the same text, or a new
/// vertex appended to the mesh and remembered under that text.
pub open spec fn face_vertex(text: Seq<char>, m: ObjModel, p: Span) -> Result<(ObjModel, usize), ObjError> {
    let key = text_of(text, p);
    if m.cache.contains_key(key) {
        Ok((m, m.cache[key]))
    } else {
        match vertex_ref(text, m, p) {
            Err(e) => Err(e),
            Ok(r) => Ok(
                (
                    ObjModel {
                        vertices: m.vertices.push(r),
                        cache: m.cache.insert(key, m.vertices.len() as usize),
                        ..m
                    },
                    m.vertices.len() as usize,
                ),
            ),
        }
    }
}

/// The face-vertex tokens of a face, left to right: the model after them
/// and the mesh vertex of each.
pub open spec fn face_vertices(text: Seq<char>, m: ObjModel, parts: Seq<Span>) -> Result<(ObjModel, Seq<usize>), ObjError>
    decreases parts.len(),
{
    if parts.len() == 0 {
        Ok((m, Seq::empty()))
    } else {
        match face_vertices(text, m, parts.drop_last()) {
            Err(e) => Err(e),
            Ok((m1, fi)) => match face_vertex(text, m1, parts.last()) {
                Err(e) => Err(e),
                Ok((m2, k)) => Ok((m2, fi.push(k))),
            },
        }
    }
}

/// An error in the first `n` face-vertex tokens is the error of the whole face.
pub proof fn lemma_face_vertices_error(text: Seq<char>, m: ObjModel, parts: Seq<Span>, n: int)
    requires
        0 <= n <= parts.len(),
        face_vertices(text, m, parts.take(n)) is Err,
    ensures
        face_vertices(text, m, parts) == face_vertices(text, m, parts.take(n)),
    decreases parts.len() - n,
{
    if n < parts.len() {
        let longer = parts.take(n + 1);
        assert(longer.drop_last() =~= parts.take(n));
        lemma_face_vertices_error(text, m, parts, n + 1);
    } else {
        assert(parts.take(n) =~= parts);
    }
}

/// The first `k` triangles of the fan around `fi[0]`: `(fi[0], fi[t], fi[t+1])` for `t` in `1..=k`.
pub open spec fn fan_upto(fi: Seq<usize>, k: nat) -> Seq<usize>
    decreases k,
{
    if k == 0 {
        Seq::empty()
    } else {
        fan_upto(fi, (k - 1) as nat) + seq![fi[0], fi[k as int], fi[k + 1 as int]]
    }
}

/// The triangle fan of a convex polygon, as indices: none below three corners.
pub open spec fn fan(fi: Seq<usize>) -> Seq<usize> {
    if fi.len() < 3 {
        Seq::empty()
    } else {
        fan_upto(fi, (fi.len() - 2) as nat)
    }
}

/// What one line, given as its tokens, does to the model.
pub open spec fn apply_line(text: Seq<char>, m: ObjModel, toks: Seq<Span>) -> Result<ObjModel, ObjError> {
    if toks.len() == 0 {
        Ok(m)
    } else {
        let cmd = text_of(text, toks[0]);
        if cmd[0] == '#' {
            Ok(m)
        } else if cmd == seq!['v'] {
            if toks.len() >= 4 {
                Ok(ObjModel { positions: m.positions.push(CoordTokens { x: toks[1], y: toks[2], z: toks[3] }), ..m })
            } else {
                Ok(m)
            }
        } else if cmd == seq!['v', 'n'] {
            if toks.len() >= 4 {
                Ok(ObjModel { normals: m.normals.push(CoordTokens { x: toks[1], y: toks[2], z: toks[3] }), ..m })
            } else {
                Ok(m)
            }
        } else if cmd == seq!['v', 't'] {
            if toks.len() >= 3 {
                Ok(ObjModel { uvs: m.uvs.push(UvTokens { u: toks[1], v: toks[2] }), ..m })
            } else {
                Ok(m)
            }
        } else if cmd == seq!['f'] {
            match face_vertices(text, m, toks.drop_first()) {
                Err(e) => Err(e),
                Ok((m2, fi)) => Ok(ObjModel { indices: m2.indices + fan(fi), ..m2 }),
            }
        } else {
            Ok(m)
        }
    }
}

pub proof fn lemma_line_end_bounds(text: Seq<char>, i: int)
    requires
        0 <= i <= text.len(),
    ensures
        i <= line_end(text, i) <= text.len(),
        line_end(text, i) < text.len() ==> text[line_end(text, i)] == '\n',
        forall|k: int| i <= k < line_end(text, i) ==> text[k] != '\n',
    decreases text.len() - i,
{
    if i < text.len() && text[i] != '\n' {
        lemma_line_end_bounds(text, i + 1);
    }
}

/// The model after the lines from position `i` on, one line at a time.
pub open spec fn lines_from(text: Seq<char>, i: int, m: ObjModel) -> Result<ObjModel, ObjError>
    decreases text.len() - i,
    via lines_from_decreases
{
    if i < 0 || i >= text.len() {
        Ok(m)
    } else {
        let e = line_end(text, i);
        match apply_line(text, m, tokens(text, i, e)) {
            Err(x) => Err(x),
            Ok(m2) => if e < text.len() {
                lines_from(text, e + 1, m2)
            } else {
                Ok(m2)
            },
        }
    }
}

#[via_fn]
proof fn lines_from_decreases(text: Seq<char>, i: int, m: ObjModel) {
    if 0 <= i < text.len() {
        lemma_line_end_bounds(text, i);
    }
}

/// A parse state whose mesh is sound: every triangle index names a vertex,
/// the indices come in whole triangles, every vertex names existing table
/// entries, and the cache only names vertices.
pub open spec fn model_ok(m: ObjModel) -> bool {
    &&& forall|i: int| 0 <= i < m.indices.len() ==> #[trigger] m.indices[i] < m.vertices.len()
    &&& m.indices.len() % 3 == 0
    &&& forall|i: int| 0 <= i < m.vertices.len() ==> vertex_in_tables(#[trigger] m.vertices[i], m)
    &&& forall|k: Seq<char>| #[trigger] m.cache.contains_key(k) ==> m.cache[k] < m.vertices.len()
}

pub open spec fn vertex_in_tables(v: VertexRef, m: ObjModel) -> bool {
    &&& v.position < m.positions.len()
    &&& (v.uv matches Some(t) ==> t < m.uvs.len())
    &&& (v.normal matches Some(n) ==> n < m.normals.len())
}

proof fn lemma_fan_upto_bounded(fi: Seq<usize>, k: nat, bound: int)
    requires
        k + 2 <= fi.len(),
        forall|j: int| 0 <= j < fi.len() ==> #[trigger] fi[j] < bound,
    ensures
        fan_upto(fi, k).len() == 3 * k,
        forall|j: int| 0 <= j < fan_upto(fi, k).len() ==> #[trigger] fan_upto(fi, k)[j] < bound,
    decreases k,
{
    if k > 0 {
        lemma_fan_upto_bounded(fi, (k - 1) as nat, bound);
        let prev = fan_upto(fi, (k - 1) as nat);
        let cur = fan_upto(fi, k);
        assert(cur == prev + seq![fi[0], fi[k as int], fi[k + 1 as int]]);
        assert forall|j: int| 0 <= j < cur.len() implies #[trigger] cur[j] < bound by {
            if j < prev.len() {
                assert(cur[j] == prev[j]);
            }
        }
    }
}

proof fn lemma_fan_bounded(fi: Seq<usize>, bound: int)
    requires
        forall|j: int| 0 <= j < fi.len() ==> #[trigger] fi[j] < bound,
    ensures
        fan(fi).len() % 3 == 0,
        forall|j: int| 0 <= j < fan(fi).len() ==> #[trigger] fan(fi)[j] < bound,
{
    if fi.len() >= 3 {
        lemma_fan_upto_bounded(fi, (fi.len() - 2) as nat, bound);
    }
}

proof fn lemma_face_vertex_ok(text: Seq<char>, m: ObjModel, p: Span)
    requires
        model_ok(m),
    ensures
        face_vertex(text, m, p) matches Ok((m2, k)) ==> {
            &&& model_ok(m2)
            &&& k < m2.vertices.len()
            &&& m2.positions == m.positions
            &&& m2.normals == m.normals
            &&& m2.uvs == m.uvs
            &&& m2.indices == m.indices
            &&& m.vertices.len() <= m2.vertices.len()
        },
{
    let key = text_of(text, p);
    if !m.cache.contains_key(key) {
        if let Ok(r) = vertex_ref(text, m, p) {
            let m2 = face_vertex(text, m, p).unwrap().0;
            assert(vertex_in_tables(r, m));
            assert forall|i: int| 0 <= i < m2.vertices.len() implies vertex_in_tables(
                #[trigger] m2.vertices[i],
                m2,
            ) by {
                if i < m.vertices.len() {
                    assert(m2.vertices[i] == m.vertices[i]);
                }
            }
        }
    }
}

proof fn lemma_face_vertices_ok(text: Seq<char>, m: ObjModel, parts: Seq<Span>)
    requires
        model_ok(m),
    ensures
        face_vertices(text, m, parts) matches Ok((m2, fi)) ==> {
            &&& model_ok(m2)
            &&& forall|j: int| 0 <= j < fi.len() ==> #[trigger] fi[j] < m2.vertices.len()
            &&& m2.positions == m.positions
            &&& m2.normals == m.normals
            &&& m2.uvs == m.uvs
            &&& m2.indices == m.indices
            &&& m.vertices.len() <= m2.vertices.len()
        },
    decreases parts.len(),
{
    if parts.len() > 0 {
        lemma_face_vertices_ok(text, m, parts.drop_last());
        if let Ok((m1, fi)) = face_vertices(text, m, parts.drop_last()) {
            lemma_face_vertex_ok(text, m1, parts.last());
            if let Ok((m2, k)) = face_vertex(text, m1, parts.last()) {
                let fi2 = fi.push(k);
                assert forall|j: int| 0 <= j < fi2.len() implies #[trigger] fi2[j] < m2.vertices.len() by {
                    if j < fi.len() {
                        assert(fi2[j] == fi[j]);
                    }
                }
            }
        }
    }
}

proof fn lemma_apply_line_ok(text: Seq<char>, m: ObjModel, toks: Seq<Span>)
    requires
        model_ok(m),
    ensures
        apply_line(text, m, toks) matches Ok(m2) ==> model_ok(m2),
{
    if toks.len() > 0 {
        let cmd = text_of(text, toks[0]);
        if cmd[0] != '#' && cmd != seq!['v'] && cmd != seq!['v', 'n'] && cmd != seq!['v', 't']
            && cmd == seq!['f'] {
            lemma_face_vertices_ok(text, m, toks.drop_first());
            if let Ok((m2, fi)) = face_vertices(text, m, toks.drop_first()) {
                lemma_fan_bounded(fi, m2.vertices.len() as int);
                let m3 = apply_line(text, m, toks).unwrap();
                assert(m3.indices == m2.indices + fan(fi));
                assert forall|i: int| 0 <= i < m3.indices.len() implies #[trigger] m3.indices[i]
                    < m3.vertices.len() by {
                    if i >= m2.indices.len() {
                        assert(m3.indices[i] == fan(fi)[i - m2.indices.len()]);
                    }
                }
            }
        } else if let Ok(m2) = apply_line(text, m, toks) {
            assert forall|i: int| 0 <= i < m2.vertices.len() implies vertex_in_tables(
                #[trigger] m2.vertices[i],
                m2,
            ) by {
                assert(vertex_in_tables(m.vertices[i], m));
            }
        }
    }
}

proof fn lemma_lines_from_ok(text: Seq<char>, i: int, m: ObjModel)
    requires
        model_ok(m),
    ensures
        lines_from(text, i, m) matches Ok(m2) ==> model_ok(m2),
    decreases text.len() - i,
{
    if 0 <= i < text.len() {
        let e = line_end(text, i);
        lemma_line_end_bounds(text, i);
        lemma_apply_line_ok(text, m, tokens(text, i, e));
        if let Ok(m2) = apply_line(text, m, tokens(text, i, e)) {
            if e < text.len() {
                lemma_lines_from_ok(text, e + 1, m2);
            }
        }
    }
}

/// Whatever text the parser accepts, the mesh it yields is sound: every
/// triangle index names a vertex, indices come in whole triangles, and
/// every vertex names existing position, texture and normal entries.
pub proof fn lemma_parsed_mesh_sound(text: Seq<char>)
    ensures
        parse_model(text) matches Ok(m) ==> model_ok(m),
{
    assert(model_ok(empty_model()));
    lemma_lines_from_ok(text, 0, empty_model());
}

/// The model of a whole OBJ text: the lines, separated by `'\n'`, applied in order.
pub open spec fn parse_model(text: Seq<char>) -> Result<ObjModel, ObjError> {
    lines_from(text, 0, empty_model())
}

/// A polygon of `n >= 3` corners becomes the `n - 2` triangles
/// `(fi[0], fi[t + 1], fi[t + 2])`, `t = 0 .. n - 3`, in that order: exactly
/// `3 (n - 2)` indices. Fewer corners give no triangle.
pub proof fn lemma_fan_triangles(fi: Seq<usize>)
    ensures
        fi.len() < 3 ==> fan(fi).len() == 0,
        fi.len() >= 3 ==> fan(fi).len() == 3 * (fi.len() - 2),
        forall|t: int|
            0 <= t < fi.len() - 2 ==> {
                &&& #[trigger] fan(fi)[3 * t] == fi[0]
                &&& fan(fi)[3 * t + 1] == fi[t + 1]
                &&& fan(fi)[3 * t + 2] == fi[t + 2]
            },
{
    if fi.len() >= 3 {
        lemma_fan_upto_triangles(fi, (fi.len() - 2) as nat);
    }
}

proof fn lemma_fan_upto_triangles(fi: Seq<usize>, k: nat)
    ensures
        fan_upto(fi, k).len() == 3 * k,
        forall|t: int|
            0 <= t < k ==> {
                &&& #[trigger] fan_upto(fi, k)[3 * t] == fi[0]
                &&& fan_upto(fi, k)[3 * t + 1] == fi[t + 1]
                &&& fan_upto(fi, k)[3 * t + 2] == fi[t + 2]
            },
    decreases k,
{
    if k > 0 {
        let k1 = (k - 1) as nat;
        lemma_fan_upto_triangles(fi, k1);
        assert(fan_upto(fi, k) == fan_upto(fi, k1) + seq![fi[0], fi[k as int], fi[k + 1 as int]]);
        assert forall|t: int| 0 <= t < k implies {
            &&& #[trigger] fan_upto(fi, k)[3 * t] == fi[0]
            &&& fan_upto(fi, k)[3 * t + 1] == fi[t + 1]
            &&& fan_upto(fi, k)[3 * t + 2] == fi[t + 2]
        } by {
            let prev = fan_upto(fi, k1);
            if t < k1 {
                assert(prev[3 * t] == fi[0]);
                assert(fan_upto(fi, k)[3 * t] == prev[3 * t]);
                assert(fan_upto(fi, k)[3 * t + 1] == prev[3 * t + 1]);
                assert(fan_upto(fi, k)[3 * t + 2] == prev[3 * t + 2]);
            } else {
                assert(t == k1);
                assert(prev.len() == 3 * t);
            }
        }
    }
}

/// Appending the fan of a polygon `f` to an index list keeps the list and
/// adds exactly the triangles `(f[0], f[t + 1], f[t + 2])` after it.
pub proof fn lemma_appended_fan(base: Seq<usize>, f: Seq<usize>)
    ensures
        (base + fan(f)).len() == base.len() + (if f.len() >= 3 {
            3 * (f.len() - 2)
        } else {
            0
        }),
        forall|j: int| 0 <= j < base.len() ==> #[trigger] (base + fan(f))[j] == base[j],
        forall|t: int|
            0 <= t < f.len() - 2 ==> {
                &&& #[trigger] (base + fan(f))[base.len() + 3 * t] == f[0]
                &&& (base + fan(f))[base.len() + 3 * t + 1] == f[t + 1]
                &&& (base + fan(f))[base.len() + 3 * t + 2] == f[t + 2]
            },
{
    lemma_fan_triangles(f);
    assert forall|t: int| 0 <= t < f.len() - 2 implies {
        &&& #[trigger] (base + fan(f))[base.len() + 3 * t] == f[0]
        &&& (base + fan(f))[base.len() + 3 * t + 1] == f[t + 1]
        &&& (base + fan(f))[base.len() + 3 * t + 2] == f[t + 2]
    } by {
        assert(fan(f)[3 * t] == f[0]);
    }
}

/// Reading a face's corners gives one mesh vertex per corner token and
/// leaves the index list and the attribute tables as they were.
pub proof fn lemma_face_vertices_shape(text: Seq<char>, m: ObjModel, parts: Seq<Span>)
    ensures
        face_vertices(text, m, parts) matches Ok((m2, fi)) ==> {
            &&& fi.len() == parts.len()
            &&& m2.indices == m.indices
            &&& m2.positions == m.positions
            &&& m2.normals == m.normals
            &&& m2.uvs == m.uvs
        },
    decreases parts.len(),
{
    if parts.len() > 0 {
        lemma_face_vertices_shape(text, m, parts.drop_last());
    }
}

/// An `f` line of `n` corner tokens that all resolve adds the mesh vertices
/// of its corners and then appends to the index list, after the indices
/// already there, exactly the triangles `(f[0], f[t + 1], f[t + 2])` for
/// `t = 0 .. n - 3`, where `f` are the corners' mesh vertices in order: so
/// `3 (n - 2)` indices for `n >= 3`, and none otherwise.
pub proof fn lemma_face_line(text: Seq<char>, m: ObjModel, toks: Seq<Span>)
    requires
        toks.len() >= 1,
        text_of(text, toks[0]) == seq!['f'],
        face_vertices(text, m, toks.drop_first()) is Ok,
    ensures
        face_vertices(text, m, toks.drop_first()) matches Ok((m2, f)) && apply_line(text, m, toks) matches Ok(
            m3,
        ) && {
            &&& f.len() + 1 == toks.len()
            &&& m3.vertices == m2.vertices
            &&& m3.positions == m.positions
            &&& m3.indices.len() == m.indices.len() + (if f.len() >= 3 {
                3 * (f.len() - 2)
            } else {
                0
            })
            &&& forall|j: int| 0 <= j < m.indices.len() ==> #[trigger] m3.indices[j] == m.indices[j]
            &&& forall|t: int|
                0 <= t < f.len() - 2 ==> {
                    &&& #[trigger] m3.indices[m.indices.len() + 3 * t] == f[0]
                    &&& m3.indices[m.indices.len() + 3 * t + 1] == f[t + 1]
                    &&& m3.indices[m.indices.len() + 3 * t + 2] == f[t + 2]
                }
        },
{
    let parts = toks.drop_first();
    lemma_face_vertices_shape(text, m, parts);
    let (m2, f) = face_vertices(text, m, parts)->Ok_0;
    lemma_fan_triangles(f);
    let cmd = text_of(text, toks[0]);
    assert(cmd[0] == 'f');
    assert(cmd != seq!['v']);
    assert(cmd != seq!['v', 'n']);
    assert(cmd != seq!['v', 't']);
    let m3 = apply_line(text, m, toks)->Ok_0;
    assert(m3.indices == m.indices + fan(f));
    lemma_appended_fan(m.indices, f);
}

} // verus!
