use vstd::prelude::*;
use crate::engine::storage;
use crate::loader::grammar;
use crate::loader::grammar::ObjModel;
use vstd::hash_map::StringHashMap;
pub use crate::loader::grammar::{CoordTokens, ObjError, Span, UvTokens, VertexRef};

verus! {

broadcast use vstd::string::group_string_axioms;

/// The chars of a text, in order.
fn collect_chars(s: &str) -> (v: Vec<char>)
    ensures
        v@ == s@,
{
    let mut v: Vec<char> = Vec::new();
    for c in it: s.chars()
        invariant
            v@ == it.seq().take(it.index() as int),
            it.seq() == s@,
    {
        v.push(c);
        assert(v@ =~= it.seq().take(it.index() + 1));
    }
    assert(v@ =~= s@);
    v
}

fn is_white(c: char) -> (r: bool)
    ensures
        r == grammar::is_whitespace(c),
{
    c == '\t' || c == '\n' || c == '\u{0B}' || c == '\u{0C}' || c == '\r' || c == ' ' || c
        == '\u{85}' || c == '\u{A0}' || c == '\u{1680}' || ('\u{2000}' <= c && c <= '\u{200A}')
        || c == '\u{2028}' || c == '\u{2029}' || c == '\u{202F}' || c == '\u{205F}' || c
        == '\u{3000}'
}

fn find_line_end(text: &Vec<char>, i: usize) -> (e: usize)
    requires
        i <= text@.len(),
    ensures
        e == grammar::line_end(text@, i as int),
{
    let n: usize = text.len();
    let mut j: usize = i;
    while j < n && text[j] != '\n'
        invariant
            i <= j <= n,
            n == text@.len(),
            grammar::line_end(text@, j as int) == grammar::line_end(text@, i as int),
        decreases n - j,
    {
        j = j + 1;
    }
    j
}

/// The spans of `tokens` lie, in order, inside `[lo, hi)` and are not empty.
pub open spec fn spans_within(toks: Seq<Span>, lo: int, hi: int) -> bool {
    forall|k: int| 0 <= k < toks.len() ==> lo <= #[trigger] toks[k].start < toks[k].end <= hi
}

fn tokenize(text: &Vec<char>, i: usize, e: usize) -> (toks: Vec<Span>)
    requires
        i <= e <= text@.len(),
    ensures
        toks@ == grammar::tokens(text@, i as int, e as int),
        spans_within(toks@, i as int, e as int),
{
    let mut out: Vec<Span> = Vec::new();
    let mut open: Option<usize> = None;
    let mut j: usize = i;
    while j < e
        invariant
            i <= j <= e <= text@.len(),
            out@ + grammar::tokens_from(text@, j as int, e as int, match open {
                Some(s) => Some(s as int),
                None => None,
            }) == grammar::tokens(text@, i as int, e as int),
            spans_within(out@, i as int, j as int),
            open matches Some(s) ==> i <= s < j,
        decreases e - j,
    {
        let ghost before = out@;
        if is_white(text[j]) {
            if let Some(s) = open {
                out.push(Span { start: s, end: j });
                assert forall|q: int| 0 <= q < out@.len() implies i <= #[trigger] out@[q].start
                    < out@[q].end <= j + 1 by {
                    if q < before.len() {
                        assert(out@[q] == before[q]);
                    }
                }
                assert(out@ + grammar::tokens_from(text@, j + 1, e as int, None) =~= before + grammar::tokens_from(text@, j as int, e as int, Some(s as int)));
            }
            open = None;
        } else if open.is_none() {
            open = Some(j);
        }
        j = j + 1;
    }
    if let Some(s) = open {
        let ghost before = out@;
        out.push(Span { start: s, end: e });
        assert(out@ =~= before + grammar::tokens_from(text@, e as int, e as int, Some(s as int)));
    } else {
        assert(out@ =~= out@ + grammar::tokens_from(text@, e as int, e as int, None));
    }
    out
}

/// A parsed OBJ text: the attribute tables, as the tokens that spell their
/// numbers, and the mesh, as vertices that combine table entries and
/// triangle indices into the vertex list.
pub struct ObjLayout {
    pub positions: Vec<CoordTokens>,
    pub normals: Vec<CoordTokens>,
    pub uvs: Vec<UvTokens>,
    pub vertices: Vec<VertexRef>,
    pub indices: Vec<usize>,
}

/// The parse state that a layout and a vertex cache stand for.
pub open spec fn model_of(l: ObjLayout, cache: Map<Seq<char>, usize>) -> ObjModel {
    ObjModel {
        positions: l.positions@,
        normals: l.normals@,
        uvs: l.uvs@,
        vertices: l.vertices@,
        indices: l.indices@,
        cache: cache,
    }
}

/// Reads `text[a..b]` as `str::parse::<isize>` does.
fn parse_index(text: &Vec<char>, a: usize, b: usize) -> (r: Option<i128>)
    requires
        a <= b <= text@.len(),
    ensures
        match r {
            Some(x) => grammar::parse_isize(text@, a as int, b as int) == Some(x as int),
            None => grammar::parse_isize(text@, a as int, b as int) is None,
        },
{
    if a >= b {
        return None;
    }
    let c0 = text[a];
    let neg = c0 == '-';
    let d: usize = if c0 == '+' || c0 == '-' { a + 1 } else { a };
    if d >= b {
        return None;
    }
    let limit: u128 = if neg { isize::MAX as u128 + 1 } else { isize::MAX as u128 };
    let cap: u128 = isize::MAX as u128 + 2;
    let mut acc: u128 = 0;
    let mut k: usize = d;
    while k < b
        invariant
            a <= d <= k <= b <= text@.len(),
            a < d ==> (text@[a as int] == '+' || text@[a as int] == '-'),
            a == d ==> !(text@[a as int] == '+' || text@[a as int] == '-'),
            d < b,
            grammar::all_digits(text@, d as int, k as int),
            grammar::digits_value(text@, d as int, k as int) >= 0,
            cap == isize::MAX as u128 + 2,
            acc <= cap,
            acc < cap ==> acc == grammar::digits_value(text@, d as int, k as int),
            acc == cap ==> grammar::digits_value(text@, d as int, k as int) >= cap,
        decreases b - k,
    {
        let c = text[k];
        if !('0' <= c && c <= '9') {
            assert(!grammar::is_digit(text@[k as int]));
            assert(!grammar::all_digits(text@, d as int, b as int));
            assert(grammar::parse_isize(text@, a as int, b as int) is None);
            return None;
        }
        let dig: u128 = (c as u32 - '0' as u32) as u128;
        assert(grammar::digits_value(text@, d as int, k + 1) == grammar::digits_value(text@, d as int, k as int) * 10
            + dig);
        if acc < cap {
            let v: u128 = acc * 10 + dig;
            acc = if v >= cap { cap } else { v };
        }
        k = k + 1;
    }
    if acc <= limit {
        if neg {
            Some(-(acc as i128))
        } else {
            Some(acc as i128)
        }
    } else {
        None
    }
}

/// The first `'/'` in `text[i..end]`, or `end`.
fn find_slash(text: &Vec<char>, i: usize, end: usize) -> (s: usize)
    requires
        i <= end <= text@.len(),
    ensures
        s == grammar::slash_at(text@, i as int, end as int),
        i <= s <= end,
{
    let mut j: usize = i;
    while j < end && text[j] != '/'
        invariant
            i <= j <= end <= text@.len(),
            grammar::slash_at(text@, j as int, end as int) == grammar::slash_at(text@, i as int, end as int),
        decreases end - j,
    {
        j = j + 1;
    }
    j
}

pub open spec fn span_pair(s: Span) -> (int, int) {
    (s.start as int, s.end as int)
}

pub open spec fn opt_span_pair(s: Option<Span>) -> Option<(int, int)> {
    match s {
        Some(x) => Some(span_pair(x)),
        None => None,
    }
}

/// The first three `'/'`-separated fields of the token `p`.
fn face_fields(text: &Vec<char>, p: Span) -> (r: (Span, Option<Span>, Option<Span>))
    requires
        p.start <= p.end <= text@.len(),
    ensures
        grammar::field(text@, p.start as int, p.end as int, 0) == Some(span_pair(r.0)),
        grammar::field(text@, p.start as int, p.end as int, 1) == opt_span_pair(r.1),
        grammar::field(text@, p.start as int, p.end as int, 2) == opt_span_pair(r.2),
        r.0.start <= r.0.end <= text@.len(),
        r.1 matches Some(s) ==> s.start <= s.end <= text@.len(),
        r.2 matches Some(s) ==> s.start <= s.end <= text@.len(),
{
    let e0 = find_slash(text, p.start, p.end);
    let f0 = Span { start: p.start, end: e0 };
    if e0 >= p.end {
        return (f0, None, None);
    }
    let e1 = find_slash(text, e0 + 1, p.end);
    let f1 = Span { start: e0 + 1, end: e1 };
    assert(grammar::field(text@, p.start as int, p.end as int, 1) == grammar::field(text@, e0 + 1, p.end as int, 0));
    if e1 >= p.end {
        assert(grammar::field(text@, p.start as int, p.end as int, 2) == grammar::field(text@, e0 + 1, p.end as int, 1));
        return (f0, Some(f1), None);
    }
    let e2 = find_slash(text, e1 + 1, p.end);
    let f2 = Span { start: e1 + 1, end: e2 };
    assert(grammar::field(text@, p.start as int, p.end as int, 2) == grammar::field(text@, e0 + 1, p.end as int, 1));
    assert(grammar::field(text@, e0 + 1, p.end as int, 1) == grammar::field(text@, e1 + 1, p.end as int, 0));
    (f0, Some(f1), Some(f2))
}

/// An OBJ index resolved against a table of `len` entries: 1-based, or
/// negative counting back from the latest entry; `0` names nothing.
fn resolve(raw: i128, len: usize) -> (r: Option<usize>)
    requires
        isize::MIN <= raw <= isize::MAX,
    ensures
        match grammar::resolve_index(raw as int, len as nat) {
            Some(k) => r == Some(k as usize),
            None => r is None,
        },
{
    if raw < 0 {
        let back: i128 = len as i128 + raw;
        if back >= 0 {
            Some(back as usize)
        } else {
            None
        }
    } else if 0 < raw && raw <= len as i128 {
        Some((raw - 1) as usize)
    } else {
        None
    }
}

/// An optional face-vertex field read as an integer.
fn read_optional(text: &Vec<char>, f: Option<Span>) -> (r: Result<Option<i128>, ObjError>)
    requires
        f matches Some(s) ==> s.start <= s.end <= text@.len(),
    ensures
        match grammar::optional_index(text@, opt_span_pair(f)) {
            Ok(Some(v)) => r matches Ok(Some(x)) && x == v,
            Ok(None) => r matches Ok(None),
            Err(e) => r == Err::<Option<i128>, ObjError>(e),
        },
        r matches Ok(Some(x)) ==> isize::MIN <= x <= isize::MAX,
{
    match f {
        Some(s) => if s.start < s.end {
            match parse_index(text, s.start, s.end) {
                Some(v) => Ok(Some(v)),
                None => Err(ObjError::InvalidIndex),
            }
        } else {
            Ok(None)
        },
        None => Ok(None),
    }
}

/// An optional raw index resolved against a table of `len` entries.
fn resolve_field(raw: Option<i128>, len: usize) -> (r: Result<Option<usize>, ObjError>)
    requires
        raw matches Some(x) ==> isize::MIN <= x <= isize::MAX,
    ensures
        r == grammar::resolve_optional(
            match raw {
                Some(x) => Some(x as int),
                None => None,
            },
            len as nat,
        ),
{
    match raw {
        Some(x) => match resolve(x, len) {
            Some(k) => Ok(Some(k)),
            None => Err(ObjError::IndexOutOfRange),
        },
        None => Ok(None),
    }
}

/// The vertex that the face-vertex token `p` denotes.
fn make_vertex_ref(
    text: &Vec<char>,
    layout: &ObjLayout,
    Ghost(cache): Ghost<Map<Seq<char>, usize>>,
    p: Span,
) -> (r: Result<VertexRef, ObjError>)
    requires
        p.start <= p.end <= text@.len(),
    ensures
        r == grammar::vertex_ref(text@, model_of(*layout, cache), p),
{
    let (f0, f1, f2) = face_fields(text, p);
    let pr = match parse_index(text, f0.start, f0.end) {
        Some(v) => v,
        None => return Err(ObjError::InvalidIndex),
    };
    let uvr = match read_optional(text, f1) {
        Ok(v) => v,
        Err(e) => return Err(e),
    };
    let nr = match read_optional(text, f2) {
        Ok(v) => v,
        Err(e) => return Err(e),
    };
    let pi = match resolve(pr, layout.positions.len()) {
        Some(k) => k,
        None => return Err(ObjError::IndexOutOfRange),
    };
    let ni = match resolve_field(nr, layout.normals.len()) {
        Ok(k) => k,
        Err(e) => return Err(e),
    };
    let ui = match resolve_field(uvr, layout.uvs.len()) {
        Ok(k) => k,
        Err(e) => return Err(e),
    };
    Ok(VertexRef { position: pi, uv: ui, normal: ni })
}

/// One face-vertex token: reuses the cached vertex for the same text, or
/// appends a new vertex and remembers it.
fn add_face_vertex(
    text: &Vec<char>,
    layout: &mut ObjLayout,
    cache: &mut StringHashMap<usize>,
    p: Span,
) -> (r: Result<usize, ObjError>)
    requires
        p.start <= p.end <= text@.len(),
    ensures
        match grammar::face_vertex(text@, model_of(*old(layout), old(cache)@), p) {
            Ok((m2, k)) => r == Ok::<usize, ObjError>(k) && model_of(*final(layout), final(cache)@)
                == m2,
            Err(e) => r == Err::<usize, ObjError>(e),
        },
{
    let key = storage::string_from_chars(&text.as_slice()[p.start..p.end]);
    assert(key@ == grammar::text_of(text@, p));
    match cache.get(key.as_str()) {
        Some(k) => Ok(*k),
        None => {
            let vr = make_vertex_ref(text, layout, Ghost(cache@), p);
            match vr {
                Err(e) => Err(e),
                Ok(v) => {
                    let k: usize = layout.vertices.len();
                    layout.vertices.push(v);
                    cache.insert(key, k);
                    Ok(k)
                },
            }
        },
    }
}

/// A face line: its vertices, then the triangle fan over them.
#[verifier::spinoff_prover]
fn apply_face(
    text: &Vec<char>,
    layout: &mut ObjLayout,
    cache: &mut StringHashMap<usize>,
    toks: &Vec<Span>,
) -> (r: Result<(), ObjError>)
    requires
        toks@.len() >= 1,
        spans_within(toks@, 0, text@.len() as int),
    ensures
        match grammar::face_vertices(text@, model_of(*old(layout), old(cache)@), toks@.drop_first()) {
            Ok((m2, fi)) => r is Ok && model_of(*final(layout), final(cache)@) == (ObjModel {
                indices: m2.indices + grammar::fan(fi),
                ..m2
            }),
            Err(e) => r == Err::<(), ObjError>(e),
        },
        grammar::face_vertices(text@, model_of(*old(layout), old(cache)@), toks@.drop_first()) matches Ok(
            (m2, f),
        ) ==> {
            &&& final(layout).indices@.len() == old(layout).indices@.len() + (if f.len() >= 3 {
                3 * (f.len() - 2)
            } else {
                0
            })
            &&& forall|j: int|
                0 <= j < old(layout).indices@.len() ==> #[trigger] final(layout).indices@[j]
                    == old(layout).indices@[j]
            &&& forall|t: int|
                0 <= t < f.len() - 2 ==> {
                    &&& #[trigger] final(layout).indices@[old(layout).indices@.len() + 3 * t] == f[0]
                    &&& final(layout).indices@[old(layout).indices@.len() + 3 * t + 1] == f[t + 1]
                    &&& final(layout).indices@[old(layout).indices@.len() + 3 * t + 2] == f[t + 2]
                }
        },
{
    let ghost m0 = model_of(*layout, cache@);
    let ghost parts = toks@.drop_first();
    proof {
        grammar::lemma_face_vertices_shape(text@, m0, parts);
    }
    let mut fi: Vec<usize> = Vec::new();
    let n: usize = toks.len();
    let mut k: usize = 1;
    assert(parts.take(0) =~= Seq::<Span>::empty());
    while k < n
        invariant
            1 <= k <= n,
            n == toks@.len(),
            parts == toks@.drop_first(),
            m0 == model_of(*old(layout), old(cache)@),
            spans_within(toks@, 0, text@.len() as int),
            grammar::face_vertices(text@, m0, parts.take(k - 1)) == Ok::<(ObjModel, Seq<usize>), ObjError>(
                (model_of(*layout, cache@), fi@),
            ),
        decreases n - k,
    {
        let ghost before = model_of(*layout, cache@);
        let p = toks[k];
        assert(parts.take(k as int).drop_last() =~= parts.take(k - 1));
        assert(parts.take(k as int).last() == p);
        match add_face_vertex(text, layout, cache, p) {
            Ok(v) => {
                fi.push(v);
            },
            Err(e) => {
                assert(grammar::face_vertices(text@, m0, parts.take(k as int)) == Err::<
                    (ObjModel, Seq<usize>),
                    ObjError,
                >(e));
                proof {
                    grammar::lemma_face_vertices_error(text@, m0, parts, k as int);
                }
                return Err(e);
            },
        }
        k = k + 1;
    }
    assert(parts.take(n - 1) =~= parts);
    let ghost m1 = model_of(*layout, cache@);
    assert(grammar::face_vertices(text@, m0, parts) == Ok::<(ObjModel, Seq<usize>), ObjError>((m1, fi@)));
    assert(m1.indices == old(layout).indices@);
    let nf: usize = fi.len();
    if nf >= 3 {
        let ghost base = layout.indices@;
        let ghost mb = model_of(*layout, cache@);
        let mut t: usize = 1;
        while t <= nf - 2
            invariant
                1 <= t <= nf - 1,
                nf == fi@.len(),
                nf >= 3,
                base == mb.indices,
                model_of(*layout, cache@) == (ObjModel {
                    indices: base + grammar::fan_upto(fi@, (t - 1) as nat),
                    ..mb
                }),
            decreases nf - t,
        {
            layout.indices.push(fi[0]);
            layout.indices.push(fi[t]);
            layout.indices.push(fi[t + 1]);
            assert(layout.indices@ =~= base + grammar::fan_upto(fi@, t as nat));
            assert(model_of(*layout, cache@) =~= (ObjModel {
                indices: base + grammar::fan_upto(fi@, t as nat),
                ..mb
            }));
            t = t + 1;
        }
    } else {
        assert(layout.indices@ =~= layout.indices@ + grammar::fan(fi@));
    }
    proof {
        grammar::lemma_appended_fan(old(layout).indices@, fi@);
        assert(layout.indices@ == old(layout).indices@ + grammar::fan(fi@));
    }
    Ok(())
}

/// The tokens of one line applied to the layout.
fn apply_line_tokens(
    text: &Vec<char>,
    layout: &mut ObjLayout,
    cache: &mut StringHashMap<usize>,
    toks: &Vec<Span>,
) -> (r: Result<(), ObjError>)
    requires
        spans_within(toks@, 0, text@.len() as int),
    ensures
        match grammar::apply_line(text@, model_of(*old(layout), old(cache)@), toks@) {
            Ok(m2) => r is Ok && model_of(*final(layout), final(cache)@) == m2,
            Err(e) => r == Err::<(), ObjError>(e),
        },
{
    if toks.len() == 0 {
        return Ok(());
    }
    let t0 = toks[0];
    let c0 = text[t0.start];
    let len0: usize = t0.end - t0.start;
    let ghost cmd = grammar::text_of(text@, t0);
    assert(cmd[0] == c0);
    assert(cmd.len() == len0);
    if c0 == '#' {
        Ok(())
    } else if len0 == 1 && c0 == 'v' {
        assert(cmd =~= seq!['v']);
        if toks.len() >= 4 {
            layout.positions.push(CoordTokens { x: toks[1], y: toks[2], z: toks[3] });
        }
        Ok(())
    } else if len0 == 2 && c0 == 'v' && text[t0.start + 1] == 'n' {
        assert(cmd =~= seq!['v', 'n']);
        if toks.len() >= 4 {
            layout.normals.push(CoordTokens { x: toks[1], y: toks[2], z: toks[3] });
        }
        Ok(())
    } else if len0 == 2 && c0 == 'v' && text[t0.start + 1] == 't' {
        assert(cmd =~= seq!['v', 't']);
        assert(cmd != seq!['v', 'n']);
        if toks.len() >= 3 {
            layout.uvs.push(UvTokens { u: toks[1], v: toks[2] });
        }
        Ok(())
    } else if len0 == 1 && c0 == 'f' {
        assert(cmd =~= seq!['f']);
        apply_face(text, layout, cache, toks)
    } else {
        assert(cmd != seq!['v']);
        assert(cmd != seq!['f']);
        assert(len0 == 2 && c0 == 'v' ==> cmd[1] != 'n' && cmd[1] != 't');
        assert(cmd != seq!['v', 'n']);
        assert(cmd != seq!['v', 't']);
        Ok(())
    }
}

/// Parses the text of a Wavefront OBJ file into its attribute tables and its
/// triangle mesh.
///
/// Lines are separated by `'\n'`; each is split at white space. Empty lines
/// and lines whose first token starts with `#` are skipped. `v` and `vn`
/// lines with at least three numbers add a position or normal, `vt` lines
/// with at least two add a texture coordinate; their numbers are kept as the
/// tokens that spell them. An `f` line lists face vertices
/// (`p`, `p/t`, `p//n`, `p/t/n`: 1-based, or negative counting back from
/// the latest entry, `-1` being the latest; `0` names nothing); each
/// distinct token text becomes one mesh vertex, reused when the same text
/// comes again, and the face is triangulated as a fan.
/// Other lines are ignored. The parse stops at the first face vertex that
/// is not made of integers (`InvalidIndex`) or that names a missing table
/// entry (`IndexOutOfRange`).
pub fn parse_obj(content: &str) -> (r: Result<ObjLayout, ObjError>)
    ensures
        match grammar::parse_model(content@) {
            Ok(m) => r matches Ok(l) && l.positions@ == m.positions && l.normals@ == m.normals
                && l.uvs@ == m.uvs && l.vertices@ == m.vertices && l.indices@ == m.indices,
            Err(e) => r matches Err(x) && x == e,
        },
        r matches Ok(l) ==> {
            &&& forall|i: int| 0 <= i < l.indices@.len() ==> #[trigger] l.indices@[i] < l.vertices@.len()
            &&& l.indices@.len() % 3 == 0
        },
{
    proof {
        grammar::lemma_parsed_mesh_sound(content@);
    }
    let text = collect_chars(content);
    let n: usize = text.len();
    let mut layout = ObjLayout {
        positions: Vec::new(),
        normals: Vec::new(),
        uvs: Vec::new(),
        vertices: Vec::new(),
        indices: Vec::new(),
    };
    let mut cache: StringHashMap<usize> = StringHashMap::new();
    let mut i: usize = 0;
    assert(model_of(layout, cache@) =~= grammar::empty_model());
    while i < n
        invariant
            text@ == content@,
            n == text@.len(),
            i <= n,
            grammar::parse_model(text@) == grammar::lines_from(text@, i as int, model_of(layout, cache@)),
        decreases n - i,
    {
        let e = find_line_end(&text, i);
        proof {
            grammar::lemma_line_end_bounds(text@, i as int);
        }
        let toks = tokenize(&text, i, e);
        match apply_line_tokens(&text, &mut layout, &mut cache, &toks) {
            Ok(()) => {},
            Err(err) => {
                return Err(err);
            },
        }
        i = if e < n { e + 1 } else { n };
    }
    Ok(layout)
}

} // verus!
