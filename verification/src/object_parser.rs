//! The object (`.obj`) grammar: one rule per record kind, the line
//! aggregator, face-index resolution against the growing vertex pools, and
//! the semantic constructor that produces a fully resolved [`Object`].

#![allow(non_snake_case)]

use vstd::prelude::*;
use vstd::string::StringExecFns;

use crate::parser_utilities::{
    Number, NumberV, match_tag, parse_ignored_line, parse_integer, parse_number, parse_token,
    parse_token_rule, skip_ignored, skip_spaces, spec_ignored_line, spec_integer, spec_number,
    spec_skip_ignored, spec_skip_spaces, spec_tag, spec_token, spec_token_rule,
};

verus! {

// ---------------------------------------------------------------------------
// Domain types
// ---------------------------------------------------------------------------

/// A raw three-component coordinate, used for geometric positions, texture
/// coordinates and normals alike.
#[derive(Debug, PartialEq, Eq)]
pub struct Vertex {
    pub x: Number,
    pub y: Number,
    pub z: Number,
}

/// The mathematical shape of a [`Vertex`].
pub struct VertexV {
    pub x: NumberV,
    pub y: NumberV,
    pub z: NumberV,
}

impl View for Vertex {
    type V = VertexV;

    open spec fn view(&self) -> VertexV {
        VertexV { x: self.x@, y: self.y@, z: self.z@ }
    }
}

impl Vertex {
    /// An owned copy holding the same characters.
    pub fn duplicate(&self) -> (v: Vertex)
        ensures
            v@ == self@,
    {
        Vertex { x: self.x.duplicate(), y: self.y.duplicate(), z: self.z.duplicate() }
    }
}

/// One corner of a face line as written in the source: a geometric-vertex
/// index, and optionally a texture-vertex and a normal-vertex index.
/// Positive indices are 1-based; negative ones count backward from the end
/// of the pool; zero is always invalid.
#[derive(Debug, Clone, Copy, PartialEq, Eq, Structural)]
pub struct VertexTriplet {
    pub v: isize,
    pub vt: Option<isize>,
    pub vn: Option<isize>,
}

/// The three corners of one face line.
#[derive(Debug, Clone, Copy, PartialEq, Eq, Structural)]
pub struct TriangleOfVertexTriplets {
    pub v1: VertexTriplet,
    pub v2: VertexTriplet,
    pub v3: VertexTriplet,
}

/// A face fully dereferenced against the pools, stamped with the material
/// name that was active when its line was read.
#[derive(Debug, PartialEq)]
pub struct Triangle {
    pub v1: Vertex,
    pub v2: Vertex,
    pub v3: Vertex,
    pub vt1: Option<Vertex>,
    pub vt2: Option<Vertex>,
    pub vt3: Option<Vertex>,
    pub vn1: Option<Vertex>,
    pub vn2: Option<Vertex>,
    pub vn3: Option<Vertex>,
    pub materialName: String,
}

/// The mathematical shape of a [`Triangle`].
pub struct TriangleV {
    pub v1: VertexV,
    pub v2: VertexV,
    pub v3: VertexV,
    pub vt1: Option<VertexV>,
    pub vt2: Option<VertexV>,
    pub vt3: Option<VertexV>,
    pub vn1: Option<VertexV>,
    pub vn2: Option<VertexV>,
    pub vn3: Option<VertexV>,
    pub material_name: Seq<char>,
}

/// The view of an optional vertex.
pub open spec fn view_opt_vertex(o: Option<Vertex>) -> Option<VertexV> {
    match o {
        Some(v) => Some(v@),
        None => None,
    }
}

impl View for Triangle {
    type V = TriangleV;

    open spec fn view(&self) -> TriangleV {
        TriangleV {
            v1: self.v1@,
            v2: self.v2@,
            v3: self.v3@,
            vt1: view_opt_vertex(self.vt1),
            vt2: view_opt_vertex(self.vt2),
            vt3: view_opt_vertex(self.vt3),
            vn1: view_opt_vertex(self.vn1),
            vn2: view_opt_vertex(self.vn2),
            vn3: view_opt_vertex(self.vn3),
            material_name: self.materialName@,
        }
    }
}

/// One parsed, not yet resolved object line.
#[derive(Debug, PartialEq)]
pub enum Value {
    ValueMaterialLibraryName(String),
    ValueUseMaterialName(String),
    ValueVertexGeometric(Vertex),
    ValueVertexTexture(Vertex),
    ValueVertexNormal(Vertex),
    ValueTriangle(TriangleOfVertexTriplets),
    ValueGroup(Vec<String>),
    ValueSmoothingValueGroup(isize),
}

/// The mathematical shape of a [`Value`].
pub enum ValueV {
    ValueMaterialLibraryName(Seq<char>),
    ValueUseMaterialName(Seq<char>),
    ValueVertexGeometric(VertexV),
    ValueVertexTexture(VertexV),
    ValueVertexNormal(VertexV),
    ValueTriangle(TriangleOfVertexTriplets),
    ValueGroup(Seq<Seq<char>>),
    ValueSmoothingValueGroup(isize),
}

impl View for Value {
    type V = ValueV;

    open spec fn view(&self) -> ValueV {
        match self {
            Value::ValueMaterialLibraryName(n) => ValueV::ValueMaterialLibraryName(n@),
            Value::ValueUseMaterialName(n) => ValueV::ValueUseMaterialName(n@),
            Value::ValueVertexGeometric(v) => ValueV::ValueVertexGeometric(v@),
            Value::ValueVertexTexture(v) => ValueV::ValueVertexTexture(v@),
            Value::ValueVertexNormal(v) => ValueV::ValueVertexNormal(v@),
            Value::ValueTriangle(t) => ValueV::ValueTriangle(*t),
            Value::ValueGroup(ns) => ValueV::ValueGroup(ns@.map_values(|n: String| n@)),
            Value::ValueSmoothingValueGroup(i) => ValueV::ValueSmoothingValueGroup(*i),
        }
    }
}

/// The view of a sequence of parsed values.
pub open spec fn view_values(vs: Seq<Value>) -> Seq<ValueV> {
    vs.map_values(|v: Value| v@)
}

/// The accumulated result of one parse pass: the resolved triangles and the
/// raw pools in file order.
#[derive(Debug, PartialEq)]
pub struct Object {
    pub triangles: Vec<Triangle>,
    pub raw_vertices: Vec<Vertex>,
    pub raw_vertices_texture: Vec<Vertex>,
    pub raw_vertices_normals: Vec<Vertex>,
}

/// The mathematical shape of an [`Object`].
pub struct ObjectV {
    pub triangles: Seq<TriangleV>,
    pub raw_vertices: Seq<VertexV>,
    pub raw_vertices_texture: Seq<VertexV>,
    pub raw_vertices_normals: Seq<VertexV>,
}

impl View for Object {
    type V = ObjectV;

    open spec fn view(&self) -> ObjectV {
        ObjectV {
            triangles: self.triangles@.map_values(|t: Triangle| t@),
            raw_vertices: self.raw_vertices@.map_values(|v: Vertex| v@),
            raw_vertices_texture: self.raw_vertices_texture@.map_values(|v: Vertex| v@),
            raw_vertices_normals: self.raw_vertices_normals@.map_values(|v: Vertex| v@),
        }
    }
}

// ---------------------------------------------------------------------------
// Vertex lines
// ---------------------------------------------------------------------------

/// Three number literals, each preceded by optional spaces.
pub open spec fn spec_vertex(s: Seq<char>, pos: int) -> Option<(int, VertexV)> {
    let p = spec_skip_spaces(s, pos);
    match spec_number(s, p) {
        None => None,
        Some((p1, x)) => {
            let p2 = spec_skip_spaces(s, p1);
            match spec_number(s, p2) {
                None => None,
                Some((p3, y)) => {
                    let p4 = spec_skip_spaces(s, p3);
                    match spec_number(s, p4) {
                        None => None,
                        Some((p5, z)) => Some((p5, VertexV { x, y, z })),
                    }
                },
            }
        },
    }
}

/// Reads the three coordinates after a vertex tag.
fn parse_vertex(s: &str, pos: usize) -> (r: Option<(usize, Vertex)>)
    requires
        pos <= s@.len(),
    ensures
        match r {
            Some((p, v)) => spec_vertex(s@, pos as int) == Some((p as int, v@)) && pos < p
                <= s@.len(),
            None => spec_vertex(s@, pos as int) is None,
        },
{
    let p = skip_spaces(s, pos);
    match parse_number(s, p) {
        None => None,
        Some((p1, x)) => {
            let p2 = skip_spaces(s, p1);
            match parse_number(s, p2) {
                None => None,
                Some((p3, y)) => {
                    let p4 = skip_spaces(s, p3);
                    match parse_number(s, p4) {
                        None => None,
                        Some((p5, z)) => Some((p5, Vertex { x, y, z })),
                    }
                },
            }
        },
    }
}

/// A vertex directive: optional spaces, the tag (`v`, `vt` or `vn`), three
/// coordinates, then the rest of the line ignorable.
pub open spec fn spec_vertex_rule(s: Seq<char>, pos: int, tag: Seq<char>) -> Option<
    (int, VertexV),
> {
    let p = spec_skip_spaces(s, pos);
    if spec_tag(s, p, tag) {
        match spec_vertex(s, p + tag.len()) {
            Some((q, v)) => match spec_ignored_line(s, q) {
                Some(e) => Some((e, v)),
                None => None,
            },
            None => None,
        }
    } else {
        None
    }
}

/// Reads one vertex directive.
fn parse_vertex_rule(s: &str, pos: usize, tag: &str) -> (r: Option<(usize, Vertex)>)
    requires
        pos <= s@.len(),
    ensures
        match r {
            Some((p, v)) => spec_vertex_rule(s@, pos as int, tag@) == Some((p as int, v@)) && pos
                < p <= s@.len(),
            None => spec_vertex_rule(s@, pos as int, tag@) is None,
        },
{
    let n = s.unicode_len();
    let p = skip_spaces(s, pos);
    if !match_tag(s, p, tag) {
        return None;
    }
    assert(p + tag@.len() <= n);
    match parse_vertex(s, p + tag.unicode_len()) {
        Some((q, v)) => match parse_ignored_line(s, q) {
            Some(e) => Some((e, v)),
            None => None,
        },
        None => None,
    }
}

// ---------------------------------------------------------------------------
// Face lines
// ---------------------------------------------------------------------------

/// One face corner: optional spaces, the geometric index, then optionally a
/// slash, an optional texture index, another optional slash and an optional
/// normal index. The slashes are positional, and either sub-index may be
/// omitted while its slash remains.
pub open spec fn spec_triplet(s: Seq<char>, pos: int) -> Option<(int, VertexTriplet)> {
    let p = spec_skip_spaces(s, pos);
    match spec_integer(s, p) {
        None => None,
        Some((p1, v)) => {
            let p2 = if 0 <= p1 < s.len() && s[p1] == '/' {
                p1 + 1
            } else {
                p1
            };
            let (p3, vt) = match spec_integer(s, p2) {
                Some((q, i)) => (q, Some(i)),
                None => (p2, None),
            };
            let p4 = if 0 <= p3 < s.len() && s[p3] == '/' {
                p3 + 1
            } else {
                p3
            };
            let (p5, vn) = match spec_integer(s, p4) {
                Some((q, i)) => (q, Some(i)),
                None => (p4, None),
            };
            Some((p5, VertexTriplet { v, vt, vn }))
        },
    }
}

/// Reads one face corner.
fn parse_triplet(s: &str, pos: usize) -> (r: Option<(usize, VertexTriplet)>)
    requires
        pos <= s@.len(),
    ensures
        match r {
            Some((p, t)) => spec_triplet(s@, pos as int) == Some((p as int, t)) && pos < p
                <= s@.len(),
            None => spec_triplet(s@, pos as int) is None,
        },
{
    let n = s.unicode_len();
    let p = skip_spaces(s, pos);
    match parse_integer(s, p) {
        None => None,
        Some((p1, v)) => {
            let p2 = if p1 < n && s.get_char(p1) == '/' {
                p1 + 1
            } else {
                p1
            };
            let (p3, vt) = match parse_integer(s, p2) {
                Some((q, i)) => (q, Some(i)),
                None => (p2, None),
            };
            let p4 = if p3 < n && s.get_char(p3) == '/' {
                p3 + 1
            } else {
                p3
            };
            let (p5, vn) = match parse_integer(s, p4) {
                Some((q, i)) => (q, Some(i)),
                None => (p4, None),
            };
            Some((p5, VertexTriplet { v, vt, vn }))
        },
    }
}

/// A face line: optional spaces, `f`, then exactly three corners separated
/// by optional spaces, then the rest of the line ignorable.
pub open spec fn spec_triangle_rule(s: Seq<char>, pos: int) -> Option<
    (int, TriangleOfVertexTriplets),
> {
    let p = spec_skip_spaces(s, pos);
    if spec_tag(s, p, "f"@) {
        let p0 = spec_skip_spaces(s, p + "f"@.len());
        match spec_triplet(s, p0) {
            None => None,
            Some((q1, t1)) => {
                let p1 = spec_skip_spaces(s, q1);
                match spec_triplet(s, p1) {
                    None => None,
                    Some((q2, t2)) => {
                        let p2 = spec_skip_spaces(s, q2);
                        match spec_triplet(s, p2) {
                            None => None,
                            Some((q3, t3)) => match spec_ignored_line(s, q3) {
                                Some(e) => Some(
                                    (e, TriangleOfVertexTriplets { v1: t1, v2: t2, v3: t3 }),
                                ),
                                None => None,
                            },
                        }
                    },
                }
            },
        }
    } else {
        None
    }
}

/// Reads one face line.
fn parse_triangle_rule(s: &str, pos: usize) -> (r: Option<(usize, TriangleOfVertexTriplets)>)
    requires
        pos <= s@.len(),
    ensures
        match r {
            Some((p, t)) => spec_triangle_rule(s@, pos as int) == Some((p as int, t)) && pos < p
                <= s@.len(),
            None => spec_triangle_rule(s@, pos as int) is None,
        },
{
    let n = s.unicode_len();
    let p = skip_spaces(s, pos);
    if !match_tag(s, p, "f") {
        return None;
    }
    assert(p + "f"@.len() <= n);
    let p0 = skip_spaces(s, p + "f".unicode_len());
    match parse_triplet(s, p0) {
        None => None,
        Some((q1, t1)) => {
            let p1 = skip_spaces(s, q1);
            match parse_triplet(s, p1) {
                None => None,
                Some((q2, t2)) => {
                    let p2 = skip_spaces(s, q2);
                    match parse_triplet(s, p2) {
                        None => None,
                        Some((q3, t3)) => match parse_ignored_line(s, q3) {
                            Some(e) => Some(
                                (e, TriangleOfVertexTriplets { v1: t1, v2: t2, v3: t3 }),
                            ),
                            None => None,
                        },
                    }
                },
            }
        },
    }
}

// ---------------------------------------------------------------------------
// Group and smoothing-group lines
// ---------------------------------------------------------------------------

/// One or more group names, each followed by optional spaces.
pub open spec fn spec_group_names(s: Seq<char>, pos: int) -> (int, Seq<Seq<char>>)
    decreases s.len() - pos,
{
    if 0 <= pos <= s.len() {
        match spec_token(s, pos) {
            Some((p, t)) => {
                let p2 = spec_skip_spaces(s, p);
                if pos < p2 <= s.len() {
                    let (pf, rest) = spec_group_names(s, p2);
                    (pf, seq![t] + rest)
                } else {
                    (pos, Seq::empty())
                }
            },
            None => (pos, Seq::empty()),
        }
    } else {
        (pos, Seq::empty())
    }
}

/// Reads the run of group names.
fn parse_group_names(s: &str, pos: usize) -> (r: (usize, Vec<String>))
    requires
        pos <= s@.len(),
    ensures
        ({
            let (pf, names) = spec_group_names(s@, pos as int);
            r.0 == pf && r.1@.map_values(|n: String| n@) == names && pos <= r.0 <= s@.len()
        }),
{
    let mut cur = pos;
    let mut out: Vec<String> = Vec::new();
    proof {
        assert(out@.map_values(|n: String| n@) =~= Seq::<Seq<char>>::empty());
        assert(out@.map_values(|n: String| n@) + spec_group_names(s@, pos as int).1
            =~= spec_group_names(s@, pos as int).1);
    }
    loop
        invariant
            pos <= cur <= s@.len(),
            spec_group_names(s@, pos as int).0 == spec_group_names(s@, cur as int).0,
            spec_group_names(s@, pos as int).1 == out@.map_values(|n: String| n@)
                + spec_group_names(s@, cur as int).1,
        decreases s@.len() - cur,
    {
        match parse_token(s, cur) {
            Some((p, t)) => {
                let p2 = skip_spaces(s, p);
                proof {
                    assert(spec_group_names(s@, cur as int).1 == seq![t@] + spec_group_names(
                        s@,
                        p2 as int,
                    ).1);
                    assert(out@.push(t).map_values(|n: String| n@) =~= out@.map_values(
                        |n: String| n@,
                    ) + seq![t@]);
                    assert(out@.map_values(|n: String| n@) + (seq![t@] + spec_group_names(
                        s@,
                        p2 as int,
                    ).1) =~= (out@.map_values(|n: String| n@) + seq![t@]) + spec_group_names(
                        s@,
                        p2 as int,
                    ).1);
                }
                out.push(t);
                cur = p2;
            },
            None => {
                proof {
                    assert(out@.map_values(|n: String| n@) + Seq::<Seq<char>>::empty()
                        =~= out@.map_values(|n: String| n@));
                }
                return (cur, out);
            },
        }
    }
}

/// A group line: optional spaces, `g`, optional spaces, one or more names,
/// then the rest of the line ignorable.
pub open spec fn spec_group_rule(s: Seq<char>, pos: int) -> Option<(int, Seq<Seq<char>>)> {
    let p = spec_skip_spaces(s, pos);
    if spec_tag(s, p, "g"@) {
        let p2 = spec_skip_spaces(s, p + "g"@.len());
        let (q, names) = spec_group_names(s, p2);
        if names.len() >= 1 {
            match spec_ignored_line(s, q) {
                Some(e) => Some((e, names)),
                None => None,
            }
        } else {
            None
        }
    } else {
        None
    }
}

/// Reads one group line.
fn parse_group_rule(s: &str, pos: usize) -> (r: Option<(usize, Vec<String>)>)
    requires
        pos <= s@.len(),
    ensures
        match r {
            Some((p, ns)) => spec_group_rule(s@, pos as int) == Some(
                (p as int, ns@.map_values(|n: String| n@)),
            ) && pos < p <= s@.len(),
            None => spec_group_rule(s@, pos as int) is None,
        },
{
    let n = s.unicode_len();
    let p = skip_spaces(s, pos);
    if !match_tag(s, p, "g") {
        return None;
    }
    assert(p + "g"@.len() <= n);
    let p2 = skip_spaces(s, p + "g".unicode_len());
    let (q, names) = parse_group_names(s, p2);
    if names.len() >= 1 {
        proof {
            assert(names@.map_values(|nm: String| nm@).len() == names@.len());
            lemma_group_names_progress(s@, p2 as int);
        }
        match parse_ignored_line(s, q) {
            Some(e) => Some((e, names)),
            None => None,
        }
    } else {
        proof {
            assert(names@.map_values(|nm: String| nm@).len() == names@.len());
        }
        None
    }
}

/// A nonempty run of group names consumes at least one character.
proof fn lemma_group_names_progress(s: Seq<char>, pos: int)
    requires
        0 <= pos <= s.len(),
        spec_group_names(s, pos).1.len() >= 1,
    ensures
        pos < spec_group_names(s, pos).0 <= s.len(),
    decreases s.len() - pos,
{
    match spec_token(s, pos) {
        Some((p, t)) => {
            let p2 = spec_skip_spaces(s, p);
            if pos < p2 <= s.len() {
                if spec_group_names(s, p2).1.len() >= 1 {
                    lemma_group_names_progress(s, p2);
                } else {
                    lemma_group_names_stop(s, p2);
                }
            }
        },
        None => {},
    }
}

/// A run of zero group names consumes nothing.
proof fn lemma_group_names_stop(s: Seq<char>, pos: int)
    requires
        0 <= pos <= s.len(),
        spec_group_names(s, pos).1.len() == 0,
    ensures
        spec_group_names(s, pos).0 == pos,
{
}

/// A smoothing-group line: optional spaces, `s`, optional spaces, one
/// integer, then the rest of the line ignorable.
pub open spec fn spec_smoothing_rule(s: Seq<char>, pos: int) -> Option<(int, isize)> {
    let p = spec_skip_spaces(s, pos);
    if spec_tag(s, p, "s"@) {
        let p2 = spec_skip_spaces(s, p + "s"@.len());
        match spec_integer(s, p2) {
            Some((p3, v)) => match spec_ignored_line(s, p3) {
                Some(e) => Some((e, v)),
                None => None,
            },
            None => None,
        }
    } else {
        None
    }
}

/// Reads one smoothing-group line.
fn parse_smoothing_rule(s: &str, pos: usize) -> (r: Option<(usize, isize)>)
    requires
        pos <= s@.len(),
    ensures
        match r {
            Some((p, v)) => spec_smoothing_rule(s@, pos as int) == Some((p as int, v)) && pos < p
                <= s@.len(),
            None => spec_smoothing_rule(s@, pos as int) is None,
        },
{
    let n = s.unicode_len();
    let p = skip_spaces(s, pos);
    if !match_tag(s, p, "s") {
        return None;
    }
    assert(p + "s"@.len() <= n);
    let p2 = skip_spaces(s, p + "s".unicode_len());
    match parse_integer(s, p2) {
        Some((p3, v)) => match parse_ignored_line(s, p3) {
            Some(e) => Some((e, v)),
            None => None,
        },
        None => None,
    }
}

// ---------------------------------------------------------------------------
// The per-line value rules
// ---------------------------------------------------------------------------

/// An `mtllib` line as a tagged value.
pub open spec fn spec_material_library_name_value(s: Seq<char>, pos: int) -> Option<
    (int, ValueV),
> {
    match spec_token_rule(s, pos, "mtllib"@) {
        Some((p, name)) => Some((p, ValueV::ValueMaterialLibraryName(name))),
        None => None,
    }
}

/// Reads an `mtllib` (material library reference) line.
pub fn parse_material_library_name_value(s: &str, pos: usize) -> (r: Option<(usize, Value)>)
    requires
        pos <= s@.len(),
    ensures
        match r {
            Some((p, v)) => spec_material_library_name_value(s@, pos as int) == Some(
                (p as int, v@),
            ) && pos < p <= s@.len(),
            None => spec_material_library_name_value(s@, pos as int) is None,
        },
{
    match parse_token_rule(s, pos, "mtllib") {
        Some((p, name)) => Some((p, Value::ValueMaterialLibraryName(name))),
        None => None,
    }
}

/// A `usemtl` line as a tagged value.
pub open spec fn spec_use_material_value(s: Seq<char>, pos: int) -> Option<(int, ValueV)> {
    match spec_token_rule(s, pos, "usemtl"@) {
        Some((p, name)) => Some((p, ValueV::ValueUseMaterialName(name))),
        None => None,
    }
}

/// Reads a `usemtl` (current material) line.
pub fn parse_use_material_value(s: &str, pos: usize) -> (r: Option<(usize, Value)>)
    requires
        pos <= s@.len(),
    ensures
        match r {
            Some((p, v)) => spec_use_material_value(s@, pos as int) == Some((p as int, v@)) && pos
                < p <= s@.len(),
            None => spec_use_material_value(s@, pos as int) is None,
        },
{
    match parse_token_rule(s, pos, "usemtl") {
        Some((p, name)) => Some((p, Value::ValueUseMaterialName(name))),
        None => None,
    }
}

/// A `v` line as a tagged value.
pub open spec fn spec_vertex_geometry_value(s: Seq<char>, pos: int) -> Option<(int, ValueV)> {
    match spec_vertex_rule(s, pos, "v"@) {
        Some((p, v)) => Some((p, ValueV::ValueVertexGeometric(v))),
        None => None,
    }
}

/// Reads a `v` (geometric vertex) line.
pub fn parse_vertex_geometry_value(s: &str, pos: usize) -> (r: Option<(usize, Value)>)
    requires
        pos <= s@.len(),
    ensures
        match r {
            Some((p, v)) => spec_vertex_geometry_value(s@, pos as int) == Some((p as int, v@))
                && pos < p <= s@.len(),
            None => spec_vertex_geometry_value(s@, pos as int) is None,
        },
{
    match parse_vertex_rule(s, pos, "v") {
        Some((p, v)) => Some((p, Value::ValueVertexGeometric(v))),
        None => None,
    }
}

/// A `vt` line as a tagged value.
pub open spec fn spec_vertex_texture_value(s: Seq<char>, pos: int) -> Option<(int, ValueV)> {
    match spec_vertex_rule(s, pos, "vt"@) {
        Some((p, v)) => Some((p, ValueV::ValueVertexTexture(v))),
        None => None,
    }
}

/// Reads a `vt` (texture vertex) line.
pub fn parse_vertex_texture_value(s: &str, pos: usize) -> (r: Option<(usize, Value)>)
    requires
        pos <= s@.len(),
    ensures
        match r {
            Some((p, v)) => spec_vertex_texture_value(s@, pos as int) == Some((p as int, v@))
                && pos < p <= s@.len(),
            None => spec_vertex_texture_value(s@, pos as int) is None,
        },
{
    match parse_vertex_rule(s, pos, "vt") {
        Some((p, v)) => Some((p, Value::ValueVertexTexture(v))),
        None => None,
    }
}

/// A `vn` line as a tagged value.
pub open spec fn spec_vertex_normal_value(s: Seq<char>, pos: int) -> Option<(int, ValueV)> {
    match spec_vertex_rule(s, pos, "vn"@) {
        Some((p, v)) => Some((p, ValueV::ValueVertexNormal(v))),
        None => None,
    }
}

/// Reads a `vn` (normal vertex) line.
pub fn parse_vertex_normal_value(s: &str, pos: usize) -> (r: Option<(usize, Value)>)
    requires
        pos <= s@.len(),
    ensures
        match r {
            Some((p, v)) => spec_vertex_normal_value(s@, pos as int) == Some((p as int, v@)) && pos
                < p <= s@.len(),
            None => spec_vertex_normal_value(s@, pos as int) is None,
        },
{
    match parse_vertex_rule(s, pos, "vn") {
        Some((p, v)) => Some((p, Value::ValueVertexNormal(v))),
        None => None,
    }
}

/// An `f` line as a tagged value.
pub open spec fn spec_triangle_value(s: Seq<char>, pos: int) -> Option<(int, ValueV)> {
    match spec_triangle_rule(s, pos) {
        Some((p, t)) => Some((p, ValueV::ValueTriangle(t))),
        None => None,
    }
}

/// Reads an `f` (face) line.
pub fn parse_triangle_value(s: &str, pos: usize) -> (r: Option<(usize, Value)>)
    requires
        pos <= s@.len(),
    ensures
        match r {
            Some((p, v)) => spec_triangle_value(s@, pos as int) == Some((p as int, v@)) && pos < p
                <= s@.len(),
            None => spec_triangle_value(s@, pos as int) is None,
        },
{
    match parse_triangle_rule(s, pos) {
        Some((p, t)) => Some((p, Value::ValueTriangle(t))),
        None => None,
    }
}

/// A `g` line as a tagged value.
pub open spec fn spec_ValueGroup_value(s: Seq<char>, pos: int) -> Option<(int, ValueV)> {
    match spec_group_rule(s, pos) {
        Some((p, ns)) => Some((p, ValueV::ValueGroup(ns))),
        None => None,
    }
}

/// Reads a `g` (group names) line.
pub fn parse_ValueGroup_value(s: &str, pos: usize) -> (r: Option<(usize, Value)>)
    requires
        pos <= s@.len(),
    ensures
        match r {
            Some((p, v)) => spec_ValueGroup_value(s@, pos as int) == Some((p as int, v@)) && pos
                < p <= s@.len(),
            None => spec_ValueGroup_value(s@, pos as int) is None,
        },
{
    match parse_group_rule(s, pos) {
        Some((p, ns)) => Some((p, Value::ValueGroup(ns))),
        None => None,
    }
}

/// An `s` line as a tagged value.
pub open spec fn spec_smoothing_ValueGroup_value(s: Seq<char>, pos: int) -> Option<(int, ValueV)> {
    match spec_smoothing_rule(s, pos) {
        Some((p, v)) => Some((p, ValueV::ValueSmoothingValueGroup(v))),
        None => None,
    }
}

/// Reads an `s` (smoothing group) line.
pub fn parse_smoothing_ValueGroup_value(s: &str, pos: usize) -> (r: Option<(usize, Value)>)
    requires
        pos <= s@.len(),
    ensures
        match r {
            Some((p, v)) => spec_smoothing_ValueGroup_value(s@, pos as int) == Some(
                (p as int, v@),
            ) && pos < p <= s@.len(),
            None => spec_smoothing_ValueGroup_value(s@, pos as int) is None,
        },
{
    match parse_smoothing_rule(s, pos) {
        Some((p, v)) => Some((p, Value::ValueSmoothingValueGroup(v))),
        None => None,
    }
}

/// One object record, trying each rule in order; the rules are mutually
/// exclusive except that a failed `v` match falls through to `vt` and `vn`.
pub open spec fn spec_object_value(s: Seq<char>, pos: int) -> Option<(int, ValueV)> {
    if spec_material_library_name_value(s, pos) is Some {
        spec_material_library_name_value(s, pos)
    } else if spec_use_material_value(s, pos) is Some {
        spec_use_material_value(s, pos)
    } else if spec_vertex_geometry_value(s, pos) is Some {
        spec_vertex_geometry_value(s, pos)
    } else if spec_vertex_texture_value(s, pos) is Some {
        spec_vertex_texture_value(s, pos)
    } else if spec_vertex_normal_value(s, pos) is Some {
        spec_vertex_normal_value(s, pos)
    } else if spec_triangle_value(s, pos) is Some {
        spec_triangle_value(s, pos)
    } else if spec_ValueGroup_value(s, pos) is Some {
        spec_ValueGroup_value(s, pos)
    } else {
        spec_smoothing_ValueGroup_value(s, pos)
    }
}

/// Reads one object record.
fn parse_object_value(s: &str, pos: usize) -> (r: Option<(usize, Value)>)
    requires
        pos <= s@.len(),
    ensures
        match r {
            Some((p, v)) => spec_object_value(s@, pos as int) == Some((p as int, v@)) && pos < p
                <= s@.len(),
            None => spec_object_value(s@, pos as int) is None,
        },
{
    let r = parse_material_library_name_value(s, pos);
    if r.is_some() {
        return r;
    }
    let r = parse_use_material_value(s, pos);
    if r.is_some() {
        return r;
    }
    let r = parse_vertex_geometry_value(s, pos);
    if r.is_some() {
        return r;
    }
    let r = parse_vertex_texture_value(s, pos);
    if r.is_some() {
        return r;
    }
    let r = parse_vertex_normal_value(s, pos);
    if r.is_some() {
        return r;
    }
    let r = parse_triangle_value(s, pos);
    if r.is_some() {
        return r;
    }
    let r = parse_ValueGroup_value(s, pos);
    if r.is_some() {
        return r;
    }
    let r = parse_smoothing_ValueGroup_value(s, pos);
    if r.is_some() {
        return r;
    }
    None
}

// ---------------------------------------------------------------------------
// The line aggregator
// ---------------------------------------------------------------------------

/// The flat record stream: ignorable lines are consumed around each record,
/// and reading stops at the first text that matches no rule (or at the end).
/// Yields the stop position and the records in file order.
pub open spec fn spec_object_values(s: Seq<char>, pos: int) -> (int, Seq<ValueV>)
    decreases s.len() - pos,
{
    let p1 = spec_skip_ignored(s, pos);
    if 0 <= pos && pos <= p1 <= s.len() {
        match spec_object_value(s, p1) {
            Some((p2, v)) => {
                if p1 < p2 <= s.len() {
                    let (pf, rest) = spec_object_values(s, p2);
                    (pf, seq![v] + rest)
                } else {
                    (p1, Seq::empty())
                }
            },
            None => (p1, Seq::empty()),
        }
    } else {
        (pos, Seq::empty())
    }
}

/// Reads the whole record stream of an object text, returning where reading
/// stopped and the records in file order.
pub fn parse_values(s: &str) -> (r: (usize, Vec<Value>))
    ensures
        ({
            let (pf, vals) = spec_object_values(s@, 0);
            r.0 == pf && view_values(r.1@) == vals && r.0 <= s@.len()
        }),
{
    let mut pos: usize = 0;
    let mut out: Vec<Value> = Vec::new();
    proof {
        assert(view_values(out@) =~= Seq::<ValueV>::empty());
        assert(view_values(out@) + spec_object_values(s@, 0).1 =~= spec_object_values(s@, 0).1);
    }
    loop
        invariant
            pos <= s@.len(),
            spec_object_values(s@, 0).0 == spec_object_values(s@, pos as int).0,
            spec_object_values(s@, 0).1 == view_values(out@) + spec_object_values(
                s@,
                pos as int,
            ).1,
        decreases s@.len() - pos,
    {
        let p1 = skip_ignored(s, pos);
        match parse_object_value(s, p1) {
            Some((p2, v)) => {
                proof {
                    assert(spec_object_values(s@, pos as int).1 == seq![v@] + spec_object_values(
                        s@,
                        p2 as int,
                    ).1);
                    assert(view_values(out@.push(v)) =~= view_values(out@) + seq![v@]);
                    assert(view_values(out@) + (seq![v@] + spec_object_values(s@, p2 as int).1)
                        =~= (view_values(out@) + seq![v@]) + spec_object_values(s@, p2 as int).1);
                }
                out.push(v);
                pos = p2;
            },
            None => {
                proof {
                    assert(view_values(out@) + Seq::<ValueV>::empty() =~= view_values(out@));
                }
                return (p1, out);
            },
        }
    }
}

// ---------------------------------------------------------------------------
// Index resolution
// ---------------------------------------------------------------------------

/// Resolution of one face index against a pool of `n` previously declared
/// vertices: `1..=n` counts from the front, `-n..=-1` from the back, and
/// everything else (zero included) is invalid, whatever the pool holds.
pub open spec fn spec_resolve(pool: Seq<VertexV>, index: int) -> Result<VertexV, Seq<char>> {
    if 1 <= index <= pool.len() {
        Ok(pool[index - 1])
    } else if -pool.len() <= index <= -1 {
        Ok(pool[pool.len() + index])
    } else {
        Err("Invalid index"@)
    }
}

/// Resolves one face index against a pool.
pub fn get_indexed_vertex(list: &Vec<Vertex>, index: isize) -> (r: Result<Vertex, String>)
    ensures
        match r {
            Ok(v) => spec_resolve(list@.map_values(|x: Vertex| x@), index as int) == Ok::<
                VertexV,
                Seq<char>,
            >(v@),
            Err(e) => spec_resolve(list@.map_values(|x: Vertex| x@), index as int) == Err::<
                VertexV,
                Seq<char>,
            >(e@),
        },
{
    let n = list.len();
    if index > 0 {
        let k = index as usize;
        if k <= n {
            proof {
                assert(list@.map_values(|x: Vertex| x@)[index - 1] == list@[index - 1]@);
            }
            Ok(list[k - 1].duplicate())
        } else {
            Err(String::from_str("Invalid index"))
        }
    } else if index < 0 {
        let back = -(index + 1);
        let m = back as usize;
        if m < n {
            proof {
                assert(list@.map_values(|x: Vertex| x@)[list@.len() + index] == list@[list@.len()
                    + index]@);
            }
            Ok(list[n - 1 - m].duplicate())
        } else {
            Err(String::from_str("Invalid index"))
        }
    } else {
        Err(String::from_str("Invalid index"))
    }
}

// ---------------------------------------------------------------------------
// Semantic construction
// ---------------------------------------------------------------------------

/// Resolution of an optional sub-index: an absent index resolves to no
/// vertex, a present one must resolve.
pub open spec fn spec_resolve_opt(pool: Seq<VertexV>, index: Option<isize>) -> Result<
    Option<VertexV>,
    Seq<char>,
> {
    match index {
        None => Ok(None),
        Some(i) => match spec_resolve(pool, i as int) {
            Ok(v) => Ok(Some(v)),
            Err(e) => Err(e),
        },
    }
}

/// One face line resolved against the pools as they stand, stamped with the
/// active material name. The geometric index of each corner is mandatory;
/// the texture and normal indices are resolved only where written.
pub open spec fn spec_make_triangle(
    obj: ObjectV,
    t: TriangleOfVertexTriplets,
    mat: Seq<char>,
) -> Result<TriangleV, Seq<char>> {
    match (
        spec_resolve(obj.raw_vertices, t.v1.v as int),
        spec_resolve(obj.raw_vertices, t.v2.v as int),
        spec_resolve(obj.raw_vertices, t.v3.v as int),
        spec_resolve_opt(obj.raw_vertices_texture, t.v1.vt),
        spec_resolve_opt(obj.raw_vertices_texture, t.v2.vt),
        spec_resolve_opt(obj.raw_vertices_texture, t.v3.vt),
        spec_resolve_opt(obj.raw_vertices_normals, t.v1.vn),
        spec_resolve_opt(obj.raw_vertices_normals, t.v2.vn),
        spec_resolve_opt(obj.raw_vertices_normals, t.v3.vn),
    ) {
        (Ok(v1), Ok(v2), Ok(v3), Ok(vt1), Ok(vt2), Ok(vt3), Ok(vn1), Ok(vn2), Ok(vn3)) => Ok(
            TriangleV { v1, v2, v3, vt1, vt2, vt3, vn1, vn2, vn3, material_name: mat },
        ),
        _ => Err("Invalid index"@),
    }
}

/// Resolves one face line against the pools of `object`.
pub fn construct_triangle_from_triangle_of_triplets(
    object: &Object,
    triangle_of_triplets: &TriangleOfVertexTriplets,
    material_name: &String,
) -> (r: Result<Triangle, String>)
    ensures
        match r {
            Ok(t) => spec_make_triangle(object@, *triangle_of_triplets, material_name@) == Ok::<
                TriangleV,
                Seq<char>,
            >(t@),
            Err(e) => spec_make_triangle(object@, *triangle_of_triplets, material_name@) == Err::<
                TriangleV,
                Seq<char>,
            >(e@),
        },
{
    let t = triangle_of_triplets;
    let v1 = match get_indexed_vertex(&object.raw_vertices, t.v1.v) {
        Ok(v) => v,
        Err(e) => {
            return Err(e);
        },
    };
    let v2 = match get_indexed_vertex(&object.raw_vertices, t.v2.v) {
        Ok(v) => v,
        Err(e) => {
            return Err(e);
        },
    };
    let v3 = match get_indexed_vertex(&object.raw_vertices, t.v3.v) {
        Ok(v) => v,
        Err(e) => {
            return Err(e);
        },
    };
    let vt1 = match t.v1.vt {
        None => None,
        Some(i) => match get_indexed_vertex(&object.raw_vertices_texture, i) {
            Ok(v) => Some(v),
            Err(e) => {
                return Err(e);
            },
        },
    };
    let vt2 = match t.v2.vt {
        None => None,
        Some(i) => match get_indexed_vertex(&object.raw_vertices_texture, i) {
            Ok(v) => Some(v),
            Err(e) => {
                return Err(e);
            },
        },
    };
    let vt3 = match t.v3.vt {
        None => None,
        Some(i) => match get_indexed_vertex(&object.raw_vertices_texture, i) {
            Ok(v) => Some(v),
            Err(e) => {
                return Err(e);
            },
        },
    };
    let vn1 = match t.v1.vn {
        None => None,
        Some(i) => match get_indexed_vertex(&object.raw_vertices_normals, i) {
            Ok(v) => Some(v),
            Err(e) => {
                return Err(e);
            },
        },
    };
    let vn2 = match t.v2.vn {
        None => None,
        Some(i) => match get_indexed_vertex(&object.raw_vertices_normals, i) {
            Ok(v) => Some(v),
            Err(e) => {
                return Err(e);
            },
        },
    };
    let vn3 = match t.v3.vn {
        None => None,
        Some(i) => match get_indexed_vertex(&object.raw_vertices_normals, i) {
            Ok(v) => Some(v),
            Err(e) => {
                return Err(e);
            },
        },
    };
    Ok(
        Triangle {
            v1,
            v2,
            v3,
            vt1,
            vt2,
            vt3,
            vn1,
            vn2,
            vn3,
            materialName: material_name.clone(),
        },
    )
}

/// The construction state: the object accumulated so far and the material
/// name most recently made active.
pub open spec fn spec_object_step(
    obj: ObjectV,
    mat: Seq<char>,
    v: ValueV,
) -> Result<(ObjectV, Seq<char>), Seq<char>> {
    match v {
        ValueV::ValueUseMaterialName(n) => Ok((obj, n)),
        ValueV::ValueVertexGeometric(vx) => Ok(
            (
                ObjectV {
                    raw_vertices: obj.raw_vertices.push(vx),
                    ..obj
                },
                mat,
            ),
        ),
        ValueV::ValueVertexTexture(vx) => Ok(
            (
                ObjectV {
                    raw_vertices_texture: obj.raw_vertices_texture.push(vx),
                    ..obj
                },
                mat,
            ),
        ),
        ValueV::ValueVertexNormal(vx) => Ok(
            (
                ObjectV {
                    raw_vertices_normals: obj.raw_vertices_normals.push(vx),
                    ..obj
                },
                mat,
            ),
        ),
        ValueV::ValueTriangle(t) => match spec_make_triangle(obj, t, mat) {
            Ok(tri) => Ok(
                (
                    ObjectV {
                        triangles: obj.triangles.push(tri),
                        ..obj
                    },
                    mat,
                ),
            ),
            Err(e) => Err(e),
        },
        _ => Ok((obj, mat)),
    }
}

/// The record stream applied left to right to the empty object; the first
/// failed resolution aborts the whole construction.
pub open spec fn spec_object_fold(
    obj: ObjectV,
    mat: Seq<char>,
    vs: Seq<ValueV>,
) -> Result<(ObjectV, Seq<char>), Seq<char>>
    decreases vs.len(),
{
    if vs.len() == 0 {
        Ok((obj, mat))
    } else {
        match spec_object_step(obj, mat, vs[0]) {
            Ok((obj2, mat2)) => spec_object_fold(obj2, mat2, vs.drop_first()),
            Err(e) => Err(e),
        }
    }
}

/// The empty object.
pub open spec fn spec_empty_object() -> ObjectV {
    ObjectV {
        triangles: Seq::empty(),
        raw_vertices: Seq::empty(),
        raw_vertices_texture: Seq::empty(),
        raw_vertices_normals: Seq::empty(),
    }
}

/// The whole record stream resolved into an object, starting with empty
/// pools and an empty material name.
pub open spec fn spec_construct_object(vs: Seq<ValueV>) -> Result<ObjectV, Seq<char>> {
    match spec_object_fold(spec_empty_object(), Seq::empty(), vs) {
        Ok((obj, mat)) => Ok(obj),
        Err(e) => Err(e),
    }
}

/// Builds the object from the record stream, resolving each face against
/// the pools as they stand when its line is reached.
pub fn construct_object_struct(values: &Vec<Value>) -> (r: Result<Object, String>)
    ensures
        match r {
            Ok(o) => spec_construct_object(view_values(values@)) == Ok::<ObjectV, Seq<char>>(o@),
            Err(e) => spec_construct_object(view_values(values@)) == Err::<ObjectV, Seq<char>>(
                e@,
            ),
        },
{
    let ghost vs = view_values(values@);
    let mut object = Object {
        triangles: Vec::new(),
        raw_vertices: Vec::new(),
        raw_vertices_texture: Vec::new(),
        raw_vertices_normals: Vec::new(),
    };
    let mut material_name = String::new();
    let mut i: usize = 0;
    proof {
        assert(vs.skip(0) =~= vs);
        assert(object@.triangles =~= spec_empty_object().triangles);
        assert(object@.raw_vertices =~= spec_empty_object().raw_vertices);
        assert(object@.raw_vertices_texture =~= spec_empty_object().raw_vertices_texture);
        assert(object@.raw_vertices_normals =~= spec_empty_object().raw_vertices_normals);
    }
    while i < values.len()
        invariant
            0 <= i <= values@.len(),
            vs == view_values(values@),
            vs.len() == values@.len(),
            spec_object_fold(spec_empty_object(), Seq::empty(), vs) == spec_object_fold(
                object@,
                material_name@,
                vs.skip(i as int),
            ),
        decreases values@.len() - i,
    {
        proof {
            assert(vs.skip(i as int)[0] == vs[i as int]);
            assert(vs[i as int] == values@[i as int]@);
            assert(vs.skip(i as int).drop_first() =~= vs.skip(i + 1));
        }
        match &values[i] {
            Value::ValueUseMaterialName(value_name) => {
                material_name = value_name.clone();
            },
            Value::ValueVertexGeometric(value_vertex) => {
                let ghost before = object@;
                let v = value_vertex.duplicate();
                proof {
                    assert(object.raw_vertices@.push(v).map_values(|x: Vertex| x@)
                        =~= before.raw_vertices.push(v@));
                }
                object.raw_vertices.push(v);
            },
            Value::ValueVertexTexture(value_vertex) => {
                let ghost before = object@;
                let v = value_vertex.duplicate();
                proof {
                    assert(object.raw_vertices_texture@.push(v).map_values(|x: Vertex| x@)
                        =~= before.raw_vertices_texture.push(v@));
                }
                object.raw_vertices_texture.push(v);
            },
            Value::ValueVertexNormal(value_vertex) => {
                let ghost before = object@;
                let v = value_vertex.duplicate();
                proof {
                    assert(object.raw_vertices_normals@.push(v).map_values(|x: Vertex| x@)
                        =~= before.raw_vertices_normals.push(v@));
                }
                object.raw_vertices_normals.push(v);
            },
            Value::ValueTriangle(triangle_of_triplets) => {
                let ghost before = object@;
                match construct_triangle_from_triangle_of_triplets(
                    &object,
                    triangle_of_triplets,
                    &material_name,
                ) {
                    Ok(triangle) => {
                        proof {
                            assert(object.triangles@.push(triangle).map_values(|t: Triangle| t@)
                                =~= before.triangles.push(triangle@));
                        }
                        object.triangles.push(triangle);
                    },
                    Err(e) => {
                        return Err(e);
                    },
                }
            },
            _ => {},
        }
        i = i + 1;
    }
    proof {
        assert(vs.skip(i as int) =~= Seq::<ValueV>::empty());
    }
    Ok(object)
}

// ---------------------------------------------------------------------------
// The leftover diagnostic
// ---------------------------------------------------------------------------

/// The decimal digit characters of one byte value, most significant first,
/// without leading zeros.
pub open spec fn spec_dec_digit(d: nat) -> char {
    if d == 0 {
        '0'
    } else if d == 1 {
        '1'
    } else if d == 2 {
        '2'
    } else if d == 3 {
        '3'
    } else if d == 4 {
        '4'
    } else if d == 5 {
        '5'
    } else if d == 6 {
        '6'
    } else if d == 7 {
        '7'
    } else if d == 8 {
        '8'
    } else {
        '9'
    }
}

/// The decimal rendering of one byte.
pub open spec fn spec_dec_u8(b: u8) -> Seq<char> {
    if b < 10 {
        seq![spec_dec_digit(b as nat)]
    } else if b < 100 {
        seq![spec_dec_digit(b as nat / 10), spec_dec_digit(b as nat % 10)]
    } else {
        seq![
            spec_dec_digit(b as nat / 100),
            spec_dec_digit((b as nat / 10) % 10),
            spec_dec_digit(b as nat % 10),
        ]
    }
}

/// The byte values rendered in decimal, separated by comma and space: the
/// way the unread remainder's bytes appear in the parse diagnostic.
pub open spec fn spec_bytes_list(bs: Seq<u8>) -> Seq<char>
    decreases bs.len(),
{
    if bs.len() == 0 {
        Seq::empty()
    } else if bs.len() == 1 {
        spec_dec_u8(bs[0])
    } else {
        spec_bytes_list(bs.drop_last()) + ", "@ + spec_dec_u8(bs.last())
    }
}

/// One decimal digit as text.
fn dec_digit_str(d: u8) -> (r: &'static str)
    requires
        d < 10,
    ensures
        r@ == seq![spec_dec_digit(d as nat)],
{
    proof {
        reveal_strlit("0");
        reveal_strlit("1");
        reveal_strlit("2");
        reveal_strlit("3");
        reveal_strlit("4");
        reveal_strlit("5");
        reveal_strlit("6");
        reveal_strlit("7");
        reveal_strlit("8");
        reveal_strlit("9");
    }
    let r = match d {
        0 => "0",
        1 => "1",
        2 => "2",
        3 => "3",
        4 => "4",
        5 => "5",
        6 => "6",
        7 => "7",
        8 => "8",
        _ => "9",
    };
    proof {
        assert(r@ =~= seq![spec_dec_digit(d as nat)]);
    }
    r
}

/// Appends the decimal rendering of one byte.
fn push_dec_u8(out: &mut String, b: u8)
    ensures
        final(out)@ == old(out)@ + spec_dec_u8(b),
{
    if b >= 100 {
        out.append(dec_digit_str(b / 100));
        out.append(dec_digit_str((b / 10) % 10));
        out.append(dec_digit_str(b % 10));
        assert(out@ =~= old(out)@ + spec_dec_u8(b));

    } else if b >= 10 {
        out.append(dec_digit_str(b / 10));
        out.append(dec_digit_str(b % 10));
        assert(out@ =~= old(out)@ + spec_dec_u8(b));
    } else {
        out.append(dec_digit_str(b));
        assert(out@ =~= old(out)@ + spec_dec_u8(b));
    }
}

/// The diagnostic for text no rule matched: it names the unread remainder
/// byte for byte.
pub open spec fn spec_leftover_message(s: Seq<char>, p: int) -> Seq<char> {
    "Parser error: Failed parsing everything. Leftover: ["@ + spec_bytes_list(
        vstd::utf8::encode_utf8(s.subrange(p, s.len() as int)),
    ) + "]"@
}

/// Renders the leftover diagnostic for the remainder starting at `p`.
fn leftover_message(s: &str, p: usize) -> (r: String)
    requires
        p <= s@.len(),
    ensures
        r@ == spec_leftover_message(s@, p as int),
{
    let n = s.unicode_len();
    let rest = s.substring_char(p, n);
    let bytes: &[u8] = rest.as_bytes();
    let ghost bs = bytes@;
    let mut out = String::from_str("Parser error: Failed parsing everything. Leftover: [");
    let m = bytes.len();
    let mut i: usize = 0;
    proof {
        assert(bs =~= vstd::utf8::encode_utf8(s@.subrange(p as int, s@.len() as int)));
        assert(bs.take(0) =~= Seq::<u8>::empty());
        assert(out@ + spec_bytes_list(bs.take(0)) =~= out@);
    }
    let ghost prefix = out@;
    while i < m
        invariant
            0 <= i <= m,
            m == bs.len(),
            bs == bytes@,
            out@ == prefix + spec_bytes_list(bs.take(i as int)),
        decreases m - i,
    {
        proof {
            assert(bs.take(i + 1).drop_last() =~= bs.take(i as int));
            assert(bs.take(i + 1).last() == bs[i as int]);
        }
        if i > 0 {
            out.append(", ");
        }
        let b = bytes[i];
        push_dec_u8(&mut out, b);
        proof {
            if i == 0 {
                assert(spec_bytes_list(bs.take(1)) == spec_dec_u8(bs[0]));
                assert(out@ =~= prefix + spec_bytes_list(bs.take(1)));
            } else {
                assert(spec_bytes_list(bs.take(i + 1)) == spec_bytes_list(bs.take(i as int))
                    + ", "@ + spec_dec_u8(bs[i as int]));
                assert(out@ =~= prefix + spec_bytes_list(bs.take(i + 1)));
            }
        }
        i = i + 1;
    }
    proof {
        assert(bs.take(m as int) =~= bs);
    }
    out.append("]");
    out
}

// ---------------------------------------------------------------------------
// The public entry point
// ---------------------------------------------------------------------------

/// A whole object text: the record stream must cover the text, and every
/// face must resolve against the pools as they stood at its line. Text that
/// matches no rule fails the parse with a diagnostic naming the exact
/// unread bytes.
pub open spec fn spec_parse_object(s: Seq<char>) -> Result<ObjectV, Seq<char>> {
    let (p, vals) = spec_object_values(s, 0);
    if p == s.len() {
        spec_construct_object(vals)
    } else {
        Err(spec_leftover_message(s, p))
    }
}

/// Parses an object (`.obj`) text into a fully resolved [`Object`].
pub fn parse_object(input: &str) -> (r: Result<Object, String>)
    ensures
        match r {
            Ok(o) => spec_parse_object(input@) == Ok::<ObjectV, Seq<char>>(o@),
            Err(e) => spec_parse_object(input@) == Err::<ObjectV, Seq<char>>(e@),
        },
{
    let (p, values) = parse_values(input);
    let n = input.unicode_len();
    if p != n {
        Err(leftover_message(input, p))
    } else {
        construct_object_struct(&values)
    }
}


// ---------------------------------------------------------------------------
// Laws of index resolution and of the record stream
// ---------------------------------------------------------------------------

/// For a non-empty pool, index `1` resolves to the first element and index
/// `-1` to the last.
pub proof fn lemma_resolve_first_last(pool: Seq<VertexV>)
    requires
        pool.len() >= 1,
    ensures
        spec_resolve(pool, 1) == Ok::<VertexV, Seq<char>>(pool.first()),
        spec_resolve(pool, -1) == Ok::<VertexV, Seq<char>>(pool.last()),
{
}

/// Index `0` fails against every pool, the empty one included.
pub proof fn lemma_resolve_zero_fails(pool: Seq<VertexV>)
    ensures
        spec_resolve(pool, 0) == Err::<VertexV, Seq<char>>("Invalid index"@),
{
}

/// Indices one past either end of a pool of size `n` fail.
pub proof fn lemma_resolve_out_of_range_fails(pool: Seq<VertexV>)
    ensures
        spec_resolve(pool, pool.len() as int + 1) == Err::<VertexV, Seq<char>>("Invalid index"@),
        spec_resolve(pool, -(pool.len() as int) - 1) == Err::<VertexV, Seq<char>>("Invalid index"@),
{
}

/// An ignorable line is transparent to the record stream: the records and
/// the stop position read from its start equal those read from just past
/// it. Blank lines and comments between records therefore never change a
/// parse.
pub proof fn lemma_object_values_skip_ignored_line(s: Seq<char>, pos: int)
    requires
        0 <= pos <= s.len(),
        spec_ignored_line(s, pos) is Some,
    ensures
        spec_object_values(s, pos) == spec_object_values(s, spec_ignored_line(s, pos)->0),
{
    crate::parser_utilities::lemma_ignored_line_bounds(s, pos);
    let p = spec_ignored_line(s, pos)->0;
    crate::parser_utilities::lemma_skip_ignored_bounds(s, pos);
    crate::parser_utilities::lemma_skip_ignored_bounds(s, p);
    if p != pos {
        assert(spec_skip_ignored(s, pos) == spec_skip_ignored(s, p));
    }
}

} // verus!
