//! The material (`.mtl`) grammar: one rule per record kind, the line
//! aggregator, and the semantic constructor that groups the flat record
//! stream into validated [`Material`] structures.

use vstd::prelude::*;
use vstd::string::StringExecFns;

use crate::parser_utilities::{
    Number, NumberV, parse_ignored_line, parse_number, parse_token_rule, skip_digits, skip_spaces,
    match_tag, spec_ignored_line, spec_number, spec_skip_digits, spec_skip_ignored,
    spec_skip_spaces, spec_tag, spec_token_rule, skip_ignored,
};

verus! {

// ---------------------------------------------------------------------------
// Domain types
// ---------------------------------------------------------------------------

/// An RGB colour as written on a `Ka`/`Kd`/`Ks`/`Tf` line. When the line
/// gives fewer than three components, the red component stands in for the
/// missing ones.
#[derive(Debug, PartialEq, Eq)]
pub struct Color {
    pub r: Number,
    pub g: Number,
    pub b: Number,
}

/// The mathematical shape of a [`Color`].
pub struct ColorV {
    pub r: NumberV,
    pub g: NumberV,
    pub b: NumberV,
}

impl View for Color {
    type V = ColorV;

    open spec fn view(&self) -> ColorV {
        ColorV { r: self.r@, g: self.g@, b: self.b@ }
    }
}

impl Color {
    /// An owned copy holding the same characters.
    pub fn duplicate(&self) -> (c: Color)
        ensures
            c@ == self@,
    {
        Color { r: self.r.duplicate(), g: self.g.duplicate(), b: self.b.duplicate() }
    }
}

/// The eleven illumination models an `illum` line may name.
#[derive(Debug, Clone, Copy, PartialEq, Eq)]
pub enum Illumination {
    ColorOnAmbientOff,
    ColorOnAmbientOn,
    HighlightOn,
    ReflectionOnAndRayTraceOn,
    TransparencyGlassOnReflectionRayTraceOn,
    ReflectionFresnelOnAndRayTraceOn,
    TransparencyRefractionOnReflectionFresnelOffAndRayTraceOn,
    TransparencyRefractionOnReflectionFresnelOnAndRayTraceOn,
    TeflectionOnAndRayTraceOff,
    TransparencyGlassOnReflectionRayTraceOff,
    CastsShadowsOntoInvisibleSurfaces,
}

/// One parsed, not yet validated material line.
#[derive(Debug, PartialEq)]
pub enum Value {
    Name(String),
    ColorAmbient(Color),
    ColorDiffuse(Color),
    ColorSpecular(Color),
    ColorTransmission(Color),
    Illum(Illumination),
    Alpha(Number),
    SpecularCoefficient(Number),
    OpticalDensity(Number),
}

/// The mathematical shape of a [`Value`].
pub enum ValueV {
    Name(Seq<char>),
    ColorAmbient(ColorV),
    ColorDiffuse(ColorV),
    ColorSpecular(ColorV),
    ColorTransmission(ColorV),
    Illum(Illumination),
    Alpha(NumberV),
    SpecularCoefficient(NumberV),
    OpticalDensity(NumberV),
}

impl View for Value {
    type V = ValueV;

    open spec fn view(&self) -> ValueV {
        match self {
            Value::Name(n) => ValueV::Name(n@),
            Value::ColorAmbient(c) => ValueV::ColorAmbient(c@),
            Value::ColorDiffuse(c) => ValueV::ColorDiffuse(c@),
            Value::ColorSpecular(c) => ValueV::ColorSpecular(c@),
            Value::ColorTransmission(c) => ValueV::ColorTransmission(c@),
            Value::Illum(i) => ValueV::Illum(*i),
            Value::Alpha(a) => ValueV::Alpha(a@),
            Value::SpecularCoefficient(c) => ValueV::SpecularCoefficient(c@),
            Value::OpticalDensity(d) => ValueV::OpticalDensity(d@),
        }
    }
}

/// One named shading definition, validated: the name and the three base
/// colours are present exactly once, the remaining fields at most once.
#[derive(Debug, PartialEq)]
pub struct Material {
    pub name: String,
    pub color_ambient: Color,
    pub color_diffuse: Color,
    pub color_specular: Color,
    pub color_transmission: Option<Color>,
    pub illumination: Option<Illumination>,
    pub alpha: Option<Number>,
    pub specular_coefficient: Option<Number>,
    pub optical_density: Option<Number>,
}

/// The mathematical shape of a [`Material`].
pub struct MaterialV {
    pub name: Seq<char>,
    pub color_ambient: ColorV,
    pub color_diffuse: ColorV,
    pub color_specular: ColorV,
    pub color_transmission: Option<ColorV>,
    pub illumination: Option<Illumination>,
    pub alpha: Option<NumberV>,
    pub specular_coefficient: Option<NumberV>,
    pub optical_density: Option<NumberV>,
}

impl View for Material {
    type V = MaterialV;

    open spec fn view(&self) -> MaterialV {
        MaterialV {
            name: self.name@,
            color_ambient: self.color_ambient@,
            color_diffuse: self.color_diffuse@,
            color_specular: self.color_specular@,
            color_transmission: match &self.color_transmission {
                Some(c) => Some(c@),
                None => None,
            },
            illumination: self.illumination,
            alpha: match &self.alpha {
                Some(a) => Some(a@),
                None => None,
            },
            specular_coefficient: match &self.specular_coefficient {
                Some(c) => Some(c@),
                None => None,
            },
            optical_density: match &self.optical_density {
                Some(d) => Some(d@),
                None => None,
            },
        }
    }
}

/// The view of a sequence of parsed values.
pub open spec fn view_values(vs: Seq<Value>) -> Seq<ValueV> {
    vs.map_values(|v: Value| v@)
}

// ---------------------------------------------------------------------------
// Colour components
// ---------------------------------------------------------------------------

/// One to three number literals after a colour tag, each preceded by
/// optional spaces. A missing green or blue component is replaced by the
/// red one (blue falls back to red even when green is present).
pub open spec fn spec_color(s: Seq<char>, pos: int) -> Option<(int, ColorV)> {
    let p = spec_skip_spaces(s, pos);
    match spec_number(s, p) {
        None => None,
        Some((p1, red)) => {
            let p2 = spec_skip_spaces(s, p1);
            match spec_number(s, p2) {
                None => Some((p2, ColorV { r: red, g: red, b: red })),
                Some((p3, green)) => {
                    let p4 = spec_skip_spaces(s, p3);
                    match spec_number(s, p4) {
                        None => Some((p4, ColorV { r: red, g: green, b: red })),
                        Some((p5, blue)) => Some((p5, ColorV { r: red, g: green, b: blue })),
                    }
                },
            }
        },
    }
}

/// Reads the colour components after a colour tag.
fn parse_color(s: &str, pos: usize) -> (r: Option<(usize, Color)>)
    requires
        pos <= s@.len(),
    ensures
        match r {
            Some((p, c)) => spec_color(s@, pos as int) == Some((p as int, c@)) && pos <= p
                <= s@.len(),
            None => spec_color(s@, pos as int) is None,
        },
{
    let p = skip_spaces(s, pos);
    match parse_number(s, p) {
        None => None,
        Some((p1, red)) => {
            let p2 = skip_spaces(s, p1);
            match parse_number(s, p2) {
                None => {
                    let g = red.duplicate();
                    let b = red.duplicate();
                    Some((p2, Color { r: red, g, b }))
                },
                Some((p3, green)) => {
                    let p4 = skip_spaces(s, p3);
                    match parse_number(s, p4) {
                        None => {
                            let b = red.duplicate();
                            Some((p4, Color { r: red, g: green, b }))
                        },
                        Some((p5, blue)) => Some((p5, Color { r: red, g: green, b: blue })),
                    }
                },
            }
        },
    }
}

/// A colour directive: optional spaces, the tag (`Ka`, `Kd`, `Ks` or `Tf`),
/// the colour components, then the rest of the line ignorable.
pub open spec fn spec_color_rule(s: Seq<char>, pos: int, tag: Seq<char>) -> Option<(int, ColorV)> {
    let p = spec_skip_spaces(s, pos);
    if spec_tag(s, p, tag) {
        match spec_color(s, p + tag.len()) {
            Some((q, c)) => match spec_ignored_line(s, q) {
                Some(e) => Some((e, c)),
                None => None,
            },
            None => None,
        }
    } else {
        None
    }
}

/// Reads one colour directive.
fn parse_color_rule(s: &str, pos: usize, tag: &str) -> (r: Option<(usize, Color)>)
    requires
        pos <= s@.len(),
        tag@.len() >= 1,
    ensures
        match r {
            Some((p, c)) => spec_color_rule(s@, pos as int, tag@) == Some((p as int, c@)) && pos
                < p <= s@.len(),
            None => spec_color_rule(s@, pos as int, tag@) is None,
        },
{
    let n = s.unicode_len();
    let p = skip_spaces(s, pos);
    if !match_tag(s, p, tag) {
        return None;
    }
    assert(p + tag@.len() <= n);
    match parse_color(s, p + tag.unicode_len()) {
        Some((q, c)) => match parse_ignored_line(s, q) {
            Some(e) => Some((e, c)),
            None => None,
        },
        None => None,
    }
}

// ---------------------------------------------------------------------------
// Scalar directives
// ---------------------------------------------------------------------------

/// A scalar directive: optional spaces, the tag (`d`, `Ns` or `Ni`),
/// optional spaces, one number, optional spaces, then the rest of the line
/// ignorable.
pub open spec fn spec_scalar_rule(s: Seq<char>, pos: int, tag: Seq<char>) -> Option<
    (int, NumberV),
> {
    let p = spec_skip_spaces(s, pos);
    if spec_tag(s, p, tag) {
        let p2 = spec_skip_spaces(s, p + tag.len());
        match spec_number(s, p2) {
            Some((p3, v)) => {
                let p4 = spec_skip_spaces(s, p3);
                match spec_ignored_line(s, p4) {
                    Some(e) => Some((e, v)),
                    None => None,
                }
            },
            None => None,
        }
    } else {
        None
    }
}

/// Reads one scalar directive.
fn parse_scalar_rule(s: &str, pos: usize, tag: &str) -> (r: Option<(usize, Number)>)
    requires
        pos <= s@.len(),
        tag@.len() >= 1,
    ensures
        match r {
            Some((p, v)) => spec_scalar_rule(s@, pos as int, tag@) == Some((p as int, v@)) && pos
                < p <= s@.len(),
            None => spec_scalar_rule(s@, pos as int, tag@) is None,
        },
{
    let n = s.unicode_len();
    let p = skip_spaces(s, pos);
    if !match_tag(s, p, tag) {
        return None;
    }
    assert(p + tag@.len() <= n);
    let p2 = skip_spaces(s, p + tag.unicode_len());
    match parse_number(s, p2) {
        Some((p3, v)) => {
            let p4 = skip_spaces(s, p3);
            match parse_ignored_line(s, p4) {
                Some(e) => Some((e, v)),
                None => None,
            }
        },
        None => None,
    }
}

// ---------------------------------------------------------------------------
// Illumination directive
// ---------------------------------------------------------------------------

/// The illumination model named by a run of digits, for runs `0` through
/// `10`; any other run names none.
pub open spec fn illum_of_digits(run: Seq<char>) -> Option<Illumination> {
    if run.len() == 1 {
        if run[0] == '0' {
            Some(Illumination::ColorOnAmbientOff)
        } else if run[0] == '1' {
            Some(Illumination::ColorOnAmbientOn)
        } else if run[0] == '2' {
            Some(Illumination::HighlightOn)
        } else if run[0] == '3' {
            Some(Illumination::ReflectionOnAndRayTraceOn)
        } else if run[0] == '4' {
            Some(Illumination::TransparencyGlassOnReflectionRayTraceOn)
        } else if run[0] == '5' {
            Some(Illumination::ReflectionFresnelOnAndRayTraceOn)
        } else if run[0] == '6' {
            Some(Illumination::TransparencyRefractionOnReflectionFresnelOffAndRayTraceOn)
        } else if run[0] == '7' {
            Some(Illumination::TransparencyRefractionOnReflectionFresnelOnAndRayTraceOn)
        } else if run[0] == '8' {
            Some(Illumination::TeflectionOnAndRayTraceOff)
        } else if run[0] == '9' {
            Some(Illumination::TransparencyGlassOnReflectionRayTraceOff)
        } else {
            None
        }
    } else if run.len() == 2 && run[0] == '1' && run[1] == '0' {
        Some(Illumination::CastsShadowsOntoInvisibleSurfaces)
    } else {
        None
    }
}

/// An `illum` directive: optional spaces, `illum`, optional spaces, a digit
/// run naming one of the eleven models, then the rest of the line
/// ignorable. A digit run outside `0..=10` matches no rule, so its line
/// fails the whole parse.
pub open spec fn spec_illum_rule(s: Seq<char>, pos: int) -> Option<(int, Illumination)> {
    let p = spec_skip_spaces(s, pos);
    if spec_tag(s, p, "illum"@) {
        let p2 = spec_skip_spaces(s, p + "illum"@.len());
        let q = spec_skip_digits(s, p2);
        match illum_of_digits(s.subrange(p2, q)) {
            Some(v) => match spec_ignored_line(s, q) {
                Some(e) => Some((e, v)),
                None => None,
            },
            None => None,
        }
    } else {
        None
    }
}

/// Reads one `illum` directive.
fn parse_illum_rule(s: &str, pos: usize) -> (r: Option<(usize, Illumination)>)
    requires
        pos <= s@.len(),
    ensures
        match r {
            Some((p, v)) => spec_illum_rule(s@, pos as int) == Some((p as int, v)) && pos < p
                <= s@.len(),
            None => spec_illum_rule(s@, pos as int) is None,
        },
{
    let n = s.unicode_len();
    let p = skip_spaces(s, pos);
    if !match_tag(s, p, "illum") {
        return None;
    }
    assert(p + "illum"@.len() <= n);
    let p2 = skip_spaces(s, p + "illum".unicode_len());
    let q = skip_digits(s, p2);
    let ghost run = s@.subrange(p2 as int, q as int);
    let run_len = q - p2;
    let variant: Option<Illumination> = if run_len == 1 {
        let c = s.get_char(p2);
        proof {
            assert(run.len() == 1 && run[0] == s@[p2 as int]);
        }
        if c == '0' {
            Some(Illumination::ColorOnAmbientOff)
        } else if c == '1' {
            Some(Illumination::ColorOnAmbientOn)
        } else if c == '2' {
            Some(Illumination::HighlightOn)
        } else if c == '3' {
            Some(Illumination::ReflectionOnAndRayTraceOn)
        } else if c == '4' {
            Some(Illumination::TransparencyGlassOnReflectionRayTraceOn)
        } else if c == '5' {
            Some(Illumination::ReflectionFresnelOnAndRayTraceOn)
        } else if c == '6' {
            Some(Illumination::TransparencyRefractionOnReflectionFresnelOffAndRayTraceOn)
        } else if c == '7' {
            Some(Illumination::TransparencyRefractionOnReflectionFresnelOnAndRayTraceOn)
        } else if c == '8' {
            Some(Illumination::TeflectionOnAndRayTraceOff)
        } else if c == '9' {
            Some(Illumination::TransparencyGlassOnReflectionRayTraceOff)
        } else {
            None
        }
    } else if run_len == 2 {
        let c1 = s.get_char(p2);
        let c2 = s.get_char(p2 + 1);
        proof {
            assert(run.len() == 2 && run[0] == s@[p2 as int] && run[1] == s@[p2 + 1]);
        }
        if c1 == '1' && c2 == '0' {
            Some(Illumination::CastsShadowsOntoInvisibleSurfaces)
        } else {
            None
        }
    } else {
        proof {
            assert(run.len() != 1 && run.len() != 2);
        }
        None
    };
    assert(variant == illum_of_digits(run));
    match variant {
        Some(v) => match parse_ignored_line(s, q) {
            Some(e) => Some((e, v)),
            None => None,
        },
        None => None,
    }
}

// ---------------------------------------------------------------------------
// The per-line value rules
// ---------------------------------------------------------------------------

/// A `newmtl` line as a tagged value.
pub open spec fn spec_name_value(s: Seq<char>, pos: int) -> Option<(int, ValueV)> {
    match spec_token_rule(s, pos, "newmtl"@) {
        Some((p, name)) => Some((p, ValueV::Name(name))),
        None => None,
    }
}

/// Reads a `newmtl` line.
pub fn parse_name_value(s: &str, pos: usize) -> (r: Option<(usize, Value)>)
    requires
        pos <= s@.len(),
    ensures
        match r {
            Some((p, v)) => spec_name_value(s@, pos as int) == Some((p as int, v@)) && pos < p
                <= s@.len(),
            None => spec_name_value(s@, pos as int) is None,
        },
{
    match parse_token_rule(s, pos, "newmtl") {
        Some((p, name)) => Some((p, Value::Name(name))),
        None => None,
    }
}

/// A `Ka` line as a tagged value.
pub open spec fn spec_color_ambient_value(s: Seq<char>, pos: int) -> Option<(int, ValueV)> {
    match spec_color_rule(s, pos, "Ka"@) {
        Some((p, c)) => Some((p, ValueV::ColorAmbient(c))),
        None => None,
    }
}

/// Reads a `Ka` (ambient colour) line.
pub fn parse_color_ambient_value(s: &str, pos: usize) -> (r: Option<(usize, Value)>)
    requires
        pos <= s@.len(),
    ensures
        match r {
            Some((p, v)) => spec_color_ambient_value(s@, pos as int) == Some((p as int, v@)) && pos
                < p <= s@.len(),
            None => spec_color_ambient_value(s@, pos as int) is None,
        },
{
    proof {
        reveal_strlit("Ka");
    }
    match parse_color_rule(s, pos, "Ka") {
        Some((p, c)) => Some((p, Value::ColorAmbient(c))),
        None => None,
    }
}

/// A `Kd` line as a tagged value.
pub open spec fn spec_color_diffuse_value(s: Seq<char>, pos: int) -> Option<(int, ValueV)> {
    match spec_color_rule(s, pos, "Kd"@) {
        Some((p, c)) => Some((p, ValueV::ColorDiffuse(c))),
        None => None,
    }
}

/// Reads a `Kd` (diffuse colour) line.
pub fn parse_color_diffuse_value(s: &str, pos: usize) -> (r: Option<(usize, Value)>)
    requires
        pos <= s@.len(),
    ensures
        match r {
            Some((p, v)) => spec_color_diffuse_value(s@, pos as int) == Some((p as int, v@)) && pos
                < p <= s@.len(),
            None => spec_color_diffuse_value(s@, pos as int) is None,
        },
{
    proof {
        reveal_strlit("Kd");
    }
    match parse_color_rule(s, pos, "Kd") {
        Some((p, c)) => Some((p, Value::ColorDiffuse(c))),
        None => None,
    }
}

/// A `Ks` line as a tagged value.
pub open spec fn spec_color_specular_value(s: Seq<char>, pos: int) -> Option<(int, ValueV)> {
    match spec_color_rule(s, pos, "Ks"@) {
        Some((p, c)) => Some((p, ValueV::ColorSpecular(c))),
        None => None,
    }
}

/// Reads a `Ks` (specular colour) line.
pub fn parse_color_specular_value(s: &str, pos: usize) -> (r: Option<(usize, Value)>)
    requires
        pos <= s@.len(),
    ensures
        match r {
            Some((p, v)) => spec_color_specular_value(s@, pos as int) == Some((p as int, v@))
                && pos < p <= s@.len(),
            None => spec_color_specular_value(s@, pos as int) is None,
        },
{
    proof {
        reveal_strlit("Ks");
    }
    match parse_color_rule(s, pos, "Ks") {
        Some((p, c)) => Some((p, Value::ColorSpecular(c))),
        None => None,
    }
}

/// A `Tf` line as a tagged value.
pub open spec fn spec_color_transmission_value(s: Seq<char>, pos: int) -> Option<(int, ValueV)> {
    match spec_color_rule(s, pos, "Tf"@) {
        Some((p, c)) => Some((p, ValueV::ColorTransmission(c))),
        None => None,
    }
}

/// Reads a `Tf` (transmission colour) line.
pub fn parse_color_transmission_value(s: &str, pos: usize) -> (r: Option<(usize, Value)>)
    requires
        pos <= s@.len(),
    ensures
        match r {
            Some((p, v)) => spec_color_transmission_value(s@, pos as int) == Some((p as int, v@))
                && pos < p <= s@.len(),
            None => spec_color_transmission_value(s@, pos as int) is None,
        },
{
    proof {
        reveal_strlit("Tf");
    }
    match parse_color_rule(s, pos, "Tf") {
        Some((p, c)) => Some((p, Value::ColorTransmission(c))),
        None => None,
    }
}

/// An `illum` line as a tagged value.
pub open spec fn spec_illum_value(s: Seq<char>, pos: int) -> Option<(int, ValueV)> {
    match spec_illum_rule(s, pos) {
        Some((p, i)) => Some((p, ValueV::Illum(i))),
        None => None,
    }
}

/// Reads an `illum` line.
pub fn parse_illum_value(s: &str, pos: usize) -> (r: Option<(usize, Value)>)
    requires
        pos <= s@.len(),
    ensures
        match r {
            Some((p, v)) => spec_illum_value(s@, pos as int) == Some((p as int, v@)) && pos < p
                <= s@.len(),
            None => spec_illum_value(s@, pos as int) is None,
        },
{
    match parse_illum_rule(s, pos) {
        Some((p, i)) => Some((p, Value::Illum(i))),
        None => None,
    }
}

/// A `d` line as a tagged value.
pub open spec fn spec_alpha_value(s: Seq<char>, pos: int) -> Option<(int, ValueV)> {
    match spec_scalar_rule(s, pos, "d"@) {
        Some((p, a)) => Some((p, ValueV::Alpha(a))),
        None => None,
    }
}

/// Reads a `d` (alpha) line.
pub fn parse_alpha_value(s: &str, pos: usize) -> (r: Option<(usize, Value)>)
    requires
        pos <= s@.len(),
    ensures
        match r {
            Some((p, v)) => spec_alpha_value(s@, pos as int) == Some((p as int, v@)) && pos < p
                <= s@.len(),
            None => spec_alpha_value(s@, pos as int) is None,
        },
{
    proof {
        reveal_strlit("d");
    }
    match parse_scalar_rule(s, pos, "d") {
        Some((p, a)) => Some((p, Value::Alpha(a))),
        None => None,
    }
}

/// An `Ns` line as a tagged value.
pub open spec fn spec_specular_coefficient_value(s: Seq<char>, pos: int) -> Option<(int, ValueV)> {
    match spec_scalar_rule(s, pos, "Ns"@) {
        Some((p, c)) => Some((p, ValueV::SpecularCoefficient(c))),
        None => None,
    }
}

/// Reads an `Ns` (specular coefficient) line.
pub fn parse_specular_coefficient_value(s: &str, pos: usize) -> (r: Option<(usize, Value)>)
    requires
        pos <= s@.len(),
    ensures
        match r {
            Some((p, v)) => spec_specular_coefficient_value(s@, pos as int) == Some(
                (p as int, v@),
            ) && pos < p <= s@.len(),
            None => spec_specular_coefficient_value(s@, pos as int) is None,
        },
{
    proof {
        reveal_strlit("Ns");
    }
    match parse_scalar_rule(s, pos, "Ns") {
        Some((p, c)) => Some((p, Value::SpecularCoefficient(c))),
        None => None,
    }
}

/// An `Ni` line as a tagged value.
pub open spec fn spec_optical_density_value(s: Seq<char>, pos: int) -> Option<(int, ValueV)> {
    match spec_scalar_rule(s, pos, "Ni"@) {
        Some((p, d)) => Some((p, ValueV::OpticalDensity(d))),
        None => None,
    }
}

/// Reads an `Ni` (optical density) line.
pub fn parse_optical_density_value(s: &str, pos: usize) -> (r: Option<(usize, Value)>)
    requires
        pos <= s@.len(),
    ensures
        match r {
            Some((p, v)) => spec_optical_density_value(s@, pos as int) == Some((p as int, v@))
                && pos < p <= s@.len(),
            None => spec_optical_density_value(s@, pos as int) is None,
        },
{
    proof {
        reveal_strlit("Ni");
    }
    match parse_scalar_rule(s, pos, "Ni") {
        Some((p, d)) => Some((p, Value::OpticalDensity(d))),
        None => None,
    }
}

/// One material record, trying each rule in order; the rules are mutually
/// exclusive by their leading tags.
pub open spec fn spec_material_value(s: Seq<char>, pos: int) -> Option<(int, ValueV)> {
    if spec_name_value(s, pos) is Some {
        spec_name_value(s, pos)
    } else if spec_color_ambient_value(s, pos) is Some {
        spec_color_ambient_value(s, pos)
    } else if spec_color_diffuse_value(s, pos) is Some {
        spec_color_diffuse_value(s, pos)
    } else if spec_color_specular_value(s, pos) is Some {
        spec_color_specular_value(s, pos)
    } else if spec_color_transmission_value(s, pos) is Some {
        spec_color_transmission_value(s, pos)
    } else if spec_illum_value(s, pos) is Some {
        spec_illum_value(s, pos)
    } else if spec_alpha_value(s, pos) is Some {
        spec_alpha_value(s, pos)
    } else if spec_specular_coefficient_value(s, pos) is Some {
        spec_specular_coefficient_value(s, pos)
    } else {
        spec_optical_density_value(s, pos)
    }
}

/// Reads one material record.
fn parse_material_value(s: &str, pos: usize) -> (r: Option<(usize, Value)>)
    requires
        pos <= s@.len(),
    ensures
        match r {
            Some((p, v)) => spec_material_value(s@, pos as int) == Some((p as int, v@)) && pos < p
                <= s@.len(),
            None => spec_material_value(s@, pos as int) is None,
        },
{
    let r = parse_name_value(s, pos);
    if r.is_some() {
        return r;
    }
    let r = parse_color_ambient_value(s, pos);
    if r.is_some() {
        return r;
    }
    let r = parse_color_diffuse_value(s, pos);
    if r.is_some() {
        return r;
    }
    let r = parse_color_specular_value(s, pos);
    if r.is_some() {
        return r;
    }
    let r = parse_color_transmission_value(s, pos);
    if r.is_some() {
        return r;
    }
    let r = parse_illum_value(s, pos);
    if r.is_some() {
        return r;
    }
    let r = parse_alpha_value(s, pos);
    if r.is_some() {
        return r;
    }
    let r = parse_specular_coefficient_value(s, pos);
    if r.is_some() {
        return r;
    }
    let r = parse_optical_density_value(s, pos);
    if r.is_some() {
        return r;
    }
    None
}

// ---------------------------------------------------------------------------
// The line aggregator
// ---------------------------------------------------------------------------

/// The flat record stream: ignorable lines are consumed around each record,
/// and reading stops at the first text that matches no rule (or at the end).
/// Yields the stop position and the records in file order.
pub open spec fn spec_material_values(s: Seq<char>, pos: int) -> (int, Seq<ValueV>)
    decreases s.len() - pos,
{
    let p1 = spec_skip_ignored(s, pos);
    if 0 <= pos && pos <= p1 <= s.len() {
        match spec_material_value(s, p1) {
            Some((p2, v)) => {
                if p1 < p2 <= s.len() {
                    let (pf, rest) = spec_material_values(s, p2);
                    (pf, seq![v] + rest)
                } else {
                    (p1, Seq::empty())
                }
            },
            None => (p1, Seq::empty()),
        }
    } else {
        (pos, Seq::empty())
    }
}

/// Reads the whole record stream of a material text.
fn parse_material_values(s: &str) -> (r: (usize, Vec<Value>))
    ensures
        ({
            let (pf, vals) = spec_material_values(s@, 0);
            r.0 == pf && view_values(r.1@) == vals && r.0 <= s@.len()
        }),
{
    let mut pos: usize = 0;
    let mut out: Vec<Value> = Vec::new();
    proof {
        assert(view_values(out@) =~= Seq::<ValueV>::empty());
        assert(view_values(out@) + spec_material_values(s@, 0).1 =~= spec_material_values(
            s@,
            0,
        ).1);
    }
    loop
        invariant
            pos <= s@.len(),
            spec_material_values(s@, 0).0 == spec_material_values(s@, pos as int).0,
            spec_material_values(s@, 0).1 == view_values(out@) + spec_material_values(
                s@,
                pos as int,
            ).1,
        decreases s@.len() - pos,
    {
        let p1 = skip_ignored(s, pos);
        match parse_material_value(s, p1) {
            Some((p2, v)) => {
                proof {
                    assert(spec_material_values(s@, pos as int).1 == seq![v@]
                        + spec_material_values(s@, p2 as int).1);
                    assert(view_values(out@.push(v)) =~= view_values(out@) + seq![v@]);
                    assert(view_values(out@) + (seq![v@] + spec_material_values(
                        s@,
                        p2 as int,
                    ).1) =~= (view_values(out@) + seq![v@]) + spec_material_values(
                        s@,
                        p2 as int,
                    ).1);
                }
                out.push(v);
                pos = p2;
            },
            None => {
                proof {
                    assert(view_values(out@) + Seq::<ValueV>::empty() =~= view_values(out@));
                }
                return (p1, out);
            },
        }
    }
}

// ---------------------------------------------------------------------------
// Semantic construction
// ---------------------------------------------------------------------------

/// The running state of one material group's validation: each field is
/// present or not yet seen.
pub struct MatStateV {
    pub name: Option<Seq<char>>,
    pub ambient: Option<ColorV>,
    pub diffuse: Option<ColorV>,
    pub specular: Option<ColorV>,
    pub transmission: Option<ColorV>,
    pub illumination: Option<Illumination>,
    pub alpha: Option<NumberV>,
    pub specular_coefficient: Option<NumberV>,
    pub optical_density: Option<NumberV>,
}

/// The state before any record of a group is read.
pub open spec fn spec_empty_state() -> MatStateV {
    MatStateV {
        name: None,
        ambient: None,
        diffuse: None,
        specular: None,
        transmission: None,
        illumination: None,
        alpha: None,
        specular_coefficient: None,
        optical_density: None,
    }
}

/// One record applied to the state: the first occurrence of a field fills
/// it, a second occurrence is a fatal duplicate.
pub open spec fn spec_material_step(st: MatStateV, v: ValueV) -> Result<MatStateV, Seq<char>> {
    match v {
        ValueV::Name(n) => if st.name is None {
            Ok(MatStateV { name: Some(n), ..st })
        } else {
            Err("Duplicate names found while constructing Material."@)
        },
        ValueV::ColorAmbient(c) => if st.ambient is None {
            Ok(MatStateV { ambient: Some(c), ..st })
        } else {
            Err("Duplicate ambient colors found while constructing Material."@)
        },
        ValueV::ColorDiffuse(c) => if st.diffuse is None {
            Ok(MatStateV { diffuse: Some(c), ..st })
        } else {
            Err("Duplicate diffuse colors found while constructing Material."@)
        },
        ValueV::ColorSpecular(c) => if st.specular is None {
            Ok(MatStateV { specular: Some(c), ..st })
        } else {
            Err("Duplicate specular colors found while constructing Material."@)
        },
        ValueV::ColorTransmission(c) => if st.transmission is None {
            Ok(MatStateV { transmission: Some(c), ..st })
        } else {
            Err("Duplicate transmission colors found while constructing Material."@)
        },
        ValueV::Illum(i) => if st.illumination is None {
            Ok(MatStateV { illumination: Some(i), ..st })
        } else {
            Err("Duplicate illumination found while constructing Material."@)
        },
        ValueV::Alpha(a) => if st.alpha is None {
            Ok(MatStateV { alpha: Some(a), ..st })
        } else {
            Err("Duplicate alpha found while constructing Material."@)
        },
        ValueV::SpecularCoefficient(c) => if st.specular_coefficient is None {
            Ok(MatStateV { specular_coefficient: Some(c), ..st })
        } else {
            Err("Duplicate specular coefficient found while constructing Material."@)
        },
        ValueV::OpticalDensity(d) => if st.optical_density is None {
            Ok(MatStateV { optical_density: Some(d), ..st })
        } else {
            Err("Duplicate optical density found while constructing Material."@)
        },
    }
}

/// The records of one group applied left to right; reading stops at the
/// first duplicate, whose message is carried out beside the state reached.
pub open spec fn spec_material_fold(st: MatStateV, vs: Seq<ValueV>) -> (
    MatStateV,
    Option<Seq<char>>,
)
    decreases vs.len(),
{
    if vs.len() == 0 {
        (st, None)
    } else {
        match spec_material_step(st, vs[0]) {
            Ok(st2) => spec_material_fold(st2, vs.drop_first()),
            Err(m) => (st, Some(m)),
        }
    }
}

/// The messages for the required fields the state never saw, in the order
/// the validation reports them.
pub open spec fn spec_missing_msgs(st: MatStateV) -> Seq<Seq<char>> {
    (if st.name is None {
        seq!["Name not found while constructing Material. It is a necessary field."@]
    } else {
        Seq::empty()
    }) + (if st.ambient is None {
        seq!["Ambient color not found while constructing Material. It is a necessary field."@]
    } else {
        Seq::empty()
    }) + (if st.diffuse is None {
        seq!["Diffuse color not found while constructing Material. It is a necessary field."@]
    } else {
        Seq::empty()
    }) + (if st.specular is None {
        seq!["Specular color not found while constructing Material. It is a necessary field."@]
    } else {
        Seq::empty()
    })
}

/// All messages joined, each followed by a line feed.
pub open spec fn spec_join_lines(msgs: Seq<Seq<char>>) -> Seq<char>
    decreases msgs.len(),
{
    if msgs.len() == 0 {
        Seq::empty()
    } else {
        spec_join_lines(msgs.drop_last()) + msgs.last() + "\n"@
    }
}

/// One group of records validated into a material: the name and the three
/// base colours are required exactly once, the other fields at most once.
/// All applicable messages for the group are joined into one error.
pub open spec fn spec_construct_material(vs: Seq<ValueV>) -> Result<MaterialV, Seq<char>> {
    let (st, dup) = spec_material_fold(spec_empty_state(), vs);
    let msgs = (match dup {
        Some(m) => seq![m],
        None => Seq::empty(),
    }) + spec_missing_msgs(st);
    if msgs.len() == 0 {
        Ok(
            MaterialV {
                name: st.name->0,
                color_ambient: st.ambient->0,
                color_diffuse: st.diffuse->0,
                color_specular: st.specular->0,
                color_transmission: st.transmission,
                illumination: st.illumination,
                alpha: st.alpha,
                specular_coefficient: st.specular_coefficient,
                optical_density: st.optical_density,
            },
        )
    } else {
        Err(spec_join_lines(msgs))
    }
}

/// The view of an optional owned value.
pub open spec fn view_opt<T: View>(o: Option<T>) -> Option<T::V> {
    match o {
        Some(x) => Some(x@),
        None => None,
    }
}

/// The state the local fields of the validation loop stand for.
pub open spec fn spec_state_of(
    name: Option<String>,
    ambient: Option<Color>,
    diffuse: Option<Color>,
    specular: Option<Color>,
    transmission: Option<Color>,
    illumination: Option<Illumination>,
    alpha: Option<Number>,
    specular_coefficient: Option<Number>,
    optical_density: Option<Number>,
) -> MatStateV {
    MatStateV {
        name: view_opt(name),
        ambient: view_opt(ambient),
        diffuse: view_opt(diffuse),
        specular: view_opt(specular),
        transmission: view_opt(transmission),
        illumination,
        alpha: view_opt(alpha),
        specular_coefficient: view_opt(specular_coefficient),
        optical_density: view_opt(optical_density),
    }
}

/// Validates one group of records into a [`Material`].
pub fn construct_material_struct(values: &[Value]) -> (r: Result<Material, String>)
    ensures
        match r {
            Ok(m) => spec_construct_material(view_values(values@)) == Ok::<
                MaterialV,
                Seq<char>,
            >(m@),
            Err(e) => spec_construct_material(view_values(values@)) == Err::<
                MaterialV,
                Seq<char>,
            >(e@),
        },
{
    let ghost vs = view_values(values@);
    let mut name: Option<String> = None;
    let mut ambient: Option<Color> = None;
    let mut diffuse: Option<Color> = None;
    let mut specular: Option<Color> = None;
    let mut transmission: Option<Color> = None;
    let mut illumination: Option<Illumination> = None;
    let mut alpha: Option<Number> = None;
    let mut specular_coefficient: Option<Number> = None;
    let mut optical_density: Option<Number> = None;
    let mut dup: Option<&'static str> = None;
    let mut i: usize = 0;
    proof {
        assert(vs.skip(0) =~= vs);
    }
    while i < values.len() && dup.is_none()
        invariant
            0 <= i <= values@.len(),
            vs == view_values(values@),
            vs.len() == values@.len(),
            dup is None ==> spec_material_fold(spec_empty_state(), vs) == spec_material_fold(
                spec_state_of(
                    name,
                    ambient,
                    diffuse,
                    specular,
                    transmission,
                    illumination,
                    alpha,
                    specular_coefficient,
                    optical_density,
                ),
                vs.skip(i as int),
            ),
            dup matches Some(m) ==> spec_material_fold(spec_empty_state(), vs) == (
                spec_state_of(
                    name,
                    ambient,
                    diffuse,
                    specular,
                    transmission,
                    illumination,
                    alpha,
                    specular_coefficient,
                    optical_density,
                ),
                Some(m@),
            ),
        decreases values@.len() - i,
    {
        proof {
            assert(vs.skip(i as int)[0] == vs[i as int]);
            assert(vs[i as int] == values@[i as int]@);
            assert(vs.skip(i as int).drop_first() =~= vs.skip(i + 1));
        }
        match &values[i] {
            Value::Name(n) => {
                if name.is_none() {
                    name = Some(n.clone());
                } else {
                    dup = Some("Duplicate names found while constructing Material.");
                }
            },
            Value::ColorAmbient(c) => {
                if ambient.is_none() {
                    ambient = Some(c.duplicate());
                } else {
                    dup = Some("Duplicate ambient colors found while constructing Material.");
                }
            },
            Value::ColorDiffuse(c) => {
                if diffuse.is_none() {
                    diffuse = Some(c.duplicate());
                } else {
                    dup = Some("Duplicate diffuse colors found while constructing Material.");
                }
            },
            Value::ColorSpecular(c) => {
                if specular.is_none() {
                    specular = Some(c.duplicate());
                } else {
                    dup = Some("Duplicate specular colors found while constructing Material.");
                }
            },
            Value::ColorTransmission(c) => {
                if transmission.is_none() {
                    transmission = Some(c.duplicate());
                } else {
                    dup = Some("Duplicate transmission colors found while constructing Material.");
                }
            },
            Value::Illum(il) => {
                if illumination.is_none() {
                    illumination = Some(*il);
                } else {
                    dup = Some("Duplicate illumination found while constructing Material.");
                }
            },
            Value::Alpha(a) => {
                if alpha.is_none() {
                    alpha = Some(a.duplicate());
                } else {
                    dup = Some("Duplicate alpha found while constructing Material.");
                }
            },
            Value::SpecularCoefficient(c) => {
                if specular_coefficient.is_none() {
                    specular_coefficient = Some(c.duplicate());
                } else {
                    dup = Some(
                        "Duplicate specular coefficient found while constructing Material.",
                    );
                }
            },
            Value::OpticalDensity(d) => {
                if optical_density.is_none() {
                    optical_density = Some(d.duplicate());
                } else {
                    dup = Some("Duplicate optical density found while constructing Material.");
                }
            },
        }
        i = i + 1;
    }
    let ghost st = spec_state_of(
        name,
        ambient,
        diffuse,
        specular,
        transmission,
        illumination,
        alpha,
        specular_coefficient,
        optical_density,
    );
    proof {
        if dup is None {
            assert(vs.skip(i as int) =~= Seq::<ValueV>::empty());
        }
        assert(spec_material_fold(spec_empty_state(), vs) == (
            st,
            match dup {
                Some(m) => Some(m@),
                None => None::<Seq<char>>,
            },
        ));
    }
    let mut errors = String::new();
    let ghost mut msgs: Seq<Seq<char>> = Seq::empty();
    let mut failed = false;
    proof {
        assert(errors@ == spec_join_lines(msgs));
    }
    if let Some(m) = dup {
        proof {
            assert(msgs.push(m@).drop_last() =~= msgs);
        }
        errors.append(m);
        errors.append("\n");
        proof {
            msgs = msgs.push(m@);
            assert(errors@ == spec_join_lines(msgs));
        }
        failed = true;
    }
    if name.is_none() {
        let m = "Name not found while constructing Material. It is a necessary field.";
        proof {
            assert(msgs.push(m@).drop_last() =~= msgs);
        }
        errors.append(m);
        errors.append("\n");
        proof {
            msgs = msgs.push(m@);
            assert(errors@ == spec_join_lines(msgs));
        }
        failed = true;
    }
    if ambient.is_none() {
        let m = "Ambient color not found while constructing Material. It is a necessary field.";
        proof {
            assert(msgs.push(m@).drop_last() =~= msgs);
        }
        errors.append(m);
        errors.append("\n");
        proof {
            msgs = msgs.push(m@);
            assert(errors@ == spec_join_lines(msgs));
        }
        failed = true;
    }
    if diffuse.is_none() {
        let m = "Diffuse color not found while constructing Material. It is a necessary field.";
        proof {
            assert(msgs.push(m@).drop_last() =~= msgs);
        }
        errors.append(m);
        errors.append("\n");
        proof {
            msgs = msgs.push(m@);
            assert(errors@ == spec_join_lines(msgs));
        }
        failed = true;
    }
    if specular.is_none() {
        let m = "Specular color not found while constructing Material. It is a necessary field.";
        proof {
            assert(msgs.push(m@).drop_last() =~= msgs);
        }
        errors.append(m);
        errors.append("\n");
        proof {
            msgs = msgs.push(m@);
            assert(errors@ == spec_join_lines(msgs));
        }
        failed = true;
    }
    proof {
        assert(msgs =~= (match dup {
            Some(m) => seq![m@],
            None => Seq::<Seq<char>>::empty(),
        }) + spec_missing_msgs(st));
    }
    if failed {
        return Err(errors);
    }
    match (name, ambient, diffuse, specular) {
        (Some(n), Some(a), Some(d), Some(sp)) => Ok(
            Material {
                name: n,
                color_ambient: a,
                color_diffuse: d,
                color_specular: sp,
                color_transmission: transmission,
                illumination,
                alpha,
                specular_coefficient,
                optical_density,
            },
        ),
        _ => {
            proof {
                assert(false);
            }
            Err(errors)
        },
    }
}

/// The index of the first `newmtl` record at or after `i`, or the length
/// where none follows: the boundary that ends the group starting before
/// `i`.
pub open spec fn spec_first_boundary(vs: Seq<ValueV>, i: int) -> int
    decreases vs.len() - i,
{
    if !(0 <= i < vs.len()) {
        vs.len() as int
    } else if vs[i] is Name {
        i
    } else {
        spec_first_boundary(vs, i + 1)
    }
}

/// Whether a record is a `newmtl` record.
fn is_name(v: &Value) -> (r: bool)
    ensures
        r == (v@ is Name),
{
    matches!(v, Value::Name(_))
}

/// Finds the next group boundary at or after `from`.
fn find_boundary(values: &Vec<Value>, from: usize) -> (k: usize)
    requires
        from <= values@.len(),
    ensures
        k == spec_first_boundary(view_values(values@), from as int),
        from <= k <= values@.len(),
{
    let ghost vs = view_values(values@);
    let n = values.len();
    let mut k = from;
    while k < n
        invariant
            from <= k <= n,
            n == values@.len(),
            vs == view_values(values@),
            vs.len() == n,
            spec_first_boundary(vs, from as int) == spec_first_boundary(vs, k as int),
        decreases n - k,
    {
        proof {
            assert(vs[k as int] == values@[k as int]@);
        }
        if is_name(&values[k]) {
            return k;
        }
        k = k + 1;
    }
    k
}

/// The groups of a record stream validated in order: each group runs from
/// one `newmtl` record to the next (records before the first `newmtl`, or
/// an empty stream, form a group of their own, which cannot validate). The
/// first failing group aborts the whole construction.
pub open spec fn spec_cms_from(vs: Seq<ValueV>, start: int) -> Result<Seq<MaterialV>, Seq<char>>
    decreases vs.len() - start,
{
    let k = spec_first_boundary(vs, start + 1);
    if 0 <= start < k <= vs.len() {
        match spec_construct_material(vs.subrange(start, k)) {
            Err(e) => Err(e),
            Ok(m) => {
                if k == vs.len() {
                    Ok(seq![m])
                } else {
                    match spec_cms_from(vs, k) {
                        Ok(ms) => Ok(seq![m] + ms),
                        Err(e) => Err(e),
                    }
                }
            },
        }
    } else {
        Err(Seq::empty())
    }
}

/// The whole record stream validated into materials.
pub open spec fn spec_construct_materials(vs: Seq<ValueV>) -> Result<Seq<MaterialV>, Seq<char>> {
    if vs.len() == 0 {
        match spec_construct_material(vs) {
            Ok(m) => Ok(seq![m]),
            Err(e) => Err(e),
        }
    } else {
        spec_cms_from(vs, 0)
    }
}

/// Groups and validates the whole record stream.
pub fn construct_material_structs(values: Vec<Value>) -> (r: Result<Vec<Material>, String>)
    ensures
        match r {
            Ok(ms) => spec_construct_materials(view_values(values@)) == Ok::<
                Seq<MaterialV>,
                Seq<char>,
            >(ms@.map_values(|m: Material| m@)),
            Err(e) => spec_construct_materials(view_values(values@)) == Err::<
                Seq<MaterialV>,
                Seq<char>,
            >(e@),
        },
{
    let ghost vs = view_values(values@);
    let n = values.len();
    if n == 0 {
        proof {
            assert(vs.len() == 0);
        }
        match construct_material_struct(values.as_slice()) {
            Err(e) => {
                return Err(e);
            },
            Ok(_) => {
                proof {
                    assert(spec_material_fold(spec_empty_state(), vs) == (
                        spec_empty_state(),
                        None::<Seq<char>>,
                    ));
                    assert(spec_missing_msgs(spec_empty_state()).len() == 4);
                    assert(false);
                }
                return Err(String::new());
            },
        }
    }
    let mut out: Vec<Material> = Vec::new();
    let mut start: usize = 0;
    proof {
        assert(out@.map_values(|m: Material| m@) =~= Seq::<MaterialV>::empty());
        if spec_cms_from(vs, 0) is Ok {
            assert(out@.map_values(|m: Material| m@) + spec_cms_from(vs, 0)->Ok_0 =~= spec_cms_from(
                vs,
                0,
            )->Ok_0);
        }
    }
    loop
        invariant
            n == values@.len(),
            vs == view_values(values@),
            vs.len() == n,
            0 <= start < n,
            spec_construct_materials(vs) == (match spec_cms_from(vs, start as int) {
                Ok(ms) => Ok::<Seq<MaterialV>, Seq<char>>(
                    out@.map_values(|m: Material| m@) + ms,
                ),
                Err(e) => Err::<Seq<MaterialV>, Seq<char>>(e),
            }),
        decreases n - start,
    {
        let k = find_boundary(&values, start + 1);
        let seg = vstd::slice::slice_subrange(values.as_slice(), start, k);
        proof {
            assert(view_values(seg@) =~= vs.subrange(start as int, k as int));
        }
        match construct_material_struct(seg) {
            Err(e) => {
                return Err(e);
            },
            Ok(m) => {
                let ghost out_before = out@.map_values(|mm: Material| mm@);
                proof {
                    assert(out@.push(m).map_values(|mm: Material| mm@) =~= out_before.push(m@));
                }
                out.push(m);
                if k == n {
                    proof {
                        assert(out_before + seq![m@] =~= out@.map_values(|mm: Material| mm@));
                    }
                    return Ok(out);
                }
                proof {
                    if spec_cms_from(vs, k as int) is Ok {
                        let ms = spec_cms_from(vs, k as int)->Ok_0;
                        assert(out_before + (seq![m@] + ms) =~= out@.map_values(
                            |mm: Material| mm@,
                        ) + ms);
                    }
                }
                start = k;
            },
        }
    }
}

// ---------------------------------------------------------------------------
// The public entry point
// ---------------------------------------------------------------------------

/// A whole material text: the record stream must cover the text, and its
/// groups must validate. Text that matches no rule fails the parse with a
/// message holding the unread remainder.
pub open spec fn spec_parse_materials(s: Seq<char>) -> Result<Seq<MaterialV>, Seq<char>> {
    let (p, vals) = spec_material_values(s, 0);
    if p == s.len() {
        spec_construct_materials(vals)
    } else {
        Err("Parser Error: "@ + s.subrange(p, s.len() as int))
    }
}

/// Parses a material (`.mtl`) text into its list of materials.
pub fn parse_materials(input: &str) -> (r: Result<Vec<Material>, String>)
    ensures
        match r {
            Ok(ms) => spec_parse_materials(input@) == Ok::<Seq<MaterialV>, Seq<char>>(
                ms@.map_values(|m: Material| m@),
            ),
            Err(e) => spec_parse_materials(input@) == Err::<Seq<MaterialV>, Seq<char>>(e@),
        },
{
    let (p, values) = parse_material_values(input);
    let n = input.unicode_len();
    if p != n {
        let mut msg = String::from_str("Parser Error: ");
        msg.append(input.substring_char(p, n));
        Err(msg)
    } else {
        construct_material_structs(values)
    }
}


// ---------------------------------------------------------------------------
// Laws of the illumination table and of the record stream
// ---------------------------------------------------------------------------

/// Distinct accepted digit runs name distinct illumination models: the
/// table from `0` through `10` is one to one.
pub proof fn lemma_illum_table_injective()
    ensures
        forall|r1: Seq<char>, r2: Seq<char>|
            illum_of_digits(r1) is Some && illum_of_digits(r1) == illum_of_digits(r2) ==> r1 == r2,
{
    assert forall|r1: Seq<char>, r2: Seq<char>|
        illum_of_digits(r1) is Some && illum_of_digits(r1) == illum_of_digits(r2) implies r1
        == r2 by {
        assert(r1 =~= r2);
    }
}

/// Every illumination model is named by a digit run, so the table from `0`
/// through `10` is onto the eleven variants.
pub proof fn lemma_illum_table_onto(v: Illumination)
    ensures
        exists|r: Seq<char>| #[trigger] illum_of_digits(r) == Some(v),
{
    match v {
        Illumination::ColorOnAmbientOff => {
            assert(illum_of_digits(seq!['0']) == Some(v));
        },
        Illumination::ColorOnAmbientOn => {
            assert(illum_of_digits(seq!['1']) == Some(v));
        },
        Illumination::HighlightOn => {
            assert(illum_of_digits(seq!['2']) == Some(v));
        },
        Illumination::ReflectionOnAndRayTraceOn => {
            assert(illum_of_digits(seq!['3']) == Some(v));
        },
        Illumination::TransparencyGlassOnReflectionRayTraceOn => {
            assert(illum_of_digits(seq!['4']) == Some(v));
        },
        Illumination::ReflectionFresnelOnAndRayTraceOn => {
            assert(illum_of_digits(seq!['5']) == Some(v));
        },
        Illumination::TransparencyRefractionOnReflectionFresnelOffAndRayTraceOn => {
            assert(illum_of_digits(seq!['6']) == Some(v));
        },
        Illumination::TransparencyRefractionOnReflectionFresnelOnAndRayTraceOn => {
            assert(illum_of_digits(seq!['7']) == Some(v));
        },
        Illumination::TeflectionOnAndRayTraceOff => {
            assert(illum_of_digits(seq!['8']) == Some(v));
        },
        Illumination::TransparencyGlassOnReflectionRayTraceOff => {
            assert(illum_of_digits(seq!['9']) == Some(v));
        },
        Illumination::CastsShadowsOntoInvisibleSurfaces => {
            assert(illum_of_digits(seq!['1', '0']) == Some(v));
        },
    }
}

/// A digit run past the table, such as `11`, names no illumination model,
/// so its line matches no rule and fails the whole parse.
pub proof fn lemma_illum_eleven_rejected()
    ensures
        illum_of_digits(seq!['1', '1']) is None,
{
}

/// An ignorable line is transparent to the record stream: the records and
/// the stop position read from its start equal those read from just past
/// it. Blank lines and comments between records therefore never change a
/// parse.
pub proof fn lemma_material_values_skip_ignored_line(s: Seq<char>, pos: int)
    requires
        0 <= pos <= s.len(),
        spec_ignored_line(s, pos) is Some,
    ensures
        spec_material_values(s, pos) == spec_material_values(s, spec_ignored_line(s, pos)->0),
{
    crate::parser_utilities::lemma_ignored_line_bounds(s, pos);
    let p = spec_ignored_line(s, pos)->0;
    crate::parser_utilities::lemma_skip_ignored_bounds(s, pos);
    crate::parser_utilities::lemma_skip_ignored_bounds(s, p);
    if p != pos {
        assert(spec_skip_ignored(s, pos) == spec_skip_ignored(s, p));
    }
}

// ---------------------------------------------------------------------------
// Laws of the group validation
// ---------------------------------------------------------------------------

/// The fold over a group splits at any index: the records after `j` are
/// applied to the state the records before `j` reached, unless those
/// already stopped on a duplicate.
pub proof fn lemma_material_fold_split(st: MatStateV, vs: Seq<ValueV>, j: int)
    requires
        0 <= j <= vs.len(),
    ensures
        spec_material_fold(st, vs) == (match spec_material_fold(st, vs.take(j)) {
            (st2, None) => spec_material_fold(st2, vs.skip(j)),
            (st2, Some(m)) => (st2, Some(m)),
        }),
    decreases j,
{
    if j == 0 {
        assert(vs.take(0) =~= Seq::<ValueV>::empty());
        assert(vs.skip(0) =~= vs);
    } else {
        assert(vs.take(j)[0] == vs[0]);
        match spec_material_step(st, vs[0]) {
            Ok(st1) => {
                lemma_material_fold_split(st1, vs.drop_first(), j - 1);
                assert(vs.drop_first().take(j - 1) =~= vs.take(j).drop_first());
                assert(vs.drop_first().skip(j - 1) =~= vs.skip(j));
            },
            Err(_) => {},
        }
    }
}

/// Once a group has seen its ambient colour, every later state still holds
/// one.
pub proof fn lemma_material_fold_keeps_ambient(st: MatStateV, vs: Seq<ValueV>)
    requires
        st.ambient is Some,
    ensures
        spec_material_fold(st, vs).0.ambient is Some,
    decreases vs.len(),
{
    if vs.len() > 0 {
        match spec_material_step(st, vs[0]) {
            Ok(st2) => {
                lemma_material_fold_keeps_ambient(st2, vs.drop_first());
            },
            Err(_) => {},
        }
    }
}

/// A group in which no record carries an ambient colour never reaches a
/// state holding one.
pub proof fn lemma_material_fold_without_ambient(st: MatStateV, vs: Seq<ValueV>)
    requires
        st.ambient is None,
        forall|i: int| 0 <= i < vs.len() ==> !(#[trigger] vs[i] is ColorAmbient),
    ensures
        spec_material_fold(st, vs).0.ambient is None,
    decreases vs.len(),
{
    if vs.len() > 0 {
        assert(!(vs[0] is ColorAmbient));
        match spec_material_step(st, vs[0]) {
            Ok(st2) => {
                assert(st2.ambient is None);
                assert forall|i: int| 0 <= i < vs.drop_first().len() implies !(
                #[trigger] vs.drop_first()[i] is ColorAmbient) by {
                    assert(vs.drop_first()[i] == vs[i + 1]);
                }
                lemma_material_fold_without_ambient(st2, vs.drop_first());
            },
            Err(_) => {},
        }
    }
}

/// Whether `needle` appears verbatim, as a contiguous run, inside `hay`.
pub open spec fn contains_text(hay: Seq<char>, needle: Seq<char>) -> bool {
    exists|a: int|
        0 <= a && a + needle.len() <= hay.len() && #[trigger] hay.subrange(a, a + needle.len())
            == needle
}

/// Every joined message appears verbatim in the joined error text.
pub proof fn lemma_join_lines_contains(msgs: Seq<Seq<char>>, k: int)
    requires
        0 <= k < msgs.len(),
    ensures
        contains_text(spec_join_lines(msgs), msgs[k]),
    decreases msgs.len(),
{
    let join = spec_join_lines(msgs);
    if k == msgs.len() - 1 {
        let a = spec_join_lines(msgs.drop_last()).len() as int;
        assert(join.subrange(a, a + msgs[k].len()) =~= msgs[k]);
        assert(0 <= a && a + msgs[k].len() <= join.len() && join.subrange(a, a + msgs[k].len())
            == msgs[k]);
    } else {
        lemma_join_lines_contains(msgs.drop_last(), k);
        let needle = msgs.drop_last()[k];
        let a = choose|a: int|
            0 <= a && a + needle.len() <= spec_join_lines(msgs.drop_last()).len()
                && #[trigger] spec_join_lines(msgs.drop_last()).subrange(a, a + needle.len())
                == needle;
        assert(msgs.drop_last()[k] == msgs[k]);
        assert(join.subrange(a, a + msgs[k].len()) =~= spec_join_lines(msgs.drop_last()).subrange(
            a,
            a + msgs[k].len(),
        ));
        assert(0 <= a && a + msgs[k].len() <= join.len() && join.subrange(a, a + msgs[k].len())
            == msgs[k]);
    }
}

/// A group in which no line carries an ambient colour fails, and its error
/// text names the missing ambient colour.
pub proof fn lemma_missing_ambient_reported(vs: Seq<ValueV>)
    requires
        forall|i: int| 0 <= i < vs.len() ==> !(#[trigger] vs[i] is ColorAmbient),
    ensures
        spec_construct_material(vs) is Err,
        contains_text(
            spec_construct_material(vs)->Err_0,
            "Ambient color not found while constructing Material. It is a necessary field."@,
        ),
{
    let msg = "Ambient color not found while constructing Material. It is a necessary field."@;
    lemma_material_fold_without_ambient(spec_empty_state(), vs);
    let (st, dup) = spec_material_fold(spec_empty_state(), vs);
    let dupseq = match dup {
        Some(m) => seq![m],
        None => Seq::<Seq<char>>::empty(),
    };
    let msgs = dupseq + spec_missing_msgs(st);
    let name_part: Seq<Seq<char>> = if st.name is None {
        seq!["Name not found while constructing Material. It is a necessary field."@]
    } else {
        Seq::empty()
    };
    let idx = dupseq.len() + name_part.len();
    assert(spec_missing_msgs(st)[name_part.len() as int] == msg);
    assert(msgs[idx as int] == msg);
    assert(msgs.len() > 0);
    assert(spec_construct_material(vs) == Err::<MaterialV, Seq<char>>(spec_join_lines(msgs)));
    lemma_join_lines_contains(msgs, idx as int);
}

/// A group whose second ambient-colour line is reached before any other
/// duplicate fails, and its error text names the duplicate ambient colour.
pub proof fn lemma_duplicate_ambient_reported(vs: Seq<ValueV>, i: int, j: int)
    requires
        0 <= i < j < vs.len(),
        vs[i] is ColorAmbient,
        vs[j] is ColorAmbient,
        spec_material_fold(spec_empty_state(), vs.take(j)).1 is None,
    ensures
        spec_construct_material(vs) is Err,
        contains_text(
            spec_construct_material(vs)->Err_0,
            "Duplicate ambient colors found while constructing Material."@,
        ),
{
    let msg = "Duplicate ambient colors found while constructing Material."@;
    let empty = spec_empty_state();
    // The prefix before `j` has seen the ambient colour at `i`.
    lemma_material_fold_split(empty, vs.take(j), i + 1);
    assert(vs.take(j).take(i + 1) =~= vs.take(i + 1));
    let (st_a, dup_a) = spec_material_fold(empty, vs.take(i + 1));
    assert(dup_a is None);
    lemma_material_fold_split(empty, vs.take(i + 1), i);
    assert(vs.take(i + 1).take(i) =~= vs.take(i));
    assert(vs.take(i + 1).skip(i) =~= seq![vs[i]]);
    let (st_i, dup_i) = spec_material_fold(empty, vs.take(i));
    assert(dup_i is None);
    assert(seq![vs[i]][0] == vs[i]);
    match spec_material_step(st_i, vs[i]) {
        Ok(st2) => {
            assert(seq![vs[i]].drop_first() =~= Seq::<ValueV>::empty());
            assert(spec_material_fold(st2, Seq::<ValueV>::empty()) == (st2, None::<Seq<char>>));
            assert(st2.ambient is Some);
            assert(st_a == st2);
        },
        Err(_) => {
            assert(false);
        },
    }
    // The ambient colour is still held when `j` is reached.
    lemma_material_fold_keeps_ambient(st_a, vs.take(j).skip(i + 1));
    let (st_j, dup_j) = spec_material_fold(empty, vs.take(j));
    assert(st_j.ambient is Some);
    // The record at `j` is the first duplicate, and it is an ambient one.
    lemma_material_fold_split(empty, vs, j);
    assert(vs.skip(j)[0] == vs[j]);
    match spec_material_step(st_j, vs[j]) {
        Ok(_) => {
            assert(false);
        },
        Err(m) => {
            assert(m == msg);
            assert(spec_material_fold(empty, vs) == (st_j, Some(msg)));
        },
    }
    let msgs = seq![msg] + spec_missing_msgs(st_j);
    assert(msgs[0] == msg);
    assert(msgs.len() > 0);
    assert(spec_construct_material(vs) == Err::<MaterialV, Seq<char>>(spec_join_lines(msgs)));
    lemma_join_lines_contains(msgs, 0);
}

} // verus!
