use sticks::material_parser::{
    construct_material_struct, construct_material_structs, parse_alpha_value,
    parse_color_ambient_value, parse_color_diffuse_value, parse_color_specular_value,
    parse_color_transmission_value, parse_illum_value, parse_materials,
    parse_optical_density_value, parse_name_value, parse_specular_coefficient_value, Color,
    Illumination, Material, Value,
};
use sticks::parser_utilities::Number;

fn num(s: &str) -> Number {
    let negative = s.starts_with('-');
    let t = if negative { &s[1..] } else { s };
    match t.split_once('.') {
        Some((i, f)) => Number {
            negative,
            integer: i.to_string(),
            fraction: if f.is_empty() { None } else { Some(f.to_string()) },
        },
        None => Number {
            negative,
            integer: t.to_string(),
            fraction: None,
        },
    }
}

fn f64_of(n: &Number) -> f64 {
    let mut s = n.integer.clone();
    if let Some(f) = &n.fraction {
        s = s + "." + f;
    }
    let v: f64 = s.parse().unwrap();
    if n.negative {
        -v
    } else {
        v
    }
}

fn color(r: &str, g: &str, b: &str) -> Color {
    Color {
        r: num(r),
        g: num(g),
        b: num(b),
    }
}

fn assert_color(c: &Color, r: f64, g: f64, b: f64) {
    assert_eq!(f64_of(&c.r), r);
    assert_eq!(f64_of(&c.g), g);
    assert_eq!(f64_of(&c.b), b);
}

fn chars(s: &str) -> usize {
    s.chars().count()
}

#[test]
fn test_parse_materials_should_parse_properly() {
    test_parse_materials_should_parse_multi_material_mtl_file();
    test_parse_materials_should_return_error_if_failed();
}

fn test_parse_materials_should_parse_multi_material_mtl_file() {
    let mtl_file = "
# Blender MTL File: 'None'
# Material Count: 2
# name
newmtl Material
# Phong specular coefficient
Ns 96.078431
# ambient color (weighted)
Ka 0.000000 0.000000 0.000000
# diffuse color (weighted)
Kd 0.640000 0.640000 0.640000
# dissolve factor (weighted)
Ks 0.500000 0.500000 0.500000
# transmission color (weighted)
Tf 0.300000 0.254444 0.876554
# optical density (refraction)
Ni 1.000000
# alpha
d 1.000000
# illumination
illum 2



newmtl Material2
# ambient
Ka 0.100000 0.100000 0.100000
# diffuse
Kd 0.8 0.8 0.8
# specular
Ks 0.8 0.8 0.8

newmtl Material3
# Phong specular coefficient
Ns 44.078431
# ambient color (weighted)
Ka 0.100000 0.200000 0.300000
# diffuse color (weighted)
Kd 0.140000 0.240000 0.740000
# dissolve factor (weighted)
Ks 0.100000 0.540000 0.300000
# transmission color (weighted)
Tf 0.300000 0.254444 0.576554
# optical density (refraction)
Ni 2.200000
# alpha
d 1.200000
# illumination
illum 3
";

    let ms = parse_materials(mtl_file).unwrap();
    assert_eq!(ms.len(), 3);

    let m0 = &ms[0];
    assert_eq!(m0.name, "Material");
    assert_color(&m0.color_ambient, 0.0, 0.0, 0.0);
    assert_color(&m0.color_diffuse, 0.64, 0.64, 0.64);
    assert_color(&m0.color_specular, 0.5, 0.5, 0.5);
    let t0 = m0.color_transmission.as_ref().unwrap();
    assert_color(t0, 0.3, 0.254444, 0.876554);
    assert_eq!(m0.illumination, Some(Illumination::HighlightOn));
    assert_eq!(f64_of(m0.alpha.as_ref().unwrap()), 1.0);
    assert_eq!(f64_of(m0.specular_coefficient.as_ref().unwrap()), 96.078431);
    assert_eq!(f64_of(m0.optical_density.as_ref().unwrap()), 1.0);

    let m1 = &ms[1];
    assert_eq!(m1.name, "Material2");
    assert_color(&m1.color_ambient, 0.1, 0.1, 0.1);
    assert_color(&m1.color_diffuse, 0.8, 0.8, 0.8);
    assert_color(&m1.color_specular, 0.8, 0.8, 0.8);
    assert_eq!(m1.color_transmission, None);
    assert_eq!(m1.illumination, None);
    assert_eq!(m1.alpha, None);
    assert_eq!(m1.specular_coefficient, None);
    assert_eq!(m1.optical_density, None);

    let m2 = &ms[2];
    assert_eq!(m2.name, "Material3");
    assert_color(&m2.color_ambient, 0.1, 0.2, 0.3);
    assert_color(&m2.color_diffuse, 0.14, 0.24, 0.74);
    assert_color(&m2.color_specular, 0.1, 0.54, 0.3);
    let t2 = m2.color_transmission.as_ref().unwrap();
    assert_color(t2, 0.3, 0.254444, 0.576554);
    assert_eq!(m2.illumination, Some(Illumination::ReflectionOnAndRayTraceOn));
    assert_eq!(f64_of(m2.alpha.as_ref().unwrap()), 1.2);
    assert_eq!(f64_of(m2.specular_coefficient.as_ref().unwrap()), 44.078431);
    assert_eq!(f64_of(m2.optical_density.as_ref().unwrap()), 2.2);
}

fn test_parse_materials_should_return_error_if_failed() {
    let mtl_file = "
# Blender MTL File: 'None'
# Material Count: 2
# name
newmtl Material
# ambient color (weighted)
# Ka 0.000000 0.000000 0.000000
# diffuse color (weighted)
Kd 0.640000 0.640000 0.640000
# dissolve factor (weighted)
Ks 0.500000 0.500000 0.500000
";

    assert_eq!(
        Err("Ambient color not found while constructing Material. It is a necessary field.\n"
            .to_string()),
        parse_materials(mtl_file)
    );
}

#[test]
fn construct_material_structs_should_construct_properly() {
    construct_material_structs_should_parse_single_material();
    construct_material_structs_should_parse_multiple_materials();
    construct_material_structs_should_return_error_if_failed();
}

fn complete_values() -> Vec<Value> {
    let mut values: Vec<Value> = Vec::new();
    values.push(Value::Name("material1".to_string()));
    values.push(Value::ColorAmbient(color("1.0", "2.0", "3.0")));
    values.push(Value::ColorDiffuse(color("2.0", "3.0", "4.0")));
    values.push(Value::ColorSpecular(color("3.0", "4.0", "5.0")));
    values.push(Value::ColorTransmission(color("4.0", "5.0", "6.0")));
    values.push(Value::Illum(Illumination::ColorOnAmbientOff));
    values.push(Value::Alpha(num("1.1")));
    values.push(Value::SpecularCoefficient(num("2.2")));
    values.push(Value::OpticalDensity(num("3.3")));
    values
}

fn complete_material() -> Material {
    Material {
        name: "material1".to_string(),
        color_ambient: color("1.0", "2.0", "3.0"),
        color_diffuse: color("2.0", "3.0", "4.0"),
        color_specular: color("3.0", "4.0", "5.0"),
        color_transmission: Some(color("4.0", "5.0", "6.0")),
        illumination: Some(Illumination::ColorOnAmbientOff),
        alpha: Some(num("1.1")),
        specular_coefficient: Some(num("2.2")),
        optical_density: Some(num("3.3")),
    }
}

fn construct_material_structs_should_parse_single_material() {
    let materials = vec![complete_material()];
    let values = complete_values();

    assert_eq!(Ok(materials), construct_material_structs(values));
}

fn construct_material_structs_should_parse_multiple_materials() {
    let material1 = complete_material();
    let material2 = Material {
        name: "material2".to_string(),
        color_ambient: color("1.1", "2.2", "3.3"),
        color_diffuse: color("2.2", "3.3", "4.4"),
        color_specular: color("3.3", "4.4", "5.5"),
        color_transmission: None,
        illumination: None,
        alpha: None,
        specular_coefficient: None,
        optical_density: None,
    };
    let material3 = Material {
        name: "material3".to_string(),
        color_ambient: color("1.9", "2.9", "3.9"),
        color_diffuse: color("2.8", "3.8", "4.8"),
        color_specular: color("3.7", "4.7", "5.7"),
        color_transmission: Some(color("4.6", "5.6", "6.6")),
        illumination: Some(Illumination::ColorOnAmbientOn),
        alpha: Some(num("4.5")),
        specular_coefficient: Some(num("4.6")),
        optical_density: Some(num("4.7")),
    };
    let materials = vec![material1, material2, material3];

    let mut values = complete_values();
    values.push(Value::Name("material2".to_string()));
    values.push(Value::ColorAmbient(color("1.1", "2.2", "3.3")));
    values.push(Value::ColorDiffuse(color("2.2", "3.3", "4.4")));
    values.push(Value::ColorSpecular(color("3.3", "4.4", "5.5")));
    values.push(Value::Name("material3".to_string()));
    values.push(Value::ColorAmbient(color("1.9", "2.9", "3.9")));
    values.push(Value::ColorDiffuse(color("2.8", "3.8", "4.8")));
    values.push(Value::ColorSpecular(color("3.7", "4.7", "5.7")));
    values.push(Value::ColorTransmission(color("4.6", "5.6", "6.6")));
    values.push(Value::Illum(Illumination::ColorOnAmbientOn));
    values.push(Value::Alpha(num("4.5")));
    values.push(Value::SpecularCoefficient(num("4.6")));
    values.push(Value::OpticalDensity(num("4.7")));

    assert_eq!(Ok(materials), construct_material_structs(values));
}

fn construct_material_structs_should_return_error_if_failed() {
    let mut values: Vec<Value> = Vec::new();
    values.push(Value::Name("material1".to_string()));
    values.push(Value::ColorDiffuse(color("2.0", "3.0", "4.0")));
    values.push(Value::ColorSpecular(color("3.0", "4.0", "5.0")));

    assert_eq!(
        Err("Ambient color not found while constructing Material. It is a necessary field.\n"
            .to_string()),
        construct_material_structs(values)
    );
}

#[test]
fn construct_material_struct_should_construct_properly() {
    construct_material_struct_should_parse_complete_material();
    construct_material_struct_should_parse_minimal_material();
    construct_material_struct_should_fail_if_no_name();
    construct_material_struct_should_fail_if_no_ambient_color();
    construct_material_struct_should_fail_if_no_diffuse_color();
    construct_material_struct_should_fail_if_no_specular_color();
    construct_material_struct_should_fail_if_no_values();
    construct_material_struct_should_fail_if_duplicate_name();
    construct_material_struct_should_fail_if_duplicate_ambient_color();
    construct_material_struct_should_fail_if_duplicate_diffuse_color();
    construct_material_struct_should_fail_if_duplicate_specular_color();
    construct_material_struct_should_fail_if_duplicate_transmission_color();
    construct_material_struct_should_fail_if_duplicate_illumination();
    construct_material_struct_should_fail_if_duplicate_alpha();
    construct_material_struct_should_fail_if_duplicate_specular_coefficient();
    construct_material_struct_should_fail_if_duplicate_optical_density();
}

fn construct_material_struct_should_parse_complete_material() {
    let values = complete_values();

    assert_eq!(Ok(complete_material()), construct_material_struct(&values));
}

fn construct_material_struct_should_parse_minimal_material() {
    let material = Material {
        name: "material1".to_string(),
        color_ambient: color("1.0", "2.0", "3.0"),
        color_diffuse: color("2.0", "3.0", "4.0"),
        color_specular: color("3.0", "4.0", "5.0"),
        color_transmission: None,
        illumination: None,
        alpha: None,
        specular_coefficient: None,
        optical_density: None,
    };
    let mut values: Vec<Value> = Vec::new();
    values.push(Value::Name("material1".to_string()));
    values.push(Value::ColorAmbient(color("1.0", "2.0", "3.0")));
    values.push(Value::ColorDiffuse(color("2.0", "3.0", "4.0")));
    values.push(Value::ColorSpecular(color("3.0", "4.0", "5.0")));

    assert_eq!(Ok(material), construct_material_struct(&values));
}

fn construct_material_struct_should_fail_if_no_name() {
    let mut values: Vec<Value> = Vec::new();
    values.push(Value::ColorAmbient(color("1.0", "2.0", "3.0")));
    values.push(Value::ColorDiffuse(color("2.0", "3.0", "4.0")));
    values.push(Value::ColorSpecular(color("3.0", "4.0", "5.0")));

    assert_eq!(
        Err("Name not found while constructing Material. It is a necessary field.\n".to_string()),
        construct_material_struct(&values)
    );
}

fn construct_material_struct_should_fail_if_no_ambient_color() {
    let mut values: Vec<Value> = Vec::new();
    values.push(Value::Name("material1".to_string()));
    values.push(Value::ColorDiffuse(color("2.0", "3.0", "4.0")));
    values.push(Value::ColorSpecular(color("3.0", "4.0", "5.0")));

    assert_eq!(
        Err("Ambient color not found while constructing Material. It is a necessary field.\n"
            .to_string()),
        construct_material_struct(&values)
    );
}

fn construct_material_struct_should_fail_if_no_diffuse_color() {
    let mut values: Vec<Value> = Vec::new();
    values.push(Value::Name("material1".to_string()));
    values.push(Value::ColorAmbient(color("1.0", "2.0", "3.0")));
    values.push(Value::ColorSpecular(color("3.0", "4.0", "5.0")));

    assert_eq!(
        Err("Diffuse color not found while constructing Material. It is a necessary field.\n"
            .to_string()),
        construct_material_struct(&values)
    );
}

fn construct_material_struct_should_fail_if_no_specular_color() {
    let mut values: Vec<Value> = Vec::new();
    values.push(Value::Name("material1".to_string()));
    values.push(Value::ColorAmbient(color("1.0", "2.0", "3.0")));
    values.push(Value::ColorDiffuse(color("2.0", "3.0", "4.0")));

    assert_eq!(
        Err("Specular color not found while constructing Material. It is a necessary field.\n"
            .to_string()),
        construct_material_struct(&values)
    );
}

fn construct_material_struct_should_fail_if_no_values() {
    let values: Vec<Value> = Vec::new();

    assert_eq!(
        Err("Name not found while constructing Material. It is a necessary field.\nAmbient color not found while constructing Material. It is a necessary field.\nDiffuse color not found while constructing Material. It is a necessary field.\nSpecular color not found while constructing Material. It is a necessary field.\n".to_string()),
        construct_material_struct(&values)
    );
}

fn construct_material_struct_should_fail_if_duplicate_name() {
    let mut values = complete_values();

    values.push(Value::Name("material2".to_string()));
    assert_eq!(
        Err("Duplicate names found while constructing Material.\n".to_string()),
        construct_material_struct(&values)
    );
    values.push(Value::Name("material3".to_string()));
    assert_eq!(
        Err("Duplicate names found while constructing Material.\n".to_string()),
        construct_material_struct(&values)
    );
}

fn construct_material_struct_should_fail_if_duplicate_ambient_color() {
    let mut values = complete_values();

    values.push(Value::ColorAmbient(color("2.0", "2.0", "3.0")));
    assert_eq!(
        Err("Duplicate ambient colors found while constructing Material.\n".to_string()),
        construct_material_struct(&values)
    );
    values.push(Value::ColorAmbient(color("3.0", "2.0", "3.0")));
    assert_eq!(
        Err("Duplicate ambient colors found while constructing Material.\n".to_string()),
        construct_material_struct(&values)
    );
}

fn construct_material_struct_should_fail_if_duplicate_diffuse_color() {
    let mut values = complete_values();

    values.push(Value::ColorDiffuse(color("2.0", "2.0", "3.0")));
    assert_eq!(
        Err("Duplicate diffuse colors found while constructing Material.\n".to_string()),
        construct_material_struct(&values)
    );
    values.push(Value::ColorDiffuse(color("3.0", "2.0", "3.0")));
    assert_eq!(
        Err("Duplicate diffuse colors found while constructing Material.\n".to_string()),
        construct_material_struct(&values)
    );
}

fn construct_material_struct_should_fail_if_duplicate_specular_color() {
    let mut values = complete_values();

    values.push(Value::ColorSpecular(color("2.0", "2.0", "3.0")));
    assert_eq!(
        Err("Duplicate specular colors found while constructing Material.\n".to_string()),
        construct_material_struct(&values)
    );
    values.push(Value::ColorSpecular(color("3.0", "2.0", "3.0")));
    assert_eq!(
        Err("Duplicate specular colors found while constructing Material.\n".to_string()),
        construct_material_struct(&values)
    );
}

fn construct_material_struct_should_fail_if_duplicate_transmission_color() {
    let mut values = complete_values();

    values.push(Value::ColorTransmission(color("2.0", "2.0", "3.0")));
    assert_eq!(
        Err("Duplicate transmission colors found while constructing Material.\n".to_string()),
        construct_material_struct(&values)
    );
    values.push(Value::ColorTransmission(color("3.0", "2.0", "3.0")));
    assert_eq!(
        Err("Duplicate transmission colors found while constructing Material.\n".to_string()),
        construct_material_struct(&values)
    );
}

fn construct_material_struct_should_fail_if_duplicate_illumination() {
    let mut values = complete_values();

    values.push(Value::Illum(Illumination::ColorOnAmbientOn));
    assert_eq!(
        Err("Duplicate illumination found while constructing Material.\n".to_string()),
        construct_material_struct(&values)
    );
    values.push(Value::Illum(Illumination::HighlightOn));
    assert_eq!(
        Err("Duplicate illumination found while constructing Material.\n".to_string()),
        construct_material_struct(&values)
    );
}

fn construct_material_struct_should_fail_if_duplicate_alpha() {
    let mut values = complete_values();

    values.push(Value::Alpha(num("1.2")));
    assert_eq!(
        Err("Duplicate alpha found while constructing Material.\n".to_string()),
        construct_material_struct(&values)
    );
    values.push(Value::Alpha(num("1.3")));
    assert_eq!(
        Err("Duplicate alpha found while constructing Material.\n".to_string()),
        construct_material_struct(&values)
    );
}

fn construct_material_struct_should_fail_if_duplicate_specular_coefficient() {
    let mut values = complete_values();

    values.push(Value::SpecularCoefficient(num("2.3")));
    assert_eq!(
        Err("Duplicate specular coefficient found while constructing Material.\n".to_string()),
        construct_material_struct(&values)
    );
    values.push(Value::SpecularCoefficient(num("2.4")));
    assert_eq!(
        Err("Duplicate specular coefficient found while constructing Material.\n".to_string()),
        construct_material_struct(&values)
    );
}

fn construct_material_struct_should_fail_if_duplicate_optical_density() {
    let mut values = complete_values();

    values.push(Value::OpticalDensity(num("3.4")));
    assert_eq!(
        Err("Duplicate optical density found while constructing Material.\n".to_string()),
        construct_material_struct(&values)
    );
    values.push(Value::OpticalDensity(num("3.5")));
    assert_eq!(
        Err("Duplicate optical density found while constructing Material.\n".to_string()),
        construct_material_struct(&values)
    );
}

#[test]
fn parse_name_value_should_parse_properly() {
    let test_case_1 = " newmtl materialname3\n";
    let test_case_2 = " newmtl materialname3 # Comment\n";
    let test_case_3 = " newmtl materialname3.001 # Comment\n";
    let test_case_4 = " newmtl materialname3 after\n";
    let test_case_5 = " before newmtl materialname3\n";

    assert_eq!(
        Some((chars(test_case_1), Value::Name("materialname3".to_string()))),
        parse_name_value(test_case_1, 0)
    );
    assert_eq!(
        Some((chars(test_case_2), Value::Name("materialname3".to_string()))),
        parse_name_value(test_case_2, 0)
    );
    assert_eq!(
        Some((chars(test_case_3), Value::Name("materialname3.001".to_string()))),
        parse_name_value(test_case_3, 0)
    );
    assert_eq!(None, parse_name_value(test_case_4, 0));
    assert_eq!(None, parse_name_value(test_case_5, 0));
}

#[test]
fn parse_color_ambient_value_should_parse_properly() {
    let test_case_1 = " Ka 1.1 -2.2 3.3\n";
    let test_case_2 = " Ka -1.1\n";
    let test_case_3 = " Ka 4 3 2 # Comment\n";
    let test_case_4 = " Ka 1.1 2.2 3.3 after\n";
    let test_case_5 = " before Ka 1.1 2.2 3.3\n";

    assert_eq!(
        Some((chars(test_case_1), Value::ColorAmbient(color("1.1", "-2.2", "3.3")))),
        parse_color_ambient_value(test_case_1, 0)
    );
    assert_eq!(
        Some((chars(test_case_2), Value::ColorAmbient(color("-1.1", "-1.1", "-1.1")))),
        parse_color_ambient_value(test_case_2, 0)
    );
    assert_eq!(
        Some((chars(test_case_3), Value::ColorAmbient(color("4", "3", "2")))),
        parse_color_ambient_value(test_case_3, 0)
    );
    assert_eq!(None, parse_color_ambient_value(test_case_4, 0));
    assert_eq!(None, parse_color_ambient_value(test_case_5, 0));
}

#[test]
fn parse_color_diffuse_value_should_parse_properly() {
    let test_case_1 = " Kd 1.1 2.2 3.3\n";
    let test_case_2 = " Kd 1.1\n";
    let test_case_3 = " Kd 4 3 2 # Comment\n";
    let test_case_4 = " Kd 1.1 2.2 3.3 after\n";
    let test_case_5 = " before Kd 1.1 2.2 3.3\n";

    assert_eq!(
        Some((chars(test_case_1), Value::ColorDiffuse(color("1.1", "2.2", "3.3")))),
        parse_color_diffuse_value(test_case_1, 0)
    );
    assert_eq!(
        Some((chars(test_case_2), Value::ColorDiffuse(color("1.1", "1.1", "1.1")))),
        parse_color_diffuse_value(test_case_2, 0)
    );
    assert_eq!(
        Some((chars(test_case_3), Value::ColorDiffuse(color("4", "3", "2")))),
        parse_color_diffuse_value(test_case_3, 0)
    );
    assert_eq!(None, parse_color_diffuse_value(test_case_4, 0));
    assert_eq!(None, parse_color_diffuse_value(test_case_5, 0));
}

#[test]
fn parse_color_specular_value_should_parse_properly() {
    let test_case_1 = " Ks 1.1 2.2 3.3\n";
    let test_case_2 = " Ks 1.1\n";
    let test_case_3 = " Ks 4 3 2 # Comment\n";
    let test_case_4 = " Ks 1.1 2.2 3.3 after\n";
    let test_case_5 = " before Ks 1.1 2.2 3.3\n";

    assert_eq!(
        Some((chars(test_case_1), Value::ColorSpecular(color("1.1", "2.2", "3.3")))),
        parse_color_specular_value(test_case_1, 0)
    );
    assert_eq!(
        Some((chars(test_case_2), Value::ColorSpecular(color("1.1", "1.1", "1.1")))),
        parse_color_specular_value(test_case_2, 0)
    );
    assert_eq!(
        Some((chars(test_case_3), Value::ColorSpecular(color("4", "3", "2")))),
        parse_color_specular_value(test_case_3, 0)
    );
    assert_eq!(None, parse_color_specular_value(test_case_4, 0));
    assert_eq!(None, parse_color_specular_value(test_case_5, 0));
}

#[test]
fn parse_color_transmission_value_should_parse_properly() {
    let test_case_1 = " Tf 1.1 2.2 3.3\n";
    let test_case_2 = " Tf 1.1\n";
    let test_case_3 = " Tf 4 3 2 # Comment\n";
    let test_case_4 = " Tf 1.1 2.2 3.3 after\n";
    let test_case_5 = " before Tf 1.1 2.2 3.3\n";

    assert_eq!(
        Some((chars(test_case_1), Value::ColorTransmission(color("1.1", "2.2", "3.3")))),
        parse_color_transmission_value(test_case_1, 0)
    );
    assert_eq!(
        Some((chars(test_case_2), Value::ColorTransmission(color("1.1", "1.1", "1.1")))),
        parse_color_transmission_value(test_case_2, 0)
    );
    assert_eq!(
        Some((chars(test_case_3), Value::ColorTransmission(color("4", "3", "2")))),
        parse_color_transmission_value(test_case_3, 0)
    );
    assert_eq!(None, parse_color_transmission_value(test_case_4, 0));
    assert_eq!(None, parse_color_transmission_value(test_case_5, 0));
}

#[test]
fn parse_illum_value_should_parse_properly() {
    let test_case_1 = " illum 0\n";
    let test_case_2 = " illum 1\n";
    let test_case_3 = " illum 2\n";
    let test_case_4 = " illum 3\n";
    let test_case_5 = " illum 4\n";
    let test_case_6 = " illum 5\n";
    let test_case_7 = " illum 6\n";
    let test_case_8 = " illum 7\n";
    let test_case_9 = " illum 8\n";
    let test_case_10 = " illum 9\n";
    let test_case_11 = " illum 10 # Comment\n";
    let test_case_12 = " illum 11\n";
    let test_case_13 = " illum 0 after\n";
    let test_case_14 = " before illum 0\n";

    assert_eq!(
        Some((chars(test_case_1), Value::Illum(Illumination::ColorOnAmbientOff))),
        parse_illum_value(test_case_1, 0)
    );
    assert_eq!(
        Some((chars(test_case_2), Value::Illum(Illumination::ColorOnAmbientOn))),
        parse_illum_value(test_case_2, 0)
    );
    assert_eq!(
        Some((chars(test_case_3), Value::Illum(Illumination::HighlightOn))),
        parse_illum_value(test_case_3, 0)
    );
    assert_eq!(
        Some((chars(test_case_4), Value::Illum(Illumination::ReflectionOnAndRayTraceOn))),
        parse_illum_value(test_case_4, 0)
    );
    assert_eq!(
        Some((
            chars(test_case_5),
            Value::Illum(Illumination::TransparencyGlassOnReflectionRayTraceOn)
        )),
        parse_illum_value(test_case_5, 0)
    );
    assert_eq!(
        Some((chars(test_case_6), Value::Illum(Illumination::ReflectionFresnelOnAndRayTraceOn))),
        parse_illum_value(test_case_6, 0)
    );
    assert_eq!(
        Some((
            chars(test_case_7),
            Value::Illum(Illumination::TransparencyRefractionOnReflectionFresnelOffAndRayTraceOn)
        )),
        parse_illum_value(test_case_7, 0)
    );
    assert_eq!(
        Some((
            chars(test_case_8),
            Value::Illum(Illumination::TransparencyRefractionOnReflectionFresnelOnAndRayTraceOn)
        )),
        parse_illum_value(test_case_8, 0)
    );
    assert_eq!(
        Some((chars(test_case_9), Value::Illum(Illumination::TeflectionOnAndRayTraceOff))),
        parse_illum_value(test_case_9, 0)
    );
    assert_eq!(
        Some((
            chars(test_case_10),
            Value::Illum(Illumination::TransparencyGlassOnReflectionRayTraceOff)
        )),
        parse_illum_value(test_case_10, 0)
    );
    assert_eq!(
        Some((
            chars(test_case_11),
            Value::Illum(Illumination::CastsShadowsOntoInvisibleSurfaces)
        )),
        parse_illum_value(test_case_11, 0)
    );
    assert_eq!(None, parse_color_transmission_value(test_case_12, 0));
    assert_eq!(None, parse_color_transmission_value(test_case_13, 0));
    assert_eq!(None, parse_color_transmission_value(test_case_14, 0));
}

#[test]
fn parse_alpha_value_should_parse_properly() {
    let test_case_1 = " d 1.1 # Comment\n";
    let test_case_2 = " d 1.1 after\n";
    let test_case_3 = " before d 1.1\n";

    assert_eq!(
        Some((chars(test_case_1), Value::Alpha(num("1.1")))),
        parse_alpha_value(test_case_1, 0)
    );
    assert_eq!(None, parse_alpha_value(test_case_2, 0));
    assert_eq!(None, parse_alpha_value(test_case_3, 0));
}

#[test]
fn parse_specular_coefficient_should_parse_properly() {
    let test_case_1 = " Ns 1.1 # Comment\n";
    let test_case_2 = " Ns 1.1 after\n";
    let test_case_3 = " before Ns 1.1\n";

    assert_eq!(
        Some((chars(test_case_1), Value::SpecularCoefficient(num("1.1")))),
        parse_specular_coefficient_value(test_case_1, 0)
    );
    assert_eq!(None, parse_specular_coefficient_value(test_case_2, 0));
    assert_eq!(None, parse_specular_coefficient_value(test_case_3, 0));
}

#[test]
fn parse_optical_density_should_parse_properly() {
    let test_case_1 = " Ni 1.1 # Comment\n";
    let test_case_2 = " Ni 1.1 after\n";
    let test_case_3 = " before Ni 1.1\n";

    assert_eq!(
        Some((chars(test_case_1), Value::OpticalDensity(num("1.1")))),
        parse_optical_density_value(test_case_1, 0)
    );
    assert_eq!(None, parse_optical_density_value(test_case_2, 0));
    assert_eq!(None, parse_optical_density_value(test_case_3, 0));
}

#[test]
fn parse_materials_rejects_illum_eleven() {
    let mtl_file = "newmtl m
Ka 0 0 0
Kd 0 0 0
Ks 0 0 0
illum 11
";

    assert_eq!(Err("Parser Error: illum 11\n".to_string()), parse_materials(mtl_file));
}

#[test]
fn color_fallback_uses_red_for_green_and_blue() {
    let two_components = " Kd 1.1 2.2\n";
    let one_component = " Tf -0.5\n";

    assert_eq!(
        Some((chars(two_components), Value::ColorDiffuse(color("1.1", "2.2", "1.1")))),
        parse_color_diffuse_value(two_components, 0)
    );
    assert_eq!(
        Some((chars(one_component), Value::ColorTransmission(color("-0.5", "-0.5", "-0.5")))),
        parse_color_transmission_value(one_component, 0)
    );
}

#[test]
fn construct_material_structs_of_no_values_reports_missing_fields() {
    let values: Vec<Value> = Vec::new();

    assert_eq!(
        Err("Name not found while constructing Material. It is a necessary field.\nAmbient color not found while constructing Material. It is a necessary field.\nDiffuse color not found while constructing Material. It is a necessary field.\nSpecular color not found while constructing Material. It is a necessary field.\n".to_string()),
        construct_material_structs(values)
    );
}

#[test]
fn comments_and_blank_lines_do_not_change_materials() {
    let with_noise = "
# heading comment
newmtl m

   # indented comment
Ka 1 2 3
Kd 4 5 6

Ks 7 8 9
	# tab comment
";
    let stripped = "newmtl m
Ka 1 2 3
Kd 4 5 6
Ks 7 8 9
";

    assert_eq!(parse_materials(stripped), parse_materials(with_noise));
    assert!(parse_materials(stripped).is_ok());
}

#[test]
fn parse_materials_reports_unmatched_text() {
    let mtl_file = "newmtl m
Ka 1 2 3
map_Kd texture.png
";

    assert_eq!(
        Err("Parser Error: map_Kd texture.png\n".to_string()),
        parse_materials(mtl_file)
    );
}
