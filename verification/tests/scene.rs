use ai_rt::float_bits::{is_finite_bits, is_positive_finite_bits, is_unit_interval_bits};
use ai_rt::scene::{
    default_latitude_segments, default_longitude_segments, default_metalness, default_roughness,
    default_uv_scale, select_material, sphere_radius_valid, unique_materials, validate_material,
    validate_scalar_property, GeometryDescription, MaterialDescription, MaterialError,
    MaterialPropertyDescription, ScalarProperty, SelectMaterialError,
};

fn material(albedo: [f32; 3]) -> MaterialDescription<String> {
    MaterialDescription {
        albedo: MaterialPropertyDescription::Constant(albedo.map(f32::to_bits)),
        uv_scale: default_uv_scale(),
        roughness: default_roughness(),
        metalness: default_metalness(),
    }
}

fn names(list: &[&str]) -> Vec<String> {
    list.iter().map(|name| name.to_string()).collect()
}

#[test]
fn objects_without_material_use_the_default_material() {
    let materials = vec![("default".to_string(), material([1.0, 0.0, 0.0]))];
    for (_, description) in &materials {
        assert_eq!(validate_material(description), Ok(()));
    }
    let keys: Vec<String> = materials.iter().map(|(name, _)| name.clone()).collect();

    let selected = select_material(None, &keys).unwrap();
    assert_eq!(
        materials[selected].1.albedo.constant().map(|albedo| albedo.map(f32::from_bits)),
        Some([1.0, 0.0, 0.0])
    );
}

#[test]
fn explicit_material_names_win() {
    let keys = names(&["red", "default", "green"]);
    assert_eq!(select_material(Some("green"), &keys), Ok(2));
    assert_eq!(select_material(None, &keys), Ok(1));
    assert_eq!(
        select_material(Some("blue"), &keys),
        Err(SelectMaterialError::UnknownMaterial("blue".to_string()))
    );
}

#[test]
fn a_single_material_is_the_default() {
    assert_eq!(select_material(None, &names(&["only"])), Ok(0));
    assert_eq!(
        select_material(None, &names(&["red", "green"])),
        Err(SelectMaterialError::NoDefaultMaterial)
    );
    assert_eq!(
        select_material(None, &names(&[])),
        Err(SelectMaterialError::NoDefaultMaterial)
    );
    assert_eq!(
        select_material(Some("default"), &names(&[])),
        Err(SelectMaterialError::UnknownMaterial("default".to_string()))
    );
}

#[test]
fn material_defaults_match_the_readme() {
    assert_eq!(default_latitude_segments(), 32);
    assert_eq!(default_longitude_segments(), 64);
    let geometry = GeometryDescription::default();
    assert_eq!((geometry.latitude_segments, geometry.longitude_segments), (32, 64));
    assert_eq!(default_uv_scale().map(f32::from_bits), [1.0, 1.0]);
    let roughness: MaterialPropertyDescription<u32, String> = default_roughness();
    let metalness: MaterialPropertyDescription<u32, String> = default_metalness();
    assert_eq!(roughness.constant().map(f32::from_bits), Some(0.5));
    assert_eq!(metalness.constant().map(f32::from_bits), Some(0.0));
}

#[test]
fn material_validation_reports_the_first_problem() {
    assert_eq!(validate_material(&material([0.5, 0.5, 0.5])), Ok(()));
    assert_eq!(
        validate_material(&material([0.5, f32::NAN, 0.5])),
        Err(MaterialError::NonFiniteAlbedo)
    );
    let mut bad_uv = material([f32::INFINITY, 0.0, 0.0]);
    bad_uv.uv_scale = [1.0f32.to_bits(), 0.0f32.to_bits()];
    assert_eq!(validate_material(&bad_uv), Err(MaterialError::NonFiniteAlbedo));
    bad_uv.albedo = MaterialPropertyDescription::Texture {
        texture: "albedo.png".to_string(),
    };
    assert_eq!(validate_material(&bad_uv), Err(MaterialError::InvalidUvScale));
    bad_uv.uv_scale = [2.0f32.to_bits(), 3.0f32.to_bits()];
    assert_eq!(validate_material(&bad_uv), Ok(()));

    let mut rough = material([0.5, 0.5, 0.5]);
    rough.roughness = MaterialPropertyDescription::NamedConstant {
        constant: 1.5f32.to_bits(),
    };
    rough.metalness = MaterialPropertyDescription::Constant((-0.5f32).to_bits());
    assert_eq!(
        validate_material(&rough),
        Err(MaterialError::ScalarOutOfRange(ScalarProperty::Roughness))
    );
    rough.roughness = MaterialPropertyDescription::Texture {
        texture: "roughness.png".to_string(),
    };
    assert_eq!(
        validate_material(&rough),
        Err(MaterialError::ScalarOutOfRange(ScalarProperty::Metalness))
    );
}

#[test]
fn scalar_properties_must_lie_in_the_unit_interval() {
    for (value, ok) in [
        (0.0f32, true),
        (-0.0, true),
        (1.0, true),
        (0.25, true),
        (1.0000001, false),
        (-1.0e-30, false),
        (f32::NAN, false),
        (f32::INFINITY, false),
    ] {
        let property: MaterialPropertyDescription<u32, String> =
            MaterialPropertyDescription::Constant(value.to_bits());
        assert_eq!(
            validate_scalar_property(&property, ScalarProperty::Metalness).is_ok(),
            ok,
            "{value}"
        );
    }
}

#[test]
fn float_bit_tests_agree_with_f32() {
    let samples = [
        0.0f32,
        -0.0,
        1.0,
        -1.0,
        0.5,
        1.0e-45,
        -1.0e-45,
        f32::MAX,
        f32::MIN,
        f32::MIN_POSITIVE,
        f32::INFINITY,
        f32::NEG_INFINITY,
        f32::NAN,
        -f32::NAN,
        0.999_999_94,
        1.000_000_1,
        3.5,
    ];
    for value in samples {
        let bits = value.to_bits();
        assert_eq!(is_finite_bits(bits), value.is_finite(), "{value}");
        assert_eq!(
            is_unit_interval_bits(bits),
            value.is_finite() && (0.0..=1.0).contains(&value),
            "{value}"
        );
        assert_eq!(
            is_positive_finite_bits(bits),
            value.is_finite() && value > 0.0,
            "{value}"
        );
        assert_eq!(
            sphere_radius_valid(bits),
            !(!value.is_finite() || value <= 0.0),
            "{value}"
        );
    }
}

#[test]
fn unique_materials_keep_first_use_order() {
    assert_eq!(unique_materials(&vec![2, 0, 2, 1, 0, 1]), vec![2, 0, 1]);
    assert_eq!(unique_materials(&vec![]), Vec::<usize>::new());
    assert_eq!(unique_materials(&vec![3, 3, 3]), vec![3]);
}

#[test]
fn distinct_material_names_select_the_only_match() {
    let keys = names(&["green", "red", "default", "blue"]);
    for (index, name) in keys.iter().enumerate() {
        let selected = select_material(Some(name), &keys).unwrap();
        assert_eq!(selected, index);
        assert_eq!(keys.iter().filter(|key| *key == &keys[selected]).count(), 1);
    }
}
