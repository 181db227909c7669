use ai_rt::features::{
    decimal_string, feature_order, manifest_matches_runtime, ModelManifest, DIRECTION_INPUT_SIZE,
    OUTPUT_SIZE,
};
use ai_rt::render_args::{
    check_image_dimensions, duration_unit, shader_model_to_load, DimensionError, DurationUnit,
    ShaderModelError, ShadingMode,
};
use ai_rt::training::{
    latent_layout, latent_row, material_latent_range, steps_per_epoch, training_args_valid,
    LatentLayout, LatentLayoutError,
};

fn manifest(latent_size: usize) -> ModelManifest {
    ModelManifest {
        schema_version: 2,
        input_size: DIRECTION_INPUT_SIZE + latent_size,
        latent_size,
        output_size: OUTPUT_SIZE,
        hidden_sizes: [64, 64],
        feature_order: feature_order(latent_size),
        target_shader: "pbr".to_string(),
        pbr_shader_version: 1,
    }
}

#[test]
fn feature_order_lists_directions_then_latents() {
    assert_eq!(
        feature_order(2),
        vec![
            "normal.x", "normal.y", "normal.z", "light.x", "light.y", "light.z", "view.x",
            "view.y", "view.z", "latent.0", "latent.1"
        ]
    );
    assert_eq!(feature_order(0).len(), 9);
    assert_eq!(feature_order(12)[9 + 11], "latent.11");
}

#[test]
fn decimal_strings_match_to_string() {
    for n in [0usize, 7, 9, 10, 42, 100, 1234567, usize::MAX] {
        assert_eq!(decimal_string(n), n.to_string());
    }
}

#[test]
fn manifests_must_match_the_feature_contract() {
    assert!(manifest_matches_runtime(&manifest(8)));
    assert!(!manifest_matches_runtime(&manifest(0)));

    let mut wrong = manifest(8);
    wrong.schema_version = 1;
    assert!(!manifest_matches_runtime(&wrong));
    let mut wrong = manifest(8);
    wrong.input_size = 12;
    assert!(!manifest_matches_runtime(&wrong));
    let mut wrong = manifest(8);
    wrong.hidden_sizes = [64, 32];
    assert!(!manifest_matches_runtime(&wrong));
    let mut wrong = manifest(8);
    wrong.feature_order.swap(0, 1);
    assert!(!manifest_matches_runtime(&wrong));
    let mut wrong = manifest(8);
    wrong.feature_order.pop();
    assert!(!manifest_matches_runtime(&wrong));
    let mut wrong = manifest(8);
    wrong.target_shader = "phong".to_string();
    assert!(!manifest_matches_runtime(&wrong));
    let mut wrong = manifest(8);
    wrong.pbr_shader_version = 2;
    assert!(!manifest_matches_runtime(&wrong));
    let mut wrong = manifest(8);
    wrong.output_size = 4;
    assert!(!manifest_matches_runtime(&wrong));
}

#[test]
fn image_dimensions_must_be_positive_and_addressable() {
    assert_eq!(check_image_dimensions(64, 64), Ok(64 * 64 * 3));
    assert_eq!(check_image_dimensions(0, 64), Err(DimensionError::Zero));
    assert_eq!(check_image_dimensions(64, 0), Err(DimensionError::Zero));
    assert_eq!(
        check_image_dimensions(u32::MAX, u32::MAX),
        Err(DimensionError::TooLarge)
    );
    if usize::BITS == 64 {
        assert_eq!(
            check_image_dimensions(1 << 31, 1 << 31),
            Ok((1usize << 62) * 3)
        );
    }
}

#[test]
fn durations_pick_the_largest_unit_reached() {
    assert_eq!(duration_unit(1, 0), DurationUnit::Seconds);
    assert_eq!(duration_unit(3, 999_999_999), DurationUnit::Seconds);
    assert_eq!(duration_unit(0, 999_999_999), DurationUnit::Milliseconds);
    assert_eq!(duration_unit(0, 1_000_000), DurationUnit::Milliseconds);
    assert_eq!(duration_unit(0, 999_999), DurationUnit::Microseconds);
    assert_eq!(duration_unit(0, 0), DurationUnit::Microseconds);
}

#[test]
fn training_arguments_must_be_positive() {
    assert!(training_args_valid(8192, 2, 256, 8, 8, 8));
    assert!(!training_args_valid(0, 2, 256, 8, 8, 8));
    assert!(!training_args_valid(8192, 2, 256, 8, 8, 0));
    assert!(!training_args_valid(8192, 0, 256, 8, 8, 8));
}

#[test]
fn latent_layout_counts_rows_per_material_texel() {
    let layout = latent_layout(3, 8, 4, 16).unwrap();
    assert_eq!(layout, LatentLayout { texels: 32, rows: 96, values: 1536 });
    assert_eq!(
        latent_layout(1, usize::MAX, 2, 1),
        Err(LatentLayoutError::TexelsTooLarge)
    );
    assert_eq!(
        latent_layout(usize::MAX, 2, 1, 1),
        Err(LatentLayoutError::RowsTooLarge)
    );
    assert_eq!(
        latent_layout(2, 2, 1, usize::MAX),
        Err(LatentLayoutError::ValuesTooLarge)
    );

    assert_eq!(latent_row(0, 0, 0, 8, 4, 3, layout), 0);
    assert_eq!(latent_row(1, 2, 1, 8, 4, 3, layout), 32 + 8 + 2);
    assert_eq!(latent_row(2, 7, 3, 8, 4, 3, layout), 95);
    assert_eq!(material_latent_range(0, 3, layout, 16), (0, 512));
    assert_eq!(material_latent_range(2, 3, layout, 16), (1024, 1536));
}

#[test]
fn epochs_cover_every_sample() {
    assert_eq!(steps_per_epoch(8192, 256), 32);
    assert_eq!(steps_per_epoch(8193, 256), 33);
    assert_eq!(steps_per_epoch(0, 256), 0);
    assert_eq!(steps_per_epoch(usize::MAX, 1), usize::MAX);
    assert_eq!(steps_per_epoch(usize::MAX, 2), usize::MAX / 2 + 1);
}

#[test]
fn only_mlp_shading_loads_a_shader_model() {
    assert_eq!(shader_model_to_load(ShadingMode::Mlp, Some("model")), Ok(Some("model")));
    assert_eq!(
        shader_model_to_load::<&str>(ShadingMode::Mlp, None),
        Err(ShaderModelError::MissingModel)
    );
    for mode in [ShadingMode::Barycentrics, ShadingMode::Phong, ShadingMode::Pbr] {
        assert_eq!(shader_model_to_load(mode, Some("model")), Ok(None));
        assert_eq!(shader_model_to_load::<&str>(mode, None), Ok(None));
    }
}
