//! The input contract of the MLP shader: the order of its input features and
//! the checks a model manifest must pass before a model is used.
use vstd::prelude::*;
use vstd::string::StringExecFns;
use crate::scene::name_views;

verus! {

/// Number of direction features: normal, light and view directions.
pub const DIRECTION_INPUT_SIZE: usize = 9;

/// Number of outputs: an RGB color.
pub const OUTPUT_SIZE: usize = 3;

/// Width of each of the two hidden layers.
pub const HIDDEN_SIZE: usize = 64;

/// Number of inputs of the reference shader's feature row: normal, light
/// direction, view direction and albedo.
pub const INPUT_SIZE: usize = 12;

/// Latent vector length when training is not told otherwise.
pub const DEFAULT_LATENT_SIZE: usize = 8;

/// Side length of a latent texture when training is not told otherwise.
pub const DEFAULT_LATENT_TEXTURE_SIZE: usize = 8;

/// The character for decimal digit `digit`.
pub open spec fn digit_char(digit: int) -> char {
    (48 + digit) as char
}

/// Decimal representation of `n`, without leading zeros.
pub open spec fn decimal(n: nat) -> Seq<char>
    decreases n,
{
    if n < 10 {
        seq![digit_char(n as int)]
    } else {
        decimal(n / 10).push(digit_char((n % 10) as int))
    }
}

/// The string of one decimal digit.
fn digit_str(digit: usize) -> (text: &'static str)
    requires
        digit < 10,
    ensures
        text@ == seq![digit_char(digit as int)],
{
    proof {
        reveal_strlit("0");
        reveal_strlit("1");
        reveal_strlit("2");
        reveal_strlit("3");
        reveal_strlit("4");
        reveal_strlit("5");
        reveal_strlit("6");
        reveal_strlit("7");
        reveal_strlit("8");
        reveal_strlit("9");
    }
    let text = match digit {
        0 => "0",
        1 => "1",
        2 => "2",
        3 => "3",
        4 => "4",
        5 => "5",
        6 => "6",
        7 => "7",
        8 => "8",
        _ => "9",
    };
    assert(text@ =~= seq![digit_char(digit as int)]);
    text
}

/// Decimal representation of `n`, as `n.to_string()` writes it.
pub fn decimal_string(n: usize) -> (text: String)
    ensures
        text@ == decimal(n as nat),
    decreases n,
{
    if n < 10 {
        String::from_str(digit_str(n))
    } else {
        let mut text = decimal_string(n / 10);
        text.append(digit_str(n % 10));
        assert(text@ =~= decimal((n / 10) as nat).push(digit_char((n % 10) as int)));
        text
    }
}

/// Names of the direction features, in input order.
pub open spec fn direction_feature_names() -> Seq<Seq<char>> {
    seq![
        "normal.x"@,
        "normal.y"@,
        "normal.z"@,
        "light.x"@,
        "light.y"@,
        "light.z"@,
        "view.x"@,
        "view.y"@,
        "view.z"@,
    ]
}

/// Names of all input features for latent vectors of length `latent_size`:
/// the direction features, then `latent.0`, `latent.1`, ...
pub open spec fn feature_names(latent_size: nat) -> Seq<Seq<char>> {
    direction_feature_names() + Seq::new(latent_size, |index: int| "latent."@ + decimal(index as nat))
}

/// The names of the MLP's input features, in input order.
pub fn feature_order(latent_size: usize) -> (order: Vec<String>)
    ensures
        name_views(order@) == feature_names(latent_size as nat),
{
    let mut order: Vec<String> = Vec::new();
    order.push(String::from_str("normal.x"));
    order.push(String::from_str("normal.y"));
    order.push(String::from_str("normal.z"));
    order.push(String::from_str("light.x"));
    order.push(String::from_str("light.y"));
    order.push(String::from_str("light.z"));
    order.push(String::from_str("view.x"));
    order.push(String::from_str("view.y"));
    order.push(String::from_str("view.z"));
    assert(name_views(order@) =~= direction_feature_names());
    let mut index: usize = 0;
    while index < latent_size
        invariant
            index <= latent_size,
            name_views(order@) == feature_names(index as nat),
        decreases latent_size - index,
    {
        let mut name = String::from_str("latent.");
        let digits = decimal_string(index);
        name.append(digits.as_str());
        let ghost before = order@;
        order.push(name);
        proof {
            assert(name_views(order@) =~= name_views(before).push(name@));
            assert(feature_names((index + 1) as nat) =~= feature_names(index as nat).push(
                "latent."@ + decimal(index as nat),
            ));
        }
        index = index + 1;
    }
    order
}

/// What a model manifest says of the model it describes.
pub struct ModelManifest {
    pub schema_version: u32,
    pub input_size: usize,
    pub latent_size: usize,
    pub output_size: usize,
    pub hidden_sizes: [usize; 2],
    pub feature_order: Vec<String>,
    pub target_shader: String,
    pub pbr_shader_version: u32,
}

/// Whether a manifest describes a model the renderer can run: schema 2, a
/// PBR target of shader version 1, a non-empty latent vector, the direction
/// and latent inputs in the runtime order, two hidden layers of 64 and an RGB
/// output.
pub open spec fn manifest_fits_runtime(manifest: ModelManifest) -> bool {
    &&& manifest.schema_version == 2
    &&& manifest.input_size == DIRECTION_INPUT_SIZE + manifest.latent_size
    &&& manifest.latent_size != 0
    &&& manifest.output_size == OUTPUT_SIZE
    &&& manifest.hidden_sizes@ == seq![64usize, 64usize]
    &&& name_views(manifest.feature_order@) == feature_names(manifest.latent_size as nat)
    &&& manifest.target_shader@ == "pbr"@
    &&& manifest.pbr_shader_version == 1
}

/// Whether two lists of names are equal.
fn names_equal(left: &Vec<String>, right: &Vec<String>) -> (equal: bool)
    ensures
        equal == (name_views(left@) == name_views(right@)),
{
    if left.len() != right.len() {
        assert(name_views(left@).len() != name_views(right@).len());
        return false;
    }
    let mut index: usize = 0;
    while index < left.len()
        invariant
            index <= left@.len(),
            left@.len() == right@.len(),
            forall|j: int| 0 <= j < index ==> left@[j]@ == right@[j]@,
        decreases left@.len() - index,
    {
        if left[index] != right[index] {
            assert(name_views(left@)[index as int] != name_views(right@)[index as int]);
            return false;
        }
        index = index + 1;
    }
    assert(name_views(left@) =~= name_views(right@));
    true
}

/// Checks a model manifest against the runtime's feature contract.
pub fn manifest_matches_runtime(manifest: &ModelManifest) -> (fits: bool)
    requires
        manifest.latent_size <= usize::MAX - DIRECTION_INPUT_SIZE,
    ensures
        fits == manifest_fits_runtime(*manifest),
{
    let expected_features = feature_order(manifest.latent_size);
    let pbr = String::from_str("pbr");
    let hidden_fit = manifest.hidden_sizes[0] == HIDDEN_SIZE && manifest.hidden_sizes[1] == HIDDEN_SIZE;
    proof {
        if hidden_fit {
            assert(manifest.hidden_sizes@ =~= seq![64usize, 64usize]);
        }
        if manifest.hidden_sizes@ == seq![64usize, 64usize] {
            assert(manifest.hidden_sizes@[0] == 64 && manifest.hidden_sizes@[1] == 64);
        }
    }
    manifest.schema_version == 2 && manifest.input_size == DIRECTION_INPUT_SIZE
        + manifest.latent_size && manifest.latent_size != 0 && manifest.output_size == OUTPUT_SIZE
        && hidden_fit && names_equal(&manifest.feature_order, &expected_features)
        && manifest.target_shader == pbr && manifest.pbr_shader_version == 1
}

/// A manifest the renderer accepts describes a network whose input is
/// exactly the feature row it is fed, 9 direction components followed by the
/// latent vector, named in that order, with two hidden layers of 64 units
/// and 3 outputs, trained on version 1 of the PBR shader.
pub proof fn lemma_accepted_manifest_shape(manifest: ModelManifest)
    requires
        manifest_fits_runtime(manifest),
    ensures
        manifest.input_size == 9 + manifest.latent_size,
        manifest.latent_size > 0,
        manifest.feature_order@.len() == manifest.input_size,
        forall|k: int| 0 <= k < 9 ==> #[trigger] name_views(manifest.feature_order@)[k] == seq![
            "normal.x"@, "normal.y"@, "normal.z"@,
            "light.x"@, "light.y"@, "light.z"@,
            "view.x"@, "view.y"@, "view.z"@,
        ][k],
        forall|k: int|
            0 <= k < manifest.latent_size ==> #[trigger] name_views(manifest.feature_order@)[9 + k]
                == "latent."@ + decimal(k as nat),
        manifest.schema_version == 2,
        manifest.hidden_sizes[0] == 64 && manifest.hidden_sizes[1] == 64,
        manifest.output_size == 3,
        manifest.target_shader@ == "pbr"@,
        manifest.pbr_shader_version == 1,
{
    let names = name_views(manifest.feature_order@);
    assert(names.len() == manifest.feature_order@.len());
    assert(manifest.hidden_sizes@[0] == manifest.hidden_sizes[0]);
    assert(manifest.hidden_sizes@[1] == manifest.hidden_sizes[1]);
}

} // verus!
