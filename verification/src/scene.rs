//! Scene description rules: geometry defaults, material validation, the
//! choice of an object's material, and the distinct materials of a scene.
//! Floating-point values are held by their `f32` bit patterns.
use vstd::prelude::*;
use vstd::string::StringExecFns;
use crate::float_bits::{
    f32_bits_finite, f32_bits_in_unit_interval, f32_bits_positive_finite, is_finite_bits,
    is_positive_finite_bits, is_unit_interval_bits, HALF_BITS, ONE_BITS, ZERO_BITS,
};

verus! {

/// Latitude segments of the sphere mesh when a scene does not say.
pub fn default_latitude_segments() -> (segments: usize)
    ensures
        segments == 32,
{
    32
}

/// Longitude segments of the sphere mesh when a scene does not say.
pub fn default_longitude_segments() -> (segments: usize)
    ensures
        segments == 64,
{
    64
}

/// Triangle density of the sphere mesh shared by all objects.
#[derive(Clone, Copy, Debug, PartialEq, Eq)]
pub struct GeometryDescription {
    pub latitude_segments: usize,
    pub longitude_segments: usize,
}

impl Default for GeometryDescription {
    /// The default density: 32 latitude and 64 longitude segments.
    fn default() -> (geometry: Self)
        ensures
            geometry.latitude_segments == 32,
            geometry.longitude_segments == 64,
    {
        GeometryDescription {
            latitude_segments: default_latitude_segments(),
            longitude_segments: default_longitude_segments(),
        }
    }
}

/// A material property as a scene file gives it: a value, written bare or as
/// `{ constant = .. }`, or a texture map named by `P`.
#[derive(Debug, PartialEq)]
pub enum MaterialPropertyDescription<T, P> {
    Constant(T),
    Texture { texture: P },
    NamedConstant { constant: T },
}

/// The constant a property description gives, or `None` for a texture map.
pub open spec fn spec_constant<T, P>(property: MaterialPropertyDescription<T, P>) -> Option<T> {
    match property {
        MaterialPropertyDescription::Constant(value) => Some(value),
        MaterialPropertyDescription::NamedConstant { constant } => Some(constant),
        MaterialPropertyDescription::Texture { .. } => None,
    }
}

impl<T: Copy, P> MaterialPropertyDescription<T, P> {
    /// The constant the description gives, or `None` for a texture map.
    pub fn constant(&self) -> (value: Option<T>)
        ensures
            value == spec_constant(*self),
    {
        match self {
            MaterialPropertyDescription::Constant(value) => Some(*value),
            MaterialPropertyDescription::NamedConstant { constant } => Some(*constant),
            MaterialPropertyDescription::Texture { .. } => None,
        }
    }
}

/// UV scale when a material does not say: `[1.0, 1.0]`.
pub fn default_uv_scale() -> (scale: [u32; 2])
    ensures
        scale@ == seq![ONE_BITS, ONE_BITS],
{
    [ONE_BITS, ONE_BITS]
}

/// Roughness when a material does not say: the constant `0.5`.
pub fn default_roughness<P>() -> (roughness: MaterialPropertyDescription<u32, P>)
    ensures
        roughness == MaterialPropertyDescription::<u32, P>::Constant(HALF_BITS),
{
    MaterialPropertyDescription::Constant(HALF_BITS)
}

/// Metalness when a material does not say: the constant `0.0`.
pub fn default_metalness<P>() -> (metalness: MaterialPropertyDescription<u32, P>)
    ensures
        metalness == MaterialPropertyDescription::<u32, P>::Constant(ZERO_BITS),
{
    MaterialPropertyDescription::Constant(ZERO_BITS)
}

/// A material as a scene file gives it; texture maps are named by `P`.
pub struct MaterialDescription<P> {
    pub albedo: MaterialPropertyDescription<[u32; 3], P>,
    pub uv_scale: [u32; 2],
    pub roughness: MaterialPropertyDescription<u32, P>,
    pub metalness: MaterialPropertyDescription<u32, P>,
}

/// Which scalar property of a material.
#[derive(Clone, Copy, Debug, PartialEq, Eq)]
pub enum ScalarProperty {
    Roughness,
    Metalness,
}

/// Why a material description is refused.
#[derive(Clone, Copy, Debug, PartialEq, Eq)]
pub enum MaterialError {
    /// A constant albedo component is infinite or NaN.
    NonFiniteAlbedo,
    /// A UV scale component is not finite and greater than zero.
    InvalidUvScale,
    /// A constant roughness or metalness is not finite and between zero and one.
    ScalarOutOfRange(ScalarProperty),
}

/// Whether a scalar property is acceptable: a texture map, or a finite
/// constant between zero and one.
pub open spec fn scalar_property_valid<P>(property: MaterialPropertyDescription<u32, P>) -> bool {
    match spec_constant(property) {
        Some(bits) => f32_bits_finite(bits) && f32_bits_in_unit_interval(bits),
        None => true,
    }
}

/// The albedo components a description is checked on: a constant's, or zeros
/// for a texture map.
pub open spec fn checked_albedo<P>(albedo: MaterialPropertyDescription<[u32; 3], P>) -> Seq<u32> {
    match spec_constant(albedo) {
        Some(value) => value@,
        None => seq![ZERO_BITS, ZERO_BITS, ZERO_BITS],
    }
}

/// The outcome of checking a material description, checks taken in order:
/// albedo, UV scale, roughness, metalness.
pub open spec fn material_check<P>(material: MaterialDescription<P>) -> Result<(), MaterialError> {
    if exists|i: int| 0 <= i < 3 && !f32_bits_finite(#[trigger] checked_albedo(material.albedo)[i]) {
        Err(MaterialError::NonFiniteAlbedo)
    } else if exists|i: int| 0 <= i < 2 && !(f32_bits_finite(#[trigger] material.uv_scale@[i])
        && f32_bits_positive_finite(material.uv_scale@[i])) {
        Err(MaterialError::InvalidUvScale)
    } else if !scalar_property_valid(material.roughness) {
        Err(MaterialError::ScalarOutOfRange(ScalarProperty::Roughness))
    } else if !scalar_property_valid(material.metalness) {
        Err(MaterialError::ScalarOutOfRange(ScalarProperty::Metalness))
    } else {
        Ok(())
    }
}

/// Checks a scalar property: a texture map, or a finite constant between zero
/// and one.
pub fn validate_scalar_property<P>(
    property: &MaterialPropertyDescription<u32, P>,
    which: ScalarProperty,
) -> (result: Result<(), MaterialError>)
    ensures
        result is Ok <==> scalar_property_valid(*property),
        result matches Err(e) ==> e == MaterialError::ScalarOutOfRange(which),
{
    match property.constant() {
        Some(bits) => {
            if is_unit_interval_bits(bits) {
                Ok(())
            } else {
                Err(MaterialError::ScalarOutOfRange(which))
            }
        },
        None => Ok(()),
    }
}

/// Checks a material description: finite albedo, finite positive UV scale,
/// and roughness and metalness that are textures or finite constants between
/// zero and one.
pub fn validate_material<P>(material: &MaterialDescription<P>) -> (result: Result<(), MaterialError>)
    ensures
        result == material_check(*material),
{
    let albedo = match material.albedo.constant() {
        Some(value) => value,
        None => [ZERO_BITS, ZERO_BITS, ZERO_BITS],
    };
    assert(albedo@ == checked_albedo(material.albedo));
    let mut index: usize = 0;
    while index < 3
        invariant
            index <= 3,
            albedo@ == checked_albedo(material.albedo),
            forall|i: int| 0 <= i < index ==> f32_bits_finite(#[trigger] albedo@[i]),
        decreases 3 - index,
    {
        if !is_finite_bits(albedo[index]) {
            assert(!f32_bits_finite(checked_albedo(material.albedo)[index as int]));
            return Err(MaterialError::NonFiniteAlbedo);
        }
        index = index + 1;
    }
    let mut index: usize = 0;
    while index < 2
        invariant
            index <= 2,
            forall|i: int| 0 <= i < 3 ==> f32_bits_finite(#[trigger] checked_albedo(material.albedo)[i]),
            forall|i: int|
                0 <= i < index ==> f32_bits_finite(#[trigger] material.uv_scale@[i])
                    && f32_bits_positive_finite(material.uv_scale@[i]),
        decreases 2 - index,
    {
        if !is_positive_finite_bits(material.uv_scale[index]) {
            assert(!(f32_bits_finite(material.uv_scale@[index as int]) && f32_bits_positive_finite(
                material.uv_scale@[index as int],
            )));
            return Err(MaterialError::InvalidUvScale);
        }
        index = index + 1;
    }
    validate_scalar_property(&material.roughness, ScalarProperty::Roughness)?;
    validate_scalar_property(&material.metalness, ScalarProperty::Metalness)?;
    Ok(())
}

/// Whether a sphere radius (bit pattern) is accepted: finite and greater than
/// zero.
pub fn sphere_radius_valid(radius_bits: u32) -> (valid: bool)
    ensures
        valid == (f32_bits_finite(radius_bits) && f32_bits_positive_finite(radius_bits)),
{
    is_positive_finite_bits(radius_bits)
}


/// The names of a scene's materials, as character sequences.
pub open spec fn name_views(names: Seq<String>) -> Seq<Seq<char>> {
    names.map_values(|name: String| name@)
}

/// The material name an object ends up asking for: the one it names; else
/// `default` where the scene has a material of that name; else the scene's
/// only material; else none.
pub open spec fn chosen_material_name(requested: Option<Seq<char>>, names: Seq<Seq<char>>) -> Option<Seq<char>> {
    match requested {
        Some(name) => Some(name),
        None => if names.contains("default"@) {
            Some("default"@)
        } else if names.len() == 1 {
            Some(names[0])
        } else {
            None
        },
    }
}

/// Why no material can be given to an object.
#[derive(Debug, PartialEq, Eq)]
pub enum SelectMaterialError {
    /// The object names no material and the scene has neither a material
    /// called `default` nor exactly one material.
    NoDefaultMaterial,
    /// The object asks for a material the scene does not have.
    UnknownMaterial(String),
}

/// Index of the first name in `names` equal to `name`, if any.
fn find_name(names: &Vec<String>, name: &String) -> (found: Option<usize>)
    ensures
        match found {
            Some(index) => index < names@.len() && names@[index as int]@ == name@ && forall|j: int|
                0 <= j < index ==> names@[j]@ != name@,
            None => forall|j: int| 0 <= j < names@.len() ==> names@[j]@ != name@,
        },
{
    let mut index: usize = 0;
    while index < names.len()
        invariant
            index <= names@.len(),
            forall|j: int| 0 <= j < index ==> names@[j]@ != name@,
        decreases names@.len() - index,
    {
        if names[index] == *name {
            return Some(index);
        }
        index = index + 1;
    }
    None
}

/// Picks the material of an object: the one it names, else `default`, else
/// the scene's only material. Returns its index in `names`, the scene's
/// material names, which are keys of its material table and so distinct.
pub fn select_material(requested_name: Option<&str>, names: &Vec<String>) -> (result: Result<usize, SelectMaterialError>)
    requires
        name_views(names@).no_duplicates(),
    ensures
        match chosen_material_name(
            match requested_name {
                Some(name) => Some(name@),
                None => None::<Seq<char>>,
            },
            name_views(names@),
        ) {
            None => result == Err::<usize, SelectMaterialError>(SelectMaterialError::NoDefaultMaterial),
            Some(chosen) => if name_views(names@).contains(chosen) {
                result matches Ok(index) && index < names@.len() && names@[index as int]@ == chosen
                    && forall|j: int| 0 <= j < index ==> names@[j]@ != chosen
            } else {
                result matches Err(SelectMaterialError::UnknownMaterial(name)) && name@ == chosen
            },
        },
        requested_name matches Some(name) ==> (result matches Ok(index) ==> names@[index as int]@
            == name@),
        requested_name matches Some(name) ==> (!name_views(names@).contains(name@) ==> (result matches Err(
            SelectMaterialError::UnknownMaterial(unknown),
        ) && unknown@ == name@)),
        result matches Ok(index) ==> forall|j: int|
            0 <= j < names@.len() && #[trigger] names@[j]@ == names@[index as int]@ ==> j == index,
{
    let ghost views = name_views(names@);
    let name: String = match requested_name {
        Some(name) => String::from_str(name),
        None => {
            let default_name = String::from_str("default");
            match find_name(names, &default_name) {
                Some(_) => {
                    assert(views.contains("default"@)) by {
                        let i = choose|i: int| 0 <= i < names@.len() && names@[i]@ == "default"@;
                        assert(views[i] == "default"@);
                    }
                    default_name
                },
                None => {
                    assert(!views.contains("default"@));
                    if names.len() == 1 {
                        names[0].clone()
                    } else {
                        return Err(SelectMaterialError::NoDefaultMaterial);
                    }
                },
            }
        },
    };
    match find_name(names, &name) {
        Some(index) => {
            assert(views[index as int] == name@);
            assert forall|j: int|
                0 <= j < names@.len() && #[trigger] names@[j]@ == names@[index as int]@ implies j
                    == index by {
                assert(views[j] == names@[j]@);
            }
            Ok(index)
        },
        None => {
            assert(!views.contains(name@));
            Err(SelectMaterialError::UnknownMaterial(name))
        },
    }
}

/// The distinct values of `indices` in order of first occurrence.
pub open spec fn first_occurrences(indices: Seq<usize>) -> Seq<usize>
    decreases indices.len(),
{
    if indices.len() == 0 {
        Seq::empty()
    } else {
        let earlier = first_occurrences(indices.drop_last());
        if earlier.contains(indices.last()) {
            earlier
        } else {
            earlier.push(indices.last())
        }
    }
}

/// The distinct materials of a scene's objects, in the order the objects
/// first use them; objects are given by the index of their material.
pub fn unique_materials(material_indices: &Vec<usize>) -> (materials: Vec<usize>)
    ensures
        materials@ == first_occurrences(material_indices@),
{
    let mut materials: Vec<usize> = Vec::new();
    let mut index: usize = 0;
    while index < material_indices.len()
        invariant
            index <= material_indices@.len(),
            materials@ == first_occurrences(material_indices@.take(index as int)),
        decreases material_indices@.len() - index,
    {
        let material = material_indices[index];
        let mut seen = false;
        let mut position: usize = 0;
        while position < materials.len()
            invariant
                position <= materials@.len(),
                seen == exists|j: int| 0 <= j < position && materials@[j] == material,
            decreases materials@.len() - position,
        {
            if materials[position] == material {
                seen = true;
            }
            position = position + 1;
        }
        proof {
            let taken = material_indices@.take(index + 1);
            assert(taken.drop_last() =~= material_indices@.take(index as int));
            assert(taken.last() == material);
            if seen {
                let j = choose|j: int| 0 <= j < position && materials@[j] == material;
                assert(materials@.contains(material)) by {
                    assert(materials@[j] == material);
                }
            } else {
                assert(!materials@.contains(material));
            }
        }
        if !seen {
            materials.push(material);
        }
        index = index + 1;
    }
    assert(material_indices@.take(material_indices@.len() as int) =~= material_indices@);
    materials
}

/// The distinct materials hold no value twice.
pub proof fn lemma_first_occurrences_distinct(indices: Seq<usize>)
    ensures
        first_occurrences(indices).no_duplicates(),
    decreases indices.len(),
{
    if indices.len() > 0 {
        lemma_first_occurrences_distinct(indices.drop_last());
    }
}

/// The distinct materials are exactly the materials the objects use.
pub proof fn lemma_first_occurrences_same_values(indices: Seq<usize>, value: usize)
    ensures
        first_occurrences(indices).contains(value) <==> indices.contains(value),
    decreases indices.len(),
{
    if indices.len() > 0 {
        let init = indices.drop_last();
        let last = indices.last();
        lemma_first_occurrences_same_values(init, value);
        let earlier = first_occurrences(init);
        let result = first_occurrences(indices);
        assert(indices.contains(value) <==> (init.contains(value) || value == last)) by {
            if init.contains(value) {
                let i = choose|i: int| 0 <= i < init.len() && init[i] == value;
                assert(indices[i] == value);
            }
            if value == last {
                assert(indices[indices.len() - 1] == value);
            }
            if indices.contains(value) {
                let i = choose|i: int| 0 <= i < indices.len() && indices[i] == value;
                if i < init.len() {
                    assert(init[i] == value);
                }
            }
        }
        if earlier.contains(last) {
            assert(result == earlier);
        } else {
            assert(result == earlier.push(last));
            if result.contains(value) {
                let i = choose|i: int| 0 <= i < result.len() && result[i] == value;
                if i < earlier.len() {
                    assert(earlier[i] == value);
                }
            }
            if earlier.contains(value) {
                let i = choose|i: int| 0 <= i < earlier.len() && earlier[i] == value;
                assert(result[i] == value);
            }
            assert(result[earlier.len() as int] == last);
        }
    }
}

/// The distinct materials come in the order of their first use: of two of
/// them, the one listed first is used by some object before any object uses
/// the other.
pub proof fn lemma_first_occurrences_in_order(indices: Seq<usize>, i: int, j: int, q: int)
    requires
        0 <= i < j < first_occurrences(indices).len(),
        0 <= q < indices.len(),
        indices[q] == first_occurrences(indices)[j],
    ensures
        exists|p: int| 0 <= p < q && indices[p] == first_occurrences(indices)[i],
    decreases indices.len(),
{
    let init = indices.drop_last();
    let last = indices.last();
    let earlier = first_occurrences(init);
    let result = first_occurrences(indices);
    if earlier.contains(last) {
        assert(result == earlier);
        let first_use = if q < init.len() {
            q
        } else {
            lemma_first_occurrences_same_values(init, earlier[j]);
            assert(earlier.contains(earlier[j]));
            choose|first_use: int| 0 <= first_use < init.len() && init[first_use] == earlier[j]
        };
        assert(init[first_use] == earlier[j]);
        lemma_first_occurrences_in_order(init, i, j, first_use);
        let p = choose|p: int| 0 <= p < first_use && init[p] == earlier[i];
        assert(indices[p] == init[p]);
    } else {
        assert(result == earlier.push(last));
        if j < earlier.len() {
            if q == init.len() {
                assert(earlier.contains(last));
            }
            assert(init[q] == indices[q]);
            lemma_first_occurrences_in_order(init, i, j, q);
            let p = choose|p: int| 0 <= p < q && init[p] == earlier[i];
            assert(indices[p] == init[p]);
        } else {
            lemma_first_occurrences_same_values(init, earlier[i]);
            lemma_first_occurrences_same_values(init, last);
            assert(earlier.contains(earlier[i]));
            let p = choose|p: int| 0 <= p < init.len() && init[p] == earlier[i];
            if q < init.len() {
                assert(init[q] == last);
            }
            assert(indices[p] == init[p]);
            assert(result[i] == earlier[i]);
        }
    }
}

/// Uses of materials by later objects never reorder the list: the distinct
/// materials of the first `count` objects are the start of those of all of
/// them.
pub proof fn lemma_first_occurrences_prefix(indices: Seq<usize>, count: int)
    requires
        0 <= count <= indices.len(),
    ensures
        first_occurrences(indices.take(count)).len() <= first_occurrences(indices).len(),
        forall|k: int|
            0 <= k < first_occurrences(indices.take(count)).len() ==> #[trigger] first_occurrences(
                indices.take(count),
            )[k] == first_occurrences(indices)[k],
    decreases indices.len() - count,
{
    if count == indices.len() {
        assert(indices.take(count) =~= indices);
    } else {
        lemma_first_occurrences_prefix(indices, count + 1);
        let shorter = indices.take(count + 1);
        assert(shorter.drop_last() =~= indices.take(count));
        let before = first_occurrences(indices.take(count));
        let after = first_occurrences(shorter);
        assert(after == before || after == before.push(shorter.last()));
        assert forall|k: int| 0 <= k < before.len() implies #[trigger] before[k] == first_occurrences(
            indices,
        )[k] by {
            assert(after[k] == before[k]);
        }
    }
}

/// A material is accepted only with finite constant albedo components (their
/// exponent field is not all ones), UV scales that are finite and greater
/// than zero (bit patterns strictly between `+0.0` and `+inf`, so every
/// negative value and both zeros are refused), and constant roughness and
/// metalness in `0.0..=1.0` (patterns up to that of `1.0`, or `-0.0`). With a
/// finite albedo, any UV scale outside that range is reported as such.
pub proof fn lemma_material_check_bounds<P>(material: MaterialDescription<P>)
    ensures
        material_check(material) is Ok ==> {
            &&& forall|c: int| 0 <= c < 3 ==> (#[trigger] checked_albedo(material.albedo)[c]
                / 0x80_0000) % 256 < 255
            &&& forall|i: int| 0 <= i < 2 ==> 0 < #[trigger] material.uv_scale@[i] < 0x7f80_0000
            &&& spec_constant(material.roughness) matches Some(bits) ==> (bits <= 0x3f80_0000
                || bits == 0x8000_0000)
            &&& spec_constant(material.metalness) matches Some(bits) ==> (bits <= 0x3f80_0000
                || bits == 0x8000_0000)
        },
        (forall|c: int| 0 <= c < 3 ==> (#[trigger] checked_albedo(material.albedo)[c] / 0x80_0000)
            % 256 < 255) && (exists|i: int| 0 <= i < 2 && !(0 < #[trigger] material.uv_scale@[i]
            < 0x7f80_0000)) ==> material_check(material) == Err::<(), MaterialError>(
            MaterialError::InvalidUvScale,
        ),
{
    if material_check(material) is Ok {
        assert forall|c: int| 0 <= c < 3 implies (#[trigger] checked_albedo(material.albedo)[c]
            / 0x80_0000) % 256 < 255 by {
            assert(f32_bits_finite(checked_albedo(material.albedo)[c]));
        }
        assert forall|i: int| 0 <= i < 2 implies 0 < #[trigger] material.uv_scale@[i] < 0x7f80_0000 by {
            assert(f32_bits_positive_finite(material.uv_scale@[i]));
        }
    }
    if (forall|c: int| 0 <= c < 3 ==> (#[trigger] checked_albedo(material.albedo)[c] / 0x80_0000)
        % 256 < 255) && (exists|i: int| 0 <= i < 2 && !(0 < #[trigger] material.uv_scale@[i]
        < 0x7f80_0000)) {
        let i = choose|i: int| 0 <= i < 2 && !(0 < #[trigger] material.uv_scale@[i] < 0x7f80_0000);
        assert(!f32_bits_positive_finite(material.uv_scale@[i]));
        assert forall|c: int| 0 <= c < 3 implies f32_bits_finite(
            #[trigger] checked_albedo(material.albedo)[c],
        ) by {
            assert((checked_albedo(material.albedo)[c] / 0x80_0000) % 256 < 255);
        }
    }
}

/// An object that names a material gets that material: the choice is the
/// name asked for, whatever the scene holds, and the choice without a name
/// is `default` where the scene has it, else the only material, else none.
pub proof fn lemma_chosen_material_name(requested: Option<Seq<char>>, names: Seq<Seq<char>>)
    ensures
        requested matches Some(name) ==> chosen_material_name(requested, names) == Some(name),
        requested is None && names.contains("default"@) ==> chosen_material_name(requested, names)
            == Some("default"@),
        requested is None && !names.contains("default"@) && names.len() == 1
            ==> chosen_material_name(requested, names) == Some(names[0]),
        requested is None && !names.contains("default"@) && names.len() != 1
            ==> chosen_material_name(requested, names) is None,
        chosen_material_name(requested, names) matches Some(chosen) ==> requested == Some(chosen)
            || names.contains(chosen),
{
    if requested is None && !names.contains("default"@) && names.len() == 1 {
        assert(names.contains(names[0]));
    }
}

} // verus!
