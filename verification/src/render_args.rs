//! Checks the renderer makes on its command line, and how it reports time.
use vstd::prelude::*;

verus! {

/// Why image dimensions are refused.
#[derive(Clone, Copy, Debug, PartialEq, Eq)]
pub enum DimensionError {
    /// Width or height is zero.
    Zero,
    /// The RGB byte count does not fit in `usize`.
    TooLarge,
}

/// Checks image dimensions: both non-zero, and `width * height * 3` bytes
/// addressable. Returns that byte count.
pub fn check_image_dimensions(width: u32, height: u32) -> (result: Result<usize, DimensionError>)
    ensures
        (width == 0 || height == 0) ==> result == Err::<usize, DimensionError>(DimensionError::Zero),
        (width > 0 && height > 0 && width * height * 3 > usize::MAX) ==> result == Err::<
            usize,
            DimensionError,
        >(DimensionError::TooLarge),
        (width > 0 && height > 0 && width * height * 3 <= usize::MAX) ==> result == Ok::<
            usize,
            DimensionError,
        >((width * height * 3) as usize),
{
    if width == 0 || height == 0 {
        return Err(DimensionError::Zero);
    }
    match (width as usize).checked_mul(height as usize) {
        Some(pixel_count) => match pixel_count.checked_mul(3) {
            Some(byte_count) => Ok(byte_count),
            None => Err(DimensionError::TooLarge),
        },
        None => {
            assert(width * height * 3 > usize::MAX) by (nonlinear_arith)
                requires
                    width * height > usize::MAX,
            ;
            Err(DimensionError::TooLarge)
        },
    }
}

/// The unit a duration is reported in.
#[derive(Clone, Copy, Debug, PartialEq, Eq)]
pub enum DurationUnit {
    Seconds,
    Milliseconds,
    Microseconds,
}

/// The unit a duration of `secs` seconds and `subsec_nanos` nanoseconds is
/// reported in: seconds from one second on, milliseconds from one millisecond
/// on, microseconds below.
pub fn duration_unit(secs: u64, subsec_nanos: u32) -> (unit: DurationUnit)
    ensures
        unit == (if secs >= 1 {
            DurationUnit::Seconds
        } else if subsec_nanos >= 1_000_000 {
            DurationUnit::Milliseconds
        } else {
            DurationUnit::Microseconds
        }),
{
    if secs >= 1 {
        DurationUnit::Seconds
    } else if subsec_nanos >= 1_000_000 {
        DurationUnit::Milliseconds
    } else {
        DurationUnit::Microseconds
    }
}

/// How visible hits are shaded.
#[derive(Clone, Copy, Debug, PartialEq, Eq)]
pub enum ShadingMode {
    /// The hit's barycentric coordinates as a color.
    Barycentrics,
    Phong,
    Pbr,
    /// The trained MLP approximation of the PBR shader.
    Mlp,
}

/// Why a render cannot set up its shading.
#[derive(Clone, Copy, Debug, PartialEq, Eq)]
pub enum ShaderModelError {
    /// MLP shading was asked for without a shader model.
    MissingModel,
}

/// The shader model a render loads: the one given, for MLP shading, which
/// cannot do without it; none for the other modes, which ignore it.
pub fn shader_model_to_load<P>(mode: ShadingMode, shader_model: Option<P>) -> (result: Result<Option<P>, ShaderModelError>)
    ensures
        mode != ShadingMode::Mlp ==> result == Ok::<Option<P>, ShaderModelError>(None),
        mode == ShadingMode::Mlp ==> match shader_model {
            Some(model) => result == Ok::<Option<P>, ShaderModelError>(Some(model)),
            None => result == Err::<Option<P>, ShaderModelError>(ShaderModelError::MissingModel),
        },
{
    match mode {
        ShadingMode::Mlp => match shader_model {
            Some(model) => Ok(Some(model)),
            None => Err(ShaderModelError::MissingModel),
        },
        _ => Ok(None),
    }
}

} // verus!
