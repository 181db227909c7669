//! Bookkeeping of shader training: argument checks, the layout of the latent
//! parameters (one row per texel of each material's latent texture), and
//! batching.
use vstd::prelude::*;

verus! {

/// Whether training arguments are usable: every count and size non-zero.
pub fn training_args_valid(
    samples: usize,
    epochs: usize,
    batch_size: usize,
    latent_size: usize,
    latent_width: usize,
    latent_height: usize,
) -> (valid: bool)
    ensures
        valid == (samples > 0 && epochs > 0 && batch_size > 0 && latent_size > 0 && latent_width
            > 0 && latent_height > 0),
{
    samples > 0 && epochs > 0 && batch_size > 0 && latent_size > 0 && latent_width > 0
        && latent_height > 0
}

/// Sizes of the latent parameters.
#[derive(Clone, Copy, Debug, PartialEq, Eq)]
pub struct LatentLayout {
    /// Texels of one material's latent texture.
    pub texels: usize,
    /// Latent rows: one per texel of each material.
    pub rows: usize,
    /// Latent values: `latent_size` per row.
    pub values: usize,
}

/// Which latent size does not fit in `usize`.
#[derive(Clone, Copy, Debug, PartialEq, Eq)]
pub enum LatentLayoutError {
    TexelsTooLarge,
    RowsTooLarge,
    ValuesTooLarge,
}

/// The sizes of the latent parameters for `material_count` materials with
/// `latent_width` x `latent_height` textures of `latent_size` vectors,
/// refused at the first product that does not fit in `usize`.
pub fn latent_layout(
    material_count: usize,
    latent_width: usize,
    latent_height: usize,
    latent_size: usize,
) -> (result: Result<LatentLayout, LatentLayoutError>)
    ensures
        latent_width * latent_height > usize::MAX ==> result == Err::<LatentLayout, LatentLayoutError>(
            LatentLayoutError::TexelsTooLarge,
        ),
        latent_width * latent_height <= usize::MAX && material_count * (latent_width * latent_height)
            > usize::MAX ==> result == Err::<LatentLayout, LatentLayoutError>(
            LatentLayoutError::RowsTooLarge,
        ),
        latent_width * latent_height <= usize::MAX && material_count * (latent_width * latent_height)
            <= usize::MAX && material_count * (latent_width * latent_height) * latent_size
            > usize::MAX ==> result == Err::<LatentLayout, LatentLayoutError>(
            LatentLayoutError::ValuesTooLarge,
        ),
        latent_width * latent_height <= usize::MAX && material_count * (latent_width * latent_height)
            <= usize::MAX && material_count * (latent_width * latent_height) * latent_size
            <= usize::MAX ==> result is Ok,
        result matches Ok(layout) ==> layout.texels == latent_width * latent_height && layout.rows
            == material_count * layout.texels && layout.values == layout.rows * latent_size,
{
    let texels = match latent_width.checked_mul(latent_height) {
        Some(texels) => texels,
        None => {
            return Err(LatentLayoutError::TexelsTooLarge);
        },
    };
    let rows = match material_count.checked_mul(texels) {
        Some(rows) => rows,
        None => {
            return Err(LatentLayoutError::RowsTooLarge);
        },
    };
    let values = match rows.checked_mul(latent_size) {
        Some(values) => values,
        None => {
            return Err(LatentLayoutError::ValuesTooLarge);
        },
    };
    Ok(LatentLayout { texels, rows, values })
}

/// Number of batches that cover `samples` samples.
pub fn steps_per_epoch(samples: usize, batch_size: usize) -> (steps: usize)
    requires
        batch_size > 0,
    ensures
        steps == (samples + batch_size - 1) / batch_size as int,
{
    let steps = if samples % batch_size == 0 {
        samples / batch_size
    } else {
        assert(samples / batch_size < usize::MAX) by (nonlinear_arith)
            requires
                batch_size > 0,
                samples % batch_size != 0,
        ;
        samples / batch_size + 1
    };
    assert(steps == (samples + batch_size - 1) / batch_size as int) by (nonlinear_arith)
        requires
            batch_size > 0,
            steps == if samples % batch_size == 0 {
                samples as int / batch_size as int
            } else {
                samples as int / batch_size as int + 1
            },
    ;
    steps
}

/// The latent row of texel `(latent_x, latent_y)` of material `material_id`:
/// materials one after another, texels row after row.
pub fn latent_row(
    material_id: usize,
    latent_x: usize,
    latent_y: usize,
    latent_width: usize,
    latent_height: usize,
    material_count: usize,
    layout: LatentLayout,
) -> (row: usize)
    requires
        material_id < material_count,
        latent_x < latent_width,
        latent_y < latent_height,
        layout.texels == latent_width * latent_height,
        layout.rows == material_count * layout.texels,
    ensures
        row == material_id * (latent_width * latent_height) + latent_y * latent_width + latent_x,
        row < layout.rows,
{
    proof {
        assert(latent_y * latent_width + latent_x < latent_width * latent_height) by (nonlinear_arith)
            requires
                latent_x < latent_width,
                latent_y < latent_height,
        ;
        assert(material_id * layout.texels + layout.texels <= layout.rows) by (nonlinear_arith)
            requires
                material_id < material_count,
                layout.rows == material_count * layout.texels,
                layout.texels >= 0,
        ;
        assert(0 <= material_id * layout.texels) by (nonlinear_arith)
            requires
                layout.texels >= 0,
        ;
    }
    let material_texel = latent_y * latent_width + latent_x;
    material_id * layout.texels + material_texel
}

/// The range of latent values that belong to material `material_index`: its
/// texels' rows of `latent_size` values each.
pub fn material_latent_range(
    material_index: usize,
    material_count: usize,
    layout: LatentLayout,
    latent_size: usize,
) -> (range: (usize, usize))
    requires
        material_index < material_count,
        layout.rows == material_count * layout.texels,
        layout.values == layout.rows * latent_size,
    ensures
        range.0 == material_index * layout.texels * latent_size,
        range.1 == range.0 + layout.texels * latent_size,
        range.1 <= layout.values,
{
    let ghost per = layout.texels * latent_size;
    proof {
        assert(per >= 0) by (nonlinear_arith)
            requires
                per == layout.texels * latent_size,
        ;
        assert(layout.values == material_count * per) by (nonlinear_arith)
            requires
                per == layout.texels * latent_size,
                layout.rows == material_count * layout.texels,
                layout.values == layout.rows * latent_size,
        ;
        assert(material_index * per + per <= material_count * per) by (nonlinear_arith)
            requires
                material_index < material_count,
                per >= 0,
        ;
        assert(0 <= material_index * per) by (nonlinear_arith)
            requires
                per >= 0,
        ;
        assert(material_index * per == material_index * layout.texels * latent_size)
            by (nonlinear_arith)
            requires
                per == layout.texels * latent_size,
        ;
    }
    let per_material = layout.texels * latent_size;
    let start = material_index * per_material;
    (start, start + per_material)
}

} // verus!
