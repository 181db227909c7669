//! Verified core of a small CPU ray tracer: tile layout, the latent texture
//! file format, sphere mesh topology, scene and model validation.
pub mod tiles;
pub mod png_file;
pub mod texture;
pub mod float_bits;
pub mod latent;
pub mod sphere;
pub mod scene;
pub mod features;
pub mod render_args;
pub mod training;
