# ai-rt

A small CPU ray tracer for sphere scenes described in TOML, with Phong, PBR
and MLP shading. The crate is written in Verus.

- `src/` is the verified library: the 8x8 Z-ordered tile layout of the
  renderer and its unshuffling into a row-major image (PNG encoding through
  the `png` crate), the decoding of texture images (through the `image`
  crate), the latent texture file format, the topology of the
  shared sphere mesh, the rules a scene description must follow (material
  checks, material selection, defaults, the shader model a shading mode
  needs), the MLP input contract and model
  manifest checks, and the bookkeeping of shader training. Floating-point
  values that these rules inspect are held by their `f32` bit patterns.
- `app/` holds the programs around it: command line, file I/O, TOML and JSON
  parsing, the floating-point shading and intersection code (normal maps
  included), the parallel render loop, and the Burn model. The binary runs
  the training program when it is invoked under the name `train_shader`.
- `tests/` exercises the library.
