# fogltlogles

A layer that lets desktop OpenGL applications run on an OpenGL ES 3.2 driver:
it answers the GL and EGL entry points it knows itself, keeps per-context
state (errors, shader and program objects, extensions), turns GLSL into
GLSL ES through SPIR-V, and caches the results on disk.

- `src/` is the library, verified with Verus: the GL error bitfield, the
  context registry and its binding rules, the driver version check, the
  shader and program objects, the in-memory LRU indexes of the shader cache
  and its file names and key material, the proc-address resolution, and the
  plan of the generated dispatch tables.  Around SPIRV-Cross, src states
  which decoration edits preprocessing makes on a module (including the
  binding each uniform buffer receives from its program's bindings) and that
  the GLSL ES source of a stage is the in-order join of its shaders'
  transpilations; what SPIRV-Cross itself reflects out of a module and
  writes for it is trusted, through small wrappers over `spirv-cross2` and
  `lru` whose contracts are stated in their doc comments.
- `app/` is the shared library around it: the exported C entry points, the
  driver's dispatch tables, dynamic loading, logging, file I/O of the cache,
  the GLSL compiler, hashing of cache keys and the writing of bindings files.
- `tests/` runs the library on concrete values.
