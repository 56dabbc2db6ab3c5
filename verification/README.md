# raytracer

A ray tracer that renders scenes described in YAML to PNG images.

- `src/` is the verified library: reading a scene description (`yaml`,
  `scene`), the order of the intersections of a ray and the choice of its hit
  (`distance`, `intersections`), the refractive boundary a ray crosses, the
  pixel grid and its PPM text (`canvas`), the layout of square matrices
  (`matrix`), the bands of striped patterns (`patterns`) and the command-line
  arguments (`args`, `cli`).
- `app/` is the program around it: the floating-point geometry and shading,
  the camera, file output, and the command line.
- `tests/` runs the library on concrete values.
