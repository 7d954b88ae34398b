# flowngin

A small swarm simulation: agents roll balls over a generated terrain towards
targets, steered by a PID cascade and a flocking force.

`src/` is the verified library (Verus). It holds what the simulation decides
and stores without floating-point arithmetic:

- `stl` — binary STL encoding and decoding, with the proof that decoding an
  encoded mesh gives the mesh back;
- `terrain` — the height-grid layout, its triangle list, rebuilding a terrain
  from an STL mesh, with the proof that the rebuild restores the terrain;
- `agent`, `environment`, `swarm`, `controller` — agents, their regulator
  state and the shared snapshot of agent states;
- `drag` — the mouse gesture that moves targets;
- `noise` — the integer lattice hash behind the terrain noise.

Scalars and vectors are held as IEEE-754 binary32 bit patterns (`RealBits`,
`Vec3Bits`). The floating-point work (noise, interpolation, normals, control
laws), the physics world, the viewer and file access live in `app/`.
