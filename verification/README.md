# npc_physics

A crowd of skinned NPCs simulated on the GPU with Bevy. The verified library
(`src/`) holds the integer side of the scene:

- `skeleton`: joint-hierarchy links of the model's first skin, the template's
  constraints, and the mesh's index count;
- `constraint`: distance constraints and their replication over the crowd,
  each NPC's copy indexing its own particles;
- `grid`, `population`: where each NPC stands and the crowd's buffers;
- `gpu_buffers`: the byte images of the constraint and indirect-draw buffers;
- `dispatch`: workgroup counts and the compute passes of a frame;
- `draw`, `camera`, `pipeline`: the draw decision, the fly camera's key
  reading, and the physics pipeline keys.

`app/` is the Bevy program: glTF loading, float positions, GPU resources,
render graph and systems.
