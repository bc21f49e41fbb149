# dem_sim

A 2D discrete-element particle simulator that runs its physics in GPU
compute shaders.  The crate is split in two:

- `src/` is the verified library (Verus): the simulation settings and the
  particle-count layout (`settings`, `setup`), the bond tables of the grid
  scene and the bond info that locates each particle's bonds (`bonds`), the
  particle state with its allocation, saving and loading (`state`), the
  state file, a flatbuffer table written and read byte by byte
  (`state_file`), the texture image decoding (`texture`), the compute
  dispatch sizes (`compute`), and the input controller that turns window
  events into simulation actions (`client`).
- `app/` is the windowed front end: window and GPU setup with wgpu and
  winit, the egui settings panel, the event loop, the floating-point scene
  geometry, and reading and writing state files on disk.  It reads its shaders
  from a `shaders/` directory at run time.
