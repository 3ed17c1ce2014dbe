# cube_rig

A rigging toolkit: skinnable meshes, skeletons, vertex selection, weight tools,
model import and export, motion priors, inverse kinematics, and the preview
renderer of a rig bay.

- `src/` is the library. Everything it decides is stated in contracts and
  proved with Verus. It moves and compares single-precision numbers as their
  bit patterns (`scalar`) and does no arithmetic on them.
- `app/` is the program around it: `extract_prior`, which bakes a motion prior
  from a directory of clips, and the rest of the rig bay. It reads and writes
  files, talks to Vulkan and egui, offers a C interface, and does the
  floating-point arithmetic that the library asks for.
- `tests/` runs the library, with that arithmetic where a rule needs numbers.

The library rests on two statements about other code that are not proved here:
what `String::push` does (`text`), and in what order the bytes of words lie in
memory (`render/upload`).
