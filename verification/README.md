# skyplane

The rules of a small arcade flight game, written in Verus and proved
against their contracts.

- `src/` is the verified library: enemy texture tinting, window position
  parsing and visibility, mini-map layout, keyboard input state, reticle
  targeting, camera choice, cloud and enemy spawn plans, toast queueing,
  entity hierarchies, collision outcomes and player controls. Each module
  states its laws as public proof functions next to the code they speak of.
- `tests/` runs the library on concrete values.
- `app/` holds the Bevy systems around the library: they read the engine's
  state, hand plain values to the verified rules and apply what comes back,
  together with the motion rules that compute in floating point.
