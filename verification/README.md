# lottie_core

The decision logic of a Lottie animation engine, written in Verus and proved
against its specifications.

## Layout

- `src/` — the verified library:
  - `schema`: which effect, layer and asset kinds the engine supports;
  - `modes`: blend, matte, mask, merge and other code tables;
  - `composition`: the order in which layers and their track mattes are drawn,
    what each layer becomes, the active camera, parent chains;
  - `shapes`: how a shape list turns into painted nodes (geometry, merge paths,
    paints, groups, repeaters, trims);
  - `effects`: which runtime effect an effect entry becomes, and which control
    a parameter is read from;
  - `assets`, `registry`, `nesting`: asset paths, embedded data, classification
    and registration of assets, and the walk through nested precompositions;
  - `expressions`, `names`: variable scopes, the layer/composition/effect
    objects that expressions read, wiggle seeds;
  - `morph`, `text`, `color`, `audio`, `video`, `model`: vertex orderings, the
    morph cache, text lines and dash lists, solid colours, audio track slots,
    encoder settings and small model types;
  - `strings`: string helpers with their specifications.
- `tests/` — tests of the library.
- `app/` — code that is not verified: reading animation JSON, asset and audio
  files, and the floating-point parts of the engine (keyframe easing and
  springs, audio mixing and resampling, path morphing, text on a path, wiggle
  noise), each built on the library's decisions.
