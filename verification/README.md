# surgeist_render

The rules of a GPU renderer, proved with Verus: which frames are rendered, on which route, what a
failed frame leaves untouched, and what a readback returns.

- `src/` is the verified library. Every decision is a function from plain values to plain values;
  devices, surfaces and encoders hand their answers in as arguments, and where one question leads
  to the next, planners, lowerings and shader lookups are handed in as functions.
  - `renderer`, `frame`, `fixture`, `dispatch`, `surface`, `runtime`, `options`: surfaces, frames
    and their publication.
  - `readback`: staging layouts, the lifecycle of a readback and the completion of a map request.
  - `reference`, `filter`: premultiplied pixels, blending and filter pipelines.
  - `pass`: lowered pass graphs, their exact subsets, their cache requests, their preparation and
    what is observed of each.
- `app/` drives the library on `wgpu` devices and holds the floating-point color math.
- `tests/` runs the library on concrete values.

What is trusted without proof are two alignment constants of `wgpu`, in `readback::layout`.
