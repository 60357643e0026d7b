# shutter_tester

The verified core of a camera shutter speed tester.  A light sensor is
sampled at 100 kHz; the ambient level is averaged first, then a pulse of
light is detected against trigger thresholds derived from it, followed
until it falls away, and timed both from edge to edge and weighted by its
shape.

## Layout

- `src/` — the library, verified with Verus.
  - `measurement.rs`: the running calibration average and the pulse
    measurement that follows a pulse through a decimating reservoir;
    `compacting.rs`: the same with a single buffer that halves itself and
    its sampling rate when it fills up; `calibration.rs`: the calibration
    that keeps every 50th sample.
  - `ring.rs`, `sampler.rs`, `history_iter.rs`, `stats.rs`: the history
    buffers and the sampling reservoir seen through their contents, a
    double-ended walk over a buffer, sums and extremes.
  - `chart.rs`, `screens.rs`, `shapes.rs`, `fx.rs`: what the screens
    show — chart layouts, menu and debug view state, shutter speed and
    deviation display, shape geometry, the dithering effect.
  - `app_mode.rs`, `sound.rs`, `bootloader.rs`, `clock.rs`: the decisions
    of the input handlers and the display loop, the beeper melodies, the
    firmware-update request word, and the clock traits with the span of
    core clock cycles.
- `tests/` — tests of the library on concrete values.
- `app/` — a host program around the library: it replays a recorded trace
  of samples, prints the result as the device logs it, draws the screens
  into PPM images, and plays button and encoder events from the console.
  The clocks that read hardware (the system tick and the core cycle
  counter, which panics before it is initialised) live there too.
