# spark_core

Core of the controller firmware for an EDM (electric discharge machining)
machine, verified with Verus. The machine takes commands, settings and G-code
from a host over a serial line and drives motors, a pulse generator, a pump
and a wire feed.

## Layout

* `src/` — the verified library. Everything in it is checked by Verus
  against its `requires`/`ensures` contracts:
  * the line protocol: `linecomm` (byte stream to lines), `command` and
    `signal` (what a line means), `gcode` (the G-code grammar), `decimal`
    (number words and where their exact value falls against the bounds of
    binary32 rounding), `rx` (what the receive path does with each line and
    each tick's chunk), `interactive` (terminal echo);
  * output: `pstate` (p-state lines), `outbox` (staging and draining),
    `signals` (query answers);
  * settings: `settings` (key names and the settings repo), `dispatch`
    (which subsystem a key addresses, and committing writes);
  * safety and control decisions: `canceler` (cancel window and fault
    latch), `motion` (controller modes), `pulser` (pulse generator state),
    `pump`, `step_gen` (step pulse sequencing), `path_buffer` (notch
    accounting of the retractable path), `commands` (the command loop's
    decisions);
  * device protocols: `tmc2209` (stepper-driver UART datagrams, register
    values and the counter-confirmed write sequence);
  * `hvec` holds the trusted contracts of the `heapless` containers the
    library stores data in.
  Laws relating several operations are stated as `law_*` proof functions
  next to the code they are about.
* `tests/` — executable tests of the library.
* `app/` — the program around the library: the tick and command loops,
  asynchronous device drivers, and everything that computes on floating
  point (positions, paths, rates), which Verus does not reason about.
