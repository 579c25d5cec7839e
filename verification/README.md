# Orion

Orion is a desktop audio mixer: microphones, applications and virtual devices
are sources, speakers and virtual cables are buses, and a matrix of routes joins
them. Each strip has gain, mute, balance, a delay, a three-band equalizer and a
channel mode. Scenes keep the whole mixer and bring it back.

The library in `src/` is verified with Verus. It holds what the mixer decides:
no function of it panics, and its contracts say what each one returns or changes.
Floating-point arithmetic, threads, files and the sound server are left to the
program in `app/`, which hands the library plain values and carries out what it
answers.

## Layout

| Path | What stands there |
| --- | --- |
| `src/domain` | endpoints, routes, the audio graph, commands, events, errors |
| `src/app_engine` | the coordinator between the user interface and a backend |
| `src/backend` | registries of devices, sessions that link routes, the backends' rules |
| `src/realtime` | what an audio callback does to its routes: plans, rosters, rings, ramps, delays, meters |
| `src/dsp` | buffers, smoothers, mixers, drift correction, equalizers, meters |
| `src/state` | the state behind the user interface, scenes, and the document that describes it |
| `src/persistence` | the settings document, how it is loaded, saved and queued |
| `src/model`, `src/engine`, `src/device` | the routing matrix and its engine |
| `src/scalar.rs` | 32-bit floating-point numbers as bit patterns, with their order |
| `src/table.rs`, `src/text.rs`, `src/json.rs` | maps in order of arrival, text, two lookups in JSON |
| `app` | threads, files, sound servers and the arithmetic on samples |
| `tests` | the library in use, with the outside crates linked |

## Reading the contracts

- A type with a view (`@`) has a model of plain values. `AppModel` is that of the
  application state, `RosterModel` that of the rings that a callback holds.
- `wf` and `steady` are the invariants. Whatever changes a graph, a mixer or a
  session keeps them.
- Functions named `law_...` state what holds of several functions together: that
  a saved scene restores the mixer, that a ring gives back what was written, that
  a load after a save gives the document back, that no pair of endpoints is linked
  twice, that a delay is exact, that a roster loses no ring.
- Ring buffers (`rtrb`), shared plans (`arc-swap`), the counter beside them,
  identifiers (`uuid`), JSON (`serde_json`) and lower case stand behind a few trusted
  functions. Each says in its doc comment what is believed of the call.
- What two threads share is spoken of over its whole life: a plan that is read was
  put there, and a ring is known by what went in and what came out.
- A number that only arithmetic can give, such as the next value of a ramp, is an
  argument. What is proved holds whatever it is.
