# coreshift-lowlevel

A policy-neutral substrate for Linux system primitives: spawning and supervising
processes, non-blocking I/O over an edge-triggered reactor, inotify, procfs and
signals.

The crate is split in two.

- `src/` is the decision core, verified with Verus. It performs no system call:
  it says which call to make next and takes the reply. Its contracts say for every
  reply what follows. Its laws say what holds of every step and, where they speak
  of runs, of any number of them.
- `app/` owns the descriptors and makes the calls.

| module | what it decides |
| --- | --- |
| `reactor::fd` | what the replies to calls on a descriptor mean |
| `reactor::poll` | which token stands for which descriptor, which events are ready |
| `io::buffer`, `io::writer`, `io::drain` | what is captured of a process's output, and how its input is written |
| `spawn::options`, `spawn::pipes` | with which backend and over which pipes a process starts |
| `spawn::plan`, `spawn::descriptors`, `spawn::child` | each step of starting it, and what it finds open |
| `spawn::watchdog`, `spawn::supervise` | its deadline, and its life up to its end |
| `spawn::process`, `spawn::error` | how it ended, and how calls fail |
| `inotify` | the packed event stream |
| `sys` | argument validation, procfs contents, path probes, signal handlers |
| `text` | decimal numbers and whitespace in kernel text |

A caller of `app/` runs a process like this:

```rust
let output = SpawnOptions::builder(vec!["/bin/ls".to_string(), "-l".to_string()])
    .capture_stdout()
    .timeout_ms(5000)
    .build()?
    .run()?;
```
