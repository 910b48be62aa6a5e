# nixgen

Generates the hardware configuration of a NixOS system: it scans the hardware
and the mounts, merges the arguments with `/etc/nixos-generate-config.conf`, and
plans which files are written. It also runs a build while its progress is drawn.

- `src/` is the library, verified with Verus. It performs no I/O. A function that
  depends on the machine takes the facts gathered so far and either gives a
  result or names the probe whose answer is missing.
- `app/` performs the probes, writes the files and drives the build.
- `tests/` runs the library on made-up machines.

Where to look first: `src/generate.rs` for the whole course, `src/mountinfo.rs`
and `src/scan.rs` for the scans, `src/knowledge.rs` for the proof that asking for
facts one by one gives what a look at the whole machine would give,
`src/atomic.rs` for how a file is replaced and `src/monitor.rs` for the run of a
build.

The library believes two things without proof: that `String::push` appends a
character, and that `rom::display::format_log` gives the same text for the same
line.
