# PerfDroid

PerfDroid collects performance data of Android devices over ADB, shows it live and exports it as
CSV, JSON, HTML and PNG files. It reads CPU clock rates, CPU utilisation, frame rate, battery
temperature, and the voltage, current and power of the battery.

`src/` is the verified library. Its functions carry contracts that Verus proves; the laws that
relate several of them are the public proof functions whose names begin with `law_`.

- `adb`: where the bundled ADB tool is.
- `device`: listing devices, describing them, and reaching them over the network.
- `profiler`: what each profiler asks the device and how it reads the answers.
- `aggregation`: batches of metrics and the events that carry them.
- `runtime`: the session: connecting, starting, pausing, resuming and stopping.
- `storage`: the frames of a session, and cutting ranges out of its timeline.
- `export`: the contents of exported files.
- `gui`: what the window shows, and how it follows events and the mouse.
- `text`, `number`, `sort`, `names`, `shell`, `session`, `types`, `errors`, `constants`,
  `registry`: what the others share.

The library neither talks to devices nor computes with floating-point numbers. A conversation with
a device is a function of the replies so far: it gives the next command, or the result. Numbers
that are not whole reach the library as they are to be printed.

`app/` runs the conversations, the threads and the window, and writes the files. `tests/` runs the
library on concrete values.

What is trusted of other crates stands in `src/text.rs` and `src/export/raster.rs`, each item with
what is claimed of it.
