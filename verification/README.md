# histlog

Interval logs of measurements, written off-thread, with the logic proved in
[Verus](https://github.com/verus-lang/verus).

A `HistLog` records `u64` values in an `hdrhistogram::Histogram`. It is built for event loops: in
each turn the loop gives it the time, and when more than an interval has gone by the log hands its
histogram over a bounded channel to a writer and goes on with a new one. The writer appends one line
for each histogram to a log file in the HdrHistogram interval log format.

## Layout

- `src/` is the verified library.
  - `log` is the measuring side: recording, sending with and without waiting, resetting, making logs
    that share a writer, and what is done when a log goes.
  - `scribe` is the writer's side: what to do on each message, and the text of the log file.
  - `channel` and `hist` describe the channel (`crossbeam_channel`) and the histogram
    (`hdrhistogram`) that the two sides use.
  - `filename`, `path`, `time` and `error` hold what their names say.
  - `laws` states what holds of the library as a whole, such as that no recorded value is lost while
    the writer is there.
  - `system` describes several logs that share a writer, and states what holds of their runs. The
    writer is told to end once at most, and after everything else. If each log had enough time while
    it was closed, the writer has got every value by then, under the tag of its log. Runs in which
    two logs let go of the writer at the very same moment are left out.
- `app/` puts the clock, the thread and the file in, for programs that want a log with the types of
  the standard library.
- `tests/` runs the library on concrete values.

## Example

```rust
use histlog::time::{Clock, Duration};
use histlog::{HistLog, Scribe};

let clock = Clock::start();
let mut server1 = HistLog::new(
    "/tmp/path/to/logs",       // directory of the log file
    "server-latency",          // series, used to name the log file
    "xeon-e7-8891-v2",         // tag, recorded with each entry
    Duration::from_secs(1),    // how often results are sent to the writer
    clock,
    |scribe: Scribe| start_writer(scribe),
)?;

// a separate tag in the same file
let mut server2 = server1.clone_with_tag("xeon-e5-2670");

for i in 0..1000u64 {
    server1.record(i)?;
    server2.record(i * 2)?;
    server1.check_send(clock.now());        // waits while the channel is full
    server2.check_try_send(clock.now())?;   // does not wait, and can fail
}
```

A log that goes is closed by `HistLog::close`, step by step, until its state says that the writer is
to be waited for or that nothing is left to do.

`start_writer` makes the log file at `scribe.path()`, writes `scribe.header()` to it, and carries out
`scribe.next_step()` again and again, in a thread of its own; see `app/lib.rs`.

## Log files

Log files are named `<log dir>/<series name>.<datetime>.<number>.hdrhistogram-interval-log.v2.gz`,
where the number is random and tells apart files of one second. They look like this:

```console
#[StartTime: 1544631293.283 (seconds since epoch)]
#[BaseTime: 0.000 (seconds since epoch)]
Tag=xeon-e7-8891-v2,1544631293.283,0.003,999.000,HISTFAAAAC94Ae3GMRUAMAgD0bRI6FovNVcHmGREAgNR [...]
Tag=xeon-e5-2670,1544631293.283,0.003,999.000,HISTFAAAABx4AZNpmSzMwMDAxAABzFCaEUoz2X+AsQA/awK [...]
```

Only the histogram data is compressed (deflate).
