# lingxi-ascendc

The rules behind the `lingxi-ascendc` command line tool, as a library that is
verified with Verus, and the program around it.

## What the library decides

- `agent::run_target`: which shell commands launch a workflow, and where the run
  will write its event files.
- `agent::line_document`, `agent::engine_event`, `agent::workflow_tail`: what a line
  of an event file or of a subagent stream says.
- `agent::follow`: how a growing file is followed line by line.
- `app`: the conversation, as far as workflow runs go; `app::events::workflow_progress`
  puts each update onto the rows below the tool call that launched the run.
- `ui::tool_call::execute`: how a shell tool call is shown.
- `headless`: print mode. `headless::driver` tells what each event means,
  `headless::session` runs a session from the first command to the exit code,
  `headless::output` writes the events, `headless::watchdog` keeps the time.
- `cli`, `cli_dispatch`, `startup`: the command line and what follows from it.
- `embedded_resources`, `packaging`: what is packaged into the binary, and how.
- `json`, `raw_json`, `order`, `paths`, `text`: the common ground.

Every function states what it returns for every input. Texts are sequences of
characters in the contracts; a type's content is its `deep_view`. Laws that span
several functions are public proof functions next to them.

## What is taken on trust

`serde_json` reads and prints documents and passes over values, `include_dir` finds packaged files, and
two functions of `std` are called as they are documented. Each such call stands in
one small function whose comment says what is claimed of it.

## The program

`app/` holds the rest: parsing the command line with `clap`, the bridge process,
files, timers, and drawing with `ratatui`. It does what the library says and tells
it what happened.
