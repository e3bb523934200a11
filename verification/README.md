# plexus_locus

Terminal workspace orchestration (tmux and zellij sessions, tabs and panes),
recording of panes to asciicast files, and compositing of multi-pane
recordings into one `.cast` file.

## Layout

- `src/` — the library, verified with Verus:
  - `types`, `backend`, `backends/{tmux,zellij}`: descriptors, backend
    errors, the command lines each multiplexer is driven with and the reading
    of their listings;
  - `activations/*`: what each RPC method decides (messages, pane
    resolution, the exec wrapper script and its state file, screen diffs,
    workspace configuration and grid building, recording lookup);
  - `compositor/*`: frames, ANSI encoding, frame diffs, pane placement,
    borders and composite frames;
  - `recording/*`: layout events and their replay, change detection between
    polls and the lifecycle monitor's decisions, recording file names and
    tmux listings;
  - `observation`: the terminal of every observed pane, fed its output and
    read back;
  - `cast`, `web`, `scripting`, `text`.
- `tests/` — tests of the library.
- `app/` — the `locus` program: running the multiplexers, files, FIFOs,
  locks and channels around the observed panes, timing, the RPC server and
  its activations.
