# h2ac-rs

The planning, lifecycle and selection logic of a Helldivers 2 stratagem caller
and loadout assistant, written in Verus with its contracts proved.

- `src/` — the verified library:
  - `compact_mode::preset` — the loadout preset (H2AC slots 06..10 as four
    stratagems and a booster) and the overlay lifecycle around an automatic
    loadout (temporary hide, restore, user choice wins).
  - `config`, `catalog`, `hotkey`, `executor`, `text` — slot lists, key names,
    scan codes and the key sequence that calls in a stratagem.
  - `loadout_sync` — the automatic loadout: selection and its validation,
    tuning parameters and their repair, errors, run state and reporter
    (including publishing a run's end), controller decisions (a run reaches
    `Completed` only through validation, the window and a successful
    selection), the reference catalog bridge, alignment offsets, the
    refusal of an all-black captured frame (`capture`), the connected
    component labelling and filter of a cell's masks (`components`: a pixel
    stays exactly when its 4-connected component passes the verdict), the
    driving loop's stop decisions
    (`run_step`), and under `direct_select` the list map, target planning,
    page navigation, the selection machine (`DirectSelectMachine::step`: it
    picks its targets itself, confirms only them, each once, with its hard
    caps) and the session (`session_step`: a finished session confirmed
    exactly the plan, in order).
- `app/` — what Verus does not see: file and network I/O, threads, the
  Windows keyboard hook and input injection (an `AutomationSession` that
  asks the library's `ensure_running` before every capture and input), and
  the pixel work done in floating point (such as the pixel classification of
  `cell_masks`, which hands its masks to the verified filter). Its loops (`selection_loop`) perform what the library's
  step functions decide; the game-facing I/O behind them (capture,
  classification, hover and post-click measurement) is expressed as traits
  (`SelectIo`, `SessionIo`, `GameEnv`), whose implementations over the vision
  pipeline are not part of this crate.
- `tests/` — tests of the library through its public interface.
