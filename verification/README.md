# jev_pilot

Drive an Android device toward a goal with TypeSafe Jev as the judge. Code
enumerates every action the current screen allows and the model only picks
one, so it cannot invent a coordinate or name a row that is not on screen.

The library under `src/` is written in Verus: every function in it carries a
contract, and Verus proves the code meets it. `app/` is the program around it:
running `adb`, HTTP, the terminal and files, the MCP server, and the few
readings that need floating point.

## Layout

| Module | What it decides |
| --- | --- |
| `text` | The string handling everything else is stated in: trimming, splitting, numbers. |
| `snapshot` | An observation: its rows, where each can be tapped, whether a row is covered, how a screen is fingerprinted, and the stamps that keep a reference from outliving its screen. |
| `platform` | Reading UIAutomator and XCUITest hierarchies into observations; which gestures each platform has. |
| `act`, `judgment`, `step` | The catalog a screen offers, the questions a step asks, and how answers resolve into one action or a refusal. |
| `device` | Turning an action into a command, `adb` argument vectors and what `adb` prints, the on-device helper's protocol and fallback. |
| `pilot` | What a run carries between steps and when it ends: patience, repetition, memory, verdicts. |
| `desk`, `mcp`, `cli`, `credential`, `update`, `client` | Answers to an impasse, the command lines tool calls stand for, the command line itself, keys, updating, and retrying a busy service. |

Each module's laws are public proof functions beside the code they are about,
for example `snapshot::references_do_not_cross_observations`, `snapshot::tap_lands_on_its_row`, `device::stale_references_never_land`,
`act::escalation_stays_in_catalog`, `pilot::standing_still_ends_a_run` and
`device::helper::enabling_twice_is_enabling_once`.

## Outside crates

`roxmltree` (parsing hierarchies) and `serde_json` (the helper's JSON) are
called from the library through small wrappers whose contracts name what they
return; so are the answer files an impasse is resolved from. `ureq`, `tokio`, `rmcp`, `schemars` and `serde` are used by `app/` only.
