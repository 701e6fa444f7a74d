# Clipboard history manager

A menu-bar clipboard history for macOS: it records what you copy (text and
images), keeps the last 50 distinct entries newest first, and opens a
searchable picker on Cmd+Shift+V that pastes the chosen entry.

The crate is written in Verus. `src/` is the verified library:

| Module | What it holds |
|---|---|
| `entry` | `ClipboardEntry`, its equality, label and display text |
| `history` | `ClipboardHistory`: bounded, deduplicated, newest first; fuzzy search |
| `fuzzy` | the call into `sublime_fuzzy::best_match` |
| `ranking` | the stable best-score-first ordering of search matches |
| `image` | change-detection hash, the downscale test, nearest-neighbour resampling |
| `icon` | the tray icon's pixels |
| `poller` | what the clipboard poller records |
| `picker` | selection, keyboard and deletion logic of the picker |
| `popup` | when the popup opens and closes, hotkey debounce, deferred paste |
| `laws` | properties of the history, labels, picker and popup |

`app/` is the program around it: the event loop (winit), the GPU-rendered
egui picker, the system clipboard (arboard), the global hotkey, the tray icon
and the macOS window and paste integration.
