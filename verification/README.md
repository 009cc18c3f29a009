# nova_wayland

Desktop control under Wayland for the NOVA assistant: screen capture, mouse,
keyboard and windows. `src/` is the library, verified with Verus; it decides and
never touches the desktop. `app/` does what the library asks for.

| Module | What it holds |
|---|---|
| `platform` | the compositor, windows, commands, failures |
| `text`, `uri`, `json` | decimal numbers and whitespace, `file://` URIs, JSON documents |
| `script` | scripts of steps, and the walk through one |
| `mouse`, `keyboard`, `keymap` | scripts for ydotool and wtype |
| `cursor` | the position of the pointer |
| `windows`, `manage` | what Hyprland and Sway list, and what is done to a window |
| `portal` | the exchange with xdg-desktop-portal |
| `capture` | screen capture, by whatever the compositor supports |

Each operation is a value with `request` and `reply`: it says what has to be done
next, and takes the answer. The contracts say exactly which request comes in
which state and where each reply leads; the `lemma_` functions state what holds
of every course that an operation can take.
