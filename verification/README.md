# latchkey

A host-side driver for NSCCN wCopy-family RFID readers (USB `2518:6018`): 125 kHz
EM4100 and T5577 tags, MIFARE Classic cards, and the reader's raw commands, from
a terminal interface or from the command line.

The library under `src/` is verified with Verus. It never touches the reader,
the terminal or the disk: it says which command to send next, what an answer
means, what to print and what to draw. The program under `app/` does what the
library says.

| module | what it holds |
|--------|---------------|
| `text`, `number`, `hexes` | digits, padding, whitespace, hex both ways |
| `frame`, `command` | framing with checksum, and the payloads the reader knows |
| `em4100`, `mifare` | tag frames and ID forms; sectors, keys and cards |
| `reader` | numbering frames, sorting reports, asking again |
| `lf`, `hf` | sweeping for an ID, burning blocks, finding keys |
| `worker` | the jobs behind the terminal interface, step by step |
| `cli` | the subcommands, step by step |
| `input`, `app`, `session` | fields, keys, prompts, and when to poll |
| `ui`, `view` | styled text in panes, and how each screen looks |

Procedures that take several commands are state machines. Each has a model, an
invariant, and a contract that gives the next state, the lines or events that
come out, and the command that goes to the reader. Properties that span calls
are stated as public proof functions next to the code they are about: that a
working tag is not overwritten unasked, that only `y` confirms a write, that Esc
restores what editing started from, that a wipe leaves the config word for last,
that every job comes to an end.
