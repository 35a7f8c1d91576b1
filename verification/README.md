# cnano-rs

Firmware for split keyboards with a pointing device: the
[Charybdis Nano](https://bastardkb.com/product/charybdis-nano-kit/), with a trackball, and
the Dilemma, with a trackpad and rotary encoders.

- `src/` is the library: the protocol between the halves, the key matrix, the reports to
  the host, the leds and the decisions of the sensor drivers. It is written in
  [Verus](https://github.com/verus-lang/verus); every function has a contract that is proved,
  except for those named under "What is trusted".
- `tests/` runs the library.
- `app/` is the firmware around it: peripherals, USB, timers and the keymap.

## The library

| module | what it does |
|--------|--------------|
| `sid`, `crc`, `serde` | sequence ids, checksum and wire format of the messages |
| `event_queue`, `protocol`, `side` | the protocol between the halves |
| `keys`, `keyboard`, `hid` | from the scans of the matrix to the reports to the host |
| `mouse`, `mouse_move`, `trackball`, `trackpad` | the pointing devices |
| `rgb_anims`, `rgb_leds`, `prng`, `clock` | the leds |

The proof functions whose names start with `law_` state what holds of several functions
together: that a message reads back as the event that was sent, that a lost message is asked
for and sent again as it was, that the events of one half arrive at the other in their order,
also when a message is lost on the way.

## CapsLock and NumLock

The firmware generates an event on column 0, row 3 when the CapsLock led changes state. This
is not a wired element but can be used by the keymap, to have a different behavior when
CapsLock is set. The same occurs with NumLock, but the event is on column 1, row 3.

## What is trusted

The calls into other crates are behind small functions whose contracts are believed:
`crc16` (the checksum), `arraydeque` (the queue of events), `keyberon` (the debouncer),
`num` and `fixed` (divisions).
