# ftdi_nusb

A driver for FTDI USB serial chips whose decisions are verified with Verus.

- `src/` is the verified core. It performs no I/O. An operation is a sequence of
  steps: the core says what to send, submit or wait for, and the caller reports
  how that ended.
- `app/` is the async driver around it: it owns the USB handles, performs the
  steps with `nusb`, and abandons an operation whose future is dropped.
- `tests/` runs the core on concrete devices, answers and failures.

| module | contents |
| --- | --- |
| `device` | the state of an opened device |
| `identify`, `search` | chip detection, packet sizes, finding the device to open |
| `control` | requests that leave the recorded state alone, and their answers |
| `operation` | reset, flush, baud rate, bit mode, initialization, recovery |
| `transfer`, `packet` | bulk reads and writes, modem status stripping |
| `deadline`, `recovery` | timeouts, recovery guards, device identities |
| `laws`, `stream` | what holds of whole operations and of whole data streams |
| `platform` | what is taken on trust of `nusb` and of the system clock |

A device whose stateful operation fails or is dropped half-way refuses everything
but `recover`, which brings its configuration back. No read loses, repeats or
reorders input, and a write submits its data in order. These statements are the
proof functions of `laws` and `stream`.

Clock divisors and EEPROM contents are chip-specific knowledge that the driver is
given through the `ChipSupport` trait.
