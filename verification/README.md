# Stepper Control

Control software for a single-axis stepper test stand that runs Marlin firmware
behind a serial line.

The library under `src/` keeps the state of the stand, says which commands
follow on an event, reads and writes the configuration file, and prepares and
reports the firmware build. It is written in Verus: its functions carry
contracts, and Verus proves them. A few calls into `std` and `egui` are
believed rather than proved. They stand behind small wrappers in `text`,
`firmware` and `color`, each of which says what is taken for granted.

The program under `app/` owns what the library has no part in: the window, the
serial port, files, threads, the run of the build tool, and floating-point
arithmetic. Which files are written, in which order, and how the build tool is
launched, the library says.

| module | what it holds |
| --- | --- |
| `stepper` | the state, the steps that follow on an event, connection and settings |
| `serial` | lines that the board sends |
| `motion` | homing and moves within the limits |
| `gcode`, `editor` | macros and their editor |
| `config`, `config_laws` | the configuration file, and that it restores what was saved |
| `settings` | the settings file of the program |
| `firmware`, `project` | the generated header, the patch of `Configuration.h`, the build, all files |
| `panel`, `color` | what the window shows and allows |
| `num`, `decimal`, `text`, `text_facts` | numbers and text |

Single-precision numbers are carried by their bit patterns (`num::Num`). The
library orders, clamps and truncates them; adding, reading and printing them is
left to the program, which hands results over as numbers or texts.
