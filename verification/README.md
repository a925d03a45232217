# oled_desktop_pet

A desktop companion for a 128x64 monochrome SSD1309 OLED on I2C: a pet
sprite that blinks, live system metrics, and short notifications (SSH
logins, USB and Type-C devices, network interfaces, IP address, resource
alerts).

The library under `src/` is verified with Verus. It holds the frame buffer
and drawing (rectangles, lines, text in a 5x7 and a 4x6 font), the SSD1309
bus protocol, the screen layout and composition, the bounded formatting of
the metric rows, the parsing of `/proc` and `/sys` texts, the monitors'
bookkeeping, the notification slot and the event sources, the font file,
the settings (parsed with the `toml` crate, then read into typed values,
with hot reload of the night and memory-trim settings), and the main
loop's decisions. Text is drawn with the font table that the program
loads at boot. Every public function states what it
returns or changes; the laws of the library are public proof functions
named `law_*`.

The program under `app/` reads the system (files, directories, the
journal, interface addresses, the clocks), reads and formats the
fractional figures and thresholds, drives the I2C device and runs the
loop.

Tests are under `tests/`.
