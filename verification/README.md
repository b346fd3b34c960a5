# OtterAmp DSP

Firmware logic of the OtterAmp digital amplifier (RP2350 with a TAS5830 output
stage), verified with Verus.

- `src/audio` - S/PDIF detection and decoding, the ring buffer, resampling, the
  I2S clock and the output loop
- `src/config` - the configuration file: numbers, sections, and its flash region
- `src/drivers` - TAS5830, rotary encoder, persisted settings
- `src/gui` - display, widgets, menus, screens and their pixels
- `src/hw`, `src/bytes.rs`, `src/storage.rs` - pins, encodings, flash contents
- `src/usb`, `src/usb_msc` - USB audio packets and feedback; the mass-storage
  device and its FAT12 volume
- `src/control.rs` - source selection, level meters and the user interface
- `app` - peripherals, tasks and floating-point curves
- `tests` - the library on concrete values

The laws of the library are the proof functions named `law_*`.
