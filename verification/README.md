# diskripper-core

The core of DiskRipper, a tool that backs up optical media (CD, DVD,
Blu-ray): it reads discs and disc images, extracts their files, rips audio
and identifies what was ripped. The library is written in Verus: each public
function states in `requires` / `ensures` what it does, and Verus proves the
code against those contracts.

## Layout

- `src/` — the verified library.
  - `filesystem/` — ISO 9660 (with Joliet and Rock Ridge), UDF, filesystem
    detection, raw sector reads with recovery, rip verification, and the
    command blocks and replies of the platform drive interfaces.
  - `formats/` — DVD IFO parsing (titles, chapters, audio and subtitle
    streams) and the NRG, MDF/MDS and CCD image formats.
  - `audio.rs`, `audio_cd.rs`, `accurip.rs`, `flac.rs` — tables of contents,
    WAV headers, AccurateRip checksums and the FLAC encoder's arguments.
  - `multisession.rs`, `metadata.rs` — multisession and Enhanced CDs,
    CD-Text, disc ids.
  - `image.rs`, `parallel.rs`, `drive_control.rs` — imaging as a state
    machine fed by the caller's reads, the machine's resources for parallel
    reads, drive commands and paranoid ripping by majority vote.
  - `job.rs`, `progress.rs`, `settings.rs`, `plugins.rs` — jobs, progress
    reports, settings and plugins.
  - `ml/` — audio fingerprint matching and library organisation.
- `tests/` — tests run against the compiled library.
- `app/` — the command-line program: device and file I/O, the read loops,
  serialisation and floating-point model training, around the library.

Where the library needs what another crate computes (hashes, base64,
random identifiers, clocks, directories), it calls it through small trusted
wrappers whose contracts say what that crate's documentation promises.
