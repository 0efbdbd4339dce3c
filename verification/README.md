# takeover

Migrates a running Linux device to balenaOS: stage 1 prepares the running
system and replaces its init, the new init moves the root into memory, and the
stage 2 worker writes the balenaOS image to the disk, checks it and puts the
configuration on it.

## Layout

- `src/` is the library, verified with Verus:
  - `text.rs`: characters, lines, words, numbers and their text.
  - `common/`: paths, sizes, the mount table, command output, C strings and
    dumps, errors, options, the stage 2 configuration, loop device records,
    the fallback log's places.
  - `stage1.rs`: the decisions of stage 1 and the order of its preparation.
  - `init.rs`: the order of the new init's work and its error handling.
  - `migrator/`: the migrator's helpers (partition tables, errors, options),
    stage 1 (block devices, `lsblk` and `blkid` reports, device detection,
    network configurations, executables and libraries to copy, assets,
    backups) and stage 2 (copies to memory, flashing, validation, the order
    of the work), and its init.
- `app/` is the program around the library: the command line, file and
  device access, commands, mounts and logging.
- `tests/` runs the library on concrete inputs.
