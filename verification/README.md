# flashbang

The verified core of Flashbang, a Linux USB image flasher.

- `src/devices.rs`: disks and their partitions as `lsblk` reports them, the
  decision whether an image may be flashed onto a disk, and what is mounted
  from it.
- `src/images.rs`: image files and their labels.
- `src/writer.rs`: the write plan (unmount steps, then writing and syncing).
- `src/flash.rs`: the flash workflow as a state machine: from the stage and
  what the last piece of outside work gave back, the events to report and the
  next piece of work. Its laws say, among other things, that an image is
  written only onto a target that a fresh look found removable, writable,
  large enough and unmounted.
- `src/gui.rs`: the decisions of the graphical front end.
- `src/report.rs`: the grouping of the device report.
- `src/text.rs`: whitespace trimming.
- `app/`: the command-line program: running `lsblk`, reading files,
  unmounting, writing and verifying, and printing.
