# rust-simple-init

A small init system for an embedded Linux board: it mounts the early file
systems, loads kernel modules for the devices that appear, brings network
interfaces up (static address, DHCP client or server, WPA supplicant), runs
serial login consoles, the SSH daemon and other programs, and sets up a USB
gadget through configfs.

## Layout

- `src/` is the library, verified with Verus. It holds the parsers of the
  kernel's text interfaces (`/proc/modules`, `/proc/self/mounts`,
  `modules.alias`, uevent messages), the init's logger, the poll-token table
  of the event loop, the configfs operations of a USB gadget, and each
  service as a state machine whose methods say what to run or write next and
  take the outcome back. Contracts state every result over spec functions;
  the laws (what a read gives back of a write, that line splitting does not
  depend on how output arrives, that earlier alias lines take precedence,
  ...) are public proof functions.
- `app/` is the program around it: `main`, the event loop over `mio`,
  signal descriptors and netlink sockets (`nix`, `libc`), spawning and
  reaping processes, and the file system work that the library plans.
- `tests/` runs the library on concrete values.
