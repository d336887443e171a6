# Stirrup

Stirrup mounts and unmounts filesystems from a terminal user interface, keeping
frequently used mounts as named configurations and opening LUKS devices with
`cryptsetup` on the way.

The library in `src/` is verified with Verus:

- `text`: character sequences, their lexicographic order, and the line and field
  splitting used to read `/etc/mtab`.
- `order`: a stable sort by name and a first-match search on name-sorted records,
  with the laws that the sort gives a sorted permutation that keeps equal names in order.
- `mount`: mount configurations, the name-sorted configuration store, the command lines
  for `mount`, `umount` and `cryptsetup`, and the mount-table parser.
- `interface`: the table model (rows, pending mount actions, validation), the dialogs
  (record editor, delete confirmation, notifications) and the state machine that answers
  key presses, down to the actions collected when the table is applied.

`app/` is the program around it: command-line arguments, the TOML configuration file,
reading `/etc/mtab`, running the system commands, and drawing with ratatui.
