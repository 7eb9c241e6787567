# ckb-vm-syscall-tracer

Traces the system calls that a CKB script makes, so that each run of the script can be replayed
on its own. A run is one program of one virtual machine; a virtual machine that replaces its
program has several.

`src/` is a library that is verified with Verus:

- `codes`, `data`, `transaction`, `traces`: the numbers of system calls and sources, the data
  that a transaction holds, and what a trace holds.
- `machine`, `readonly_machines`: what is read of a virtual machine, whether it runs or is
  suspended. A machine answers a read or says what is missing to answer it.
- `partial_content`, `locator`: what is noted of a system call before it is made, and what is
  read of the virtual machine after it.
- `keys`, `vms`, `generation`: runs, which of its runs a virtual machine is in, and what is
  known of each of some virtual machines.
- `collector` and the four collectors in `generation`, `syscall_collector`,
  `tx_parts_collector` and `locator_collector`.
- `text`, `byte32`, `command_line`, `samply`: the texts that the programs read and write.
- `outside`: the calls into other crates, with what is assumed of them.

Functions named `law_..` state what holds of the library as a whole.

`app/` is the program around it: it runs scripts with `ckb-script`, supplies the reads that the
library asks for, writes and shows trace files, and turns samples into profiles.
