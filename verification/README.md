# popcorn

The rules of popcorn, a package manager for command-line "kernels", as a
library whose functions carry proved contracts, with the command-line
program around it.

- `src/` is the library: text operations (`text`), checksums (`checksum`),
  the versions cache (`versions`), edits of shell start-up files and `PATH`
  (`shellrc`), the kernel config (`config`), build and husk commands
  (`kernel`), theatre links and downloads (`theatre`), directories
  (`paths`), printed lines (`print`), the development watcher's decisions
  (`watch`), the command line (`cli`) and small helpers (`util`).
- `app/` is the program: argument parsing, files, processes, network and
  the watch loop. It asks the library for the rules it follows and for the
  texts it writes into start-up files, path scripts, configs and husks.
- `tests/` runs the library on concrete values.
