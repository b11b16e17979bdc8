# rmap

A network scanner and analyzer focused on IPv6, with target generation
algorithms (TGAs). The logic is written in Verus and proved against its
contracts; what talks to the network, the terminal, files and Python lives in
a thin program around it.

## Layout

- `src/` — the verified library:
  - `addr`, `predicates`: address blocks and the named address predicates;
  - `text`, `formats`: line and CSV reading of address lists and scan results;
  - `analysis/`, `analyze`: unique, dispersion, entropy, subnet, count,
    statistics and special-block analyses of a column of addresses;
  - `runner`: filtering rows by predicates, keeping distinct rows, and
    running an analysis command on a table;
  - `tga/`: the TGA trait, random and Entropy/IP generation, the hex
    exchange with Python TGAs, and the registry;
  - `scan`, `probe`: echo requests and replies, link-local discovery and the
    hosts of a scanned network;
  - `view`: the table viewer's state and moves;
  - `frontends`, `plugin`: the answers to remote commands and the request
    counts they update, and the entropy plugin's configuration.
- `tests/` — tests of the library on concrete values.
- `app/` — the command-line program: argument parsing, CSV input and output,
  raw sockets, the terminal viewer and the Python subprocess.
