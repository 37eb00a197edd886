# ssc

Remote control of Sennheiser Sound Control (SSC) devices, with the protocol
logic verified by Verus.

- `src/` is the verified library: SSC paths (`path`), the JSON model and the
  JSON text of strings (`json`), request building, reply unpacking and schema
  listing (`message`), recognising devices among mDNS announcements
  (`discovery`), and the decisions of the command line tool (`cli`).
- `app/` is the `ssc-tools` program and the asynchronous client around the
  library: sockets, the reply task, timeouts, mDNS browsing, argument parsing
  and printing.
- `tests/` runs the library on concrete values.
