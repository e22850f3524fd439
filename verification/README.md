# SheepIt client

A client for the [SheepIt](https://www.sheepit-renderfarm.com) render farm. It logs in, asks for
jobs, downloads scenes and renderers, runs Blender on them and sends the frames back.

The decisions are a library that is verified with Verus (`src/`); what touches the network, the
disk, processes or the terminal is ordinary Rust around it (`app/`).

| module | what it holds |
| --- | --- |
| `conf` | the command line, the configuration, and where files go |
| `hw_info` | what is told of the machine |
| `server_conf`, `server_con` | the login, the server's configuration, the requests |
| `net`, `fmd5` | content types, documents, downloads, digests |
| `job`, `client`, `session` | jobs, rounds of the loop, the course from login to logout |
| `execute`, `process`, `render`, `upload` | doing a job: its files, the renderer, its frame |
| `files`, `archive` | cleaning, deleting trees, unpacking; archives that lie in memory |
| `global`, `tui`, `screen` | what is shown, what keys do, the layout of the screen |
| `text`, `number`, `span`, `paths`, `utils`, `defs` | what the others share |
| `outside` | the calls into other crates, and what is taken to hold of them |

Where work alternates between decisions and the outside world, the library holds a step function:
it takes the stage that things are at and what has happened, and gives the next stage. The laws of
such a course, and of the library as a whole, are the public proof functions whose names start
with `law_`.

Times are spans from one common start, paths are lists of pieces that are joined on the spot, and
single-precision numbers are carried by their bits.
