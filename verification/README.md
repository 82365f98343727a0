# nfsdav

Serves a local directory to NFSv3 clients on a single port, and to WebDAV clients on another.

    nfsdav /data 0.0.0.0:2049                    # NFS
    nfsdav /data --dav-port 8080                 # WebDAV
    nfsdav /data 0.0.0.0:2049 --dav-port 8080    # both

The library in `src/` is verified with Verus. It decides and performs no input or output: an
operation on a path is a run that asks the file tree one thing at a time and is resumed with each
reply. What a run does is a function of the replies it has got (`open_moves`, `copy_moves` and so
on); the laws about it are the public proof functions whose names start with `law_`.

- `path`, `resolve`: paths, and the entries at them
- `error`, `attr`, `listing`: statuses, attributes and listings as a client sees them
- `run`: requests, replies and runs
- `open`, `copy`, `rename`, `change`, `inspect`: the operations, gathered in `fs`
- `file`, `contents`, `buffer`: open files, and what reads and writes do to their contents
- `args`, `text`: the command line

`app/` connects the library to the sockets, to the local file system and to the traits of the
WebDAV server. Neither the NFS listener nor the HTTP listener in use has access lists, so the
program does not start when `--allow-ip` or `--allow-uid` names anyone.
