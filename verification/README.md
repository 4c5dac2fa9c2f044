# unix-socket-switcher

A daemon that serves a Unix domain socket at a stable path and proxies each
connection to a target Unix socket found via glob patterns. Long-lived processes
keep using the stable path while the target moves, as forwarded SSH and GPG agent
sockets do with every new session.

## Layout

`src/` is the library, verified with [Verus](https://github.com/verus-lang/verus).
It holds every decision of the daemon and does no input or output:

- `cli`: the options, and what is wrong with them.
- `startup`: from the command line to a server, in the foreground, under systemd
  socket activation, or as a daemon.
- `setup`: the steps before connections are served.
- `server`: the main loop, the idle timer, signals, and how to shut down.
- `active`, `signals`: the connection count and the signals.
- `connection`: handling one client, from the patterns to the proxied socket.
- `find`: collecting and sorting the paths that patterns match.
- `path`, `order`: the order of paths.
- `wait`: waiting for the PID file of the daemon.
- `text`, `span`: reading text, log lines, and lengths of time.

Where a decision depends on the outside world, a module is a state machine: it
says what to do next, and is told what came of it. The `law_` functions state what
holds of whole runs, such as that the first target that accepts wins, that
a socket which systemd owns is left alone, that a PID file is there while
connections are served and is removed at the end, and that an idle server stops
only after it has been idle for all of its timeout.

`app/` is the program around the library: it parses the command line, walks the
file system, opens sockets, handles signals, and runs the state machines.

`tests/` runs the library on concrete values, and holds its path order, its sort
and its readers of text against the standard library.
