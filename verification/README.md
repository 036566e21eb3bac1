# mcexport

mcexport is a Prometheus prober exporter that queries the publicly available information on Minecraft servers through
the Server List Ping. This repository holds a library that decides and computes, verified with
[Verus](https://github.com/verus-lang/verus), and a thin program around it.

* `src/` is the library. `protocol` encodes and decodes the packets and runs the exchanges, `probe` reads and resolves
  target addresses, `ping` puts a probe of a server together, `timeout` finds the timeout of a request, `metrics` turns
  a status into the text for Prometheus, and `exporter` answers requests. `number` deals with decimal numbers, `config`
  holds the defaults.
* `app/` is the program: command line, HTTP server, DNS lookups, TCP connections, JSON, and the arithmetic on
  floating point numbers.
* `tests/` runs the library.

Work that takes several rounds of input and output is written as a function from how far it has come to what is to be
done next. Its contract says exactly which step follows, and the program performs the steps.

The functions whose names start with `law_` are proofs of what holds of the library as a whole: for example that what
is written is read back, that an exchange never asks for a byte behind the packet that it awaits, and that a probe that
fails is answered with its failure and nothing else.
