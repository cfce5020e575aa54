# DeskBridge

DeskBridge joins the computers on a desk: one keyboard and mouse for two of them, files
sent from one to another, and a web page through which a phone can upload a file.

`src/` is the library that decides. It is verified with Verus:

- `keys`, `frame`: keys and input events, and the nine-byte frames in which they travel
- `kvm`, `session`: what happens to each local input event, and how a session runs
- `transfer`, `digest`: sending and receiving a file, checked by SHA-256
- `paths`: the names under which received files are saved
- `http`, `percent`, `portal`: the web portal
- `mdns`, `net`: the neighbours on the network, and the addresses of this computer
- `log`: the lines of the log file
- `text`, `number`, `bytes`: what the other modules are built on

The proof functions whose names begin with `law_` state what holds of the library as a
whole. The functions that are believed rather than proved are those marked
`external_body` and the items marked `assume_specification`; each names the function of
another crate, or of the standard library, that it stands for.

`app/` is the desktop application: windows, input devices, sockets and files. Positions of
the pointer and transfer speeds are floating-point numbers; they are computed there.

`tests/` runs the library on concrete values.
