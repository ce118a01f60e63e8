USB packet channel (UPC)
========================

UPC is a reliable, packet-based transport over a USB connection. It uses one
vendor-specific interface with two bulk endpoints and adds to raw transfers:

* packet framing with preserved message boundaries,
* connection management (open, close, exchange of capabilities),
* independent closing of the two directions,
* liveness detection by status polling,
* negotiation of the maximum packet size.

Layout
------

* `src/` is the protocol, verified with Verus. Nothing in it performs a transfer: the
  device, the connection setup of the host and its transfer tasks are state machines
  that take what happened and return what to do.
  * `framing`, `tlv`, `capabilities`, `ctrl`: what goes over the wire.
  * `device`: reaction of the device to control requests and endpoint events.
  * `host`: discovery of interfaces and endpoints, connection setup, closing of the
    directions, transfer tasks.
  * `cli`: argument parsing, selection and listing of devices, forwarding of the
    standard streams.
  * `trace`: numbering and description of packets for traces.
  * `buffer`, `time`, `guid`: specifications of the outside types that are used.
  * `laws`, `device::laws`, and the `law_*` functions of the other modules: properties
    of the protocol as a whole.
* `app/` is the command-line tool and the glue to the USB libraries: native hosts
  (`host`), Linux gadgets (`device`), browsers (`web`) and a host with blocking
  transfers (`blocking`).
* `tests/` runs the library, with `scenarios` connecting a host and a device over a
  simulated cable.
