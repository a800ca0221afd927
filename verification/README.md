# Smartotum Controller

A controller that discovers smart lights on the local network and keeps their
topics in the Smartotum distributed hash table (DHT) up to date.

- `src/` is the library, verified with Verus: everything the controller decides.
  - `text`: hardware addresses and numbers as text
  - `json`: `serde_json` values, as contracts see them
  - `events`: what devices report, and the state that follows from it
  - `topics`: addresses of topics, replies of the DHT, the first room
  - `lights`: how the topics of lights are found, created and updated
  - `state`: which device has which address and topic
  - `devices`: which devices of a scan are new
  - `pass`: a pass over the devices of a scan, one question at a time
  - `pass_laws`: what holds of every pass
  - `network`: what the controller asks of the network, and that it commands no device
  - `retry`: when a failed request is made again
  - `scanning`: the loop that scans the network, from start to shutdown
  - `messages`: the loop that waits for messages of devices, and when it ends
- `app/` is the program around it: network, timers, tasks and logging.
- `tests/` holds the tests of the library.

Temperatures are floating-point numbers. The library keeps them by their bits and
compares them as IEEE 754 prescribes; `app/` writes them as JSON.
