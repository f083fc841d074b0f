# krun_status

The status endpoint of a krun virtual machine. Over a TCP or unix socket it tells whether the
machine is running or stopping (`GET /vm/state`) and takes requests to stop it (`POST /vm/state`).

- `src/` is the verified library. It reads and writes nothing: it is handed what was read and says
  what is to be sent, removed or bound.
  - `uri`: the URI of the endpoint
  - `listener`: opening the endpoint
  - `request`: the head of a request, its path and the length of its body
  - `response`: HTTP answers and their JSON
  - `status`: what is answered, and what a request changes
  - `cleanup`: removing socket files
  - `text`, `number`: splitting text, decimal numbers
- `app/` is the program around it: sockets, files, signals and the shutdown event.
- `tests/` runs the library with the crates it calls.
