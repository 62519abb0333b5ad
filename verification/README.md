# macmon

Performance monitoring of Apple Silicon: CPU and GPU frequencies, usage, power,
temperatures and memory, served over HTTP as JSON and for Prometheus, and
offered to C code.

`src/` is the library, verified with Verus. It decides which sources to open and
which counters to read, how readings become metrics, what each HTTP request is
answered, how the launchd agent is installed, and what the C structures hold and
own. `app/` is the code around it that talks to the hardware, the network, the
file system and C callers. `tests/` runs the library on concrete values.

Real numbers are a type parameter of the library. What is stated of a
computation on them is which operations it makes, on what, and in which order.
