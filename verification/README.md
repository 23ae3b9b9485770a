# A host in a network of virtual links

A TCP/IP stack over UDP. Hosts are connected by virtual links. Each host routes packets by a
forwarding table, keeps that table up to date with a distance-vector protocol, and offers TCP
sockets to its users.

`src/` is the library: packets and headers, routing, the RIP messages and their rules, TCP
buffers, sockets, states and transports, and the commands of the shell. All of it is verified.
Functions that a running host would wait in are steps here: they say how far they came, or what
has to be sent, and the program takes it from there.

`app/` is the program: it binds the UDP port, runs the timers, reads commands and files.

`tests/` runs the library: the parts one by one, and whole hosts that are wired together.
