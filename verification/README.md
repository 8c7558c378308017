# NTP Server Monitor

A window that asks a list of NTP servers for their time, round by round, and shows how far
their clocks are from the local one.

`src/` is the library, verified with Verus:

- `text`, `number`, `time`: characters and lines, decimal notation, points and lengths of time
- `calendar`, `clock`: the Gregorian calendar, and times as a clock in some zone shows them
- `server`: a server and what the outcomes of its queries leave known of it
- `query`: a query to a server, from the socket to the response
- `task`: the rounds of queries in the background, and the sleep between them
- `settings`, `ini`: what a user can set, and the file that keeps it
- `monitor`: the state of the window, and what its buttons do
- `worker`: how the window starts and ends the thread in the background
- `polling`: how the task reads and replaces the window's list
- `display`: the rows of the table and the labels

`app/` is the program around it: the window, the thread, the sockets and the file.
`tests/` runs the library.

What the library takes on trust: chrono's formatting of a timestamp at an offset, the range of
the offset that chrono finds for the machine's zone (both in `clock`), and `String::push` (in
`text`).
