# bevy_spacetimedb

A Bevy plugin that connects a Bevy application to a SpacetimeDB database and turns
table changes, reducer and procedure results and connection events into Bevy messages.

- `src/` is the library, proved with Verus: the plugin's settings and registrations
  (`plugin`), the choice of table messages (`tables`), and the bookkeeping of message
  channels and senders (`channels`), each with the laws that hold of them.
- `app/` ties the library to Bevy's `World` and to the SpacetimeDB SDK: the `Plugin`
  implementation, the connection itself, and the table callbacks.
- `tests/` exercises the library on concrete values.
