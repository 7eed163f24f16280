# lgtv

A client for LG webOS TVs. The library under `src/` holds the decisions and is verified with Verus:
which message is sent for a command, which command a response belongs to and what it says, when the
other side counts as gone, when a connection is made anew, and which answers to a network search come
from a TV. `app/` holds the sockets, timers and channels around it.

| module | what it is about |
| --- | --- |
| `cmd` | the commands, the messages sent for them, the meaning of their responses |
| `main_conn`, `pointer_conn` | what a connection does with each event |
| `processor`, `conn_task` | the events of a connection, and its loop |
| `ping` | finding out whether the other side is still there |
| `conn` | making a connection, pairing, reconnecting, and those who wait for it |
| `history` | what holds over the whole life of a connection |
| `scan` | the search for TVs |
| `json`, `text`, `bytes`, `waiting` | values that the above work with |
| `json_value`, `address`, `lossy` | calls into `serde_json`, `url` and the standard library |

The registration payload is not part of the project: whoever connects supplies its JSON text.
