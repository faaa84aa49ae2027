# signal_webhook

A bridge from webhooks to Signal. It serves a webhook over HTTP, turns each posted
payload into a text, and sends the text to one Signal user. Two bridges can also be joined by a Unix
socket, over which texts travel as JSON lines and the connection is kept alive by pings.

`src/` is the library, verified with Verus:

- `http`: the text of a payload, and the answer to a post;
- `pipe`: from the receiver of texts to their sender;
- `signal`: the session that sends texts to the user;
- `mode` and `path`: what the program is started with;
- `rpc` and `json`: the messages on the socket, their bytes, and back;
- `unix::sender` and `unix::receiver`: the two ends of the socket.

The parts that run for long are machines: they are told of events and say what they wait for. The
public proof functions whose names begin with `law_` state what holds of the machines over whole
runs, such as that texts keep their order and are written once, and that the bytes on a socket
determine the messages that were sent.

`app/` performs the input and output around the library. It is started with the environment
variables `SIGNAL_USER_UUID` and `DB_PATH`, and listens on port 3000.
