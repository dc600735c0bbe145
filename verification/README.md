# fantasy_sport

The verified core of a fantasy-sports backend made of three services (a
fantasy-league server, a leaderboard server and a results server) that talk
to clients over websockets.

`src/` is checked by Verus:

- `timespan`, `my_timespan_format`, `my_timespan_format_opt`: instants,
  half-open timespans and their two-instant wire form.
- `ws_server`: per-client subscriptions, subscription requests, which
  published items reach which client, the message envelopes, and the reply
  to each message a client sends.
- `fantasy`: drafting (splitting a period's teams into drafts, snake-order
  turns, automatic picks from a team's queue or at random, the scheduling
  passes of the draft builder and handler), team validation against league
  limits, active-pick checks, the player caches fed by the results server,
  and the server's records and subscriptions.
- `leaderboard`, `result`: the other two services' records, subscriptions,
  and the assembly of what they send (stats per league, players and teams
  gathered from joined rows, teams with their players).

Identifiers are UUIDs held as their 128-bit values; JSON metadata is held as
text; decimal multipliers and points as the bit patterns of 32-bit floats.

`app/` is the program around it: it follows the results server's team
updates over a websocket and keeps the drafting caches with the library.
`tests/` exercises the library on concrete values.
