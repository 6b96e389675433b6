# yaca_agent

The agent server of yaca: clients create agents, send them turns, cancel the
turns, move the agents between conversations and subscribe to what they do.

`src/` is the request handling, verified with Verus. `app/` puts it on a socket:
it takes the locks, waits for the agents and the queues, and converts to and
from the messages of the transport.

| module         | what it holds                                                  |
|----------------|----------------------------------------------------------------|
| `server`       | where every request begins: which agent it reaches, or why not |
| `registry`     | the agents, and who owns which conversation                    |
| `turn`         | a turn, from the request to its answer                         |
| `agent`        | the state of one agent, and what it reports                    |
| `subscription` | a subscription, from the request to the end of its stream      |
| `fanout`       | the subscribers of one agent, and who of them is told what     |
| `event`        | what subscribers are told                                      |
| `status`       | refusals                                                       |
| `request`      | requests and replies                                           |
| `laws`         | what holds of the server as a whole                            |
| `series`       | what a subscriber is told over a series of events              |

Four modules name what is taken on trust of other crates: `channel` and `lock`
(tokio), `cancel` (tokio-util) and `ids` (uuid).

A request that has to wait in the middle is split into steps. Each step returns
the reply, or the value that the next step is called on:

- create: `AgentServer::create_agent`, `PendingAgent::built`,
  `AgentServer::finish_create`
- destroy: `AgentServer::destroy_agent`, `AgentServer::finish_destroy`
- turn: `AgentServer::send_turn`, `FoundTurn::decoded`, `DecodedTurn::take_up`,
  `RunningTurn::finish`
- load: `AgentServer::load_conversation`, `PendingLoad::loaded`,
  `AgentServer::finish_load`
- subscribe: `AgentServer::subscribe`, `AgentState::subscribe`,
  `Subscription::snapshot`, `Subscription::open`, then `Progress` for the stream
