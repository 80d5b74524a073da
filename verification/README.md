# robotica_backend

The decision-making core of a home automation backend, verified with Verus.

`src/` holds the logic, each public function with a contract:

- scheduling: date classification (`classifier`, `dates`), the condition
  language (`lexer`, `parser`, `conditions`), sequences built from the
  schedule (`sequencer`, `tasks`, `order`) and the executor that starts and
  stops them (`executor`);
- devices: the HDMI matrix protocol (`hdmi`), LIFX lights (`lifx`), light
  strips and scenes (`lights`), the phone switchboard (`phone`);
- the car: Tesla commands and charging decisions (`tesla`), price-driven
  charge requests (`amber`), arrival and departure in zones (`zones`);
- messaging: MQTT topic patterns (`topics`), client settings and the
  subscription registry (`mqtt`), routing of announcements (`messages`),
  websocket permissions and sessions (`websocket`), entities that pass values
  on (`entities`), metrics (`metrics`), device ids and state files
  (`robotica`), the web front end's static files (`http`), calendar entries
  (`calendar`), and string helpers (`text`).

`app/` holds the parts that talk to the world: configuration files, the HDMI
matrix's TCP connection, state files and the phone book's replies.
