# rust_mqtt_client_tui

A terminal MQTT 3.1.1 client whose core is verified with Verus.

- `src/` is the verified library:
  - `app/state.rs`: the application state (`App`), its abstract view (`AppView`)
    and every editing, subscription, publishing and event rule, each with a
    contract that gives the exact next state;
  - `events/handler.rs`: key bindings (`key_to_action`) and the effect of each
    action (`handle_action`);
  - `mqtt/client.rs`: commands and events exchanged with the MQTT session task,
    client options, and the decisions of the session task;
  - `mqtt/topic.rs`: topic filters with the `+` and `#` wildcards, which decide
    the subscriptions that a received message reaches;
  - `ui/`: the texts that the terminal interface shows;
  - `text.rs`: strings modelled as character sequences with UTF-8 byte offsets;
  - `laws.rs`: properties proved across operations (focus cycling, undoing an
    edit, well-formedness kept by every action and event, distinct topic colours,
    message delivery, ...).
- `app/` is the program: terminal set-up, the event loop, drawing with ratatui,
  and the Tokio task that talks to the broker with rumqttc.
- `tests/` runs the library on concrete values.
