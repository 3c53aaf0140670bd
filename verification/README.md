# asky

The verified core of the Asky Minecraft server.

`src/` is the library, checked by Verus:

- `text_component`, `component_view`: chat text components and their three
  renderings (compact JSON, legacy section-sign codes, NBT), each proved equal
  to a recursive specification of the component's view.
- `mini_message`: MiniMessage markup (`<gold>Hi <b>there</b></gold>`) read
  through `quick_xml`, with the style-stack fold over the markup events proved
  against its specification.
- `packet_length`: VarInt decoding and the packet length check, with the
  round-trip and prefix laws.
- `client_state`, `server_state`, `server_list`, `login_packet`,
  `login_disconnect`: connection and server state, builders and packets.
- `env_placeholders`: `${NAME}` expansion in configuration text.
- `nbt_options`, `nbt_value`, `icon`, `json`: NBT options, NBT values,
  base64 data URLs and JSON string literals.

`app/` is the server program around it: command line, configuration files,
logging, and the floating-point parts of the world and client state.
