//! Core logic of the Asky Minecraft server: text components and their
//! legacy/JSON/NBT renderings, the MiniMessage markup reader, packet length
//! framing, connection and server state, and configuration helpers.

pub mod nbt_options;
pub mod json;
pub mod nbt_value;
pub mod component_view;
pub mod text_component;
pub mod mini_message;
pub mod packet_length;
pub mod client_state;
pub mod icon;
pub mod server_state;
pub mod server_list;
pub mod login_disconnect;
pub mod login_packet;
pub mod env_placeholders;
