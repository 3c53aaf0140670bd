use vstd::prelude::*;

verus! {

/// How the server presents itself in the client's server list.
pub struct ServerListConfig {
    pub max_players: u32,
    /// The message of the day, as MiniMessage text.
    pub motd: String,
    pub show_online_player_count: bool,
    /// Path of the PNG file shown as the server icon.
    pub server_icon: String,
}

impl Default for ServerListConfig {
    /// Twenty players, the Asky banner as message of the day, the online
    /// count shown, and `server-icon.png` as the icon.
    fn default() -> (r: Self)
        ensures
            r.max_players == 20,
            r.motd@ == "\\u00a76$$\\u00a7d Asky Server\\u00a7r (\\u00a7bgithub.com/AskyOrg/Asky\\u00a7r) \\u00a76$$"@,
            r.show_online_player_count,
            r.server_icon@ == "server-icon.png"@,
    {
        ServerListConfig {
            max_players: 20,
            motd: "\\u00a76$$\\u00a7d Asky Server\\u00a7r (\\u00a7bgithub.com/AskyOrg/Asky\\u00a7r) \\u00a76$$".to_owned(),
            show_online_player_count: true,
            server_icon: "server-icon.png".to_owned(),
        }
    }
}

} // verus!
