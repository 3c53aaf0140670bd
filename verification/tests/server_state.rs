use asky::icon::png_data_url;
use asky::server_list::ServerListConfig;
use asky::server_state::ServerState;
use asky::text_component::Component;

#[test]
fn builder_sets_everything() {
    let mut b = ServerState::builder();
    b.description_text("<gold>Hi</gold>")
        .time_world(6000)
        .lock_time(true)
        .max_players(42)
        .show_online_player_count(true)
        .hardcore(true)
        .view_distance(10);
    let s = b.build().unwrap();
    let mut hi = Component::new("Hi");
    hi.color = Some("gold".to_string());
    let mut motd = Component::new("");
    motd.extra = vec![hi];
    assert_eq!(s.motd(), &motd);
    assert_eq!(s.time_world_ticks(), 6000);
    assert!(s.is_time_locked());
    assert_eq!(s.max_players(), 42);
    assert!(s.is_hardcore());
    assert_eq!(s.view_distance(), 10);
    assert_eq!(s.fav_icon(), None);
}

#[test]
fn negative_view_distance_is_zero() {
    let mut b = ServerState::builder();
    b.view_distance(-4);
    assert_eq!(b.build().unwrap().view_distance(), 0);
}

#[test]
fn default_builder_gives_default_state() {
    let s = ServerState::builder().build().unwrap();
    assert_eq!(s.motd(), &Component::new(""));
    assert_eq!(s.time_world_ticks(), 0);
    assert!(!s.is_time_locked());
    assert_eq!(s.max_players(), 0);
    assert!(!s.is_hardcore());
}

#[test]
fn bad_motd_markup_fails() {
    let mut b = ServerState::builder();
    b.description_text("<!-- open");
    assert!(b.build().is_err());
}

#[test]
fn icon_is_a_base64_data_url() {
    let mut b = ServerState::builder();
    b.fav_icon(&[0, 1, 2]);
    assert_eq!(b.build().unwrap().fav_icon(), Some("data:image/png;base64,AAEC".to_string()));
}

#[test]
fn base64_padding() {
    assert_eq!(png_data_url(b""), "data:image/png;base64,");
    assert_eq!(png_data_url(b"M"), "data:image/png;base64,TQ==");
    assert_eq!(png_data_url(b"Ma"), "data:image/png;base64,TWE=");
    assert_eq!(png_data_url(b"Man"), "data:image/png;base64,TWFu");
    assert_eq!(png_data_url(&[0xFB, 0xFF, 0xBF]), "data:image/png;base64,+/+/");
}

#[test]
fn server_list_defaults() {
    let c = ServerListConfig::default();
    assert_eq!(c.max_players, 20);
    assert!(c.show_online_player_count);
    assert_eq!(c.server_icon, "server-icon.png");
    assert_eq!(
        c.motd,
        "\\u00a76$$\\u00a7d Asky Server\\u00a7r (\\u00a7bgithub.com/AskyOrg/Asky\\u00a7r) \\u00a76$$"
    );
}
