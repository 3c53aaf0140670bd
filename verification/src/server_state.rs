use vstd::prelude::*;
use crate::icon::{png_data_url, spec_base64};
use crate::mini_message::{parse_mini_message, spec_mini_message, MiniMessageError};
use crate::component_view::opt_string_view;
use crate::text_component::Component;

verus! {

/// What the server tells every client about itself and its world, but for
/// the spawn position and rotation.
pub struct ServerState {
    motd: Component,
    time_world: i64,
    lock_time: bool,
    max_players: u32,
    show_online_player_count: bool,
    hardcore: bool,
    view_distance: i32,
    fav_icon: Option<String>,
}

/// Settings collected for a `ServerState`, the message of the day still as
/// MiniMessage text.
pub struct ServerStateBuilder {
    description_text: String,
    time_world: i64,
    lock_time: bool,
    max_players: u32,
    show_online_player_count: bool,
    hardcore: bool,
    view_distance: i32,
    fav_icon: Option<String>,
}

/// The mathematical value of a `ServerStateBuilder`.
pub struct ServerStateBuilderView {
    pub description_text: Seq<char>,
    pub time_world: i64,
    pub lock_time: bool,
    pub max_players: u32,
    pub show_online_player_count: bool,
    pub hardcore: bool,
    pub view_distance: i32,
    pub fav_icon: Option<Seq<char>>,
}

impl ServerStateBuilder {
    /// The view distance is never negative.
    #[verifier::type_invariant]
    spec fn view_distance_not_negative(self) -> bool {
        self.view_distance >= 0
    }
}

impl ServerState {
    /// The view distance is never negative.
    #[verifier::type_invariant]
    spec fn view_distance_not_negative(self) -> bool {
        self.view_distance >= 0
    }
}

impl View for ServerStateBuilder {
    type V = ServerStateBuilderView;

    closed spec fn view(&self) -> ServerStateBuilderView {
        ServerStateBuilderView {
            description_text: self.description_text@,
            time_world: self.time_world,
            lock_time: self.lock_time,
            max_players: self.max_players,
            show_online_player_count: self.show_online_player_count,
            hardcore: self.hardcore,
            view_distance: self.view_distance,
            fav_icon: opt_string_view(self.fav_icon),
        }
    }
}

/// Why a `ServerState` could not be built.
#[derive(Debug)]
pub enum ServerStateBuilderError {
    MiniMessage(MiniMessageError),
}

impl ServerState {
    pub closed spec fn spec_motd(&self) -> Component {
        self.motd
    }

    pub closed spec fn spec_time_world(&self) -> i64 {
        self.time_world
    }

    pub closed spec fn spec_lock_time(&self) -> bool {
        self.lock_time
    }

    pub closed spec fn spec_max_players(&self) -> u32 {
        self.max_players
    }

    pub closed spec fn spec_show_online_player_count(&self) -> bool {
        self.show_online_player_count
    }

    pub closed spec fn spec_hardcore(&self) -> bool {
        self.hardcore
    }

    pub closed spec fn spec_view_distance(&self) -> i32 {
        self.view_distance
    }

    pub closed spec fn spec_fav_icon(&self) -> Option<Seq<char>> {
        opt_string_view(self.fav_icon)
    }

    /// The message of the day.
    pub fn motd(&self) -> (r: &Component)
        ensures
            *r == self.spec_motd(),
    {
        &self.motd
    }

    /// Start building a new `ServerState`.
    pub fn builder() -> (r: ServerStateBuilder)
        ensures
            r@ == ServerStateBuilder::spec_default(),
    {
        ServerStateBuilder::default()
    }

    /// The time of day of the world, in ticks.
    pub fn time_world_ticks(&self) -> (r: i64)
        ensures
            r == self.spec_time_world(),
    {
        self.time_world
    }

    /// Whether the time of day stays where it is.
    pub fn is_time_locked(&self) -> (r: bool)
        ensures
            r == self.spec_lock_time(),
    {
        self.lock_time
    }

    /// The largest number of players shown in the server list.
    pub fn max_players(&self) -> (r: u32)
        ensures
            r == self.spec_max_players(),
    {
        self.max_players
    }

    /// Whether the world is in hardcore mode.
    pub fn is_hardcore(&self) -> (r: bool)
        ensures
            r == self.spec_hardcore(),
    {
        self.hardcore
    }

    /// The view distance in chunks, never negative.
    pub fn view_distance(&self) -> (r: i32)
        ensures
            r == self.spec_view_distance(),
            r >= 0,
    {
        proof {
            use_type_invariant(self);
        }
        self.view_distance
    }

    /// The server icon as a data URL, if one was given.
    pub fn fav_icon(&self) -> (r: Option<String>)
        ensures
            opt_string_view(r) == self.spec_fav_icon(),
    {
        match &self.fav_icon {
            Some(s) => Some(s.clone()),
            None => None,
        }
    }
}

impl ServerStateBuilder {
    /// Nothing set: empty text, time 0, unlocked, no players, count hidden,
    /// not hardcore, view distance 0, no icon.
    pub open spec fn spec_default() -> ServerStateBuilderView {
        ServerStateBuilderView {
            description_text: Seq::empty(),
            time_world: 0,
            lock_time: false,
            max_players: 0,
            show_online_player_count: false,
            hardcore: false,
            view_distance: 0,
            fav_icon: None,
        }
    }

    /// Sets the message of the day, as MiniMessage text.
    pub fn description_text(&mut self, text: &str) -> (r: &mut Self)
        ensures
            r@ == (ServerStateBuilderView { description_text: text@, ..old(self)@ }),
            final(self)@ == final(r)@,
    {
        proof {
            use_type_invariant(&*self);
        }
        self.description_text = text.to_owned();
        self
    }

    /// Sets the time of the world.
    pub fn time_world(&mut self, time_world: i64) -> (r: &mut Self)
        ensures
            r@ == (ServerStateBuilderView { time_world: time_world, ..old(self)@ }),
            final(self)@ == final(r)@,
    {
        proof {
            use_type_invariant(&*self);
        }
        self.time_world = time_world;
        self
    }

    /// Sets whether the time of day stays where it is.
    pub fn lock_time(&mut self, lock_time: bool) -> (r: &mut Self)
        ensures
            r@ == (ServerStateBuilderView { lock_time: lock_time, ..old(self)@ }),
            final(self)@ == final(r)@,
    {
        proof {
            use_type_invariant(&*self);
        }
        self.lock_time = lock_time;
        self
    }

    /// Sets the largest number of players shown in the server list.
    pub fn max_players(&mut self, max_players: u32) -> (r: &mut Self)
        ensures
            r@ == (ServerStateBuilderView { max_players: max_players, ..old(self)@ }),
            final(self)@ == final(r)@,
    {
        proof {
            use_type_invariant(&*self);
        }
        self.max_players = max_players;
        self
    }

    /// Sets whether the server list shows how many players are online.
    pub fn show_online_player_count(&mut self, show: bool) -> (r: &mut Self)
        ensures
            r@ == (ServerStateBuilderView { show_online_player_count: show, ..old(self)@ }),
            final(self)@ == final(r)@,
    {
        proof {
            use_type_invariant(&*self);
        }
        self.show_online_player_count = show;
        self
    }

    /// Sets whether the world is in hardcore mode.
    pub fn hardcore(&mut self, hardcore: bool) -> (r: &mut Self)
        ensures
            r@ == (ServerStateBuilderView { hardcore: hardcore, ..old(self)@ }),
            final(self)@ == final(r)@,
    {
        proof {
            use_type_invariant(&*self);
        }
        self.hardcore = hardcore;
        self
    }

    /// Sets the view distance; a negative distance counts as 0.
    pub fn view_distance(&mut self, view_distance: i32) -> (r: &mut Self)
        ensures
            r@ == (ServerStateBuilderView {
                view_distance: if view_distance < 0 { 0 } else { view_distance },
                ..old(self)@
            }),
            final(self)@ == final(r)@,
    {
        proof {
            use_type_invariant(&*self);
        }
        self.view_distance = if view_distance < 0 { 0 } else { view_distance };
        self
    }

    /// Sets the server icon from the bytes of a PNG image, as a base64 data URL.
    pub fn fav_icon(&mut self, png: &[u8]) -> (r: &mut Self)
        requires
            png@.len() <= usize::MAX / 4 * 3,
        ensures
            r@ == (ServerStateBuilderView {
                fav_icon: Some("data:image/png;base64,"@ + spec_base64(png@)),
                ..old(self)@
            }),
            final(self)@ == final(r)@,
    {
        proof {
            use_type_invariant(&*self);
        }
        self.fav_icon = Some(png_data_url(png));
        self
    }

    /// Finishes building: the message of the day is read as MiniMessage text,
    /// everything else is taken as set. It fails exactly when the message of
    /// the day cannot be read, with the reader's error.
    pub fn build(self) -> (r: Result<ServerState, ServerStateBuilderError>)
        ensures
            match r {
                Ok(s) => {
                    &&& spec_mini_message(self@.description_text) == Some(s.spec_motd()@)
                    &&& s.spec_time_world() == self@.time_world
                    &&& s.spec_lock_time() == self@.lock_time
                    &&& s.spec_max_players() == self@.max_players
                    &&& s.spec_show_online_player_count() == self@.show_online_player_count
                    &&& s.spec_hardcore() == self@.hardcore
                    &&& s.spec_view_distance() == self@.view_distance
                    &&& s.spec_fav_icon() == self@.fav_icon
                },
                Err(ServerStateBuilderError::MiniMessage(e)) => {
                    &&& spec_mini_message(self@.description_text) is None
                    &&& e is QuickXml
                },
            },
    {
        proof {
            use_type_invariant(&self);
        }
        match parse_mini_message(self.description_text.as_str()) {
            Ok(motd) => Ok(ServerState {
                motd: motd,
                time_world: self.time_world,
                lock_time: self.lock_time,
                max_players: self.max_players,
                show_online_player_count: self.show_online_player_count,
                hardcore: self.hardcore,
                view_distance: self.view_distance,
                fav_icon: self.fav_icon,
            }),
            Err(e) => Err(ServerStateBuilderError::MiniMessage(e)),
        }
    }
}



impl Default for ServerStateBuilder {
    fn default() -> (r: Self)
        ensures
            r@ == Self::spec_default(),
    {
        ServerStateBuilder {
            description_text: String::new(),
            time_world: 0,
            lock_time: false,
            max_players: 0,
            show_online_player_count: false,
            hardcore: false,
            view_distance: 0,
            fav_icon: None,
        }
    }
}

} // verus!
