use vstd::prelude::*;
use crate::client_state::ProtocolVersion;

verus! {

/// The protocol number of Minecraft 1.16.1, the last version that tells
/// hardcore mode by a bit of the game mode.
pub const V1_16_1_PROTOCOL: i32 = 736;

/// Whether `v` is the version `limit` or an earlier one. Any version is
/// before none.
pub open spec fn spec_is_before_inclusive(v: ProtocolVersion, limit: i32) -> bool {
    match v {
        ProtocolVersion::Number(n) => n <= limit,
        ProtocolVersion::Any => false,
    }
}

/// Whether `v` is the version `limit` or an earlier one.
pub fn is_before_inclusive(v: ProtocolVersion, limit: i32) -> (r: bool)
    ensures
        r == spec_is_before_inclusive(v, limit),
{
    match v {
        ProtocolVersion::Number(n) => n <= limit,
        ProtocolVersion::Any => false,
    }
}

/// A world dimension.
#[derive(Debug, Clone, Copy, PartialEq, Eq, Structural)]
pub enum Dimension {
    Overworld,
    Nether,
    End,
}

/// The namespaced identifier of a dimension.
pub open spec fn spec_identifier(d: Dimension) -> Seq<char> {
    match d {
        Dimension::Overworld => "minecraft:overworld"@,
        Dimension::Nether => "minecraft:the_nether"@,
        Dimension::End => "minecraft:the_end"@,
    }
}

/// The number that versions before 1.16 give a dimension.
pub open spec fn spec_legacy_i8(d: Dimension) -> i8 {
    match d {
        Dimension::Overworld => 0,
        Dimension::Nether => -1i8,
        Dimension::End => 1,
    }
}

impl Dimension {
    /// The namespaced identifier of this dimension.
    pub fn identifier(self) -> (r: String)
        ensures
            r@ == spec_identifier(self),
    {
        match self {
            Dimension::Overworld => "minecraft:overworld".to_owned(),
            Dimension::Nether => "minecraft:the_nether".to_owned(),
            Dimension::End => "minecraft:the_end".to_owned(),
        }
    }

    /// The number that versions before 1.16 give this dimension.
    pub fn legacy_i8(self) -> (r: i8)
        ensures
            r == spec_legacy_i8(self),
    {
        match self {
            Dimension::Overworld => 0,
            Dimension::Nether => -1,
            Dimension::End => 1,
        }
    }
}

/// The settings of the login packet that versions 1.7.2 to 1.15.2 read.
pub struct PreV1_16Data {
    pub dimension: i8,
    /// The game mode, with bit 0x8 set for hardcore.
    pub game_mode: u8,
    pub v1_14_view_distance: i32,
    pub v1_8_reduced_debug_info: bool,
}

/// The settings of the login packet that versions 1.16 to 1.20.1 read.
pub struct PostV1_16Data {
    pub dimension_names: Vec<String>,
    pub world_name: String,
    pub dimension_name: String,
    pub v1_19_dimension_type: String,
    pub registry_codec_bytes: Option<Vec<u8>>,
    pub v1_16_2_dimension_codec_bytes: Option<Vec<u8>>,
    /// The game mode; up to 1.16.1 with bit 0x8 set for hardcore.
    pub game_mode: u8,
    pub v1_16_2_is_hardcore: bool,
    pub view_distance: i32,
    pub v1_18_simulation_distance: i32,
    pub reduced_debug_info: bool,
}

/// The settings of the login packet that versions 1.20.2 and later read.
pub struct PostV1_20_2Data {
    pub dimension_names: Vec<String>,
    pub dimension_name: String,
    pub dimension_type: String,
    pub v1_20_5_dimension_type: i32,
    pub game_mode: u8,
    pub is_hardcore: bool,
    pub view_distance: i32,
    pub simulation_distance: i32,
    pub reduced_debug_info: bool,
}

/// The settings of a login packet, in the layout of one range of versions.
pub enum LoginPacketData {
    PreV1_16(PreV1_16Data),
    PostV1_16(PostV1_16Data),
    PostV1_20_2(PostV1_20_2Data),
}

/// The packet that moves a client into the world.
pub struct LoginPacket {
    /// The player's entity id.
    pub entity_id: i32,
    pub data: LoginPacketData,
}

/// Whether `names` is the one identifier of dimension `d`.
pub open spec fn only_dimension(names: Seq<String>, d: Dimension) -> bool {
    names.len() == 1 && names[0]@ == spec_identifier(d)
}

/// The one identifier of a dimension, in a list.
fn dimension_names(iden: &String) -> (r: Vec<String>)
    ensures
        r@ == seq![*iden],
{
    let mut r: Vec<String> = Vec::new();
    r.push(iden.clone());
    proof {
        assert(r@ =~= seq![*iden]);
    }
    r
}

/// The game mode byte of a hardcore world where the mode carries the hardcore bit.
pub open spec fn spec_with_hardcore_bit(game_mode: u8, is_hard_core: bool) -> u8 {
    if is_hard_core { game_mode | 8 } else { game_mode }
}

impl LoginPacket {
    /// The packet for versions 1.16.2 up to 1.18.2: the dimension as the only
    /// world, with the registry and dimension codecs.
    pub fn with_dimension_codec(
        dimension: Dimension,
        registry_codec_bytes: Vec<u8>,
        dimension_codec_bytes: Vec<u8>,
    ) -> (r: Self)
        ensures
            r.entity_id == 0,
            match r.data {
                LoginPacketData::PostV1_16(v) => {
                    &&& only_dimension(v.dimension_names@, dimension)
                    &&& v.world_name@ == spec_identifier(dimension)
                    &&& v.v1_19_dimension_type@ == spec_identifier(dimension)
                    &&& v.dimension_name@ == Seq::<char>::empty()
                    &&& v.registry_codec_bytes == Some(registry_codec_bytes)
                    &&& v.v1_16_2_dimension_codec_bytes == Some(dimension_codec_bytes)
                    &&& v.game_mode == 0
                    &&& !v.v1_16_2_is_hardcore
                    &&& v.view_distance == 0
                    &&& v.v1_18_simulation_distance == 0
                    &&& !v.reduced_debug_info
                },
                _ => false,
            },
    {
        let iden = dimension.identifier();
        LoginPacket {
            entity_id: 0,
            data: LoginPacketData::PostV1_16(PostV1_16Data {
                dimension_names: dimension_names(&iden),
                world_name: iden.clone(),
                dimension_name: String::new(),
                v1_19_dimension_type: iden.clone(),
                registry_codec_bytes: Some(registry_codec_bytes),
                v1_16_2_dimension_codec_bytes: Some(dimension_codec_bytes),
                game_mode: 0,
                v1_16_2_is_hardcore: false,
                view_distance: 0,
                v1_18_simulation_distance: 0,
                reduced_debug_info: false,
            }),
        }
    }

    /// The packet for 1.16, 1.16.1 and 1.19 up to 1.20.1: the dimension as the
    /// only world, with the registry codec.
    pub fn with_registry_codec(dimension: Dimension, registry_codec_bytes: Vec<u8>) -> (r: Self)
        ensures
            r.entity_id == 0,
            match r.data {
                LoginPacketData::PostV1_16(v) => {
                    &&& only_dimension(v.dimension_names@, dimension)
                    &&& v.world_name@ == spec_identifier(dimension)
                    &&& v.dimension_name@ == spec_identifier(dimension)
                    &&& v.v1_19_dimension_type@ == spec_identifier(dimension)
                    &&& v.registry_codec_bytes == Some(registry_codec_bytes)
                    &&& v.v1_16_2_dimension_codec_bytes is None
                    &&& v.game_mode == 0
                    &&& !v.v1_16_2_is_hardcore
                    &&& v.view_distance == 0
                    &&& v.v1_18_simulation_distance == 0
                    &&& !v.reduced_debug_info
                },
                _ => false,
            },
    {
        let iden = dimension.identifier();
        LoginPacket {
            entity_id: 0,
            data: LoginPacketData::PostV1_16(PostV1_16Data {
                dimension_names: dimension_names(&iden),
                world_name: iden.clone(),
                dimension_name: iden.clone(),
                v1_19_dimension_type: iden.clone(),
                registry_codec_bytes: Some(registry_codec_bytes),
                v1_16_2_dimension_codec_bytes: None,
                game_mode: 0,
                v1_16_2_is_hardcore: false,
                view_distance: 0,
                v1_18_simulation_distance: 0,
                reduced_debug_info: false,
            }),
        }
    }

    /// The packet for 1.20.2 up to 1.20.4: the dimension as the only world,
    /// named by identifier.
    pub fn with_dimension_post_v1_20_2(dimension: Dimension) -> (r: Self)
        ensures
            r.entity_id == 0,
            match r.data {
                LoginPacketData::PostV1_20_2(v) => {
                    &&& only_dimension(v.dimension_names@, dimension)
                    &&& v.dimension_name@ == spec_identifier(dimension)
                    &&& v.dimension_type@ == spec_identifier(dimension)
                    &&& v.v1_20_5_dimension_type == 0
                    &&& v.game_mode == 0
                    &&& !v.is_hardcore
                    &&& v.view_distance == 0
                    &&& v.simulation_distance == 0
                    &&& !v.reduced_debug_info
                },
                _ => false,
            },
    {
        let iden = dimension.identifier();
        LoginPacket {
            entity_id: 0,
            data: LoginPacketData::PostV1_20_2(PostV1_20_2Data {
                dimension_names: dimension_names(&iden),
                dimension_name: iden.clone(),
                dimension_type: iden.clone(),
                v1_20_5_dimension_type: 0,
                game_mode: 0,
                is_hardcore: false,
                view_distance: 0,
                simulation_distance: 0,
                reduced_debug_info: false,
            }),
        }
    }

    /// The packet for 1.7.2 up to 1.15.2: the dimension by its legacy number.
    pub fn with_dimension_pre_v1_16(dimension: Dimension) -> (r: Self)
        ensures
            r.entity_id == 0,
            match r.data {
                LoginPacketData::PreV1_16(v) => {
                    &&& v.dimension == spec_legacy_i8(dimension)
                    &&& v.game_mode == 0
                    &&& v.v1_14_view_distance == 0
                    &&& !v.v1_8_reduced_debug_info
                },
                _ => false,
            },
    {
        LoginPacket {
            entity_id: 0,
            data: LoginPacketData::PreV1_16(PreV1_16Data {
                dimension: dimension.legacy_i8(),
                game_mode: 0,
                v1_14_view_distance: 0,
                v1_8_reduced_debug_info: false,
            }),
        }
    }

    /// The packet for 1.20.5 and later: the dimension as the only world, its
    /// type given by its index in the dimension type registry.
    pub fn with_dimension_index(dimension: Dimension, dimension_index: i32) -> (r: Self)
        ensures
            r.entity_id == 0,
            match r.data {
                LoginPacketData::PostV1_20_2(v) => {
                    &&& only_dimension(v.dimension_names@, dimension)
                    &&& v.dimension_name@ == spec_identifier(dimension)
                    &&& v.dimension_type@ == Seq::<char>::empty()
                    &&& v.v1_20_5_dimension_type == dimension_index
                    &&& v.game_mode == 0
                    &&& !v.is_hardcore
                    &&& v.view_distance == 0
                    &&& v.simulation_distance == 0
                    &&& !v.reduced_debug_info
                },
                _ => false,
            },
    {
        let iden = dimension.identifier();
        LoginPacket {
            entity_id: 0,
            data: LoginPacketData::PostV1_20_2(PostV1_20_2Data {
                dimension_names: dimension_names(&iden),
                dimension_name: iden.clone(),
                dimension_type: String::new(),
                v1_20_5_dimension_type: dimension_index,
                game_mode: 0,
                is_hardcore: false,
                view_distance: 0,
                simulation_distance: 0,
                reduced_debug_info: false,
            }),
        }
    }

    /// Sets the game mode and hardcore flag. Versions before 1.16.2 have no
    /// hardcore field: there hardcore is bit 0x8 of the game mode.
    pub fn set_game_mode(self, protocol_version: ProtocolVersion, game_mode: u8, is_hard_core: bool) -> (r: Self)
        ensures
            r.entity_id == self.entity_id,
            match (self.data, r.data) {
                (LoginPacketData::PreV1_16(a), LoginPacketData::PreV1_16(b)) =>
                    b == PreV1_16Data { game_mode: spec_with_hardcore_bit(game_mode, is_hard_core), ..a },
                (LoginPacketData::PostV1_16(a), LoginPacketData::PostV1_16(b)) =>
                    b == PostV1_16Data {
                        game_mode: spec_with_hardcore_bit(
                            game_mode,
                            is_hard_core && spec_is_before_inclusive(protocol_version, V1_16_1_PROTOCOL),
                        ),
                        v1_16_2_is_hardcore: is_hard_core,
                        ..a
                    },
                (LoginPacketData::PostV1_20_2(a), LoginPacketData::PostV1_20_2(b)) =>
                    b == PostV1_20_2Data { game_mode: game_mode, is_hardcore: is_hard_core, ..a },
                _ => false,
            },
    {
        let mut p = self;
        match &mut p.data {
            LoginPacketData::PreV1_16(value) => {
                if is_hard_core {
                    value.game_mode = game_mode | 0x8;
                } else {
                    value.game_mode = game_mode;
                }
            },
            LoginPacketData::PostV1_16(value) => {
                if is_hard_core && is_before_inclusive(protocol_version, V1_16_1_PROTOCOL) {
                    value.game_mode = game_mode | 0x8;
                } else {
                    value.game_mode = game_mode;
                }
                value.v1_16_2_is_hardcore = is_hard_core;
            },
            LoginPacketData::PostV1_20_2(value) => {
                value.game_mode = game_mode;
                value.is_hardcore = is_hard_core;
            },
        }
        p
    }

    /// Sets the view distance, and from 1.18 on the simulation distance to the same value.
    pub fn set_view_distance(self, view_distance: i32) -> (r: Self)
        ensures
            r.entity_id == self.entity_id,
            match (self.data, r.data) {
                (LoginPacketData::PreV1_16(a), LoginPacketData::PreV1_16(b)) =>
                    b == PreV1_16Data { v1_14_view_distance: view_distance, ..a },
                (LoginPacketData::PostV1_16(a), LoginPacketData::PostV1_16(b)) =>
                    b == PostV1_16Data { view_distance: view_distance, v1_18_simulation_distance: view_distance, ..a },
                (LoginPacketData::PostV1_20_2(a), LoginPacketData::PostV1_20_2(b)) =>
                    b == PostV1_20_2Data { view_distance: view_distance, simulation_distance: view_distance, ..a },
                _ => false,
            },
    {
        let mut p = self;
        match &mut p.data {
            LoginPacketData::PreV1_16(value) => {
                value.v1_14_view_distance = view_distance;
            },
            LoginPacketData::PostV1_16(value) => {
                value.view_distance = view_distance;
                value.v1_18_simulation_distance = view_distance;
            },
            LoginPacketData::PostV1_20_2(value) => {
                value.view_distance = view_distance;
                value.simulation_distance = view_distance;
            },
        }
        p
    }

    /// Sets whether the client shows reduced debug information.
    pub fn set_reduced_debug_info(self, reduced_debug_info: bool) -> (r: Self)
        ensures
            r.entity_id == self.entity_id,
            match (self.data, r.data) {
                (LoginPacketData::PreV1_16(a), LoginPacketData::PreV1_16(b)) =>
                    b == PreV1_16Data { v1_8_reduced_debug_info: reduced_debug_info, ..a },
                (LoginPacketData::PostV1_16(a), LoginPacketData::PostV1_16(b)) =>
                    b == PostV1_16Data { reduced_debug_info: reduced_debug_info, ..a },
                (LoginPacketData::PostV1_20_2(a), LoginPacketData::PostV1_20_2(b)) =>
                    b == PostV1_20_2Data { reduced_debug_info: reduced_debug_info, ..a },
                _ => false,
            },
    {
        let mut p = self;
        match &mut p.data {
            LoginPacketData::PreV1_16(value) => {
                value.v1_8_reduced_debug_info = reduced_debug_info;
            },
            LoginPacketData::PostV1_16(value) => {
                value.reduced_debug_info = reduced_debug_info;
            },
            LoginPacketData::PostV1_20_2(value) => {
                value.reduced_debug_info = reduced_debug_info;
            },
        }
        p
    }
}

/// Where hardcore rides on the game mode, the hardcore bit is set exactly
/// when asked for and the three game mode bits are kept.
pub proof fn law_hardcore_bit(game_mode: u8, is_hard_core: bool)
    ensures
        (spec_with_hardcore_bit(game_mode, is_hard_core) & 8 != 0) == (is_hard_core || game_mode & 8 != 0),
        spec_with_hardcore_bit(game_mode, is_hard_core) & 7 == game_mode & 7,
{
    assert((game_mode | 8u8) & 8u8 != 0) by (bit_vector);
    assert((game_mode | 8u8) & 7u8 == game_mode & 7u8) by (bit_vector);
}

} // verus!
