use asky::client_state::ProtocolVersion;
use asky::login_packet::{Dimension, LoginPacket, LoginPacketData};

#[test]
fn dimension_identifiers() {
    assert_eq!(Dimension::Overworld.identifier(), "minecraft:overworld");
    assert_eq!(Dimension::Nether.identifier(), "minecraft:the_nether");
    assert_eq!(Dimension::End.identifier(), "minecraft:the_end");
    assert_eq!(Dimension::Nether.legacy_i8(), -1);
}

#[test]
fn pre_v1_16_hardcore_is_a_game_mode_bit() {
    let p = LoginPacket::with_dimension_pre_v1_16(Dimension::End)
        .set_game_mode(ProtocolVersion::Number(578), 2, true)
        .set_view_distance(8)
        .set_reduced_debug_info(true);
    assert_eq!(p.entity_id, 0);
    match p.data {
        LoginPacketData::PreV1_16(v) => {
            assert_eq!(v.dimension, 1);
            assert_eq!(v.game_mode, 10);
            assert_eq!(v.v1_14_view_distance, 8);
            assert!(v.v1_8_reduced_debug_info);
        }
        _ => panic!("wrong layout"),
    }
}

#[test]
fn post_v1_16_hardcore_bit_only_up_to_1_16_1() {
    let p = LoginPacket::with_registry_codec(Dimension::Overworld, vec![1, 2])
        .set_game_mode(ProtocolVersion::Number(736), 1, true);
    match p.data {
        LoginPacketData::PostV1_16(v) => {
            assert_eq!(v.game_mode, 9);
            assert!(v.v1_16_2_is_hardcore);
            assert_eq!(v.world_name, "minecraft:overworld");
            assert_eq!(v.dimension_names, vec!["minecraft:overworld".to_string()]);
            assert_eq!(v.registry_codec_bytes, Some(vec![1, 2]));
            assert_eq!(v.v1_16_2_dimension_codec_bytes, None);
        }
        _ => panic!("wrong layout"),
    }
    let p = LoginPacket::with_dimension_codec(Dimension::Nether, vec![3], vec![4])
        .set_game_mode(ProtocolVersion::Number(751), 1, true)
        .set_view_distance(12);
    match p.data {
        LoginPacketData::PostV1_16(v) => {
            assert_eq!(v.game_mode, 1);
            assert!(v.v1_16_2_is_hardcore);
            assert_eq!(v.view_distance, 12);
            assert_eq!(v.v1_18_simulation_distance, 12);
            assert_eq!(v.dimension_name, "");
            assert_eq!(v.v1_16_2_dimension_codec_bytes, Some(vec![4]));
        }
        _ => panic!("wrong layout"),
    }
}

#[test]
fn post_v1_20_2_has_a_hardcore_field() {
    let p = LoginPacket::with_dimension_index(Dimension::Overworld, 3)
        .set_game_mode(ProtocolVersion::Number(767), 3, true)
        .set_view_distance(6)
        .set_reduced_debug_info(false);
    match p.data {
        LoginPacketData::PostV1_20_2(v) => {
            assert_eq!(v.game_mode, 3);
            assert!(v.is_hardcore);
            assert_eq!(v.v1_20_5_dimension_type, 3);
            assert_eq!(v.view_distance, 6);
            assert_eq!(v.simulation_distance, 6);
            assert_eq!(v.dimension_type, "");
        }
        _ => panic!("wrong layout"),
    }
    let p = LoginPacket::with_dimension_post_v1_20_2(Dimension::End);
    match p.data {
        LoginPacketData::PostV1_20_2(v) => {
            assert_eq!(v.dimension_type, "minecraft:the_end");
            assert_eq!(v.dimension_name, "minecraft:the_end");
        }
        _ => panic!("wrong layout"),
    }
}
