use nethernet::{NethernetError, NethernetMotd, ServerData};

fn other(text: &str) -> NethernetError {
    NethernetError::Other(text.to_string())
}

#[test]
fn test_server_data_roundtrip() {
    let original = ServerData {
        server_name: "Test Server".to_string(),
        level_name: "My World".to_string(),
        game_type: 0,
        player_count: 3,
        max_player_count: 10,
        editor_world: false,
        hardcore: false,
        transport_layer: 2,
        connection_type: 4,
    };

    let encoded = original.marshal().unwrap();
    let decoded = ServerData::unmarshal(&encoded).unwrap();

    assert_eq!(original.server_name, decoded.server_name);
    assert_eq!(original.level_name, decoded.level_name);
    assert_eq!(original.game_type, decoded.game_type);
    assert_eq!(original.player_count, decoded.player_count);
    assert_eq!(original.max_player_count, decoded.max_player_count);
    assert_eq!(original.editor_world, decoded.editor_world);
    assert_eq!(original.hardcore, decoded.hardcore);
    assert_eq!(original.transport_layer, decoded.transport_layer);
    assert_eq!(original.connection_type, decoded.connection_type);
}

#[test]
fn test_version_mismatch() {
    let data = vec![5];
    let result = ServerData::unmarshal(&data);
    assert!(result.is_err());
}

#[test]
fn version_mismatch_names_both_versions() {
    assert_eq!(
        ServerData::unmarshal(&[5]).err(),
        Some(other("version mismatch: got 5, want 4"))
    );
    assert_eq!(ServerData::unmarshal(&[]).err(), Some(NethernetError::UnexpectedEof));
}

#[test]
fn new_has_default_fields() {
    let d = ServerData::new("S".to_string(), "L".to_string());
    assert_eq!(d.server_name, "S");
    assert_eq!(d.level_name, "L");
    assert_eq!(d.game_type, 0);
    assert_eq!(d.player_count, 1);
    assert_eq!(d.max_player_count, 8);
    assert!(!d.editor_world);
    assert!(!d.hardcore);
    assert_eq!(d.transport_layer, 2);
    assert_eq!(d.connection_type, 4);
}

#[test]
fn marshal_writes_the_wire_bytes() {
    let mut d = ServerData::new("ab".to_string(), "c".to_string());
    d.game_type = 3;
    d.player_count = -2;
    d.max_player_count = 258;
    d.editor_world = true;
    let bytes = d.marshal().unwrap();
    assert_eq!(
        bytes,
        vec![
            4, 2, b'a', b'b', 1, b'c', 6, 0xfe, 0xff, 0xff, 0xff, 2, 1, 0, 0, 1, 0, 4, 8
        ]
    );
    let back = ServerData::unmarshal(&bytes).unwrap();
    assert_eq!(back.player_count, -2);
    assert_eq!(back.max_player_count, 258);
    assert!(back.editor_world);
    assert_eq!(back.game_type, 3);
}

#[test]
fn marshal_refuses_shifted_fields_of_128() {
    let mut d = ServerData::new("a".to_string(), "b".to_string());
    d.transport_layer = 128;
    d.connection_type = 200;
    assert_eq!(
        d.marshal(),
        Err(other("transport_layer must be less than 128 to avoid overflow, got 128"))
    );
    d.game_type = 255;
    assert_eq!(
        d.marshal(),
        Err(other("game_type must be less than 128 to avoid overflow, got 255"))
    );
    d.game_type = 127;
    d.transport_layer = 127;
    assert_eq!(
        d.marshal(),
        Err(other("connection_type must be less than 128 to avoid overflow, got 200"))
    );
}

#[test]
fn marshal_refuses_long_names() {
    let long = "x".repeat(256);
    let d = ServerData::new(long, "b".to_string());
    assert_eq!(d.marshal(), Err(NethernetError::BytesTooLong(256)));
    let d = ServerData::new("x".repeat(255), "é".repeat(128));
    assert_eq!(d.marshal(), Err(NethernetError::BytesTooLong(256)));
}

#[test]
fn unmarshal_refuses_extra_and_missing_bytes() {
    let bytes = ServerData::new("a".to_string(), "b".to_string()).marshal().unwrap();
    let mut longer = bytes.clone();
    longer.extend_from_slice(&[0, 0]);
    assert_eq!(ServerData::unmarshal(&longer).err(), Some(other("unread 2 bytes")));
    assert_eq!(
        ServerData::unmarshal(&bytes[..bytes.len() - 1]).err(),
        Some(NethernetError::UnexpectedEof)
    );
}

#[test]
fn unmarshal_refuses_invalid_utf8_level_name() {
    let bytes = vec![4, 1, b'a', 2, 0xc3, 0x28];
    assert_eq!(
        ServerData::unmarshal(&bytes).err(),
        Some(other("invalid level name UTF-8: invalid utf-8 sequence of 1 bytes from index 0"))
    );
}

#[test]
fn unmarshal_refuses_invalid_utf8_name() {
    let bytes = vec![4, 1, 0xff, 0];
    assert_eq!(ServerData::unmarshal(&bytes).err(), Some(other("invalid server name UTF-8: invalid utf-8 sequence of 1 bytes from index 0")));
}

#[test]
fn unmarshal_drops_the_low_bit_of_shifted_fields() {
    let bytes = vec![4, 0, 0, 7, 0, 0, 0, 0, 0, 0, 0, 0, 2, 0, 5, 9];
    let d = ServerData::unmarshal(&bytes).unwrap();
    assert_eq!(d.game_type, 3);
    assert!(d.editor_world);
    assert!(!d.hardcore);
    assert_eq!(d.transport_layer, 2);
    assert_eq!(d.connection_type, 4);
}

#[test]
fn motd_builder_sets_fields() {
    let d = NethernetMotd::new("one".to_string(), "two".to_string())
        .server_name("Server".to_string())
        .level_name("Level".to_string())
        .game_type(1)
        .player_count(5)
        .max_player_count(20)
        .editor_world(true)
        .hardcore(true)
        .transport_layer(3)
        .connection_type(6)
        .build();
    assert_eq!(d.server_name, "Server");
    assert_eq!(d.level_name, "Level");
    assert_eq!(d.game_type, 1);
    assert_eq!(d.player_count, 5);
    assert_eq!(d.max_player_count, 20);
    assert!(d.editor_world);
    assert!(d.hardcore);
    assert_eq!(d.transport_layer, 3);
    assert_eq!(d.connection_type, 6);
}

#[test]
fn motd_marshal_is_server_data_marshal() {
    let motd = NethernetMotd::new("Host".to_string(), "World".to_string()).player_count(2);
    let expected = motd.clone().build().marshal().unwrap();
    assert_eq!(motd.marshal().unwrap(), expected);
    let bad = NethernetMotd::new("a".to_string(), "b".to_string()).game_type(130);
    assert_eq!(
        bad.marshal(),
        Err(other("game_type must be less than 128 to avoid overflow, got 130"))
    );
}

#[test]
fn unmarshal_refuses_every_prefix_and_any_extension() {
    let bytes = ServerData::new("Srv".to_string(), "Lvl".to_string()).marshal().unwrap();
    for k in 0..bytes.len() {
        assert!(ServerData::unmarshal(&bytes[..k]).is_err());
    }
    let mut longer = bytes.clone();
    longer.push(1);
    assert_eq!(ServerData::unmarshal(&longer).err(), Some(other("unread 1 bytes")));
}
