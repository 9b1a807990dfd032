use stratum_server::session_id::SessionID;

#[test]
fn test_session_id_u32_conversion() {
    let id: u32 = 280;

    let session_id = SessionID::from(id);

    assert_eq!(id, session_id.as_u32());
}

#[test]
fn test_session_id_display() {
    assert_eq!(SessionID::from(200).to_string(), "000000c8");
    assert_eq!(SessionID::from(1).to_string(), "00000001");
    assert_eq!(SessionID::from(2).to_string(), "00000002");
    assert_eq!(SessionID::from(256).to_string(), "00000100");
    assert_eq!(SessionID::from(65536).to_string(), "00010000");
    assert_eq!(SessionID::from(16_777_216).to_string(), "01000000");
    assert_eq!(SessionID::from(16_777_217).to_string(), "01000001");
}

#[test]
fn test_session_id_debug() {
    assert_eq!(SessionID::from(200).debug_string(), "0x000000c8 (200)");
    assert_eq!(SessionID::from(1).debug_string(), "0x00000001 (1)");
    assert_eq!(SessionID::from(2).debug_string(), "0x00000002 (2)");
    assert_eq!(SessionID::from(256).debug_string(), "0x00000100 (256)");
    assert_eq!(SessionID::from(65536).debug_string(), "0x00010000 (65536)");
    assert_eq!(
        SessionID::from(16_777_216).debug_string(),
        "0x01000000 (16777216)"
    );
    assert_eq!(
        SessionID::from(16_777_217).debug_string(),
        "0x01000001 (16777217)"
    );
}

#[test]
fn session_id_round_trip_extremes() {
    for v in [0u32, 1, 0x00FF_FFFF, 0xFFFF_FFFF] {
        assert_eq!(SessionID::from(v).as_u32(), v);
    }
    assert_eq!(SessionID::from(0xFFFF_FFFF).to_string(), "ffffffff");
    assert_eq!(SessionID::from(0).debug_string(), "0x00000000 (0)");
}
