use stratum_server::error::Error;
use stratum_server::id_manager::{IDManager, MAX_SESSION_INDEX_SERVER};
use stratum_server::session_id::SessionID;

#[test]
fn idx_allocations() {
    let mut id_manager = IDManager::new(0);

    let id = id_manager.allocate_session_id().unwrap();

    assert_eq!(id, SessionID::from(0));

    for _ in 0..MAX_SESSION_INDEX_SERVER - 1 {
        assert!(id_manager.allocate_session_id().is_ok());
    }

    let last_id = id_manager.allocate_session_id().unwrap();

    assert_eq!(last_id, SessionID::from(MAX_SESSION_INDEX_SERVER));

    assert!(matches!(
        id_manager.allocate_session_id(),
        Err(Error::SessionIDsExhausted)
    ));

    id_manager.remove_session_id(SessionID::from(0));

    let rolled_id = id_manager.allocate_session_id().unwrap();

    assert_eq!(rolled_id, SessionID::from(0));
}

#[test]
fn basic_idx_allocations_with_prefix() {
    let mut id_manager = IDManager::new(9);

    let id = id_manager.allocate_session_id().unwrap();

    assert_eq!(id, SessionID::from(0x0900_0000));

    let id = id_manager.allocate_session_id().unwrap();

    assert_eq!(id, SessionID::from(0x0900_0001));
}

#[test]
fn released_index_is_taken_again_when_first_free() {
    let mut m = IDManager::new(1);
    for _ in 0..5 {
        m.allocate_session_id().unwrap();
    }
    m.remove_session_id(SessionID::from(0x0100_0002));
    // The scan goes on from the cursor, so the next free index after it
    // comes first.
    assert_eq!(m.allocate_session_id().unwrap(), SessionID::from(0x0100_0005));
    // Releasing an index that is not in use changes nothing.
    m.remove_session_id(SessionID::from(0x0100_0100));
    assert_eq!(m.allocate_session_id().unwrap(), SessionID::from(0x0100_0006));
}

#[test]
fn live_ids_are_distinct() {
    let mut m = IDManager::new(3);
    let mut seen = Vec::new();
    for _ in 0..1000 {
        let id = m.allocate_session_id().unwrap();
        assert!(!seen.contains(&id));
        seen.push(id);
    }
}
