use irc_core::registry::{Registry, RegistryError};
use irc_core::Stage;

fn two_members() -> (Registry, u64, u64) {
    let mut reg = Registry::new();
    let a = reg.connect().unwrap();
    let b = reg.connect().unwrap();
    reg.insert(a, "alice".to_string()).unwrap();
    reg.insert(b, "bob".to_string()).unwrap();
    (reg, a, b)
}

#[test]
fn connect_assigns_fresh_ids() {
    let mut reg = Registry::new();
    let a = reg.connect().unwrap();
    let b = reg.connect().unwrap();
    assert_ne!(a, b);
    assert_eq!(reg.len(), 2);
    let sa = reg.get(a).unwrap();
    assert_eq!(sa.stage, Stage::Unregistered);
    assert_eq!(sa.nick, "");
}

#[test]
fn insert_claims_nick() {
    let mut reg = Registry::new();
    let a = reg.connect().unwrap();
    assert_eq!(reg.insert(a, "alice".to_string()), Ok(()));
    let sa = reg.get(a).unwrap();
    assert_eq!(sa.nick, "alice");
    assert_eq!(sa.stage, Stage::NickSet);
}

#[test]
fn insert_collision_fails() {
    let mut reg = Registry::new();
    let a = reg.connect().unwrap();
    let b = reg.connect().unwrap();
    assert_eq!(reg.insert(a, "alice".to_string()), Ok(()));
    assert_eq!(
        reg.insert(b, "alice".to_string()),
        Err(RegistryError::NameTaken)
    );
    // The loser is untouched and the winner keeps the name.
    assert_eq!(reg.get(b).unwrap().stage, Stage::Unregistered);
    assert_eq!(reg.get(a).unwrap().nick, "alice");
}

#[test]
fn rename_collision_fails_and_leaves_mapping_intact() {
    let (mut reg, a, _b) = two_members();
    assert_eq!(
        reg.rename(a, "bob".to_string()),
        Err(RegistryError::NameTaken)
    );
    assert_eq!(reg.get(a).unwrap().nick, "alice");
}

#[test]
fn rename_changes_key_atomically() {
    let (mut reg, a, b) = two_members();
    assert_eq!(reg.rename(a, "alicia".to_string()), Ok(()));
    assert_eq!(reg.get(a).unwrap().nick, "alicia");
    // The old name is free again.
    assert_eq!(reg.rename(b, "alice".to_string()), Ok(()));
}

#[test]
fn rename_to_own_nick_succeeds() {
    let (mut reg, a, _b) = two_members();
    assert_eq!(reg.rename(a, "alice".to_string()), Ok(()));
    assert_eq!(reg.get(a).unwrap().nick, "alice");
}

#[test]
fn remove_is_idempotent() {
    let (mut reg, a, _b) = two_members();
    let removed = reg.remove(a);
    assert_eq!(removed.unwrap().nick, "alice");
    assert!(reg.remove(a).is_none());
    assert!(reg.get(a).is_none());
    assert_eq!(reg.len(), 1);
}

#[test]
fn register_advances_stage() {
    let (mut reg, a, _b) = two_members();
    reg.register(a);
    assert_eq!(reg.get(a).unwrap().stage, Stage::Registered);
}

#[test]
fn snapshot_except_lists_other_members_only() {
    let (mut reg, a, b) = two_members();
    let c = reg.connect().unwrap();  // unregistered: not a member
    assert_eq!(reg.snapshot_except(a), vec![b]);
    assert_eq!(reg.snapshot_except(b), vec![a]);
    assert_eq!(reg.snapshot_except(c), vec![a, b]);
    assert_eq!(reg.snapshot_all(), vec![a, b]);
}
