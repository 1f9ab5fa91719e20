use npcterm39::manager::registry::TerminalRegistry;
use npcterm39::status::query::TerminalState;
use npcterm39::terminal::grid::TerminalGrid;

fn grid() -> TerminalGrid {
    TerminalGrid::new(80, 24, 100)
}

#[test]
fn identifiers_are_short_and_sequential() {
    let mut reg = TerminalRegistry::default();
    assert_eq!(reg.create(grid(), "t0".to_string()), Ok("aa".to_string()));
    assert_eq!(reg.create(grid(), "t1".to_string()), Ok("ab".to_string()));
    assert_eq!(reg.len(), 2);
    let infos = reg.list();
    assert_eq!(infos.len(), 2);
    assert_eq!(infos[1].id, "ab");
    assert_eq!((infos[1].cols, infos[1].rows), (80, 24));
    assert_eq!(infos[1].state, TerminalState::Running);
    assert_eq!(infos[1].created_at, "t1");
    assert!(infos[1].running_command.is_none());
}

#[test]
fn identifiers_cover_letters_then_digits() {
    let mut reg = TerminalRegistry::new(40);
    let mut ids = Vec::new();
    for _ in 0..38 {
        ids.push(reg.create(grid(), String::new()).unwrap());
    }
    assert_eq!(ids[25], "az");
    assert_eq!(ids[26], "a0");
    assert_eq!(ids[35], "a9");
    assert_eq!(ids[36], "ba");
}

#[test]
fn registry_refuses_past_its_limit() {
    let mut reg = TerminalRegistry::new(1);
    assert!(reg.create(grid(), String::new()).is_ok());
    assert_eq!(reg.create(grid(), String::new()), Err("Maximum instances (1) reached".to_string()));
    assert!(reg.destroy("aa"));
    assert!(!reg.destroy("aa"));
    assert_eq!(reg.create(grid(), String::new()), Ok("ab".to_string()));
}

#[test]
fn lookup_by_identifier() {
    let mut reg = TerminalRegistry::default();
    reg.create(grid(), String::new()).unwrap();
    reg.create(grid(), String::new()).unwrap();
    assert_eq!(reg.get("ab").unwrap().id(), "ab");
    assert!(reg.get("zz").is_none());
    let inst = reg.get_mut("aa").unwrap();
    inst.tick(false, Some(0), None, None);
    assert_eq!(reg.get("aa").unwrap().state(), TerminalState::Exited);
    assert_eq!(reg.get("ab").unwrap().state(), TerminalState::Running);
    assert!(reg.get_mut("nope").is_none());
}

#[test]
fn taken_identifiers_are_skipped() {
    let mut reg = TerminalRegistry::new(1296);
    for _ in 0..1296 {
        reg.create(TerminalGrid::new(1, 1, 0), String::new()).unwrap();
    }
    assert!(reg.destroy("c7"));
    assert_eq!(reg.create(TerminalGrid::new(1, 1, 0), String::new()), Ok("c7".to_string()));
}
