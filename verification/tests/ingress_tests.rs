use clickrtraining::ingress::{handle_attach, handle_click, ValidationError};
use clickrtraining::registry::Registry;
use clickrtraining::sound::SoundRef;

#[test]
fn click_with_empty_room_id_is_rejected() {
    let mut reg = Registry::new();
    let r = handle_click(&mut reg, &"".to_string(), None, 0);
    assert_eq!(r, Err(ValidationError::EmptyRoomId));
    assert_eq!(reg.rooms.len(), 0);
}

#[test]
fn click_with_empty_sound_name_is_rejected() {
    let mut reg = Registry::new();
    reg.attach(&"yard".to_string());
    let empty = "".to_string();
    let r = handle_click(&mut reg, &"yard".to_string(), Some(&empty), 0);
    assert_eq!(r, Err(ValidationError::EmptySoundName));
    assert_eq!(reg.rooms[0].members[0].queue.len(), 0);
}

#[test]
fn custom_click_with_zero_listeners_is_accepted_silently() {
    let mut reg = Registry::new();
    let sit = "sit".to_string();
    let r = handle_click(&mut reg, &"yard".to_string(), Some(&sit), 0);
    assert_eq!(r, Ok(()));
    assert_eq!(reg.rooms.len(), 0);
}

#[test]
fn accepted_click_carries_the_named_sound() {
    let mut reg = Registry::new();
    let room = "yard".to_string();
    reg.attach(&room);
    let sit = "sit".to_string();
    let r = handle_click(&mut reg, &room, Some(&sit), 42);
    assert_eq!(r, Ok(()));
    let q = &reg.rooms[0].members[0].queue;
    assert_eq!(q.len(), 1);
    assert_eq!(q[0].timestamp, 42);
    match &q[0].sound {
        SoundRef::Named(n) => assert_eq!(n, "sit"),
        SoundRef::DefaultCue => panic!("expected the named sound"),
    }
}

#[test]
fn accepted_click_without_a_name_carries_the_default_cue() {
    let mut reg = Registry::new();
    let room = "yard".to_string();
    reg.attach(&room);
    let r = handle_click(&mut reg, &room, None, 1);
    assert_eq!(r, Ok(()));
    assert!(matches!(reg.rooms[0].members[0].queue[0].sound, SoundRef::DefaultCue));
}

#[test]
fn attach_with_empty_room_id_is_rejected() {
    let mut reg = Registry::new();
    let r = handle_attach(&mut reg, &"".to_string());
    assert_eq!(r, Err(ValidationError::EmptyRoomId));
    assert_eq!(reg.rooms.len(), 0);
}

#[test]
fn attach_with_well_formed_room_id_never_fails() {
    let mut reg = Registry::new();
    let r = handle_attach(&mut reg, &"kitchen".to_string());
    assert_eq!(r, Ok(0));
    assert_eq!(reg.rooms.len(), 1);
    let r2 = handle_attach(&mut reg, &"kitchen".to_string());
    assert_eq!(r2, Ok(1));
    assert_eq!(reg.rooms[0].members.len(), 2);
}
