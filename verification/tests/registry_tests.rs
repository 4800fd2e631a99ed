use clickrtraining::registry::{ClickEvent, Registry, CLICK_QUEUE_CAPACITY};
use clickrtraining::sound::SoundRef;

fn click(ts: u64) -> ClickEvent {
    ClickEvent { sound: SoundRef::DefaultCue, timestamp: ts }
}

#[test]
fn room_exists_iff_it_has_members() {
    let mut reg = Registry::new();
    assert_eq!(reg.rooms.len(), 0);

    let h = reg.attach(&"kitchen".to_string());
    assert_eq!(reg.rooms.len(), 1);
    assert_eq!(reg.rooms[0].id, "kitchen");
    assert_eq!(reg.rooms[0].members.len(), 1);

    reg.detach(&"kitchen".to_string(), h);
    assert_eq!(reg.rooms.len(), 0);
}

#[test]
fn detach_twice_is_a_noop_the_second_time() {
    let mut reg = Registry::new();
    let room = "kitchen".to_string();
    let a = reg.attach(&room);
    let b = reg.attach(&room);
    assert_eq!(reg.rooms[0].members.len(), 2);

    reg.detach(&room, a);
    assert_eq!(reg.rooms.len(), 1);
    assert_eq!(reg.rooms[0].members.len(), 1);
    assert_eq!(reg.rooms[0].members[0].handle, b);

    reg.detach(&room, a);
    assert_eq!(reg.rooms.len(), 1);
    assert_eq!(reg.rooms[0].members.len(), 1);
    assert_eq!(reg.rooms[0].members[0].handle, b);
}

#[test]
fn detach_of_unknown_room_is_a_noop() {
    let mut reg = Registry::new();
    let h = reg.attach(&"kitchen".to_string());
    reg.detach(&"cellar".to_string(), h);
    assert_eq!(reg.rooms.len(), 1);
    assert_eq!(reg.rooms[0].members.len(), 1);
}

#[test]
fn broadcast_reaches_every_member_once_in_order() {
    let mut reg = Registry::new();
    let room = "kitchen".to_string();
    let a = reg.attach(&room);
    let b = reg.attach(&room);
    assert_ne!(a, b);

    reg.broadcast(&room, &click(1));
    assert_eq!(reg.rooms[0].members.len(), 2);
    for m in &reg.rooms[0].members {
        assert_eq!(m.queue.len(), 1);
        assert_eq!(m.queue[0].timestamp, 1);
        assert!(matches!(m.queue[0].sound, SoundRef::DefaultCue));
    }

    reg.broadcast(&room, &click(2));
    for m in &reg.rooms[0].members {
        assert_eq!(m.queue.len(), 2);
        assert_eq!(m.queue[0].timestamp, 1);
        assert_eq!(m.queue[1].timestamp, 2);
    }
}

#[test]
fn kitchen_scenario_both_hear_then_only_b() {
    let mut reg = Registry::new();
    let room = "kitchen".to_string();
    let a = reg.attach(&room);
    let b = reg.attach(&room);

    reg.broadcast(&room, &click(1));
    for m in &reg.rooms[0].members {
        assert_eq!(m.queue.len(), 1);
        assert!(matches!(m.queue[0].sound, SoundRef::DefaultCue));
    }

    reg.detach(&room, a);
    reg.broadcast(&room, &click(2));
    assert_eq!(reg.rooms[0].members.len(), 1);
    assert_eq!(reg.rooms[0].members[0].handle, b);
    assert_eq!(reg.rooms[0].members[0].queue.len(), 2);
    assert_eq!(reg.rooms[0].members[0].queue[1].timestamp, 2);
}

#[test]
fn broadcast_to_empty_room_delivers_nothing_and_is_no_error() {
    let mut reg = Registry::new();
    reg.broadcast(&"yard".to_string(), &click(7));
    assert_eq!(reg.rooms.len(), 0);
}

#[test]
fn broadcast_to_other_room_leaves_neighbours_alone() {
    let mut reg = Registry::new();
    let kitchen = "kitchen".to_string();
    let yard = "yard".to_string();
    reg.attach(&kitchen);
    reg.attach(&yard);

    reg.broadcast(&yard, &click(3));
    let k = reg.rooms.iter().find(|r| r.id == "kitchen").unwrap();
    let y = reg.rooms.iter().find(|r| r.id == "yard").unwrap();
    assert_eq!(k.members[0].queue.len(), 0);
    assert_eq!(y.members[0].queue.len(), 1);
}

#[test]
fn saturated_queue_drops_the_oldest_clicks() {
    let mut reg = Registry::new();
    let room = "kitchen".to_string();
    reg.attach(&room);

    let extra = 5u64;
    let total = CLICK_QUEUE_CAPACITY as u64 + extra;
    for ts in 0..total {
        reg.broadcast(&room, &click(ts));
    }
    let q = &reg.rooms[0].members[0].queue;
    assert_eq!(q.len(), CLICK_QUEUE_CAPACITY);
    assert_eq!(q[0].timestamp, extra);
    assert_eq!(q[q.len() - 1].timestamp, total - 1);
}

#[test]
fn drain_hands_over_queued_events_in_order_and_empties_the_queue() {
    let mut reg = Registry::new();
    let room = "kitchen".to_string();
    let h = reg.attach(&room);
    reg.broadcast(&room, &click(1));
    reg.broadcast(&room, &click(2));

    let events = reg.drain(&room, h);
    assert_eq!(events.len(), 2);
    assert_eq!(events[0].timestamp, 1);
    assert_eq!(events[1].timestamp, 2);
    assert_eq!(reg.rooms[0].members[0].queue.len(), 0);

    let again = reg.drain(&room, h);
    assert_eq!(again.len(), 0);

    let none = reg.drain(&room, h + 1);
    assert_eq!(none.len(), 0);
    assert_eq!(reg.rooms[0].members.len(), 1);
}

#[test]
fn handles_are_never_reused() {
    let mut reg = Registry::new();
    let room = "kitchen".to_string();
    let a = reg.attach(&room);
    let b = reg.attach(&room);
    reg.detach(&room, a);
    let c = reg.attach(&room);
    assert_ne!(a, b);
    assert_ne!(a, c);
    assert_ne!(b, c);
}
