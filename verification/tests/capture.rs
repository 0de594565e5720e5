use key_mapper::KeyEdge;
use key_mapper::KeyEvent;
use key_mapper::KeyMapper;

const SPACE: u32 = 76;
const ENTER: u32 = 100;

fn capture_after(ticks: usize) -> Option<KeyEvent> {
    let mut mapper: KeyMapper<u8> = KeyMapper::new();
    mapper.register_action("Jump", 1);
    mapper.set_waiting("Jump");
    assert!(mapper.key_down_event(SPACE, 0, false).is_none());
    let held = vec![SPACE];
    for _ in 0..ticks {
        assert!(mapper.update(&held, 0).is_empty());
    }
    assert_eq!(mapper.ticks_held(), ticks + 1);
    assert!(mapper.key_up_event(SPACE, 0).is_none());
    assert!(!mapper.is_waiting());
    assert_eq!(mapper.ticks_held(), 0);
    mapper.lookup_chord_for_action("Jump")
}

#[test]
fn capture_held_for_45_ticks_binds_sustained() {
    let mut mapper: KeyMapper<u8> = KeyMapper::new();
    mapper.register_action("Jump", 1);
    assert_eq!(mapper.lookup_chord_for_action("Jump"), None);
    mapper.set_waiting("Jump");
    assert!(mapper.is_waiting());
    assert!(mapper.key_down_event(SPACE, 0, false).is_none());
    for _ in 0..45 {
        assert!(mapper.update(&vec![SPACE], 0).is_empty());
    }
    assert!(mapper.key_up_event(SPACE, 0).is_none());
    let chord = KeyEvent::new(SPACE, 0, KeyEdge::HELD);
    assert_eq!(mapper.lookup_chord_for_action("Jump"), Some(chord));
    assert_eq!(mapper.lookup(&chord).unwrap().name, "Jump");
    assert!(!mapper.is_waiting());
}

#[test]
fn capture_binds_by_hold() {
    assert_eq!(capture_after(0), Some(KeyEvent::new(SPACE, 0, KeyEdge::DOWN)));
    assert_eq!(capture_after(28), Some(KeyEvent::new(SPACE, 0, KeyEdge::DOWN)));
    assert_eq!(capture_after(29), Some(KeyEvent::new(SPACE, 0, KeyEdge::HELD)));
    assert_eq!(capture_after(58), Some(KeyEvent::new(SPACE, 0, KeyEdge::HELD)));
    assert_eq!(capture_after(59), Some(KeyEvent::new(SPACE, 0, KeyEdge::UP)));
    assert_eq!(capture_after(200), Some(KeyEvent::new(SPACE, 0, KeyEdge::UP)));
}

#[test]
fn release_without_press_binds_the_release() {
    let mut mapper: KeyMapper<u8> = KeyMapper::new();
    mapper.register_action("Jump", 1);
    mapper.set_waiting("Jump");
    assert!(mapper.update(&vec![SPACE], 0).is_empty());
    assert_eq!(mapper.ticks_held(), 0);
    assert!(mapper.key_up_event(SPACE, 4).is_none());
    assert_eq!(
        mapper.lookup_chord_for_action("Jump"),
        Some(KeyEvent::new(SPACE, 4, KeyEdge::UP))
    );
    assert!(!mapper.is_waiting());
}

#[test]
fn unknown_name_starts_no_capture() {
    let mut mapper: KeyMapper<u8> = KeyMapper::new();
    mapper.insert(SPACE, 0, KeyEdge::DOWN, "Jump", 1);
    mapper.set_waiting("Unknown");
    assert!(!mapper.is_waiting());
    assert_eq!(mapper.ticks_held(), 0);
    assert_eq!(mapper.len(), 1);
    let chord = KeyEvent::new(SPACE, 0, KeyEdge::DOWN);
    assert_eq!(mapper.lookup_chord_for_action("Jump"), Some(chord));
    assert_eq!(mapper.event(SPACE, 0, KeyEdge::DOWN), Some(1));
    assert_eq!(mapper.lookup_chord_for_action("Unknown"), None);
}

#[test]
fn capture_consumes_input() {
    let mut mapper: KeyMapper<u8> = KeyMapper::new();
    mapper.insert(SPACE, 0, KeyEdge::DOWN, "Jump", 1);
    mapper.insert(ENTER, 0, KeyEdge::HELD, "Duck", 2);
    mapper.set_waiting("Duck");
    assert_eq!(mapper.event(SPACE, 0, KeyEdge::DOWN), None);
    assert_eq!(mapper.ticks_held(), 1);
    assert!(mapper.update(&vec![ENTER], 0).is_empty());
    assert_eq!(mapper.ticks_held(), 2);
    assert_eq!(mapper.event(ENTER, 0, KeyEdge::HELD), None);
    assert_eq!(mapper.ticks_held(), 2);
    assert!(mapper.is_waiting());
    assert_eq!(
        mapper.lookup_chord_for_action("Jump"),
        Some(KeyEvent::new(SPACE, 0, KeyEdge::DOWN))
    );
}

#[test]
fn fresh_press_restarts_the_count() {
    let mut mapper: KeyMapper<u8> = KeyMapper::new();
    mapper.register_action("Jump", 1);
    mapper.set_waiting("Jump");
    mapper.event(SPACE, 0, KeyEdge::DOWN);
    for _ in 0..40 {
        mapper.update(&vec![SPACE], 0);
    }
    assert_eq!(mapper.ticks_held(), 41);
    mapper.event(ENTER, 0, KeyEdge::DOWN);
    assert_eq!(mapper.ticks_held(), 1);
    mapper.event(ENTER, 0, KeyEdge::UP);
    assert_eq!(
        mapper.lookup_chord_for_action("Jump"),
        Some(KeyEvent::new(ENTER, 0, KeyEdge::DOWN))
    );
}

#[test]
fn ticks_wait_for_a_press() {
    let mut mapper: KeyMapper<u8> = KeyMapper::new();
    mapper.register_action("Jump", 1);
    mapper.set_waiting("Jump");
    for _ in 0..100 {
        mapper.update(&vec![], 0);
    }
    assert_eq!(mapper.ticks_held(), 0);
    assert!(mapper.is_waiting());
}

#[test]
fn repeated_press_is_ignored() {
    let mut mapper: KeyMapper<u8> = KeyMapper::new();
    mapper.insert(SPACE, 0, KeyEdge::DOWN, "Jump", 1);
    assert_eq!(mapper.key_down_event(SPACE, 0, true), None);
    assert_eq!(mapper.key_down_event(SPACE, 0, false), Some(1));
    mapper.set_waiting("Jump");
    mapper.key_down_event(ENTER, 0, false);
    mapper.update(&vec![ENTER], 0);
    mapper.update(&vec![ENTER], 0);
    assert_eq!(mapper.ticks_held(), 3);
    assert_eq!(mapper.key_down_event(ENTER, 0, true), None);
    assert_eq!(mapper.ticks_held(), 3);
    assert!(mapper.is_waiting());
}

#[test]
fn second_request_takes_over_the_capture() {
    let mut mapper: KeyMapper<u8> = KeyMapper::new();
    mapper.register_action("Jump", 1);
    mapper.register_action("Duck", 2);
    mapper.set_waiting("Jump");
    mapper.event(SPACE, 0, KeyEdge::DOWN);
    mapper.update(&vec![SPACE], 0);
    mapper.set_waiting("Duck");
    assert_eq!(mapper.ticks_held(), 2);
    mapper.event(SPACE, 0, KeyEdge::UP);
    assert_eq!(mapper.lookup_chord_for_action("Jump"), None);
    assert_eq!(
        mapper.lookup_chord_for_action("Duck"),
        Some(KeyEvent::new(SPACE, 0, KeyEdge::DOWN))
    );
}

#[test]
fn capture_goes_to_the_first_of_a_shared_name() {
    let mut mapper: KeyMapper<u8> = KeyMapper::new();
    mapper.register_action("Jump", 1);
    mapper.register_action("Jump", 2);
    mapper.set_waiting("Jump");
    mapper.event(SPACE, 0, KeyEdge::UP);
    assert_eq!(mapper.event(SPACE, 0, KeyEdge::UP), Some(1));
}
