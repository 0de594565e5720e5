use key_mapper::Binding;
use key_mapper::KeyEdge;
use key_mapper::KeyEvent;
use key_mapper::KeyMapper;

fn run(mapper: &mut KeyMapper<u8>) -> Vec<(Option<KeyEvent>, String)> {
    let mut lines = Vec::new();
    while let Some(line) = mapper.next() {
        lines.push((line.chord, line.name));
    }
    lines
}

#[test]
fn listing_of_no_action_is_empty() {
    let mut mapper: KeyMapper<u8> = KeyMapper::new();
    assert!(mapper.next().is_none());
    assert!(mapper.next().is_none());
    assert!(run(&mut mapper).is_empty());
}

#[test]
fn listing_follows_registration_order_and_restarts() {
    let mut mapper: KeyMapper<u8> = KeyMapper::new();
    mapper.insert(32, 0, KeyEdge::HELD, "Move Up", 1);
    mapper.register_action("Jump", 2);
    mapper.insert(28, 1, KeyEdge::DOWN, "Move Down", 3);
    let expected = vec![
        (Some(KeyEvent::new(32, 0, KeyEdge::HELD)), String::from("Move Up")),
        (None, String::from("Jump")),
        (Some(KeyEvent::new(28, 1, KeyEdge::DOWN)), String::from("Move Down")),
    ];
    let first = run(&mut mapper);
    assert_eq!(first.len(), mapper.len());
    assert_eq!(first, expected);
    let second = run(&mut mapper);
    assert_eq!(second, expected);
}

#[test]
fn listing_reports_its_end_once() {
    let mut mapper: KeyMapper<u8> = KeyMapper::new();
    mapper.register_action("Jump", 1);
    assert_eq!(mapper.next().unwrap().name, "Jump");
    assert!(mapper.next().is_none());
    assert_eq!(mapper.next().unwrap().name, "Jump");
    assert!(mapper.next().is_none());
}

#[test]
fn listing_shows_a_rebinding() {
    let mut mapper: KeyMapper<u8> = KeyMapper::new();
    mapper.insert(32, 0, KeyEdge::HELD, "Move Up", 1);
    mapper.insert(28, 0, KeyEdge::HELD, "Move Down", 2);
    mapper.set_waiting("Move Down");
    mapper.add_key_to_func(KeyEvent::new(32, 0, KeyEdge::HELD));
    let lines = run(&mut mapper);
    assert_eq!(
        lines,
        vec![
            (None, String::from("Move Up")),
            (Some(KeyEvent::new(32, 0, KeyEdge::HELD)), String::from("Move Down")),
        ]
    );
}

#[test]
fn listing_line_labels() {
    let bound = Binding {
        chord: Some(KeyEvent::new(32, 0, KeyEdge::HELD)),
        name: String::from("Move Up"),
    };
    assert_eq!(bound.label("NONE", "W"), "W + HELD");
    let shifted = Binding {
        chord: Some(KeyEvent::new(32, 1, KeyEdge::UP)),
        name: String::from("Move Up"),
    };
    assert_eq!(shifted.label("SHIFT", "W"), "SHIFT + W + UP");
    let unbound = Binding { chord: None, name: String::from("Jump") };
    assert_eq!(unbound.label("SHIFT", "W"), "None");
}

#[test]
fn listing_shares_a_chord_among_a_shared_name() {
    let mut mapper: KeyMapper<u8> = KeyMapper::new();
    mapper.register_action("Jump", 1);
    mapper.insert(32, 0, KeyEdge::HELD, "Jump", 2);
    let chord = Some(KeyEvent::new(32, 0, KeyEdge::HELD));
    assert_eq!(
        run(&mut mapper),
        vec![(chord, String::from("Jump")), (chord, String::from("Jump"))]
    );
}

#[test]
fn listing_run_hands_out_every_line_left() {
    let mut mapper: KeyMapper<u8> = KeyMapper::new();
    assert!(mapper.listing().is_empty());
    mapper.insert(32, 0, KeyEdge::HELD, "Move Up", 1);
    mapper.register_action("Jump", 2);
    mapper.insert(28, 1, KeyEdge::DOWN, "Move Down", 3);
    let lines: Vec<(Option<KeyEvent>, String)> = mapper
        .listing()
        .into_iter()
        .map(|line| (line.chord, line.name))
        .collect();
    assert_eq!(
        lines,
        vec![
            (Some(KeyEvent::new(32, 0, KeyEdge::HELD)), String::from("Move Up")),
            (None, String::from("Jump")),
            (Some(KeyEvent::new(28, 1, KeyEdge::DOWN)), String::from("Move Down")),
        ]
    );
    assert_eq!(mapper.next().unwrap().name, "Move Up");
    let rest = mapper.listing();
    assert_eq!(rest.len(), 2);
    assert_eq!(rest[0].name, "Jump");
    assert_eq!(rest[1].name, "Move Down");
    assert_eq!(mapper.listing().len(), 3);
    assert_eq!(run(&mut mapper), lines);
}
