use key_mapper::edge::classify;
use key_mapper::KeyEdge;

#[test]
fn short_hold_is_a_press() {
    assert_eq!(classify(1, KeyEdge::UP), KeyEdge::DOWN);
    assert_eq!(classify(15, KeyEdge::UP), KeyEdge::DOWN);
    assert_eq!(classify(29, KeyEdge::UP), KeyEdge::DOWN);
}

#[test]
fn medium_hold_is_sustained() {
    assert_eq!(classify(30, KeyEdge::UP), KeyEdge::HELD);
    assert_eq!(classify(45, KeyEdge::UP), KeyEdge::HELD);
    assert_eq!(classify(59, KeyEdge::UP), KeyEdge::HELD);
}

#[test]
fn long_hold_is_a_release() {
    assert_eq!(classify(60, KeyEdge::DOWN), KeyEdge::UP);
    assert_eq!(classify(61, KeyEdge::HELD), KeyEdge::UP);
    assert_eq!(classify(usize::MAX, KeyEdge::DOWN), KeyEdge::UP);
}

#[test]
fn no_hold_keeps_the_edge() {
    assert_eq!(classify(0, KeyEdge::UP), KeyEdge::UP);
    assert_eq!(classify(0, KeyEdge::DOWN), KeyEdge::DOWN);
    assert_eq!(classify(0, KeyEdge::HELD), KeyEdge::HELD);
}

#[test]
fn classifier_boundaries() {
    assert_eq!(classify(29, KeyEdge::UP), KeyEdge::DOWN);
    assert_eq!(classify(30, KeyEdge::UP), KeyEdge::HELD);
    assert_eq!(classify(59, KeyEdge::UP), KeyEdge::HELD);
    assert_eq!(classify(60, KeyEdge::UP), KeyEdge::UP);
    assert_eq!(classify(0, KeyEdge::HELD), KeyEdge::HELD);
}

#[test]
fn edge_labels() {
    assert_eq!(KeyEdge::DOWN.label(), "DOWN");
    assert_eq!(KeyEdge::UP.label(), "UP");
    assert_eq!(KeyEdge::HELD.label(), "HELD");
}
