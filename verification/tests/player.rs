use rulebook::player::{copy_seats, has_seat, PlayerId};

#[test]
fn names_round_trip() {
    for seat in PlayerId::candidates() {
        assert_eq!(PlayerId::from_name(seat.name()), Some(seat));
    }
}

#[test]
fn names_are_lower_camel_case() {
    let names: Vec<&str> = PlayerId::candidates().into_iter().map(|p| p.name()).collect();
    assert_eq!(
        names,
        vec!["red", "fuchsia", "green", "lime", "yellow", "blue", "aqua", "orange"]
    );
}

#[test]
fn names_are_case_sensitive() {
    assert_eq!(PlayerId::from_name("red"), Some(PlayerId::Red));
    assert_eq!(PlayerId::from_name("Red"), None);
    assert_eq!(PlayerId::from_name("RED"), None);
    assert_eq!(PlayerId::from_name(" red"), None);
    assert_eq!(PlayerId::from_name("red "), None);
    assert_eq!(PlayerId::from_name(""), None);
    assert_eq!(PlayerId::from_name("purple"), None);
}

#[test]
fn seats_are_ordered_as_listed() {
    let seats = PlayerId::candidates();
    assert_eq!(seats.len(), 8);
    for (i, seat) in seats.iter().enumerate() {
        assert_eq!(seat.index(), i);
    }
    assert!(PlayerId::Red < PlayerId::Fuchsia);
    assert!(PlayerId::Aqua < PlayerId::Orange);
    assert!(PlayerId::Green > PlayerId::Red);
}

#[test]
fn seat_lists_are_copied_and_searched() {
    let seats = vec![PlayerId::Blue, PlayerId::Red];
    assert_eq!(copy_seats(&seats), seats);
    assert!(has_seat(&seats, PlayerId::Red));
    assert!(!has_seat(&seats, PlayerId::Lime));
    assert!(!has_seat(&Vec::new(), PlayerId::Lime));
}
