use screenblocker::messages::{
    meeting_at, random_meeting, random_stretch, stretch_at, MEETING_COUNT, STRETCH_COUNT,
};

#[test]
fn stretch_returns_nonempty() {
    let (t, b) = random_stretch();
    assert!(!t.is_empty() && !b.is_empty());
}

#[test]
fn meeting_returns_nonempty() {
    assert!(!random_meeting().is_empty());
}

#[test]
fn random_picks_come_from_the_banks() {
    for _ in 0..50 {
        let pick = random_stretch();
        assert!((0..STRETCH_COUNT).any(|i| stretch_at(i) == pick));
        let m = random_meeting();
        assert!((0..MEETING_COUNT).any(|i| meeting_at(i) == m));
    }
}

#[test]
fn bank_entries_are_the_known_prompts() {
    assert_eq!(STRETCH_COUNT, 6);
    assert_eq!(MEETING_COUNT, 5);
    assert_eq!(stretch_at(0).0, "Stand up & stretch");
    assert_eq!(stretch_at(5).0, "Up you get");
    assert!(meeting_at(4).starts_with("Mic's hot"));
    for i in 0..STRETCH_COUNT {
        assert!(!stretch_at(i).0.is_empty() && !stretch_at(i).1.is_empty());
    }
    for i in 0..MEETING_COUNT {
        assert!(!meeting_at(i).is_empty());
    }
}
