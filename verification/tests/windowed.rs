use audiotheorem::pitch::{interval_between, note_of, Note, Tone, MAX_INDEX};
use audiotheorem::subsequence::Subsequence;

#[test]
fn fresh_window_is_the_full_range() {
    let sub = Subsequence::new();
    assert_eq!(sub.lower_bound(), 0);
    assert_eq!(sub.upper_bound(), MAX_INDEX);
    assert_eq!(sub.limits(), MAX_INDEX);
    assert!(sub.within_bounds(0));
    assert!(sub.within_bounds(MAX_INDEX));
}

#[test]
fn window_follows_the_played_cluster() {
    let mut sub = Subsequence::new();
    sub.play_note(60, 100);
    assert_eq!(sub.lower_bound(), 60);
    assert_eq!(sub.upper_bound(), 60);
    assert_eq!(sub.limits(), 0);
    assert!(sub.within_bounds(53));
    assert!(!sub.within_bounds(52));
    assert!(sub.within_bounds(67));
    assert!(!sub.within_bounds(68));

    sub.play_note(67, 90);
    assert_eq!(sub.lower_bound(), 60);
    assert_eq!(sub.upper_bound(), 67);
    assert_eq!(sub.limits(), 7);
    assert!(sub.within_bounds(74));
    assert!(!sub.within_bounds(75));
}

#[test]
fn recalculating_the_window_is_stable() {
    let mut sub = Subsequence::new();
    sub.play_note(30, 64);
    let low_before = sub.lower_bound();
    let high_before = sub.upper_bound();
    sub.calculate_bounds();
    assert_eq!(sub.lower_bound(), low_before);
    assert_eq!(sub.upper_bound(), high_before);
    assert!(sub.within_bounds(23));
    assert!(sub.within_bounds(37));
    assert!(!sub.within_bounds(38));
}

#[test]
fn weaker_restrike_keeps_the_stored_tone() {
    let mut sub = Subsequence::new();
    sub.play_note(60, 80);
    sub.play_note(60, 40);
    assert_eq!(sub.tones.len(), 1);
    assert_eq!(sub.tones[0].velocity(), 80);
    sub.play_note(60, 90);
    assert_eq!(sub.tones.len(), 1);
    assert_eq!(sub.tones[0].velocity(), 90);
}

#[test]
fn harmonies_build_one_chord_per_tone() {
    let mut sub = Subsequence::new();
    sub.play_note(60, 100);
    sub.play_note(64, 90);
    sub.calculate_harmonies();
    assert_eq!(sub.chords.len(), 2);
    assert_eq!(sub.chords[0].root, Note { class: 0, octave: 5 });
    assert_eq!(sub.chords[0].intervals, vec![(Note { class: 4, octave: 5 }, 4)]);
    assert_eq!(sub.chords[1].root, Note { class: 4, octave: 5 });
    assert_eq!(sub.chords[1].intervals, vec![(Note { class: 0, octave: 5 }, -4)]);
    assert!(sub.scales.is_empty());
}

#[test]
fn notes_and_intervals_derive_from_indices() {
    assert_eq!(note_of(0), Note { class: 0, octave: 0 });
    assert_eq!(note_of(61), Note { class: 1, octave: 5 });
    assert_eq!(note_of(MAX_INDEX), Note { class: 11, octave: 11 });

    let t = Tone::from_index(61, 100);
    assert_eq!(t.to_index(), 61);
    assert_eq!(t.velocity(), 100);
    assert_eq!(t.note(), Note { class: 1, octave: 5 });

    assert_eq!(interval_between(60, 64), 4);
    assert_eq!(interval_between(64, 60), -4);
    assert_eq!(interval_between(0, MAX_INDEX), 143);
}
