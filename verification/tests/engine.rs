use audiotheorem::bounds::Bounds;
use audiotheorem::pitch::{Note, MAX_INDEX};
use audiotheorem::sequence::{InputError, Sequence};

fn chord_shapes(seq: &Sequence) -> Vec<(Note, Vec<(Note, i16)>)> {
    seq.chords()
        .iter()
        .map(|c| (c.root, c.intervals.clone()))
        .collect()
}

fn group_shapes(seq: &Sequence) -> Vec<(u8, Vec<u8>)> {
    seq.pitch_groups()
        .iter()
        .map(|g| (g.pitch_class, g.members.clone()))
        .collect()
}

#[test]
fn scenario_note_on_note_on_note_off() {
    let mut seq = Sequence::new();
    assert_eq!(seq.get_size(), 0);

    // First tone: one chord with an empty interval list, window clamped
    // seven either side of the single index.
    assert_eq!(seq.process_input(60, 100), Ok(()));
    assert_eq!(seq.get_size(), 1);
    assert_eq!(seq.bounds(), Bounds { lower: 53, upper: 67 });
    let chords = chord_shapes(&seq);
    assert_eq!(chords.len(), 1);
    assert_eq!(chords[0].0, Note { class: 0, octave: 5 });
    assert!(chords[0].1.is_empty());

    // Second tone: each chord lists the interval to the other tone.
    assert_eq!(seq.process_input(64, 90), Ok(()));
    assert_eq!(seq.get_size(), 2);
    let chords = chord_shapes(&seq);
    assert_eq!(chords.len(), 2);
    assert_eq!(chords[0].1, vec![(Note { class: 4, octave: 5 }, 4)]);
    assert_eq!(chords[1].1, vec![(Note { class: 0, octave: 5 }, -4)]);

    // Releasing the first tone leaves the single remaining tone with an
    // empty interval list.
    assert_eq!(seq.process_input(60, 0), Ok(()));
    assert_eq!(seq.get_size(), 1);
    let chords = chord_shapes(&seq);
    assert_eq!(chords.len(), 1);
    assert_eq!(chords[0].0, Note { class: 4, octave: 5 });
    assert!(chords[0].1.is_empty());
}

#[test]
fn size_counts_distinct_indices() {
    let mut seq = Sequence::new();
    seq.process_input(60, 100).unwrap();
    seq.process_input(64, 90).unwrap();
    assert_eq!(seq.get_size(), 2);

    // A re-strike of an active index never double-counts it.
    seq.process_input(60, 120).unwrap();
    assert_eq!(seq.get_size(), 2);
    seq.process_input(60, 10).unwrap();
    assert_eq!(seq.get_size(), 2);

    // Releases bring the count back down, never below zero.
    seq.process_input(60, 0).unwrap();
    assert_eq!(seq.get_size(), 1);
    seq.process_input(64, 0).unwrap();
    assert_eq!(seq.get_size(), 0);
    seq.process_input(64, 0).unwrap();
    assert_eq!(seq.get_size(), 0);
}

#[test]
fn derivation_is_order_independent() {
    let orders: [[(u8, u8); 3]; 3] = [
        [(60, 100), (64, 90), (67, 80)],
        [(67, 80), (60, 100), (64, 90)],
        [(64, 90), (67, 80), (60, 100)],
    ];
    let mut snapshots = Vec::new();
    for order in orders.iter() {
        let mut seq = Sequence::new();
        for &(index, velocity) in order.iter() {
            seq.process_input(index, velocity).unwrap();
        }
        snapshots.push((
            seq.tones().clone(),
            chord_shapes(&seq),
            group_shapes(&seq),
            seq.bounds(),
        ));
    }
    assert_eq!(snapshots[0], snapshots[1]);
    assert_eq!(snapshots[0], snapshots[2]);
}

#[test]
fn bounds_are_clamped_to_the_valid_range() {
    let mut seq = Sequence::new();
    // Nothing sounding: the window is the full valid range.
    assert_eq!(seq.bounds(), Bounds { lower: 0, upper: MAX_INDEX });

    // A low tone clamps the lower edge at zero.
    seq.process_input(3, 50).unwrap();
    assert_eq!(seq.bounds(), Bounds { lower: 0, upper: 10 });

    // A high tone clamps the upper edge at the top of the range.
    seq.process_input(140, 50).unwrap();
    let b = seq.bounds();
    assert_eq!(b, Bounds { lower: 0, upper: MAX_INDEX });
    assert!(b.lower <= b.upper);
    assert!(b.upper <= MAX_INDEX);

    seq.process_input(3, 0).unwrap();
    assert_eq!(seq.bounds(), Bounds { lower: 133, upper: MAX_INDEX });

    // The highest valid index is accepted and stays clamped.
    seq.process_input(MAX_INDEX, 50).unwrap();
    assert_eq!(seq.bounds(), Bounds { lower: 133, upper: MAX_INDEX });
    assert_eq!(seq.get_size(), 2);
}

#[test]
fn note_off_on_absent_index_changes_nothing() {
    let mut seq = Sequence::new();
    seq.process_input(60, 100).unwrap();
    seq.process_input(64, 90).unwrap();

    let tones_before = seq.tones().clone();
    let chords_before = chord_shapes(&seq);
    let groups_before = group_shapes(&seq);
    let bounds_before = seq.bounds();
    let size_before = seq.get_size();

    assert_eq!(seq.process_input(80, 0), Ok(()));

    assert_eq!(seq.tones().clone(), tones_before);
    assert_eq!(chord_shapes(&seq), chords_before);
    assert_eq!(group_shapes(&seq), groups_before);
    assert_eq!(seq.bounds(), bounds_before);
    assert_eq!(seq.get_size(), size_before);
    assert!(seq.scales().is_empty());
}

#[test]
fn weaker_restrike_keeps_the_stored_velocity() {
    let mut seq = Sequence::new();
    seq.process_input(60, 80).unwrap();
    // A weaker re-strike is a no-op: the stored velocity survives.
    seq.process_input(60, 40).unwrap();
    assert_eq!(seq.get_size(), 1);
    assert_eq!(seq.tones()[0].velocity(), 80);
    // An equal re-strike is a no-op too.
    seq.process_input(60, 80).unwrap();
    assert_eq!(seq.tones()[0].velocity(), 80);
    // Only a strictly louder re-strike replaces the stored tone.
    seq.process_input(60, 90).unwrap();
    assert_eq!(seq.get_size(), 1);
    assert_eq!(seq.tones()[0].velocity(), 90);
}

#[test]
fn out_of_range_index_is_rejected_without_mutation() {
    let mut seq = Sequence::new();
    seq.process_input(60, 100).unwrap();
    let tones_before = seq.tones().clone();
    let bounds_before = seq.bounds();

    assert_eq!(seq.process_input(144, 50), Err(InputError::IndexOutOfRange));
    assert_eq!(seq.process_input(200, 0), Err(InputError::IndexOutOfRange));

    assert_eq!(seq.tones().clone(), tones_before);
    assert_eq!(seq.bounds(), bounds_before);
    assert_eq!(seq.get_size(), 1);
}

#[test]
fn pitch_groups_group_by_class_ascending() {
    let mut seq = Sequence::new();
    seq.process_input(72, 70).unwrap();
    seq.process_input(60, 100).unwrap();
    seq.process_input(64, 90).unwrap();

    // Classes ascend; tones an octave apart share one group.
    let groups = group_shapes(&seq);
    assert_eq!(groups, vec![(0, vec![60, 72]), (4, vec![64])]);
}

#[test]
fn scales_stay_empty() {
    let mut seq = Sequence::new();
    assert!(seq.scales().is_empty());
    seq.process_input(60, 100).unwrap();
    seq.process_input(62, 100).unwrap();
    assert!(seq.scales().is_empty());
}
