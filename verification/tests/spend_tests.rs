use shield_core::spend::filter_unspent;
use shield_core::Note;

fn note(value: u64) -> Note {
    Note { value, recipient: [0u8; 43], rseed: [0u8; 32] }
}

fn pairs(values: &[u64]) -> Vec<(Note, String)> {
    values.iter().enumerate().map(|(i, v)| (note(*v), format!("witness{i}"))).collect()
}

#[test]
fn known_nullifier_excludes_its_note() {
    // The nullifier of note X ("bb") is in the known set: X is excluded,
    // all other notes are retained in their original order.
    let notes = pairs(&[1, 2, 3]);
    let derived = vec!["aa".to_string(), "bb".to_string(), "cc".to_string()];
    let known = vec!["bb".to_string()];
    let kept = filter_unspent(&notes, &derived, &known);
    assert_eq!(kept.len(), 2);
    assert_eq!(kept[0].0.value, 1);
    assert_eq!(kept[0].1, "witness0");
    assert_eq!(kept[1].0.value, 3);
    assert_eq!(kept[1].1, "witness2");
}

#[test]
fn no_known_nullifiers_keeps_everything() {
    let notes = pairs(&[1, 2, 3]);
    let derived = vec!["aa".to_string(), "bb".to_string(), "cc".to_string()];
    let known: Vec<String> = vec![];
    let kept = filter_unspent(&notes, &derived, &known);
    assert_eq!(kept.len(), 3);
    assert_eq!(kept[0].0.value, 1);
    assert_eq!(kept[1].0.value, 2);
    assert_eq!(kept[2].0.value, 3);
}

#[test]
fn all_spent_yields_empty() {
    let notes = pairs(&[1, 2]);
    let derived = vec!["aa".to_string(), "bb".to_string()];
    let known = vec!["cc".to_string(), "bb".to_string(), "aa".to_string()];
    let kept = filter_unspent(&notes, &derived, &known);
    assert!(kept.is_empty());
}

#[test]
fn unrelated_known_nullifiers_change_nothing() {
    let notes = pairs(&[7]);
    let derived = vec!["aa".to_string()];
    let known = vec!["00".to_string(), "11".to_string()];
    let kept = filter_unspent(&notes, &derived, &known);
    assert_eq!(kept.len(), 1);
    assert_eq!(kept[0].0.value, 7);
}

#[test]
fn duplicate_notes_filter_independently() {
    // Two pairs holding equal notes but distinct nullifiers: only the
    // spent one is dropped.
    let notes = vec![(note(5), "w0".to_string()), (note(5), "w1".to_string())];
    let derived = vec!["aa".to_string(), "bb".to_string()];
    let known = vec!["aa".to_string()];
    let kept = filter_unspent(&notes, &derived, &known);
    assert_eq!(kept.len(), 1);
    assert_eq!(kept[0].1, "w1");
}
