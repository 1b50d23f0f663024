use rand_explorer::sequence::{password_from_draws, pick_item, position_weights};
use rand_explorer::sequence::SequenceState;

fn letters() -> SequenceState {
    SequenceState {
        items: vec!["A".to_string(), "B".to_string(), "C".to_string(), "D".to_string()],
        choose_count: 2,
        password_len: 12,
        alphabet: "abcdefghijklmnopqrstuvwxyzABCDEFGHIJKLMNOPQRSTUVWXYZ0123456789".to_string(),
        ..SequenceState::default()
    }
}

#[test]
fn choose_one_picks_an_item() {
    let mut s = letters();
    for _ in 0..50 {
        s.choose_one();
        let chosen = s.chosen_item.clone().expect("an item");
        assert!(s.items.contains(&chosen));
    }
    let mut empty = SequenceState::default();
    empty.chosen_item = Some("old".to_string());
    empty.choose_one();
    assert_eq!(empty.chosen_item, None);
}

#[test]
fn choose_multiple_picks_distinct_items() {
    let mut s = letters();
    for _ in 0..50 {
        s.choose_multiple();
        assert_eq!(s.chosen_items.len(), 2);
        assert_ne!(s.chosen_items[0], s.chosen_items[1]);
        assert!(s.chosen_items.iter().all(|c| s.items.contains(c)));
    }
    s.choose_count = 8;
    s.choose_multiple();
    let mut all = s.chosen_items.clone();
    all.sort();
    assert_eq!(all, vec!["A", "B", "C", "D"]);
}

#[test]
fn choose_weighted_picks_an_item_or_keeps_the_old_choice() {
    let mut s = letters();
    let mut seen_last = false;
    for _ in 0..200 {
        s.choose_weighted();
        let chosen = s.chosen_item.clone().expect("an item");
        assert!(s.items.contains(&chosen));
        seen_last |= chosen == "D";
    }
    assert!(seen_last);
    let mut empty = SequenceState::default();
    empty.chosen_item = Some("kept".to_string());
    empty.choose_weighted();
    assert_eq!(empty.chosen_item, Some("kept".to_string()));
}

#[test]
fn shuffle_keeps_the_items_and_counts() {
    let mut s = letters();
    for step in 1..=20 {
        s.shuffle_items();
        assert_eq!(s.shuffle_step, step);
        let mut sorted = s.items.clone();
        sorted.sort();
        assert_eq!(sorted, vec!["A", "B", "C", "D"]);
    }
}

#[test]
fn passwords_use_the_alphabet() {
    let mut s = letters();
    s.generate_password();
    assert_eq!(s.generated_password.chars().count(), 12);
    assert!(s.generated_password.chars().all(|c| c.is_ascii_alphanumeric()));
    s.alphabet = "xé".to_string();
    s.password_len = 64;
    s.generate_password();
    assert_eq!(s.generated_password.chars().count(), 64);
    assert!(s.generated_password.chars().all(|c| c == 'x' || c == 'é'));
    s.alphabet = String::new();
    s.generate_password();
    assert_eq!(s.generated_password, "");
}

#[test]
fn shuffle_reorders_eventually() {
    let mut s = letters();
    let original = s.items.clone();
    let mut reordered = false;
    for _ in 0..50 {
        s.shuffle_items();
        reordered |= s.items != original;
    }
    assert!(reordered);
}

#[test]
fn weights_picks_and_drawn_passwords() {
    assert_eq!(position_weights(4), vec![1, 2, 3, 4]);
    assert_eq!(position_weights(0), Vec::<u128>::new());
    let items = vec!["A".to_string(), "B".to_string(), "C".to_string()];
    assert_eq!(pick_item(&items, 2), "C");
    assert_eq!(pick_item(&items, 0), "A");
    assert_eq!(password_from_draws(&vec!['a', 'b', 'c'], &vec![2, 0, 2, 1]), "cacb");
    assert_eq!(password_from_draws(&vec!['x'], &vec![]), "");
}
