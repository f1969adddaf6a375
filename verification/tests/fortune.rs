use bully_election::fortune::{all_fortunes, fortune_text, get_fortune};

#[test]
fn there_are_thirty_two_fortunes() {
    let all = all_fortunes();
    assert_eq!(all.len(), 32);
    assert_eq!(all[0], "Today it's up to you to create the peacefulness you long for.");
    assert_eq!(all[31], "You can make your own happiness.");
    assert!(all.iter().all(|fortune| !fortune.is_empty()));
}

#[test]
fn fortune_text_hands_out_what_was_drawn() {
    assert_eq!(fortune_text(Some("You will marry your lover.")), Some("You will marry your lover.".to_string()));
    assert_eq!(fortune_text(None), None);
}

#[test]
fn get_fortune_draws_from_the_list() {
    let all = all_fortunes();
    let mut seen = std::collections::BTreeSet::new();
    for _ in 0..400 {
        let fortune = get_fortune();
        assert!(all.contains(&fortune.as_str()));
        seen.insert(fortune);
    }
    assert!(seen.len() > 1, "the draw is not constant");
}
