use sus_finder::compute_sus::compute_sus;

fn letters(word: &str) -> [char; 5] {
    let v: Vec<char> = word.chars().collect();
    [v[0], v[1], v[2], v[3], v[4]]
}

fn list(words: &[&str]) -> Vec<String> {
    words.iter().map(|w| w.to_string()).collect()
}

#[test]
fn finds_a_board_for_a_crafted_list() {
    // Against "abcde" these words score, in order: all-gray background,
    // a left-hugging green head, eyes (green and yellow pairs), a
    // left-hugging green body, and left-hugging green legs.
    let words = list(&["zzzzz", "abczz", "abecz", "abcdz", "azczz"]);
    let board = compute_sus(&letters("abcde"), &words).expect("a board should be found");
    assert_eq!(
        board,
        ["zzzzz", "abczz", "abecz", "abcdz", "azczz", "zzzzz"]
    );
}

#[test]
fn returns_first_board_in_list_order() {
    // A second background word later in the list must not displace the
    // first one on the finished board.
    let words = list(&["zzzzz", "xxxxx", "abczz", "abecz", "abcdz", "azczz"]);
    let board = compute_sus(&letters("abcde"), &words).expect("a board should be found");
    assert_eq!(board[0], "zzzzz");
    assert_eq!(board[5], "zzzzz");
}

#[test]
fn skips_entries_of_the_wrong_length() {
    let words = list(&["zz", "zzzzzzzz", "zzzzz", "abczz", "abecz", "abcdz", "azczz"]);
    let board = compute_sus(&letters("abcde"), &words).expect("a board should be found");
    assert_eq!(
        board,
        ["zzzzz", "abczz", "abecz", "abcdz", "azczz", "zzzzz"]
    );
}

#[test]
fn empty_list_has_no_solution() {
    let words: Vec<String> = Vec::new();
    assert_eq!(compute_sus(&letters("abcde"), &words), None);
}

#[test]
fn incomplete_list_has_no_solution() {
    // No legs row ever appears, so no assembly can become full.
    let words = list(&["zzzzz", "abczz", "abecz", "abcdz"]);
    assert_eq!(compute_sus(&letters("abcde"), &words), None);
}

#[test]
fn search_is_deterministic_across_runs() {
    let words = list(&["zz", "zzzzz", "abczz", "abecz", "abcdz", "azczz", "xxxxx"]);
    let first = compute_sus(&letters("abcde"), &words);
    let second = compute_sus(&letters("abcde"), &words);
    assert_eq!(first, second);
    assert!(first.is_some());
}
