use sus_finder::context::Color;
use sus_finder::score::get_colors;

fn letters(word: &str) -> [char; 5] {
    let v: Vec<char> = word.chars().collect();
    [v[0], v[1], v[2], v[3], v[4]]
}

#[test]
fn scores_exact_match_as_all_green() {
    let colors = get_colors(&letters("apple"), &letters("apple"));
    assert_eq!(colors, [Color::Green; 5]);
}

#[test]
fn scores_apple_against_apply() {
    let colors = get_colors(&letters("apple"), &letters("apply"));
    assert_eq!(
        colors,
        [Color::Green, Color::Green, Color::Green, Color::Green, Color::Gray]
    );
}

#[test]
fn scores_disjoint_words_as_all_gray() {
    let colors = get_colors(&letters("abcde"), &letters("zzzzz"));
    assert_eq!(colors, [Color::Gray; 5]);
}

#[test]
fn scores_misplaced_letters_as_yellow() {
    // Every letter of the target, rotated one position.
    let colors = get_colors(&letters("abcde"), &letters("bcdea"));
    assert_eq!(colors, [Color::Yellow; 5]);
}

#[test]
fn repeated_guess_letter_matches_at_most_target_multiplicity() {
    // 'a' appears twice in the target: two exact matches, then no backing
    // is left for the other three occurrences.
    let colors = get_colors(&letters("aabbb"), &letters("aaaaa"));
    assert_eq!(
        colors,
        [Color::Green, Color::Green, Color::Gray, Color::Gray, Color::Gray]
    );
}

#[test]
fn repeated_guess_letter_mixes_green_and_yellow() {
    // 'p' at position 2 matches exactly; the 'p' at position 0 is backed by
    // the target's other 'p'; the 'p' at position 4 has nothing left.
    let colors = get_colors(&letters("ppxyz"), &letters("pxpxp"));
    assert_eq!(
        colors,
        [Color::Green, Color::Yellow, Color::Yellow, Color::Gray, Color::Gray]
    );
}

#[test]
fn exact_match_takes_priority_over_earlier_misplaced() {
    // The first 'b' cannot steal the target letter that position 1 matches
    // exactly: only one 'b' exists in the target and it is consumed by the
    // exact match.
    let colors = get_colors(&letters("abzzz"), &letters("bbzzz"));
    assert_eq!(
        colors,
        [Color::Gray, Color::Green, Color::Green, Color::Green, Color::Green]
    );
}
