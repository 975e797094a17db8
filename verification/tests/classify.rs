use sus_finder::context::{
    count_colors, is_four_in_a_row, is_there_two_separated, is_three_in_a_row, is_valid_eyes,
    Color, Shift,
};

const G: Color = Color::Gray;
const Y: Color = Color::Yellow;
const E: Color = Color::Green;

#[test]
fn counts_distinct_colors() {
    assert_eq!(count_colors(&[G, G, G, G, G]), 1);
    assert_eq!(count_colors(&[G, Y, G, Y, G]), 2);
    assert_eq!(count_colors(&[Y, Y, E, E, G]), 3);
    assert_eq!(count_colors(&[E, E, E, E, E]), 1);
}

#[test]
fn recognizes_four_in_a_row_hugging_left() {
    assert_eq!(
        is_four_in_a_row(&[E, E, E, E, G]),
        Some((G, E, Shift::HuggingLeft))
    );
}

#[test]
fn recognizes_four_in_a_row_hugging_right() {
    assert_eq!(
        is_four_in_a_row(&[G, Y, Y, Y, Y]),
        Some((G, Y, Shift::HuggingRight))
    );
}

#[test]
fn rejects_broken_four_in_a_row() {
    assert_eq!(is_four_in_a_row(&[E, E, G, E, E]), None);
}

#[test]
fn recognizes_three_in_a_row_layouts() {
    assert_eq!(
        is_three_in_a_row(&[E, E, E, G, G]),
        Some((G, E, Some(Shift::HuggingLeft)))
    );
    assert_eq!(is_three_in_a_row(&[G, E, E, E, G]), Some((G, E, None)));
    assert_eq!(
        is_three_in_a_row(&[G, G, E, E, E]),
        Some((G, E, Some(Shift::HuggingRight)))
    );
    assert_eq!(is_three_in_a_row(&[E, E, G, E, G]), None);
}

#[test]
fn recognizes_two_separated_layouts() {
    assert_eq!(
        is_there_two_separated(&[E, G, E, G, G]),
        Some((G, E, Some(Shift::HuggingLeft)))
    );
    assert_eq!(is_there_two_separated(&[G, Y, G, Y, G]), Some((G, Y, None)));
    assert_eq!(
        is_there_two_separated(&[G, G, E, G, E]),
        Some((G, E, Some(Shift::HuggingRight)))
    );
    assert_eq!(is_there_two_separated(&[E, E, G, G, G]), None);
}

#[test]
fn recognizes_eyes_layouts() {
    assert_eq!(
        is_valid_eyes(&[Y, Y, E, E, G]),
        Some((Y, E, Shift::HuggingLeft))
    );
    assert_eq!(
        is_valid_eyes(&[G, Y, Y, E, E]),
        Some((Y, E, Shift::HuggingRight))
    );
    assert_eq!(is_valid_eyes(&[Y, E, Y, E, G]), None);
}

#[test]
fn complements_two_distinct_colors() {
    assert_eq!(G.other(&Y), E);
    assert_eq!(Y.other(&G), E);
    assert_eq!(G.other(&E), Y);
    assert_eq!(E.other(&G), Y);
    assert_eq!(Y.other(&E), G);
    assert_eq!(E.other(&Y), G);
    // The fixed fallback for two equal arguments.
    assert_eq!(Y.other(&Y), G);
    assert_eq!(E.other(&E), G);
    assert_eq!(G.other(&G), G);
}
