use sus_finder::builder::{SusBuilder, SusMap};
use sus_finder::context::{fill_context, Color, Context, Direction, Shift};

const G: Color = Color::Gray;
const Y: Color = Color::Yellow;
const E: Color = Color::Green;

fn ctx(body: Color, direction: Direction, shift: Shift) -> Context {
    Context { body, direction, shift }
}

#[test]
fn first_writer_wins_in_a_slot() {
    let mut b = SusBuilder::new();
    let c = ctx(E, Direction::LookingLeft, Shift::HuggingLeft);
    b.fill_head(c, "first");
    b.fill_head(c, "later");
    assert_eq!(b.slot(&c).head.as_deref(), Some("first"));
}

#[test]
fn refilling_same_word_changes_nothing() {
    let mut b = SusBuilder::new();
    let c = ctx(Y, Direction::LookingRight, Shift::HuggingRight);
    b.fill_legs(c, "stamp");
    b.fill_legs(c, "stamp");
    assert_eq!(b.slot(&c).legs.as_deref(), Some("stamp"));
    assert!(b.slot(&c).head.is_none());
    assert!(!b.is_full());
}

#[test]
fn slot_becomes_full_with_all_four_parts() {
    let mut b = SusBuilder::new();
    let c = ctx(E, Direction::LookingLeft, Shift::HuggingLeft);
    b.fill_head(c, "headw");
    b.fill_eyes(c, "eyesw");
    b.fill_body(c, "bodyw");
    assert!(!b.slot(&c).is_full());
    b.fill_legs(c, "legsw");
    assert!(b.slot(&c).is_full());
    assert_eq!(b.body_ready, Some(c));
    // Full only once the background word is there too.
    assert!(!b.is_full());
    b.fill_empty("empty");
    assert!(b.is_full());
    let board = b.convert();
    assert_eq!(
        board,
        ["empty", "headw", "eyesw", "bodyw", "legsw", "empty"]
    );
}

#[test]
fn ready_context_is_recorded_once() {
    let mut b = SusBuilder::new();
    let c1 = ctx(E, Direction::LookingLeft, Shift::HuggingLeft);
    let c2 = ctx(Y, Direction::LookingRight, Shift::HuggingRight);
    b.fill_head(c1, "h1");
    b.fill_eyes(c1, "e1");
    b.fill_body(c1, "b1");
    b.fill_legs(c1, "l1");
    assert_eq!(b.body_ready, Some(c1));
    b.fill_head(c2, "h2");
    b.fill_eyes(c2, "e2");
    b.fill_body(c2, "b2");
    b.fill_legs(c2, "l2");
    // The second context also became full, but the first stays recorded.
    assert_eq!(b.body_ready, Some(c1));
}

#[test]
fn all_gray_row_becomes_background_candidate() {
    let mut map = SusMap::new();
    let r = fill_context(&mut map, &[G, G, G, G, G], "zzzzz");
    assert_eq!(r, None);
    assert_eq!(map.builder(G).empty.as_deref(), Some("zzzzz"));
}

#[test]
fn all_green_row_is_rejected_as_background() {
    let mut map = SusMap::new();
    let r = fill_context(&mut map, &[E, E, E, E, E], "exact");
    assert_eq!(r, None);
    assert!(map.builder(E).empty.is_none());
}

#[test]
fn centered_legs_row_fills_both_mirror_contexts() {
    let mut map = SusMap::new();
    let r = fill_context(&mut map, &[G, Y, G, Y, G], "zezbz");
    assert_eq!(r, None);
    let c1 = ctx(Y, Direction::LookingLeft, Shift::HuggingRight);
    let c2 = ctx(Y, Direction::LookingRight, Shift::HuggingLeft);
    assert_eq!(map.builder(G).slot(&c1).legs.as_deref(), Some("zezbz"));
    assert_eq!(map.builder(G).slot(&c2).legs.as_deref(), Some("zezbz"));
}

#[test]
fn centered_head_row_fills_both_mirror_contexts() {
    let mut map = SusMap::new();
    let r = fill_context(&mut map, &[G, E, E, E, G], "headw");
    assert_eq!(r, None);
    let c1 = ctx(E, Direction::LookingLeft, Shift::HuggingRight);
    let c2 = ctx(E, Direction::LookingRight, Shift::HuggingLeft);
    assert_eq!(map.builder(G).slot(&c1).head.as_deref(), Some("headw"));
    assert_eq!(map.builder(G).slot(&c2).head.as_deref(), Some("headw"));
}

#[test]
fn body_row_fills_both_directions_under_its_shift() {
    let mut map = SusMap::new();
    let r = fill_context(&mut map, &[E, E, E, E, G], "bodyw");
    assert_eq!(r, None);
    let c1 = ctx(E, Direction::LookingRight, Shift::HuggingLeft);
    let c2 = ctx(E, Direction::LookingLeft, Shift::HuggingLeft);
    assert_eq!(map.builder(G).slot(&c1).body.as_deref(), Some("bodyw"));
    assert_eq!(map.builder(G).slot(&c2).body.as_deref(), Some("bodyw"));
    // The other shift stays untouched.
    let c3 = ctx(E, Direction::LookingLeft, Shift::HuggingRight);
    assert!(map.builder(G).slot(&c3).body.is_none());
}

#[test]
fn eyes_row_fills_one_context_per_eye_color() {
    let mut map = SusMap::new();
    // Pair colors Yellow and Green, so the implied background is Gray.
    let r = fill_context(&mut map, &[Y, Y, E, E, G], "eyesw");
    assert_eq!(r, None);
    let left = ctx(Y, Direction::LookingRight, Shift::HuggingLeft);
    let right = ctx(E, Direction::LookingLeft, Shift::HuggingLeft);
    assert_eq!(map.builder(G).slot(&left).eyes.as_deref(), Some("eyesw"));
    assert_eq!(map.builder(G).slot(&right).eyes.as_deref(), Some("eyesw"));
}

#[test]
fn unrecognized_rows_change_nothing() {
    let mut map = SusMap::new();
    // Three colors in a layout that is not the eyes.
    assert_eq!(fill_context(&mut map, &[Y, E, Y, E, G], "wordx"), None);
    // Two colors in none of the recognized layouts.
    assert_eq!(fill_context(&mut map, &[E, E, G, G, E], "wordy"), None);
    assert!(map.builder(G).empty.is_none());
    assert!(map.builder(Y).empty.is_none());
    assert!(map.builder(E).empty.is_none());
    assert!(!map.is_full(G) && !map.is_full(Y) && !map.is_full(E));
}

#[test]
fn shifted_head_faces_the_open_side() {
    let mut map = SusMap::new();
    // A left-hugging head looks right, toward the open side.
    assert_eq!(fill_context(&mut map, &[E, E, E, G, G], "headw"), None);
    let looking_right = ctx(E, Direction::LookingRight, Shift::HuggingLeft);
    let looking_left = ctx(E, Direction::LookingLeft, Shift::HuggingLeft);
    assert_eq!(map.builder(G).slot(&looking_right).head.as_deref(), Some("headw"));
    assert!(map.builder(G).slot(&looking_left).head.is_none());
}

#[test]
fn shifted_legs_face_the_open_side() {
    let mut map = SusMap::new();
    // Right-hugging legs look left, toward the open side.
    assert_eq!(fill_context(&mut map, &[G, G, E, G, E], "legsw"), None);
    let looking_left = ctx(E, Direction::LookingLeft, Shift::HuggingRight);
    let looking_right = ctx(E, Direction::LookingRight, Shift::HuggingRight);
    assert_eq!(map.builder(G).slot(&looking_left).legs.as_deref(), Some("legsw"));
    assert!(map.builder(G).slot(&looking_right).legs.is_none());
}

#[test]
fn board_completes_through_fill_context() {
    let mut map = SusMap::new();
    assert_eq!(fill_context(&mut map, &[G, G, G, G, G], "empty"), None);
    assert_eq!(fill_context(&mut map, &[E, E, E, G, G], "headw"), None);
    assert_eq!(fill_context(&mut map, &[E, E, Y, Y, G], "eyesw"), None);
    assert_eq!(fill_context(&mut map, &[E, E, E, E, G], "bodyw"), None);
    // The legs complete the context (Green, LookingRight, HuggingLeft).
    assert_eq!(fill_context(&mut map, &[E, G, E, G, G], "legsw"), Some(G));
    assert!(map.is_full(G));
    let board = map.convert(G);
    assert_eq!(
        board,
        ["empty", "headw", "eyesw", "bodyw", "legsw", "empty"]
    );
}
