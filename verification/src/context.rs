use crate::builder::{
    builder_fill, builder_fill_empty, builder_full, map_builder, map_set_builder, BuilderModel,
    MapModel, Part, SusMap,
};
use vstd::prelude::*;

verus! {

/// Width of the feedback grid: every word and every color row has exactly
/// this many positions.
pub const WORDLE_WIDTH: usize = 5;

/// Per-letter feedback color: the letter is absent, misplaced, or correct.
#[derive(Copy, Clone, PartialEq, Eq, Structural, Debug)]
pub enum Color {
    Gray,
    Yellow,
    Green,
}

/// Mirror orientation of a shape within a row.
#[derive(Copy, Clone, PartialEq, Eq, Structural, Debug)]
pub enum Direction {
    LookingLeft,
    LookingRight,
}

/// Which side of the row a shifted shape hugs.
#[derive(Copy, Clone, PartialEq, Eq, Structural, Debug)]
pub enum Shift {
    HuggingLeft,
    HuggingRight,
}

/// Slot key: a shape color together with its mirror orientation and shift.
/// Two contexts are equal iff all three fields are equal.
#[derive(Copy, Clone, PartialEq, Eq, Structural, Debug)]
pub struct Context {
    pub body: Color,
    pub direction: Direction,
    pub shift: Shift,
}

impl Color {
    /// Given two distinct colors, the unique third color; for two equal
    /// arguments the rule is defined to yield `Gray`.
    pub open spec fn other_spec(self, second: Color) -> Color {
        match (self, second) {
            (Color::Gray, Color::Yellow) => Color::Green,
            (Color::Yellow, Color::Gray) => Color::Green,
            (Color::Gray, Color::Green) => Color::Yellow,
            (Color::Green, Color::Gray) => Color::Yellow,
            (Color::Yellow, Color::Green) => Color::Gray,
            (Color::Green, Color::Yellow) => Color::Gray,
            _ => Color::Gray,
        }
    }

    /// The color that is neither `self` nor `second` (with the fixed
    /// `Gray` fallback when both arguments are the same color).
    pub fn other(&self, second: &Color) -> (r: Color)
        ensures
            r == self.other_spec(*second),
    {
        match (self, second) {
            (Color::Gray, Color::Yellow) => Color::Green,
            (Color::Yellow, Color::Gray) => Color::Green,
            (Color::Gray, Color::Green) => Color::Yellow,
            (Color::Green, Color::Gray) => Color::Yellow,
            (Color::Yellow, Color::Green) => Color::Gray,
            (Color::Green, Color::Yellow) => Color::Gray,
            _ => Color::Gray,
        }
    }
}

/// Whether color `c` occurs anywhere in the row.
pub open spec fn contains_color(colors: Seq<Color>, c: Color) -> bool {
    exists|i: int| 0 <= i < colors.len() && #[trigger] colors[i] == c
}

/// Number of distinct colors present in the row.
pub open spec fn count_colors_spec(colors: Seq<Color>) -> int {
    (if contains_color(colors, Color::Gray) {
        1int
    } else {
        0int
    }) + (if contains_color(colors, Color::Yellow) {
        1int
    } else {
        0int
    }) + (if contains_color(colors, Color::Green) {
        1int
    } else {
        0int
    })
}

/// Counts how many distinct colors appear in the row.
pub fn count_colors(colors: &[Color; WORDLE_WIDTH]) -> (r: usize)
    ensures
        r == count_colors_spec(colors@),
{
    let mut has_gray = false;
    let mut has_yellow = false;
    let mut has_green = false;
    let mut i: usize = 0;
    while i < WORDLE_WIDTH
        invariant
            0 <= i <= WORDLE_WIDTH,
            has_gray == contains_color(colors@.take(i as int), Color::Gray),
            has_yellow == contains_color(colors@.take(i as int), Color::Yellow),
            has_green == contains_color(colors@.take(i as int), Color::Green),
        decreases WORDLE_WIDTH - i,
    {
        match colors[i] {
            Color::Gray => {
                has_gray = true;
            },
            Color::Yellow => {
                has_yellow = true;
            },
            Color::Green => {
                has_green = true;
            },
        }
        proof {
            assert(colors@.take(i + 1)[i as int] == colors@[i as int]);
            assert(forall|k: int|
                0 <= k < i ==> colors@.take(i + 1)[k] == colors@.take(i as int)[k]);
            assert forall|c: Color|
                contains_color(colors@.take(i as int), c) implies contains_color(
                colors@.take(i + 1),
                c,
            ) by {
                let w = choose|k: int|
                    0 <= k < colors@.take(i as int).len() && #[trigger] colors@.take(i as int)[k]
                        == c;
                assert(colors@.take(i + 1)[w] == c);
            }
            assert forall|c: Color|
                contains_color(colors@.take(i + 1), c) && colors@[i as int] != c
                implies contains_color(colors@.take(i as int), c) by {
                let w = choose|k: int|
                    0 <= k < colors@.take(i + 1).len() && #[trigger] colors@.take(i + 1)[k] == c;
                assert(colors@.take(i as int)[w] == c);
            }
        }
        i += 1;
    }
    proof {
        assert(colors@.take(WORDLE_WIDTH as int) =~= colors@);
    }
    let mut count: usize = 0;
    if has_gray {
        count += 1;
    }
    if has_yellow {
        count += 1;
    }
    if has_green {
        count += 1;
    }
    count
}

/// Recognizes a four-in-a-row (body) row: the first or last four positions
/// share one color. On a match yields `(background, body, shift)`.
pub open spec fn four_in_a_row_spec(colors: Seq<Color>) -> Option<(Color, Color, Shift)>
    recommends
        colors.len() == WORDLE_WIDTH,
{
    if colors[0] == colors[1] && colors[1] == colors[2] && colors[2] == colors[3] {
        Some((colors[4], colors[0], Shift::HuggingLeft))
    } else if colors[1] == colors[2] && colors[2] == colors[3] && colors[3] == colors[4] {
        Some((colors[0], colors[1], Shift::HuggingRight))
    } else {
        None
    }
}

/// Tests for a run of four equal colors hugging either side of the row.
pub fn is_four_in_a_row(colors: &[Color; WORDLE_WIDTH]) -> (r: Option<(Color, Color, Shift)>)
    ensures
        r == four_in_a_row_spec(colors@),
{
    if colors[0] == colors[1] && colors[1] == colors[2] && colors[2] == colors[3] {
        Some((colors[4], colors[0], Shift::HuggingLeft))
    } else if colors[1] == colors[2] && colors[2] == colors[3] && colors[3] == colors[4] {
        Some((colors[0], colors[1], Shift::HuggingRight))
    } else {
        None
    }
}

/// Recognizes a three-in-a-row (head) row: a run of three equal colors with
/// the two remaining positions sharing the other color. On a match yields
/// `(background, body, shift)`; a centered run has no shift.
pub open spec fn three_in_a_row_spec(colors: Seq<Color>) -> Option<(Color, Color, Option<Shift>)>
    recommends
        colors.len() == WORDLE_WIDTH,
{
    if colors[0] == colors[1] && colors[1] == colors[2] && colors[3] == colors[4] {
        Some((colors[3], colors[0], Some(Shift::HuggingLeft)))
    } else if colors[1] == colors[2] && colors[2] == colors[3] && colors[0] == colors[4] {
        Some((colors[0], colors[1], None))
    } else if colors[2] == colors[3] && colors[3] == colors[4] && colors[0] == colors[1] {
        Some((colors[0], colors[2], Some(Shift::HuggingRight)))
    } else {
        None
    }
}

/// Tests for a run of three equal colors flanked by two positions of one
/// other color.
pub fn is_three_in_a_row(colors: &[Color; WORDLE_WIDTH]) -> (r: Option<
    (Color, Color, Option<Shift>),
>)
    ensures
        r == three_in_a_row_spec(colors@),
{
    if colors[0] == colors[1] && colors[1] == colors[2] && colors[3] == colors[4] {
        Some((colors[3], colors[0], Some(Shift::HuggingLeft)))
    } else if colors[1] == colors[2] && colors[2] == colors[3] && colors[0] == colors[4] {
        Some((colors[0], colors[1], None))
    } else if colors[2] == colors[3] && colors[3] == colors[4] && colors[0] == colors[1] {
        Some((colors[0], colors[2], Some(Shift::HuggingRight)))
    } else {
        None
    }
}

/// Recognizes a two-separated (legs) row: one color at two positions that
/// are two apart, every other position sharing the background color. On a
/// match yields `(background, body, shift)`; the middle layout has no shift.
pub open spec fn two_separated_spec(colors: Seq<Color>) -> Option<(Color, Color, Option<Shift>)>
    recommends
        colors.len() == WORDLE_WIDTH,
{
    if colors[0] == colors[2] && colors[1] == colors[3] && colors[1] == colors[4] {
        Some((colors[1], colors[0], Some(Shift::HuggingLeft)))
    } else if colors[1] == colors[3] && colors[0] == colors[2] && colors[0] == colors[4] {
        Some((colors[0], colors[1], None))
    } else if colors[2] == colors[4] && colors[0] == colors[1] && colors[0] == colors[3] {
        Some((colors[0], colors[2], Some(Shift::HuggingRight)))
    } else {
        None
    }
}

/// Tests for two equal colors separated by one position, the rest being
/// background.
pub fn is_there_two_separated(colors: &[Color; WORDLE_WIDTH]) -> (r: Option<
    (Color, Color, Option<Shift>),
>)
    ensures
        r == two_separated_spec(colors@),
{
    if colors[0] == colors[2] && colors[1] == colors[3] && colors[1] == colors[4] {
        Some((colors[1], colors[0], Some(Shift::HuggingLeft)))
    } else if colors[1] == colors[3] && colors[0] == colors[2] && colors[0] == colors[4] {
        Some((colors[0], colors[1], None))
    } else if colors[2] == colors[4] && colors[0] == colors[1] && colors[0] == colors[3] {
        Some((colors[0], colors[2], Some(Shift::HuggingRight)))
    } else {
        None
    }
}

/// Recognizes the eyes layout among rows with three distinct colors: two
/// adjacent equal pairs and a singleton at one end. On a match yields
/// `(left pair color, right pair color, shift)`.
pub open spec fn valid_eyes_spec(colors: Seq<Color>) -> Option<(Color, Color, Shift)>
    recommends
        colors.len() == WORDLE_WIDTH,
{
    if colors[0] == colors[1] && colors[2] == colors[3] {
        Some((colors[0], colors[2], Shift::HuggingLeft))
    } else if colors[1] == colors[2] && colors[3] == colors[4] {
        Some((colors[1], colors[3], Shift::HuggingRight))
    } else {
        None
    }
}

/// Tests for the two adjacent equal pairs of the eyes layout.
pub fn is_valid_eyes(colors: &[Color; WORDLE_WIDTH]) -> (r: Option<(Color, Color, Shift)>)
    ensures
        r == valid_eyes_spec(colors@),
{
    if colors[0] == colors[1] && colors[2] == colors[3] {
        Some((colors[0], colors[2], Shift::HuggingLeft))
    } else if colors[1] == colors[2] && colors[3] == colors[4] {
        Some((colors[1], colors[3], Shift::HuggingRight))
    } else {
        None
    }
}

/// What the Row Classifier reports of one recognized color row.
#[verifier::ext_equal]
pub ghost enum RowMatch {
    EmptyRow { background: Color },
    HeadRow { background: Color, body: Color, shift: Option<Shift> },
    EyesRow { left: Color, right: Color, shift: Shift },
    BodyRow { background: Color, body: Color, shift: Shift },
    LegsRow { background: Color, body: Color, shift: Option<Shift> },
}

/// The Row Classifier: which recognized shape, if any, a color row matches,
/// and the extracted facts. A uniform row of the correct-position color and
/// any layout outside the five shapes are rejected.
pub open spec fn classify_spec(colors: Seq<Color>) -> Option<RowMatch>
    recommends
        colors.len() == WORDLE_WIDTH,
{
    let n = count_colors_spec(colors);
    if n == 1 {
        if colors[0] == Color::Green {
            None
        } else {
            Some(RowMatch::EmptyRow { background: colors[0] })
        }
    } else if n == 3 {
        match valid_eyes_spec(colors) {
            Some((left, right, shift)) => Some(RowMatch::EyesRow { left, right, shift }),
            None => None,
        }
    } else if four_in_a_row_spec(colors) is Some {
        let (background, body, shift) = four_in_a_row_spec(colors).unwrap();
        Some(RowMatch::BodyRow { background, body, shift })
    } else if three_in_a_row_spec(colors) is Some {
        let (background, body, shift) = three_in_a_row_spec(colors).unwrap();
        Some(RowMatch::HeadRow { background, body, shift })
    } else if two_separated_spec(colors) is Some {
        let (background, body, shift) = two_separated_spec(colors).unwrap();
        Some(RowMatch::LegsRow { background, body, shift })
    } else {
        None
    }
}

/// The background color a recognized row contributes to; for eyes it is the
/// third color implied by the two eye colors.
pub open spec fn match_background(m: RowMatch) -> Color {
    match m {
        RowMatch::EmptyRow { background } => background,
        RowMatch::HeadRow { background, .. } => background,
        RowMatch::EyesRow { left, right, .. } => left.other_spec(right),
        RowMatch::BodyRow { background, .. } => background,
        RowMatch::LegsRow { background, .. } => background,
    }
}

/// How one recognized row updates the assembly of its background color: a
/// shifted head or legs row fills the one context that looks toward the open
/// side (facing Right when hugging Left, facing Left when hugging Right); a
/// centered one fills both mirror contexts; a body row fills both directions
/// under its shift; an eyes row fills one context per eye color.
pub open spec fn ingest_builder(b: BuilderModel, m: RowMatch, w: Seq<char>) -> BuilderModel {
    match m {
        RowMatch::EmptyRow { .. } => builder_fill_empty(b, w),
        RowMatch::HeadRow { body, shift, .. } => match shift {
            Some(Shift::HuggingLeft) => builder_fill(
                b,
                Context { body, direction: Direction::LookingRight, shift: Shift::HuggingLeft },
                Part::Head,
                w,
            ),
            Some(Shift::HuggingRight) => builder_fill(
                b,
                Context { body, direction: Direction::LookingLeft, shift: Shift::HuggingRight },
                Part::Head,
                w,
            ),
            None => builder_fill(
                builder_fill(
                    b,
                    Context { body, direction: Direction::LookingLeft, shift: Shift::HuggingRight },
                    Part::Head,
                    w,
                ),
                Context { body, direction: Direction::LookingRight, shift: Shift::HuggingLeft },
                Part::Head,
                w,
            ),
        },
        RowMatch::EyesRow { left, right, shift } => builder_fill(
            builder_fill(
                b,
                Context { body: left, direction: Direction::LookingRight, shift },
                Part::Eyes,
                w,
            ),
            Context { body: right, direction: Direction::LookingLeft, shift },
            Part::Eyes,
            w,
        ),
        RowMatch::BodyRow { body, shift, .. } => builder_fill(
            builder_fill(
                b,
                Context { body, direction: Direction::LookingRight, shift },
                Part::Body,
                w,
            ),
            Context { body, direction: Direction::LookingLeft, shift },
            Part::Body,
            w,
        ),
        RowMatch::LegsRow { body, shift, .. } => match shift {
            Some(Shift::HuggingLeft) => builder_fill(
                b,
                Context { body, direction: Direction::LookingRight, shift: Shift::HuggingLeft },
                Part::Legs,
                w,
            ),
            Some(Shift::HuggingRight) => builder_fill(
                b,
                Context { body, direction: Direction::LookingLeft, shift: Shift::HuggingRight },
                Part::Legs,
                w,
            ),
            None => builder_fill(
                builder_fill(
                    b,
                    Context { body, direction: Direction::LookingLeft, shift: Shift::HuggingRight },
                    Part::Legs,
                    w,
                ),
                Context { body, direction: Direction::LookingRight, shift: Shift::HuggingLeft },
                Part::Legs,
                w,
            ),
        },
    }
}

/// One ingest step of the search state: route the word by its classified
/// row; an unrecognized row leaves the state unchanged.
pub open spec fn ingest_model(s: MapModel, colors: Seq<Color>, w: Seq<char>) -> MapModel {
    match classify_spec(colors) {
        Some(m) => map_set_builder(
            s,
            match_background(m),
            ingest_builder(map_builder(s, match_background(m)), m, w),
        ),
        None => s,
    }
}

fn handle_empty_line(map: &mut SusMap, colors: &[Color; WORDLE_WIDTH], word: &str) -> (r: Option<
    Color,
>)
    requires
        old(map).wf(),
    ensures
        final(map).wf(),
        final(map)@ == map_set_builder(
            old(map)@,
            colors@[0],
            builder_fill_empty(map_builder(old(map)@, colors@[0]), word@),
        ),
        r == (if builder_full(map_builder(final(map)@, colors@[0])) {
            Some(colors@[0])
        } else {
            None::<Color>
        }),
{
    let background = colors[0];
    map.fill_empty(background, word);
    if map.is_full(background) {
        Some(background)
    } else {
        None
    }
}

fn handle_body_pattern(
    map: &mut SusMap,
    word: &str,
    background: Color,
    body: Color,
    shift: Shift,
) -> (r: Option<Color>)
    requires
        old(map).wf(),
    ensures
        final(map).wf(),
        final(map)@ == map_set_builder(
            old(map)@,
            background,
            ingest_builder(
                map_builder(old(map)@, background),
                RowMatch::BodyRow { background, body, shift },
                word@,
            ),
        ),
        r == (if builder_full(map_builder(final(map)@, background)) {
            Some(background)
        } else {
            None::<Color>
        }),
{
    map.fill(
        background,
        Context { body, direction: Direction::LookingRight, shift },
        Part::Body,
        word,
    );
    map.fill(
        background,
        Context { body, direction: Direction::LookingLeft, shift },
        Part::Body,
        word,
    );
    proof {
        assert(map@ =~~= map_set_builder(
            old(map)@,
            background,
            ingest_builder(
                map_builder(old(map)@, background),
                RowMatch::BodyRow { background, body, shift },
                word@,
            ),
        ));
    }
    if map.is_full(background) {
        Some(background)
    } else {
        None
    }
}

fn handle_head_middle_pattern(map: &mut SusMap, background: Color, word: &str, body: Color)
    requires
        old(map).wf(),
    ensures
        final(map).wf(),
        final(map)@ == map_set_builder(
            old(map)@,
            background,
            ingest_builder(
                map_builder(old(map)@, background),
                RowMatch::HeadRow { background, body, shift: None },
                word@,
            ),
        ),
{
    map.fill(
        background,
        Context { body, direction: Direction::LookingLeft, shift: Shift::HuggingRight },
        Part::Head,
        word,
    );
    map.fill(
        background,
        Context { body, direction: Direction::LookingRight, shift: Shift::HuggingLeft },
        Part::Head,
        word,
    );
    proof {
        assert(map@ =~~= map_set_builder(
            old(map)@,
            background,
            ingest_builder(
                map_builder(old(map)@, background),
                RowMatch::HeadRow { background, body, shift: None },
                word@,
            ),
        ));
    }
}

fn handle_head_pattern(
    map: &mut SusMap,
    word: &str,
    background: Color,
    body: Color,
    shift: Option<Shift>,
) -> (r: Option<Color>)
    requires
        old(map).wf(),
    ensures
        final(map).wf(),
        final(map)@ == map_set_builder(
            old(map)@,
            background,
            ingest_builder(
                map_builder(old(map)@, background),
                RowMatch::HeadRow { background, body, shift },
                word@,
            ),
        ),
        r == (if builder_full(map_builder(final(map)@, background)) {
            Some(background)
        } else {
            None::<Color>
        }),
{
    match shift {
        None => handle_head_middle_pattern(map, background, word, body),
        Some(Shift::HuggingLeft) => {
            map.fill(
                background,
                Context { body, direction: Direction::LookingRight, shift: Shift::HuggingLeft },
                Part::Head,
                word,
            );
        },
        Some(Shift::HuggingRight) => {
            map.fill(
                background,
                Context { body, direction: Direction::LookingLeft, shift: Shift::HuggingRight },
                Part::Head,
                word,
            );
        },
    }
    if map.is_full(background) {
        Some(background)
    } else {
        None
    }
}

fn handle_leg_middle_pattern(map: &mut SusMap, background: Color, word: &str, body: Color)
    requires
        old(map).wf(),
    ensures
        final(map).wf(),
        final(map)@ == map_set_builder(
            old(map)@,
            background,
            ingest_builder(
                map_builder(old(map)@, background),
                RowMatch::LegsRow { background, body, shift: None },
                word@,
            ),
        ),
{
    map.fill(
        background,
        Context { body, direction: Direction::LookingLeft, shift: Shift::HuggingRight },
        Part::Legs,
        word,
    );
    map.fill(
        background,
        Context { body, direction: Direction::LookingRight, shift: Shift::HuggingLeft },
        Part::Legs,
        word,
    );
    proof {
        assert(map@ =~~= map_set_builder(
            old(map)@,
            background,
            ingest_builder(
                map_builder(old(map)@, background),
                RowMatch::LegsRow { background, body, shift: None },
                word@,
            ),
        ));
    }
}

fn handle_leg_pattern(
    map: &mut SusMap,
    word: &str,
    background: Color,
    body: Color,
    shift: Option<Shift>,
) -> (r: Option<Color>)
    requires
        old(map).wf(),
    ensures
        final(map).wf(),
        final(map)@ == map_set_builder(
            old(map)@,
            background,
            ingest_builder(
                map_builder(old(map)@, background),
                RowMatch::LegsRow { background, body, shift },
                word@,
            ),
        ),
        r == (if builder_full(map_builder(final(map)@, background)) {
            Some(background)
        } else {
            None::<Color>
        }),
{
    match shift {
        None => handle_leg_middle_pattern(map, background, word, body),
        Some(Shift::HuggingLeft) => {
            map.fill(
                background,
                Context { body, direction: Direction::LookingRight, shift: Shift::HuggingLeft },
                Part::Legs,
                word,
            );
        },
        Some(Shift::HuggingRight) => {
            map.fill(
                background,
                Context { body, direction: Direction::LookingLeft, shift: Shift::HuggingRight },
                Part::Legs,
                word,
            );
        },
    }
    if map.is_full(background) {
        Some(background)
    } else {
        None
    }
}

fn handle_eyes_pattern(
    map: &mut SusMap,
    word: &str,
    left_color: Color,
    right_color: Color,
    shift: Shift,
) -> (r: Option<Color>)
    requires
        old(map).wf(),
    ensures
        final(map).wf(),
        final(map)@ == map_set_builder(
            old(map)@,
            left_color.other_spec(right_color),
            ingest_builder(
                map_builder(old(map)@, left_color.other_spec(right_color)),
                RowMatch::EyesRow { left: left_color, right: right_color, shift },
                word@,
            ),
        ),
        r == (if builder_full(map_builder(final(map)@, left_color.other_spec(right_color))) {
            Some(left_color.other_spec(right_color))
        } else {
            None::<Color>
        }),
{
    let background = left_color.other(&right_color);
    map.fill(
        background,
        Context { body: left_color, direction: Direction::LookingRight, shift },
        Part::Eyes,
        word,
    );
    map.fill(
        background,
        Context { body: right_color, direction: Direction::LookingLeft, shift },
        Part::Eyes,
        word,
    );
    proof {
        assert(map@ =~~= map_set_builder(
            old(map)@,
            left_color.other_spec(right_color),
            ingest_builder(
                map_builder(old(map)@, left_color.other_spec(right_color)),
                RowMatch::EyesRow { left: left_color, right: right_color, shift },
                word@,
            ),
        ));
    }
    if map.is_full(background) {
        Some(background)
    } else {
        None
    }
}

/// What the ingest step reports: the background color whose assembly is full
/// after the step, if the row was recognized and that assembly is full.
pub open spec fn ingest_report(s: MapModel, colors: Seq<Color>, w: Seq<char>) -> Option<Color> {
    match classify_spec(colors) {
        Some(m) => {
            let bg = match_background(m);
            if builder_full(map_builder(ingest_model(s, colors, w), bg)) {
                Some(bg)
            } else {
                None
            }
        },
        None => None,
    }
}

/// Classifies the color row of one candidate word and routes the word into
/// the search state: a uniform non-Green row becomes a background candidate;
/// three distinct colors are tested as eyes; two distinct colors are tested
/// as body, then head, then legs. Returns the background color whose
/// assembly is full after this word, if any.
pub fn fill_context(map: &mut SusMap, colors: &[Color; WORDLE_WIDTH], word: &str) -> (r: Option<
    Color,
>)
    requires
        old(map).wf(),
    ensures
        final(map).wf(),
        final(map)@ == ingest_model(old(map)@, colors@, word@),
        r == ingest_report(old(map)@, colors@, word@),
{
    let color_count = count_colors(colors);

    if color_count == 1 {
        // one color means it's an empty line
        if colors[0] == Color::Green {
            None  // we disallow a green background
        } else {
            handle_empty_line(map, colors, word)
        }
    } else if color_count == 3 {
        // three colors can only be the eyes or an invalid pattern
        if let Some((left_color, right_color, shift)) = is_valid_eyes(colors) {
            handle_eyes_pattern(map, word, left_color, right_color, shift)
        } else {
            None
        }
    }
    // here there are exactly two colors, so any other pattern may match
    else if let Some((background, body, shift)) = is_four_in_a_row(colors) {
        handle_body_pattern(map, word, background, body, shift)
    } else if let Some((background, body, shift)) = is_three_in_a_row(colors) {
        handle_head_pattern(map, word, background, body, shift)
    } else if let Some((background, body, shift)) = is_there_two_separated(colors) {
        handle_leg_pattern(map, word, background, body, shift)
    } else {
        None  // no matching pattern found for this word
    }
}

/// Uniform-row law: a row showing one single color classifies as the empty
/// row exactly when that color is not the correct-position color; an
/// all-correct row is rejected.
pub proof fn lemma_uniform_row(colors: Seq<Color>)
    requires
        colors.len() == WORDLE_WIDTH,
        count_colors_spec(colors) == 1,
    ensures
        colors[0] == Color::Green ==> classify_spec(colors) is None,
        colors[0] != Color::Green ==> classify_spec(colors) == Some(
            RowMatch::EmptyRow { background: colors[0] },
        ),
{
}

/// Mirror-symmetry law for a centered head row: it is routed into both
/// mirror contexts, so when the two mirror slots agree on their head word
/// beforehand, they agree afterward and both hold a word — the ingested one
/// if they were empty.
pub proof fn lemma_centered_head_symmetry(
    b: BuilderModel,
    background: Color,
    body: Color,
    w: Seq<char>,
)
    ensures
        ({
            let c1 = Context { body, direction: Direction::LookingLeft, shift: Shift::HuggingRight };
            let c2 = Context { body, direction: Direction::LookingRight, shift: Shift::HuggingLeft };
            let nb = ingest_builder(b, RowMatch::HeadRow { background, body, shift: None }, w);
            &&& b.slots[c1].head == b.slots[c2].head ==> nb.slots[c1].head == nb.slots[c2].head
                && nb.slots[c1].head is Some
            &&& b.slots[c1].head is None && b.slots[c2].head is None ==> nb.slots[c1].head == Some(
                w,
            ) && nb.slots[c2].head == Some(w)
        }),
{
}

/// Mirror-symmetry law for a centered legs row, as for the centered head.
pub proof fn lemma_centered_legs_symmetry(
    b: BuilderModel,
    background: Color,
    body: Color,
    w: Seq<char>,
)
    ensures
        ({
            let c1 = Context { body, direction: Direction::LookingLeft, shift: Shift::HuggingRight };
            let c2 = Context { body, direction: Direction::LookingRight, shift: Shift::HuggingLeft };
            let nb = ingest_builder(b, RowMatch::LegsRow { background, body, shift: None }, w);
            &&& b.slots[c1].legs == b.slots[c2].legs ==> nb.slots[c1].legs == nb.slots[c2].legs
                && nb.slots[c1].legs is Some
            &&& b.slots[c1].legs is None && b.slots[c2].legs is None ==> nb.slots[c1].legs == Some(
                w,
            ) && nb.slots[c2].legs == Some(w)
        }),
{
}

} // verus!
