use crate::context::{Color, WORDLE_WIDTH};
use vstd::prelude::*;

verus! {

/// Number of positions k in [0, end) where the guess letter is `c` and the
/// position is not an exact match. These are the earlier claims on letter
/// `c` when the scorer reaches a given position.
pub open spec fn demand(solution: Seq<char>, guess: Seq<char>, c: char, end: int) -> int
    decreases end,
{
    if end <= 0 {
        0
    } else {
        demand(solution, guess, c, end - 1) + if guess[end - 1] == c && guess[end - 1]
            != solution[end - 1] {
            1int
        } else {
            0int
        }
    }
}

/// Number of positions j in [0, end) where the solution letter is `c` and the
/// position is not an exact match. These are the solution letters available
/// to back misplaced occurrences of `c`.
pub open spec fn supply(solution: Seq<char>, guess: Seq<char>, c: char, end: int) -> int
    decreases end,
{
    if end <= 0 {
        0
    } else {
        supply(solution, guess, c, end - 1) + if solution[end - 1] == c && guess[end - 1]
            != solution[end - 1] {
            1int
        } else {
            0int
        }
    }
}

/// The feedback color of position `i`: an exact match is `Green`; otherwise
/// the position is `Yellow` exactly when the earlier non-exact occurrences of
/// its letter in the guess have not yet exhausted the non-exact occurrences
/// of that letter in the solution.
pub open spec fn score_color(solution: Seq<char>, guess: Seq<char>, i: int) -> Color
    recommends
        solution.len() == guess.len(),
        0 <= i < guess.len(),
{
    if guess[i] == solution[i] {
        Color::Green
    } else if demand(solution, guess, guess[i], i) < supply(
        solution,
        guess,
        guess[i],
        solution.len() as int,
    ) {
        Color::Yellow
    } else {
        Color::Gray
    }
}

/// The whole feedback row for a guess scored against a solution.
pub open spec fn score_spec(solution: Seq<char>, guess: Seq<char>) -> Seq<Color>
    recommends
        solution.len() == guess.len(),
{
    Seq::new(guess.len(), |i: int| score_color(solution, guess, i))
}

/// Number of positions j in [0, end) already consumed for letter `c`: marked
/// used, holding `c` in the solution, and not an exact match.
pub open spec fn consumed(
    solution: Seq<char>,
    guess: Seq<char>,
    used: Seq<bool>,
    c: char,
    end: int,
) -> int
    decreases end,
{
    if end <= 0 {
        0
    } else {
        consumed(solution, guess, used, c, end - 1) + if used[end - 1] && solution[end - 1] == c
            && guess[end - 1] != solution[end - 1] {
            1int
        } else {
            0int
        }
    }
}

/// The gap between available and consumed solution letters never shrinks as
/// the window grows.
proof fn lemma_gap_grows(
    solution: Seq<char>,
    guess: Seq<char>,
    used: Seq<bool>,
    c: char,
    a: int,
    b: int,
)
    requires
        0 <= a <= b,
    ensures
        supply(solution, guess, c, b) - consumed(solution, guess, used, c, b) >= supply(
            solution,
            guess,
            c,
            a,
        ) - consumed(solution, guess, used, c, a),
    decreases b - a,
{
    if a < b {
        lemma_gap_grows(solution, guess, used, c, a, b - 1);
    }
}

/// An unconsumed, non-exact solution occurrence of `c` keeps consumption
/// strictly below supply.
proof fn lemma_unconsumed_gap(
    solution: Seq<char>,
    guess: Seq<char>,
    used: Seq<bool>,
    c: char,
    j: int,
    end: int,
)
    requires
        0 <= j < end,
        solution[j] == c,
        guess[j] != solution[j],
        !used[j],
    ensures
        consumed(solution, guess, used, c, end) < supply(solution, guess, c, end),
{
    lemma_gap_grows(solution, guess, used, c, 0, j);
    assert(supply(solution, guess, c, j + 1) == supply(solution, guess, c, j) + 1);
    assert(consumed(solution, guess, used, c, j + 1) == consumed(solution, guess, used, c, j));
    lemma_gap_grows(solution, guess, used, c, j + 1, end);
}

/// When every non-exact solution occurrence of `c` is used, consumption
/// equals supply.
proof fn lemma_all_used(solution: Seq<char>, guess: Seq<char>, used: Seq<bool>, c: char, end: int)
    requires
        forall|j: int|
            0 <= j < end && solution[j] == c && guess[j] != solution[j] ==> #[trigger] used[j],
    ensures
        consumed(solution, guess, used, c, end) == supply(solution, guess, c, end),
    decreases end,
{
    if end > 0 {
        lemma_all_used(solution, guess, used, c, end - 1);
    }
}

/// Marking one fresh position as used raises the consumed count of its own
/// letter by one (when the position lies in the window) and no other's.
proof fn lemma_consumed_update(
    solution: Seq<char>,
    guess: Seq<char>,
    used: Seq<bool>,
    j: int,
    c: char,
    end: int,
)
    requires
        0 <= j < used.len(),
        end <= used.len(),
    ensures
        consumed(solution, guess, used.update(j, true), c, end) == consumed(
            solution,
            guess,
            used,
            c,
            end,
        ) + if j < end && !used[j] && solution[j] == c && guess[j] != solution[j] {
            1int
        } else {
            0int
        },
    decreases end,
{
    if end > 0 {
        lemma_consumed_update(solution, guess, used, j, c, end - 1);
    }
}

/// With only exact matches marked used, nothing is consumed yet.
proof fn lemma_consumed_zero(
    solution: Seq<char>,
    guess: Seq<char>,
    used: Seq<bool>,
    c: char,
    end: int,
)
    requires
        forall|j: int| 0 <= j < end && #[trigger] used[j] ==> guess[j] == solution[j],
    ensures
        consumed(solution, guess, used, c, end) == 0,
    decreases end,
{
    if end > 0 {
        lemma_consumed_zero(solution, guess, used, c, end - 1);
    }
}

/// Number of positions k in [0, end) where the guess letter is `c` and the
/// scored color reports a match (Green or Yellow).
pub open spec fn matched_count(solution: Seq<char>, guess: Seq<char>, c: char, end: int) -> int
    decreases end,
{
    if end <= 0 {
        0
    } else {
        matched_count(solution, guess, c, end - 1) + if guess[end - 1] == c && score_color(
            solution,
            guess,
            end - 1,
        ) != Color::Gray {
            1int
        } else {
            0int
        }
    }
}

/// Multiplicity of letter `c` among the first `end` letters of a word.
pub open spec fn letter_count(word: Seq<char>, c: char, end: int) -> int
    decreases end,
{
    if end <= 0 {
        0
    } else {
        letter_count(word, c, end - 1) + if word[end - 1] == c {
            1int
        } else {
            0int
        }
    }
}

/// Number of positions k in [0, end) where the guess letter is `c` and the
/// position is an exact match.
spec fn green_count(solution: Seq<char>, guess: Seq<char>, c: char, end: int) -> int
    decreases end,
{
    if end <= 0 {
        0
    } else {
        green_count(solution, guess, c, end - 1) + if guess[end - 1] == c && guess[end - 1]
            == solution[end - 1] {
            1int
        } else {
            0int
        }
    }
}

/// Number of positions k in [0, end) where the guess letter is `c` and the
/// scored color is Yellow.
spec fn yellow_count(solution: Seq<char>, guess: Seq<char>, c: char, end: int) -> int
    decreases end,
{
    if end <= 0 {
        0
    } else {
        yellow_count(solution, guess, c, end - 1) + if guess[end - 1] == c && score_color(
            solution,
            guess,
            end - 1,
        ) == Color::Yellow {
            1int
        } else {
            0int
        }
    }
}

proof fn lemma_supply_nonneg(solution: Seq<char>, guess: Seq<char>, c: char, end: int)
    ensures
        supply(solution, guess, c, end) >= 0,
    decreases end,
{
    if end > 0 {
        lemma_supply_nonneg(solution, guess, c, end - 1);
    }
}

/// Each Yellow occurrence of `c` has a distinct earlier claim, so Yellows
/// never outnumber the claims.
proof fn lemma_yellow_le_demand(solution: Seq<char>, guess: Seq<char>, c: char, end: int)
    ensures
        yellow_count(solution, guess, c, end) <= demand(solution, guess, c, end),
    decreases end,
{
    if end > 0 {
        lemma_yellow_le_demand(solution, guess, c, end - 1);
    }
}

/// Yellows for letter `c` never outnumber the non-exact occurrences of `c`
/// in the solution.
proof fn lemma_yellow_le_supply(solution: Seq<char>, guess: Seq<char>, c: char, end: int)
    ensures
        yellow_count(solution, guess, c, end) <= supply(
            solution,
            guess,
            c,
            solution.len() as int,
        ),
    decreases end,
{
    if end <= 0 {
        lemma_supply_nonneg(solution, guess, c, solution.len() as int);
    } else {
        lemma_yellow_le_supply(solution, guess, c, end - 1);
        if guess[end - 1] == c && score_color(solution, guess, end - 1) == Color::Yellow {
            lemma_yellow_le_demand(solution, guess, c, end - 1);
            assert(demand(solution, guess, c, end - 1) < supply(
                solution,
                guess,
                c,
                solution.len() as int,
            ));
        }
    }
}

/// Exact matches of `c` and non-exact solution occurrences of `c` together
/// count every occurrence of `c` in the solution.
proof fn lemma_green_supply_letter(solution: Seq<char>, guess: Seq<char>, c: char, end: int)
    ensures
        green_count(solution, guess, c, end) + supply(solution, guess, c, end) == letter_count(
            solution,
            c,
            end,
        ),
    decreases end,
{
    if end > 0 {
        lemma_green_supply_letter(solution, guess, c, end - 1);
    }
}

proof fn lemma_matched_split(solution: Seq<char>, guess: Seq<char>, c: char, end: int)
    ensures
        matched_count(solution, guess, c, end) == green_count(solution, guess, c, end)
            + yellow_count(solution, guess, c, end),
    decreases end,
{
    if end > 0 {
        lemma_matched_split(solution, guess, c, end - 1);
    }
}

/// Duplicate-letter law: in one scored row, the positions of a given guess
/// letter that report a match (Green or Yellow) never outnumber that
/// letter's occurrences in the solution word.
pub proof fn lemma_duplicate_letter_bound(solution: Seq<char>, guess: Seq<char>, c: char)
    requires
        solution.len() == guess.len(),
    ensures
        matched_count(solution, guess, c, guess.len() as int) <= letter_count(
            solution,
            c,
            solution.len() as int,
        ),
{
    let l = guess.len() as int;
    lemma_matched_split(solution, guess, c, l);
    lemma_yellow_le_supply(solution, guess, c, l);
    lemma_green_supply_letter(solution, guess, c, l);
}

/// Computes the per-position feedback row for `guess` scored against
/// `solution`, by the two-pass algorithm: exact matches first, then each
/// remaining guess letter claims the first unconsumed matching solution
/// letter, left to right.
pub fn get_colors(solution: &[char; WORDLE_WIDTH], guess: &[char; WORDLE_WIDTH]) -> (colors: [Color;
    WORDLE_WIDTH])
    ensures
        colors@ == score_spec(solution@, guess@),
{
    let ghost sol = solution@;
    let ghost gu = guess@;
    let mut colors = [Color::Gray;WORDLE_WIDTH];
    let mut solution_used = [false;WORDLE_WIDTH];

    // First pass: check for greens
    let mut i: usize = 0;
    while i < WORDLE_WIDTH
        invariant
            i <= WORDLE_WIDTH,
            sol == solution@,
            gu == guess@,
            forall|k: int|
                0 <= k < i ==> colors@[k] == (if gu[k] == sol[k] {
                    Color::Green
                } else {
                    Color::Gray
                }),
            forall|k: int| i <= k < WORDLE_WIDTH ==> colors@[k] == Color::Gray,
            forall|k: int| 0 <= k < i ==> solution_used@[k] == (gu[k] == sol[k]),
            forall|k: int| i <= k < WORDLE_WIDTH ==> solution_used@[k] == false,
        decreases WORDLE_WIDTH - i,
    {
        if guess[i] == solution[i] {
            colors[i] = Color::Green;
            solution_used[i] = true;
        }
        i += 1;
    }

    proof {
        assert forall|c: char|
            consumed(sol, gu, solution_used@, c, WORDLE_WIDTH as int) == (if demand(sol, gu, c, 0)
                <= supply(sol, gu, c, WORDLE_WIDTH as int) {
                demand(sol, gu, c, 0)
            } else {
                supply(sol, gu, c, WORDLE_WIDTH as int)
            }) by {
            lemma_consumed_zero(sol, gu, solution_used@, c, WORDLE_WIDTH as int);
            lemma_gap_grows(sol, gu, solution_used@, c, 0, WORDLE_WIDTH as int);
        }
    }

    // Second pass: check for yellows
    let mut i: usize = 0;
    while i < WORDLE_WIDTH
        invariant
            i <= WORDLE_WIDTH,
            sol == solution@,
            gu == guess@,
            forall|j: int| 0 <= j < WORDLE_WIDTH && gu[j] == sol[j] ==> solution_used@[j],
            forall|c: char|
                #[trigger] consumed(sol, gu, solution_used@, c, WORDLE_WIDTH as int) == (if demand(
                    sol,
                    gu,
                    c,
                    i as int,
                ) <= supply(sol, gu, c, WORDLE_WIDTH as int) {
                    demand(sol, gu, c, i as int)
                } else {
                    supply(sol, gu, c, WORDLE_WIDTH as int)
                }),
            forall|k: int| 0 <= k < i ==> colors@[k] == score_color(sol, gu, k),
            forall|k: int|
                i <= k < WORDLE_WIDTH ==> colors@[k] == (if gu[k] == sol[k] {
                    Color::Green
                } else {
                    Color::Gray
                }),
        decreases WORDLE_WIDTH - i,
    {
        let ghost used0 = solution_used@;
        if colors[i] != Color::Gray {
            proof {
                assert(gu[i as int] == sol[i as int]);
                assert forall|c: char|
                    demand(sol, gu, c, i + 1) == demand(sol, gu, c, i as int) by {}
            }
        } else {
            let ghost c = gu[i as int];
            assert(gu[i as int] != sol[i as int]);
            let mut j: usize = 0;
            let mut hit: usize = WORDLE_WIDTH;
            while j < WORDLE_WIDTH
                invariant
                    j <= WORDLE_WIDTH,
                    i < WORDLE_WIDTH,
                    sol == solution@,
                    gu == guess@,
                    solution_used@ == used0,
                    hit == WORDLE_WIDTH || hit < j,
                    hit == WORDLE_WIDTH ==> forall|j2: int|
                        0 <= j2 < j ==> !(sol[j2] == gu[i as int] && !solution_used@[j2]),
                    hit < WORDLE_WIDTH ==> sol[hit as int] == gu[i as int] && !solution_used@[hit as int],
                decreases WORDLE_WIDTH - j,
            {
                if hit == WORDLE_WIDTH && guess[i] == solution[j] && !solution_used[j] {
                    hit = j;
                }
                j += 1;
            }
            if hit < WORDLE_WIDTH {
                colors[i] = Color::Yellow;
                solution_used[hit] = true;
                proof {
                    assert(gu[hit as int] != sol[hit as int]);
                    lemma_unconsumed_gap(sol, gu, used0, c, hit as int, WORDLE_WIDTH as int);
                    assert(demand(sol, gu, c, i as int) < supply(
                        sol,
                        gu,
                        c,
                        WORDLE_WIDTH as int,
                    ));
                    assert(colors@[i as int] == score_color(sol, gu, i as int));
                    assert(solution_used@ == used0.update(hit as int, true));
                    assert forall|c2: char|
                        consumed(sol, gu, solution_used@, c2, WORDLE_WIDTH as int) == (if demand(
                            sol,
                            gu,
                            c2,
                            i + 1,
                        ) <= supply(sol, gu, c2, WORDLE_WIDTH as int) {
                            demand(sol, gu, c2, i + 1)
                        } else {
                            supply(sol, gu, c2, WORDLE_WIDTH as int)
                        }) by {
                        lemma_consumed_update(sol, gu, used0, hit as int, c2, WORDLE_WIDTH as int);
                        assert(demand(sol, gu, c2, i + 1) == demand(sol, gu, c2, i as int)
                            + if gu[i as int] == c2 {
                            1int
                        } else {
                            0int
                        });
                    }
                }
            } else {
                proof {
                    assert forall|j2: int|
                        0 <= j2 < WORDLE_WIDTH && sol[j2] == c && gu[j2] != sol[j2]
                        implies #[trigger] used0[j2] by {}
                    lemma_all_used(sol, gu, used0, c, WORDLE_WIDTH as int);
                    assert(demand(sol, gu, c, i as int) >= supply(
                        sol,
                        gu,
                        c,
                        WORDLE_WIDTH as int,
                    ));
                    assert(colors@[i as int] == score_color(sol, gu, i as int));
                    assert forall|c2: char|
                        consumed(sol, gu, solution_used@, c2, WORDLE_WIDTH as int) == (if demand(
                            sol,
                            gu,
                            c2,
                            i + 1,
                        ) <= supply(sol, gu, c2, WORDLE_WIDTH as int) {
                            demand(sol, gu, c2, i + 1)
                        } else {
                            supply(sol, gu, c2, WORDLE_WIDTH as int)
                        }) by {
                        assert(demand(sol, gu, c2, i + 1) == demand(sol, gu, c2, i as int)
                            + if gu[i as int] == c2 {
                            1int
                        } else {
                            0int
                        });
                    }
                }
            }
        }
        i += 1;
    }
    proof {
        assert(colors@ =~= score_spec(sol, gu));
    }
    colors
}

} // verus!
