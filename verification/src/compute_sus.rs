use crate::builder::{board_model, map_builder, map_model_empty, MapModel, SusMap};
use crate::context::{fill_context, ingest_model, ingest_report, WORDLE_WIDTH};
use crate::score::{get_colors, score_spec};
use vstd::prelude::*;
use vstd::string::StrSliceExecFns;

verus! {

/// The Search Driver's outcome as a function of its inputs: stream the word
/// list once in the given order, skip entries that are not exactly five
/// letters, score and ingest every other entry, and stop at the first
/// ingest step that reports a full assembly, whose board is the result;
/// `None` when the list is exhausted with no assembly ever full.
pub open spec fn run_search(target: Seq<char>, words: Seq<Seq<char>>, s: MapModel) -> Option<
    Seq<Seq<char>>,
>
    decreases words.len(),
{
    if words.len() == 0 {
        None
    } else {
        let w = words[0];
        let rest = words.subrange(1, words.len() as int);
        if w.len() != WORDLE_WIDTH {
            run_search(target, rest, s)
        } else {
            let colors = score_spec(target, w);
            match ingest_report(s, colors, w) {
                Some(bg) => Some(board_model(map_builder(ingest_model(s, colors, w), bg))),
                None => run_search(target, rest, ingest_model(s, colors, w)),
            }
        }
    }
}

/// Determinism law: the search outcome is a function of the target word and
/// the ordered word list alone, so two runs over the same inputs report the
/// same board or the same absence of one.
pub proof fn lemma_search_deterministic(
    target: Seq<char>,
    words: Seq<Seq<char>>,
    r1: Option<Seq<Seq<char>>>,
    r2: Option<Seq<Seq<char>>>,
)
    requires
        r1 == run_search(target, words, map_model_empty()),
        r2 == run_search(target, words, map_model_empty()),
    ensures
        r1 == r2,
{
}

/// Searches the word list, in order, for the first six guesses that draw
/// the crewmate pattern on the feedback grid when scored against the given
/// target word. Entries that are not exactly five letters long are skipped.
/// On success the six rows are, in order: background, head, eyes, body,
/// legs, and the background word again.
pub fn compute_sus(word: &[char; WORDLE_WIDTH], words: &Vec<String>) -> (r: Option<[String; 6]>)
    ensures
        ({
            let outcome = run_search(word@, words.deep_view(), map_model_empty());
            match r {
                Some(board) => outcome is Some && board.deep_view() == outcome.unwrap(),
                None => outcome is None,
            }
        }),
{
    let ghost target = word@;
    let ghost all = words.deep_view();
    let mut map = SusMap::new();
    let mut idx: usize = 0;
    proof {
        assert(all.subrange(0, all.len() as int) =~= all);
    }
    while idx < words.len()
        invariant
            idx <= words.len(),
            target == word@,
            all == words.deep_view(),
            all.len() == words@.len(),
            map.wf(),
            run_search(target, all, map_model_empty()) == run_search(
                target,
                all.subrange(idx as int, all.len() as int),
                map@,
            ),
        decreases words@.len() - idx,
    {
        let candidate: &String = &words[idx];
        let ghost suffix = all.subrange(idx as int, all.len() as int);
        proof {
            assert(suffix[0] == all[idx as int]);
            assert(all[idx as int] == candidate@);
            assert(suffix.subrange(1, suffix.len() as int) =~= all.subrange(
                idx + 1,
                all.len() as int,
            ));
        }
        if candidate.as_str().unicode_len() == WORDLE_WIDTH {
            let letters: [char; WORDLE_WIDTH] = [
                candidate.as_str().get_char(0),
                candidate.as_str().get_char(1),
                candidate.as_str().get_char(2),
                candidate.as_str().get_char(3),
                candidate.as_str().get_char(4),
            ];
            proof {
                assert(letters@ =~= candidate@);
            }
            let colors = get_colors(word, &letters);
            let ghost pre = map@;
            let res = fill_context(&mut map, &colors, candidate.as_str());
            if let Some(bg) = res {
                let board = map.convert(bg);
                proof {
                    assert(run_search(target, suffix, pre) == Some(
                        board_model(map_builder(map@, bg)),
                    ));
                }
                return Some(board);
            }
        }
        idx += 1;
    }
    proof {
        assert(all.subrange(all.len() as int, all.len() as int).len() == 0);
    }
    None
}

} // verus!
