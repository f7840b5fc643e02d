//! One batch (a week's games): every page extracted in order and folded into
//! one aggregator; a page that fails ends the batch.

use vstd::prelude::*;
use crate::aggregate::{tagged, Aggregator, CoordV};
use crate::game::{game_from, page_selections, parse_game_log, ExtractError, GameV, CATEGORY_COUNT};
use crate::rows::RecordV;

verus! {

/// Which page of a batch failed, and why.
#[derive(Clone, Copy, Debug, PartialEq, Eq, Structural)]
pub struct BatchError {
    pub page: usize,
    pub error: ExtractError,
}

pub open spec fn no_records() -> Seq<Seq<(CoordV, RecordV)>> {
    Seq::new(CATEGORY_COUNT as nat, |c: int| Seq::<(CoordV, RecordV)>::empty())
}

/// A batch's records by category from the outcomes of its pages, in page
/// order, or the first page that failed.
pub open spec fn batch_from(year: u32, week: u32, outcomes: Seq<Result<GameV, ExtractError>>) -> Result<
    Seq<Seq<(CoordV, RecordV)>>,
    (int, ExtractError),
>
    decreases outcomes.len(),
{
    if outcomes.len() == 0 {
        Ok(no_records())
    } else {
        match batch_from(year, week, outcomes.drop_last()) {
            Err(e) => Err(e),
            Ok(acc) => match outcomes.last() {
                Err(e) => Err((outcomes.len() - 1, e)),
                Ok(g) => Ok(
                    Seq::new(
                        CATEGORY_COUNT as nat,
                        |c: int| acc[c] + tagged(CoordV { year, week, game_id: g.game_id }, g.sections[c]),
                    ),
                ),
            },
        }
    }
}

/// The outcome of each page.
pub open spec fn page_outcomes(pages: Seq<String>) -> Seq<Result<GameV, ExtractError>> {
    pages.map_values(|p: String| game_from(page_selections(p@)))
}

/// Extracts a week's game pages in order and collects their records by
/// category; the first page that fails ends the batch with its error.
pub fn process_pages(year: u32, week: u32, pages: &Vec<String>) -> (r: Result<Aggregator, BatchError>)
    ensures
        match r {
            Ok(agg) => agg.wf() && batch_from(year, week, page_outcomes(pages@)) == Ok::<_, (int, ExtractError)>(agg@),
            Err(e) => batch_from(year, week, page_outcomes(pages@)) == Err::<Seq<Seq<(CoordV, RecordV)>>, _>((e.page as int, e.error)),
        },
{
    let ghost outcomes = page_outcomes(pages@);
    let mut agg = Aggregator::new();
    let mut i: usize = 0;
    assert(outcomes.take(0) =~= seq![]);
    while i < pages.len()
        invariant
            outcomes == page_outcomes(pages@),
            i <= pages@.len(),
            agg.wf(),
            batch_from(year, week, outcomes.take(i as int)) == Ok::<_, (int, ExtractError)>(agg@),
        decreases pages@.len() - i,
    {
        assert(outcomes.take(i + 1).drop_last() =~= outcomes.take(i as int));
        assert(outcomes.take(i + 1).last() == game_from(page_selections(pages@[i as int]@)));
        match parse_game_log(pages[i].as_str()) {
            Err(e) => {
                proof {
                    lemma_batch_error_stays(year, week, outcomes, i as int + 1);
                    assert(outcomes.take(outcomes.len() as int) =~= outcomes);
                }
                return Err(BatchError { page: i, error: e });
            },
            Ok(g) => {
                assert(g@.sections.len() == CATEGORY_COUNT);
                assert(g.sections@.len() == g@.sections.len());
                agg.add_game(year, week, &g);
            },
        }
        i = i + 1;
    }
    assert(outcomes.take(outcomes.len() as int) =~= outcomes);
    Ok(agg)
}

proof fn lemma_batch_error_stays(year: u32, week: u32, outcomes: Seq<Result<GameV, ExtractError>>, k: int)
    requires
        0 < k <= outcomes.len(),
        batch_from(year, week, outcomes.take(k)) is Err,
    ensures
        batch_from(year, week, outcomes.take(outcomes.len() as int)) == batch_from(year, week, outcomes.take(k)),
    decreases outcomes.len() - k,
{
    if k < outcomes.len() {
        assert(outcomes.take(k + 1).drop_last() =~= outcomes.take(k));
        lemma_batch_error_stays(year, week, outcomes, k + 1);
    }
}

} // verus!
