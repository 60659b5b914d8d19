//! Queries that run in one pass: a selection that the store evaluates, a
//! projection of each row to an item, a fold of the items in arrival order,
//! and a rendering of what the fold has accumulated.

use crate::action::ActionHash;
use vstd::prelude::*;

verus! {

/// Why a query produced no output.
#[derive(Clone, Copy, Debug, PartialEq, Eq)]
pub enum QueryError {
    /// The row stored under this hash holds no well-formed action.
    Decode(ActionHash),
}

/// `outcome` is what `model` calls for: the same failure, or a success whose
/// view is the model's.
pub open spec fn meets<T: View>(
    outcome: Result<T, QueryError>,
    model: Result<T::V, QueryError>,
) -> bool {
    match model {
        Ok(value) => outcome is Ok && outcome->Ok_0@ == value,
        Err(error) => outcome is Err && outcome->Err_0 == error,
    }
}

/// A read-only aggregation over the rows that a store delivers.
///
/// Each step has a model: what it yields on given input, or the error it
/// fails with. A step does what its model says.
pub trait Query {
    type Row;

    type Item;

    type State: View;

    type Output: View;

    /// The state that a fold starts from.
    spec fn init_model(&self) -> Result<<Self::State as View>::V, QueryError>;

    /// The item that a row projects to.
    spec fn map_model(&self, row: Self::Row) -> Result<Self::Item, QueryError>;

    /// The state after an item.
    spec fn fold_model(&self, state: <Self::State as View>::V, item: Self::Item) -> Result<
        <Self::State as View>::V,
        QueryError,
    >;

    /// The output for a final state.
    spec fn render_model(&self, state: <Self::State as View>::V) -> Result<
        <Self::Output as View>::V,
        QueryError,
    >;

    /// The selection, in the store's language. The store must deliver the
    /// selected rows in the order that the selection names.
    fn query(&self) -> String;

    fn init_fold(&self) -> (r: Result<Self::State, QueryError>)
        ensures
            meets(r, self.init_model()),
    ;

    fn map_row(&self, row: Self::Row) -> (r: Result<Self::Item, QueryError>)
        ensures
            r == self.map_model(row),
    ;

    fn fold(&self, state: Self::State, item: Self::Item) -> (r: Result<Self::State, QueryError>)
        ensures
            meets(r, self.fold_model(state@, item)),
    ;

    fn render(&self, state: Self::State) -> (r: Result<Self::Output, QueryError>)
        ensures
            meets(r, self.render_model(state@)),
    ;
}

/// The state after the rows, each projected and folded in order, or the
/// first failure on the way.
pub open spec fn fold_rows<Q: Query>(query: &Q, rows: Seq<Q::Row>) -> Result<
    <Q::State as View>::V,
    QueryError,
>
    decreases rows.len(),
{
    if rows.len() == 0 {
        query.init_model()
    } else {
        match fold_rows(query, rows.drop_last()) {
            Ok(state) => match query.map_model(rows.last()) {
                Ok(item) => query.fold_model(state, item),
                Err(error) => Err(error),
            },
            Err(error) => Err(error),
        }
    }
}

/// The output of a query over the rows, or the first failure on the way.
pub open spec fn run_model<Q: Query>(query: &Q, rows: Seq<Q::Row>) -> Result<
    <Q::Output as View>::V,
    QueryError,
> {
    match fold_rows(query, rows) {
        Ok(state) => query.render_model(state),
        Err(error) => Err(error),
    }
}

/// A failure stays the same failure however many rows follow.
pub proof fn lemma_failure_stays<Q: Query>(query: &Q, rows: Seq<Q::Row>, upto: int)
    requires
        0 <= upto <= rows.len(),
        fold_rows(query, rows.take(upto)) is Err,
    ensures
        fold_rows(query, rows) == fold_rows(query, rows.take(upto)),
    decreases rows.len() - upto,
{
    if upto < rows.len() {
        assert(rows.take(upto + 1).drop_last() == rows.take(upto));
        lemma_failure_stays(query, rows, upto + 1);
    } else {
        assert(rows.take(upto) == rows);
    }
}

/// Runs a query over the rows that the store delivered, in their order: each
/// row is projected and folded before the next is looked at, and the final
/// state is rendered. The first failure ends the run, and nothing of the state
/// so far is rendered.
pub fn run<Q: Query>(query: &Q, rows: Vec<Q::Row>) -> (r: Result<Q::Output, QueryError>)
    ensures
        meets(r, run_model(query, rows@)),
{
    let ghost all = rows@;
    proof {
        assert(all.take(0) == Seq::<Q::Row>::empty());
    }
    let mut state = match query.init_fold() {
        Ok(state) => state,
        Err(e) => {
            proof {
                lemma_failure_stays(query, all, 0);
            }
            return Err(e);
        },
    };
    for row in it: rows
        invariant
            it.seq() == all,
            fold_rows(query, all.take(it.index() as int)) is Ok,
            fold_rows(query, all.take(it.index() as int))->Ok_0 == state@,
    {
        let ghost seen = it.index() as int;
        proof {
            assert(all.take(seen + 1).drop_last() == all.take(seen));
            assert(all.take(seen + 1).last() == row);
        }
        let item = match query.map_row(row) {
            Ok(item) => item,
            Err(e) => {
                proof {
                    lemma_failure_stays(query, all, seen + 1);
                }
                return Err(e);
            },
        };
        state = match query.fold(state, item) {
            Ok(state) => state,
            Err(e) => {
                proof {
                    lemma_failure_stays(query, all, seen + 1);
                }
                return Err(e);
            },
        };
    }
    proof {
        assert(all.take(all.len() as int) == all);
    }
    query.render(state)
}

} // verus!
