//! When two runs of a row computation come to the same.

use vstd::prelude::*;

use crate::array::{dense, repeated, Array};
use crate::dtype::DTypeModel;
use crate::error::{Error, ErrorModel};
use crate::row::element::InputElement;
use crate::row::execute::{
    any_evidence, branch_execution, computed, determined, every_row, executes, execution_from,
    prepared_execution, presents, row_fails, row_ran, row_step, rows_ran, starts, steps, taken,
    yields, RowExecution,
};
use crate::row::result::SinkResult;
use crate::row::sink::{ElementSink, OutputElement, OutputSink};
use crate::row::tuple::ElementTuple;

verus! {

/// Whether a row computation does the same with the same elements from either of two states.
pub open spec fn agree<E, P, Slot, R>(
    computes: spec_fn(P, E, Slot, Slot, R) -> bool,
    left: P,
    right: P,
) -> bool {
    forall|
        elems: E,
        before: Slot,
        left_after: Slot,
        left_outcome: R,
        right_after: Slot,
        right_outcome: R,
    |
        #[trigger] computed(computes, left, elems, before, left_after, left_outcome)
            && #[trigger] computed(computes, right, elems, before, right_after, right_outcome)
            ==> left_after == right_after && left_outcome == right_outcome
}

/// Whether a row computation does the same with the same elements, be it prepared from one set of
/// constants or from another.
pub open spec fn settled<C, E, P, Slot, R>(
    prepares: spec_fn(C, P) -> bool,
    computes: spec_fn(P, E, Slot, Slot, R) -> bool,
    left: C,
    right: C,
) -> bool {
    forall|left_state: P, right_state: P|
        #[trigger] yields(prepares, left, left_state) && #[trigger] yields(
            prepares,
            right,
            right_state,
        ) ==> agree(computes, left_state, right_state)
}

/// Whether sinks for as many rows of a type all start out alike.
pub open spec fn starts_alike<S: OutputSink>(row_count: nat, dtype: DTypeModel) -> bool {
    forall|left: Seq<S::Slot>, right: Seq<S::Slot>|
        #[trigger] starts::<S>(row_count, dtype, left) && #[trigger] starts::<S>(
            row_count,
            dtype,
            right,
        ) ==> left == right
}

/// Whether two batches are read as the same elements at every row set in `bits`.
pub open spec fn same_elements<A: ElementTuple>(
    left: &A::Batch,
    right: &A::Batch,
    bits: Seq<bool>,
) -> bool {
    forall|i: int|
        0 <= i < bits.len() && bits[i] ==> {
            &&& #[trigger] determined::<A>(*left, i)
            &&& determined::<A>(*right, i)
            &&& A::elems(left, i) == A::elems(right, i)
        }
}

/// Whether two runs came to the same.
pub open spec fn same_run<V>(
    left: Result<RowExecution<V>, Error>,
    right: Result<RowExecution<V>, Error>,
) -> bool {
    match (left, right) {
        (Ok(RowExecution::Output(left)), Ok(RowExecution::Output(right))) => left@ == right@,
        (Ok(RowExecution::DeferredError(left)), Ok(RowExecution::DeferredError(right))) => left@
            == right@,
        (Err(left), Err(right)) => left@ == right@,
        _ => false,
    }
}

/// Whether two runs that may decline came to the same.
pub open spec fn same_skipping_run<V>(
    left: Result<Option<RowExecution<V>>, Error>,
    right: Result<Option<RowExecution<V>>, Error>,
) -> bool {
    match (left, right) {
        (Ok(None), Ok(None)) => true,
        (Ok(None), _) => false,
        (_, Ok(None)) => false,
        _ => same_run(taken(left), taken(right)),
    }
}

/// A sink of owned values starts out with placeholders, and nothing else.
pub proof fn element_sinks_start_alike<T: OutputElement>(row_count: nat, dtype: DTypeModel)
    ensures
        starts_alike::<ElementSink<T>>(row_count, dtype),
{
    assert forall|left: Seq<T>, right: Seq<T>|
        #[trigger] starts::<ElementSink<T>>(row_count, dtype, left) && #[trigger] starts::<
            ElementSink<T>,
        >(row_count, dtype, right) implies left == right by {
        assert(left =~= right);
    }
}

/// One row of two runs.
proof fn lemma_same_step<'a, A: ElementTuple, P, S: OutputSink, R: SinkResult>(
    left: &'a A::Batch,
    right: &'a A::Batch,
    computes: spec_fn(P, A::Elems<'a>, S::Slot, S::Slot, R) -> bool,
    left_state: P,
    right_state: P,
    i: int,
    before: S::Slot,
    left_after: S::Slot,
    left_outcome: R,
    right_after: S::Slot,
    right_outcome: R,
)
    requires
        agree(computes, left_state, right_state),
        determined::<A>(*left, i),
        determined::<A>(*right, i),
        A::elems(left, i) == A::elems(right, i),
        steps(
            row_step::<A, P, S, R>(left, computes, left_state),
            i,
            before,
            left_after,
            left_outcome,
        ),
        steps(
            row_step::<A, P, S, R>(right, computes, right_state),
            i,
            before,
            right_after,
            right_outcome,
        ),
    ensures
        left_after == right_after,
        left_outcome == right_outcome,
{
    let elems = choose|elems: A::Elems<'a>| #[trigger]
        presents::<A>(left, i, elems) && computes(
            left_state,
            elems,
            before,
            left_after,
            left_outcome,
        );
    let other = choose|elems: A::Elems<'a>| #[trigger]
        presents::<A>(right, i, elems) && computes(
            right_state,
            elems,
            before,
            right_after,
            right_outcome,
        );
    assert(computed(computes, left_state, elems, before, left_after, left_outcome));
    assert(computed(computes, right_state, other, before, right_after, right_outcome));
}

/// What two runs left, where neither was ended.
proof fn lemma_same_slots<'a, A: ElementTuple, P, S: OutputSink, R: SinkResult>(
    left: &'a A::Batch,
    right: &'a A::Batch,
    bits: Seq<bool>,
    computes: spec_fn(P, A::Elems<'a>, S::Slot, S::Slot, R) -> bool,
    left_state: P,
    right_state: P,
    start: Seq<S::Slot>,
    left_slots: Seq<S::Slot>,
    left_outcomes: Seq<R>,
    right_slots: Seq<S::Slot>,
    right_outcomes: Seq<R>,
)
    requires
        agree(computes, left_state, right_state),
        same_elements::<A>(left, right, bits),
        rows_ran(
            row_step::<A, P, S, R>(left, computes, left_state),
            bits,
            start,
            left_slots,
            left_outcomes,
        ),
        rows_ran(
            row_step::<A, P, S, R>(right, computes, right_state),
            bits,
            start,
            right_slots,
            right_outcomes,
        ),
    ensures
        left_slots == right_slots,
        any_evidence(bits, left_outcomes) == any_evidence(bits, right_outcomes),
{
    let left_step = row_step::<A, P, S, R>(left, computes, left_state);
    let right_step = row_step::<A, P, S, R>(right, computes, right_state);
    assert forall|i: int| 0 <= i < bits.len() implies {
        &&& #[trigger] left_slots[i] == right_slots[i]
        &&& bits[i] ==> left_outcomes[i] == right_outcomes[i]
    } by {
        if bits[i] {
            assert(determined::<A>(*left, i));
            assert(row_ran(left_step, i, start, left_slots, left_outcomes));
            assert(row_ran(right_step, i, start, right_slots, right_outcomes));
            lemma_same_step::<A, P, S, R>(
                left,
                right,
                computes,
                left_state,
                right_state,
                i,
                start[i],
                left_slots[i],
                left_outcomes[i],
                right_slots[i],
                right_outcomes[i],
            );
        }
    }
    assert(left_slots =~= right_slots);
    if any_evidence(bits, left_outcomes) {
        let i = choose|i: int|
            0 <= i < bits.len() && bits[i] && #[trigger] left_outcomes[i].evidence();
        assert(left_slots[i] == right_slots[i]);
        assert(right_outcomes[i].evidence());
    }
    if any_evidence(bits, right_outcomes) {
        let i = choose|i: int|
            0 <= i < bits.len() && bits[i] && #[trigger] right_outcomes[i].evidence();
        assert(left_slots[i] == right_slots[i]);
        assert(left_outcomes[i].evidence());
    }
}

/// Where one run is ended by a row, the other does not get past that row.
proof fn lemma_same_end<'a, A: ElementTuple, P, S: OutputSink, R: SinkResult>(
    left: &'a A::Batch,
    right: &'a A::Batch,
    dtype: DTypeModel,
    bits: Seq<bool>,
    computes: spec_fn(P, A::Elems<'a>, S::Slot, S::Slot, R) -> bool,
    left_state: P,
    right_state: P,
    start: Seq<S::Slot>,
    k: int,
    slots: Seq<S::Slot>,
    outcomes: Seq<R>,
    after: S::Slot,
    error: ErrorModel,
    result: Result<RowExecution<S::Value>, Error>,
)
    requires
        agree(computes, left_state, right_state),
        same_elements::<A>(left, right, bits),
        row_fails(
            row_step::<A, P, S, R>(left, computes, left_state),
            bits,
            k,
            start,
            slots,
            outcomes,
            after,
            error,
        ),
        execution_from::<S, R>(
            row_step::<A, P, S, R>(right, computes, right_state),
            dtype,
            bits,
            start,
            result,
        ),
    ensures
        result matches Err(cause) && cause@ == error,
{
    let left_step = row_step::<A, P, S, R>(left, computes, left_state);
    let right_step = row_step::<A, P, S, R>(right, computes, right_state);
    assert(determined::<A>(*left, k));
    if exists|slots: Seq<S::Slot>, outcomes: Seq<R>| #[trigger]
        rows_ran(right_step, bits, start, slots, outcomes) {
        let (other_slots, other_outcomes) = choose|slots: Seq<S::Slot>, outcomes: Seq<R>| #[trigger]
            rows_ran(right_step, bits, start, slots, outcomes);
        assert(row_ran(right_step, k, start, other_slots, other_outcomes));
        lemma_same_step::<A, P, S, R>(
            left,
            right,
            computes,
            left_state,
            right_state,
            k,
            start[k],
            after,
            outcomes[k],
            other_slots[k],
            other_outcomes[k],
        );
    } else {
        let cause = result->Err_0;
        let (other_k, other_slots, other_outcomes, other_after) = choose|
            k: int,
            slots: Seq<S::Slot>,
            outcomes: Seq<R>,
            after: S::Slot,
        | #[trigger] row_fails(right_step, bits, k, start, slots, outcomes, after, cause@);
        assert(determined::<A>(*left, other_k));
        if other_k < k {
            assert(row_ran(left_step, other_k, start, slots, outcomes));
            lemma_same_step::<A, P, S, R>(
                left,
                right,
                computes,
                left_state,
                right_state,
                other_k,
                start[other_k],
                slots[other_k],
                outcomes[other_k],
                other_after,
                other_outcomes[other_k],
            );
        } else if k < other_k {
            assert(row_ran(right_step, k, start, other_slots, other_outcomes));
            lemma_same_step::<A, P, S, R>(
                left,
                right,
                computes,
                left_state,
                right_state,
                k,
                start[k],
                after,
                outcomes[k],
                other_slots[k],
                other_outcomes[k],
            );
        } else {
            lemma_same_step::<A, P, S, R>(
                left,
                right,
                computes,
                left_state,
                right_state,
                k,
                start[k],
                after,
                outcomes[k],
                other_after,
                other_outcomes[k],
            );
        }
    }
}

/// Two runs from states that agree, over batches that are read as the same elements wherever a row
/// runs, come to the same.
proof fn lemma_same_run<'a, A: ElementTuple, P, S: OutputSink, R: SinkResult>(
    left: &'a A::Batch,
    right: &'a A::Batch,
    dtype: DTypeModel,
    bits: Seq<bool>,
    prepares: spec_fn(A::ConstElems<'a>, P) -> bool,
    computes: spec_fn(P, A::Elems<'a>, S::Slot, S::Slot, R) -> bool,
    left_state: P,
    right_state: P,
    left_result: Result<RowExecution<S::Value>, Error>,
    right_result: Result<RowExecution<S::Value>, Error>,
)
    requires
        starts_alike::<S>(bits.len(), dtype),
        settled(prepares, computes, A::consts(left), A::consts(right)),
        same_elements::<A>(left, right, bits),
        executes::<A, P, S, R>(
            left,
            dtype,
            bits,
            prepares,
            computes,
            left_state,
            left_result,
        ),
        executes::<A, P, S, R>(
            right,
            dtype,
            bits,
            prepares,
            computes,
            right_state,
            right_result,
        ),
    ensures
        same_run(left_result, right_result),
{
    let left_step = row_step::<A, P, S, R>(left, computes, left_state);
    let right_step = row_step::<A, P, S, R>(right, computes, right_state);
    assert(yields(prepares, A::consts(left), left_state));
    assert(yields(prepares, A::consts(right), right_state));
    assert(agree(computes, left_state, right_state));
    assert(agree(computes, right_state, left_state));
    assert(same_elements::<A>(right, left, bits)) by {
        assert forall|i: int| 0 <= i < bits.len() && bits[i] implies {
            &&& #[trigger] determined::<A>(*right, i)
            &&& determined::<A>(*left, i)
            &&& A::elems(right, i) == A::elems(left, i)
        } by {
            assert(determined::<A>(*left, i));
        }
    }
    let start = choose|start: Seq<S::Slot>| #[trigger]
        starts::<S>(bits.len(), dtype, start) && execution_from::<S, R>(
            left_step,
            dtype,
            bits,
            start,
            left_result,
        );
    let other_start = choose|start: Seq<S::Slot>| #[trigger]
        starts::<S>(bits.len(), dtype, start) && execution_from::<S, R>(
            right_step,
            dtype,
            bits,
            start,
            right_result,
        );
    assert(start == other_start);
    if left_result is Err && exists|
        k: int,
        slots: Seq<S::Slot>,
        outcomes: Seq<R>,
        after: S::Slot,
    | #[trigger]
        row_fails(left_step, bits, k, start, slots, outcomes, after, left_result->Err_0@) {
        let (k, slots, outcomes, after) = choose|
            k: int,
            slots: Seq<S::Slot>,
            outcomes: Seq<R>,
            after: S::Slot,
        | #[trigger]
            row_fails(left_step, bits, k, start, slots, outcomes, after, left_result->Err_0@);
        lemma_same_end::<A, P, S, R>(
            left,
            right,
            dtype,
            bits,
            computes,
            left_state,
            right_state,
            start,
            k,
            slots,
            outcomes,
            after,
            left_result->Err_0@,
            right_result,
        );
    } else if right_result is Err && exists|
        k: int,
        slots: Seq<S::Slot>,
        outcomes: Seq<R>,
        after: S::Slot,
    | #[trigger]
        row_fails(right_step, bits, k, start, slots, outcomes, after, right_result->Err_0@) {
        let (k, slots, outcomes, after) = choose|
            k: int,
            slots: Seq<S::Slot>,
            outcomes: Seq<R>,
            after: S::Slot,
        | #[trigger]
            row_fails(right_step, bits, k, start, slots, outcomes, after, right_result->Err_0@);
        lemma_same_end::<A, P, S, R>(
            right,
            left,
            dtype,
            bits,
            computes,
            right_state,
            left_state,
            start,
            k,
            slots,
            outcomes,
            after,
            right_result->Err_0@,
            left_result,
        );
    } else {
        let (slots, outcomes) = lemma_finished::<S, R>(left_step, dtype, bits, start, left_result);
        let (other_slots, other_outcomes) = lemma_finished::<S, R>(
            right_step,
            dtype,
            bits,
            start,
            right_result,
        );
        lemma_same_slots::<A, P, S, R>(
            left,
            right,
            bits,
            computes,
            left_state,
            right_state,
            start,
            slots,
            outcomes,
            other_slots,
            other_outcomes,
        );
    }
}

/// What a run that no row ended was finished with.
proof fn lemma_finished<S: OutputSink, R: SinkResult>(
    step: spec_fn(int, S::Slot, S::Slot, R) -> bool,
    dtype: DTypeModel,
    bits: Seq<bool>,
    start: Seq<S::Slot>,
    result: Result<RowExecution<S::Value>, Error>,
) -> (run: (Seq<S::Slot>, Seq<R>))
    requires
        execution_from::<S, R>(step, dtype, bits, start, result),
        !(result is Err && exists|
            k: int,
            slots: Seq<S::Slot>,
            outcomes: Seq<R>,
            after: S::Slot,
        | #[trigger]
            row_fails(step, bits, k, start, slots, outcomes, after, result->Err_0@)),
    ensures
        rows_ran(step, bits, start, run.0, run.1),
        match result {
            Ok(RowExecution::Output(array)) => {
                &&& S::finish_failure(dtype, run.0, any_evidence(bits, run.1)) is None
                &&& array@ == dense(dtype, run.0.map_values(|slot: S::Slot| S::value_of(slot)))
            },
            Ok(RowExecution::DeferredError(error)) => {
                &&& any_evidence(bits, run.1)
                &&& S::finish_failure(dtype, run.0, true) == Some(error@)
            },
            Err(error) => {
                &&& !any_evidence(bits, run.1)
                &&& S::finish_failure(dtype, run.0, false) == Some(error@)
            },
        },
{
    match result {
        Ok(RowExecution::Output(array)) => {
            let (slots, outcomes) = choose|slots: Seq<S::Slot>, outcomes: Seq<R>|
                {
                    &&& #[trigger] rows_ran(step, bits, start, slots, outcomes)
                    &&& S::ERRORS_ARE_DEFERRED ==> !any_evidence(bits, outcomes)
                    &&& S::finish_failure(dtype, slots, any_evidence(bits, outcomes)) is None
                    &&& array@ == dense(dtype, slots.map_values(|slot: S::Slot| S::value_of(slot)))
                };
            (slots, outcomes)
        },
        Ok(RowExecution::DeferredError(error)) => {
            let (slots, outcomes) = choose|slots: Seq<S::Slot>, outcomes: Seq<R>|
                {
                    &&& #[trigger] rows_ran(step, bits, start, slots, outcomes)
                    &&& any_evidence(bits, outcomes)
                    &&& S::finish_failure(dtype, slots, true) == Some(error@)
                };
            (slots, outcomes)
        },
        Err(error) => {
            let (slots, outcomes) = choose|slots: Seq<S::Slot>, outcomes: Seq<R>|
                {
                    &&& #[trigger] rows_ran(step, bits, start, slots, outcomes)
                    &&& !any_evidence(bits, outcomes)
                    &&& S::finish_failure(dtype, slots, false) == Some(error@)
                };
            (slots, outcomes)
        },
    }
}

/// What lies behind a row that does not run can neither fail a batch nor reach its output: two runs
/// over only the rows set in `bits`, of batches that may differ anywhere else, come to the same.
pub proof fn skipped_rows_do_not_matter<'a, A: ElementTuple, P, S: OutputSink, R: SinkResult>(
    left: &'a A::Batch,
    right: &'a A::Batch,
    dtype: DTypeModel,
    bits: Seq<bool>,
    prepares: spec_fn(A::ConstElems<'a>, P) -> bool,
    computes: spec_fn(P, A::Elems<'a>, S::Slot, S::Slot, R) -> bool,
    left_result: Result<Option<RowExecution<S::Value>>, Error>,
    right_result: Result<Option<RowExecution<S::Value>>, Error>,
)
    requires
        starts_alike::<S>(bits.len(), dtype),
        settled(prepares, computes, A::consts(left), A::consts(right)),
        same_elements::<A>(left, right, bits),
        A::tolerant(*left) == A::tolerant(*right),
        A::decoded_lens(*left, bits.len()) == A::decoded_lens(*right, bits.len()),
        branch_execution::<A, P, S, R>(
            left,
            bits.len(),
            dtype,
            bits,
            prepares,
            computes,
            left_result,
        ),
        branch_execution::<A, P, S, R>(
            right,
            bits.len(),
            dtype,
            bits,
            prepares,
            computes,
            right_result,
        ),
    ensures
        same_skipping_run(left_result, right_result),
{
    if exists|state: P| #[trigger]
        executes::<A, P, S, R>(
            left,
            dtype,
            bits,
            prepares,
            computes,
            state,
            taken(left_result),
        ) && exists|state: P| #[trigger]
        executes::<A, P, S, R>(
            right,
            dtype,
            bits,
            prepares,
            computes,
            state,
            taken(right_result),
        ) {
        let left_state = choose|state: P| #[trigger]
            executes::<A, P, S, R>(
                left,
                dtype,
                bits,
                prepares,
                computes,
                state,
                taken(left_result),
            );
        let right_state = choose|state: P| #[trigger]
            executes::<A, P, S, R>(
                right,
                dtype,
                bits,
                prepares,
                computes,
                state,
                taken(right_result),
            );
        lemma_same_run::<A, P, S, R>(
            left,
            right,
            dtype,
            bits,
            prepares,
            computes,
            left_state,
            right_state,
            taken(left_result),
            taken(right_result),
        );
    }
}

/// How a batch is stored does not show in a run over every row of it: where batches are read as the
/// same elements, be a column constant or written out, the runs come to the same.
pub proof fn equal_elements_run_alike<'a, A: ElementTuple, P, S: OutputSink, R: SinkResult>(
    left: &'a A::Batch,
    right: &'a A::Batch,
    row_count: nat,
    dtype: DTypeModel,
    prepares: spec_fn(A::ConstElems<'a>, P) -> bool,
    computes: spec_fn(P, A::Elems<'a>, S::Slot, S::Slot, R) -> bool,
    left_result: Result<RowExecution<S::Value>, Error>,
    right_result: Result<RowExecution<S::Value>, Error>,
)
    requires
        starts_alike::<S>(row_count, dtype),
        settled(prepares, computes, A::consts(left), A::consts(right)),
        same_elements::<A>(left, right, every_row(row_count)),
        A::failure(*left) == A::failure(*right),
        A::decoded_lens(*left, row_count) == A::decoded_lens(*right, row_count),
        prepared_execution::<A, P, S, R>(
            left,
            row_count,
            dtype,
            prepares,
            computes,
            left_result,
        ),
        prepared_execution::<A, P, S, R>(
            right,
            row_count,
            dtype,
            prepares,
            computes,
            right_result,
        ),
    ensures
        same_run(left_result, right_result),
{
    let bits = every_row(row_count);
    if exists|state: P| #[trigger]
        executes::<A, P, S, R>(left, dtype, bits, prepares, computes, state, left_result)
        && exists|state: P| #[trigger]
        executes::<A, P, S, R>(right, dtype, bits, prepares, computes, state, right_result) {
        let left_state = choose|state: P| #[trigger]
            executes::<A, P, S, R>(left, dtype, bits, prepares, computes, state, left_result);
        let right_state = choose|state: P| #[trigger]
            executes::<A, P, S, R>(right, dtype, bits, prepares, computes, state, right_result);
        lemma_same_run::<A, P, S, R>(
            left,
            right,
            dtype,
            bits,
            prepares,
            computes,
            left_state,
            right_state,
            left_result,
            right_result,
        );
    }
}

/// A constant argument is read at every row as the column that holds its value in each is.
pub proof fn constants_read_as_written_out<E: InputElement, R: ElementTuple>(
    dtype: DTypeModel,
    value: E::Value,
    row_count: nat,
    rest: R::Batch,
    other: R::Batch,
    i: int,
)
    requires
        0 <= i < row_count,
        R::valid_at(rest, i),
        R::valid_at(other, i),
        R::elems(&rest, i) == R::elems(&other, i),
    ensures
        ({
            let constant = (repeated(dtype, value, row_count), rest);
            let written = (dense(dtype, Seq::new(row_count, |k: int| value)), other);
            &&& determined::<(E, R)>(constant, i)
            &&& determined::<(E, R)>(written, i)
            &&& <(E, R) as ElementTuple>::elems(&constant, i) == <(E, R) as ElementTuple>::elems(
                &written,
                i,
            )
        }),
{
}

/// A run over every row and a run over some agree on the rows that both ran: made null elsewhere,
/// the two outputs are the same column.
pub proof fn dense_and_skipping_runs_agree<'a, A: ElementTuple, P, S: OutputSink, R: SinkResult>(
    batch: &'a A::Batch,
    dtype: DTypeModel,
    bits: Seq<bool>,
    prepares: spec_fn(A::ConstElems<'a>, P) -> bool,
    computes: spec_fn(P, A::Elems<'a>, S::Slot, S::Slot, R) -> bool,
    dense_output: Array<S::Value>,
    output: Array<S::Value>,
)
    requires
        starts_alike::<S>(bits.len(), dtype),
        settled(prepares, computes, A::consts(batch), A::consts(batch)),
        same_elements::<A>(batch, batch, bits),
        prepared_execution::<A, P, S, R>(
            batch,
            bits.len(),
            dtype,
            prepares,
            computes,
            Ok(RowExecution::Output(dense_output)),
        ),
        branch_execution::<A, P, S, R>(
            batch,
            bits.len(),
            dtype,
            bits,
            prepares,
            computes,
            Ok(Some(RowExecution::Output(output))),
        ),
    ensures
        dense_output@.len() == output@.len() == bits.len(),
        forall|i: int|
            0 <= i < bits.len() && bits[i] ==> #[trigger] output@.row(i) == dense_output@.row(i),
        output@.mask(bits).rows() == dense_output@.mask(bits).rows(),
{
    let every = every_row(bits.len());
    let dense_run = Ok(RowExecution::Output(dense_output));
    let run = Ok(RowExecution::Output(output));
    let dense_state = choose|state: P| #[trigger]
        executes::<A, P, S, R>(batch, dtype, every, prepares, computes, state, dense_run);
    let skipping = Ok::<_, Error>(Some(RowExecution::Output(output)));
    assert(taken(skipping) == run);
    let state = choose|state: P| #[trigger]
        executes::<A, P, S, R>(batch, dtype, bits, prepares, computes, state, taken(skipping));
    let dense_step = row_step::<A, P, S, R>(batch, computes, dense_state);
    let step = row_step::<A, P, S, R>(batch, computes, state);
    assert(yields(prepares, A::consts(batch), dense_state));
    assert(yields(prepares, A::consts(batch), state));
    assert(agree(computes, dense_state, state));
    let start = choose|start: Seq<S::Slot>| #[trigger]
        starts::<S>(bits.len(), dtype, start) && execution_from::<S, R>(
            dense_step,
            dtype,
            every,
            start,
            dense_run,
        );
    let other_start = choose|start: Seq<S::Slot>| #[trigger]
        starts::<S>(bits.len(), dtype, start) && execution_from::<S, R>(
            step,
            dtype,
            bits,
            start,
            run,
        );
    assert(start == other_start);
    let (dense_slots, dense_outcomes) = lemma_finished::<S, R>(
        dense_step,
        dtype,
        every,
        start,
        dense_run,
    );
    let (slots, outcomes) = lemma_finished::<S, R>(step, dtype, bits, start, run);
    assert forall|i: int| 0 <= i < bits.len() && bits[i] implies #[trigger] output@.row(i)
        == dense_output@.row(i) by {
        assert(determined::<A>(*batch, i));
        assert(row_ran(dense_step, i, start, dense_slots, dense_outcomes));
        assert(row_ran(step, i, start, slots, outcomes));
        lemma_same_step::<A, P, S, R>(
            batch,
            batch,
            computes,
            dense_state,
            state,
            i,
            start[i],
            dense_slots[i],
            dense_outcomes[i],
            slots[i],
            outcomes[i],
        );
    }
    assert forall|i: int| 0 <= i < bits.len() implies output@.mask(bits).row(i)
        == dense_output@.mask(bits).row(i) by {
        if bits[i] {
            assert(output@.row(i) == dense_output@.row(i));
        }
    }
    assert(output@.mask(bits).rows() =~= dense_output@.mask(bits).rows());
}

/// Only evidence defers an error: where no outcome carries any, no run gives a deferred error, and
/// one that does ran to its end and left evidence.
pub proof fn deferred_errors_come_of_evidence<'a, A: ElementTuple, P, S: OutputSink, R: SinkResult>(
    batch: &'a A::Batch,
    row_count: nat,
    dtype: DTypeModel,
    prepares: spec_fn(A::ConstElems<'a>, P) -> bool,
    computes: spec_fn(P, A::Elems<'a>, S::Slot, S::Slot, R) -> bool,
    error: Error,
)
    requires
        prepared_execution::<A, P, S, R>(
            batch,
            row_count,
            dtype,
            prepares,
            computes,
            Ok(RowExecution::DeferredError(error)),
        ),
    ensures
        R::DEFERRED,
        exists|state: P, start: Seq<S::Slot>, slots: Seq<S::Slot>, outcomes: Seq<R>|
            {
                &&& #[trigger] yields(prepares, A::consts(batch), state)
                &&& #[trigger] rows_ran(
                    row_step::<A, P, S, R>(batch, computes, state),
                    every_row(row_count),
                    start,
                    slots,
                    outcomes,
                )
                &&& any_evidence(every_row(row_count), outcomes)
                &&& S::finish_failure(dtype, slots, true) == Some(error@)
            },
{
    let bits = every_row(row_count);
    let run = Ok(RowExecution::DeferredError(error));
    let state = choose|state: P| #[trigger]
        executes::<A, P, S, R>(batch, dtype, bits, prepares, computes, state, run);
    let step = row_step::<A, P, S, R>(batch, computes, state);
    let start = choose|start: Seq<S::Slot>| #[trigger]
        starts::<S>(bits.len(), dtype, start) && execution_from::<S, R>(
            step,
            dtype,
            bits,
            start,
            run,
        );
    let (slots, outcomes) = lemma_finished::<S, R>(step, dtype, bits, start, run);
    assert(yields(prepares, A::consts(batch), state));
    assert(rows_ran(step, bits, start, slots, outcomes));
    let i = choose|i: int| 0 <= i < bits.len() && bits[i] && #[trigger] outcomes[i].evidence();
    outcomes[i].lemma_kind();
}

} // verus!
