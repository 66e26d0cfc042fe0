//! What holds of every row function, whatever strategy its lifting takes.

use vstd::prelude::*;

use crate::array::{dense, Array, ArrayModel};
use crate::dtype::{any_nullable, DTypeModel, Nullability};
use crate::error::{Error, ErrorModel};
use crate::mask::{all_set, lemma_filtered_source, lemma_rank_of_set, none_set, rank, set_count};
use crate::row::element::{InputElement, Native};
use crate::row::execute::{
    any_evidence, every_row, executes, execution_from, presents, row_fails, row_ran,
    row_sink_rejection, row_step, rows_ran, starts, steps, taken, RowExecution,
};
use crate::row::lift::{
    execute, executed, kernel, kernel_branch, kernel_rows, kernel_valid_rows, lifted,
    lifted_filtered, lifted_valid_only, reduction, shaped, stated, validity,
};
use crate::row::result::SinkResult;
use crate::row::row_fn::{coherent, policy, RowFn, RowPolicy};
use crate::row::sink::{ElementSink, OutputElement, OutputSink};
use crate::row::tuple::ElementTuple;

verus! {

/// Whether a function never answers from how its columns are stored.
pub open spec fn never_reduces<F: RowFn>(f: &F) -> bool {
    forall|
        batch: <F::Args as ElementTuple>::Batch,
        reduced: Result<Option<Array<<F::Sink as OutputSink>::Value>>, Error>,
    | #[trigger] f.reduces(batch, reduced) ==> reduced matches Ok(None)
}

/// Whether a row of these elements may succeed with `after` in its slot.
pub open spec fn succeeds<'a, F: RowFn>(
    f: &'a F,
    consts: <F::Args as ElementTuple>::ConstElems<'a>,
    elems: <F::Args as ElementTuple>::Elems<'a>,
    state: F::State,
    before: <F::Sink as OutputSink>::Slot,
    after: <F::Sink as OutputSink>::Slot,
    outcome: F::Outcome,
) -> bool {
    &&& f.prepares(consts, state)
    &&& f.computes(state, elems, before, after, outcome)
    &&& outcome.early_error() is None
    &&& F::Sink::ERRORS_ARE_DEFERRED ==> !outcome.evidence()
}

/// Whether `row` is what a row of these elements may come to.
pub open spec fn follows<'a, F: RowFn>(
    f: &'a F,
    consts: <F::Args as ElementTuple>::ConstElems<'a>,
    elems: <F::Args as ElementTuple>::Elems<'a>,
    row: Option<<F::Sink as OutputSink>::Value>,
) -> bool {
    exists|
        state: F::State,
        before: <F::Sink as OutputSink>::Slot,
        after: <F::Sink as OutputSink>::Slot,
        outcome: F::Outcome,
    | #[trigger]
        succeeds::<F>(f, consts, elems, state, before, after, outcome) && row == Some(
            F::Sink::value_of(after),
        )
}

/// The output of a run: every row is there, and every valid row that ran follows from its elements.
proof fn lemma_run_rows<'a, F: RowFn>(
    f: &'a F,
    batch: &'a <F::Args as ElementTuple>::Batch,
    dtype: DTypeModel,
    bits: Seq<bool>,
    state: F::State,
    array: Array<<F::Sink as OutputSink>::Value>,
)
    requires
        executes::<F::Args, F::State, F::Sink, F::Outcome>(
            batch,
            dtype,
            bits,
            stated::<F>(f, batch).0,
            stated::<F>(f, batch).1,
            state,
            Ok(RowExecution::Output(array)),
        ),
    ensures
        array@.len() == bits.len(),
        array@.dtype == dtype,
        all_set(array@.valid),
        array@.constant is None,
        array@.wf(),
        forall|i: int|
            0 <= i < bits.len() && bits[i] && F::Args::valid_at(*batch, i) ==> follows::<F>(
                f,
                F::Args::consts(batch),
                F::Args::elems(batch, i),
                #[trigger] array@.payload[i],
            ),
{
    let computes = stated::<F>(f, batch).1;
    let step = row_step::<F::Args, F::State, F::Sink, F::Outcome>(batch, computes, state);
    let start = choose|start: Seq<<F::Sink as OutputSink>::Slot>| #[trigger]
        starts::<F::Sink>(bits.len(), dtype, start) && execution_from::<F::Sink, F::Outcome>(
            step,
            dtype,
            bits,
            start,
            Ok(RowExecution::Output(array)),
        );
    let (slots, outcomes) = choose|
        slots: Seq<<F::Sink as OutputSink>::Slot>,
        outcomes: Seq<F::Outcome>,
    |
        {
            &&& #[trigger] rows_ran(step, bits, start, slots, outcomes)
            &&& F::Sink::ERRORS_ARE_DEFERRED ==> !any_evidence(bits, outcomes)
            &&& F::Sink::finish_failure(dtype, slots, any_evidence(bits, outcomes)) is None
            &&& array@ == dense(
                dtype,
                slots.map_values(
                    |slot: <F::Sink as OutputSink>::Slot| F::Sink::value_of(slot),
                ),
            )
        };
    assert forall|i: int|
        0 <= i < bits.len() && bits[i] && F::Args::valid_at(*batch, i) implies follows::<F>(
        f,
        F::Args::consts(batch),
        F::Args::elems(batch, i),
        #[trigger] array@.payload[i],
    ) by {
        assert(row_ran(step, i, start, slots, outcomes));
        let before = start[i];
        let elems = choose|elems: <F::Args as ElementTuple>::Elems<'a>| #[trigger]
            presents::<F::Args>(batch, i, elems) && computes(
                state,
                elems,
                before,
                slots[i],
                outcomes[i],
            );
        if outcomes[i].evidence() {
            assert(any_evidence(bits, outcomes));
        }
        assert(succeeds::<F>(
            f,
            F::Args::consts(batch),
            F::Args::elems(batch, i),
            state,
            before,
            slots[i],
            outcomes[i],
        ));
    }
}

/// The output of a run over every row that was decoded.
proof fn lemma_decoded_rows<'a, F: RowFn>(
    f: &'a F,
    batch: &'a <F::Args as ElementTuple>::Batch,
    row_count: nat,
    dtype: DTypeModel,
    array: Array<<F::Sink as OutputSink>::Value>,
)
    requires
        kernel_rows::<F>(f, batch, row_count, dtype, Ok(RowExecution::Output(array))),
    ensures
        array@.len() == row_count,
        array@.dtype == dtype,
        all_set(array@.valid),
        array@.constant is None,
        array@.wf(),
        forall|i: int|
            0 <= i < row_count && F::Args::valid_at(*batch, i) ==> follows::<F>(
                f,
                F::Args::consts(batch),
                F::Args::elems(batch, i),
                #[trigger] array@.payload[i],
            ),
{
    let run = Ok(RowExecution::Output(array));
    let state = choose|state: F::State| #[trigger]
        executes::<F::Args, F::State, F::Sink, F::Outcome>(
            batch,
            dtype,
            every_row(row_count),
            stated::<F>(f, batch).0,
            stated::<F>(f, batch).1,
            state,
            run,
        );
    lemma_run_rows::<F>(f, batch, dtype, every_row(row_count), state, array);
}

/// The output of a run over every row.
proof fn lemma_kernel_rows<'a, F: RowFn>(
    f: &'a F,
    batch: &'a <F::Args as ElementTuple>::Batch,
    row_count: nat,
    dtype: DTypeModel,
    array: Array<<F::Sink as OutputSink>::Value>,
)
    requires
        never_reduces(f),
        kernel::<F>(f, batch, row_count, dtype, Ok(RowExecution::Output(array))),
    ensures
        array@.len() == row_count,
        array@.dtype == dtype,
        all_set(array@.valid),
        array@.constant is None,
        array@.wf(),
        forall|i: int|
            0 <= i < row_count && F::Args::valid_at(*batch, i) ==> follows::<F>(
                f,
                F::Args::consts(batch),
                F::Args::elems(batch, i),
                #[trigger] array@.payload[i],
            ),
{
    lemma_decoded_rows::<F>(f, batch, row_count, dtype, array);
}

/// The output of a run over only the valid rows that was decoded.
proof fn lemma_skipped_to_rows<'a, F: RowFn>(
    f: &'a F,
    batch: &'a <F::Args as ElementTuple>::Batch,
    dtype: DTypeModel,
    valid: Seq<bool>,
    array: Array<<F::Sink as OutputSink>::Value>,
)
    requires
        valid == validity::<F::Args>(*batch, valid.len()),
        kernel_valid_rows::<F>(
            f,
            batch,
            valid.len(),
            dtype,
            valid,
            Ok(Some(RowExecution::Output(array))),
        ),
    ensures
        array@.len() == valid.len(),
        array@.dtype == dtype,
        all_set(array@.valid),
        array@.constant is None,
        array@.wf(),
        forall|i: int|
            0 <= i < valid.len() && F::Args::valid_at(*batch, i) ==> follows::<F>(
                f,
                F::Args::consts(batch),
                F::Args::elems(batch, i),
                #[trigger] array@.payload[i],
            ),
{
    let run = Ok(Some(RowExecution::Output(array)));
    let state = choose|state: F::State| #[trigger]
        executes::<F::Args, F::State, F::Sink, F::Outcome>(
            batch,
            dtype,
            valid,
            stated::<F>(f, batch).0,
            stated::<F>(f, batch).1,
            state,
            taken(run),
        );
    lemma_run_rows::<F>(f, batch, dtype, valid, state, array);
}

/// The output of a run over only the valid rows.
proof fn lemma_branch_rows<'a, F: RowFn>(
    f: &'a F,
    batch: &'a <F::Args as ElementTuple>::Batch,
    dtype: DTypeModel,
    valid: Seq<bool>,
    array: Array<<F::Sink as OutputSink>::Value>,
)
    requires
        never_reduces(f),
        valid == validity::<F::Args>(*batch, valid.len()),
        kernel_branch::<F>(
            f,
            batch,
            valid.len(),
            dtype,
            valid,
            Ok(Some(RowExecution::Output(array))),
        ),
    ensures
        array@.len() == valid.len(),
        array@.dtype == dtype,
        all_set(array@.valid),
        array@.constant is None,
        array@.wf(),
        forall|i: int|
            0 <= i < valid.len() && F::Args::valid_at(*batch, i) ==> follows::<F>(
                f,
                F::Args::consts(batch),
                F::Args::elems(batch, i),
                #[trigger] array@.payload[i],
            ),
{
    lemma_skipped_to_rows::<F>(f, batch, dtype, valid, array);
}

/// Whether an array is a strict result: it is well formed, null exactly where an argument is, and
/// every other row follows from its elements.
pub open spec fn strict_result<'a, F: RowFn>(
    f: &'a F,
    batch: &'a <F::Args as ElementTuple>::Batch,
    row_count: nat,
    dtype: DTypeModel,
    array: ArrayModel<<F::Sink as OutputSink>::Value>,
) -> bool {
    &&& array.dtype == dtype.widened(any_nullable(F::Args::dtypes(*batch)))
    &&& array.valid == validity::<F::Args>(*batch, row_count)
    &&& array.wf()
    &&& forall|i: int|
        0 <= i < row_count && F::Args::valid_at(*batch, i) ==> follows::<F>(
            f,
            F::Args::consts(batch),
            F::Args::elems(batch, i),
            #[trigger] array.payload[i],
        )
}

proof fn lemma_filtered_is_strict<'a, F: RowFn>(
    f: &'a F,
    batch: &'a <F::Args as ElementTuple>::Batch,
    valid: Seq<bool>,
    dtype: DTypeModel,
    array: Array<<F::Sink as OutputSink>::Value>,
)
    requires
        never_reduces(f),
        F::Args::wf(*batch),
        F::Args::lens_match(*batch, valid.len()),
        any_nullable(F::Args::dtypes(*batch)),
        valid == validity::<F::Args>(*batch, valid.len()),
        lifted_filtered::<F>(f, batch, valid, dtype, Ok(array)),
    ensures
        strict_result::<F>(f, batch, valid.len(), dtype, array@),
{
    let kept = F::Args::filter(*batch, valid);
    F::Args::lemma_filter(*batch, valid);
    let run = choose|run: Result<RowExecution<<F::Sink as OutputSink>::Value>, Error>| #[trigger]
        kernel::<F>(f, &kept, set_count(valid), dtype, run) && shaped(
            run,
            |array: ArrayModel<<F::Sink as OutputSink>::Value>| array.scatter(valid),
            Ok(array),
        );
    let output = run->Ok_0->Output_0;
    lemma_kernel_rows::<F>(f, &kept, set_count(valid), dtype, output);
    assert forall|i: int| 0 <= i < valid.len() implies array@.valid[i] == valid[i] by {
        if valid[i] {
            lemma_rank_of_set(valid, i);
        }
    }
    assert(array@.valid =~= valid);
    assert forall|i: int| 0 <= i < valid.len() && F::Args::valid_at(*batch, i) implies follows::<F>(
        f,
        F::Args::consts(batch),
        F::Args::elems(batch, i),
        #[trigger] array@.payload[i],
    ) by {
        assert(valid[i]);
        lemma_rank_of_set(valid, i);
        let k = rank(valid, i) as int;
        assert(F::Args::valid_at(kept, rank(valid, i) as int) == F::Args::valid_at(*batch, i));
        assert(array@.payload[i] == output@.payload[k]);
    }
}

proof fn lemma_valid_only_is_strict<'a, F: RowFn>(
    f: &'a F,
    batch: &'a <F::Args as ElementTuple>::Batch,
    valid: Seq<bool>,
    dtype: DTypeModel,
    filtered_decode_cost: usize,
    array: Array<<F::Sink as OutputSink>::Value>,
)
    requires
        never_reduces(f),
        F::Args::wf(*batch),
        F::Args::lens_match(*batch, valid.len()),
        any_nullable(F::Args::dtypes(*batch)),
        valid == validity::<F::Args>(*batch, valid.len()),
        lifted_valid_only::<F>(f, batch, valid, dtype, filtered_decode_cost, Ok(array)),
    ensures
        strict_result::<F>(f, batch, valid.len(), dtype, array@),
{
    if lifted_filtered::<F>(f, batch, valid, dtype, Ok(array)) {
        lemma_filtered_is_strict::<F>(f, batch, valid, dtype, array);
    } else {
        let run = choose|run: Result<Option<RowExecution<<F::Sink as OutputSink>::Value>>, Error>|
            #[trigger]
            kernel_branch::<F>(f, batch, valid.len(), dtype, valid, run) && if run matches Ok(
                None,
            ) {
                lifted_filtered::<F>(f, batch, valid, dtype, Ok(array))
            } else {
                shaped(
                    taken(run),
                    |array: ArrayModel<<F::Sink as OutputSink>::Value>| array.mask(valid),
                    Ok(array),
                )
            };
        let output = taken(run)->Ok_0->Output_0;
        assert(run == Ok::<_, Error>(Some(RowExecution::Output(output))));
        lemma_branch_rows::<F>(f, batch, dtype, valid, output);
        assert(array@.valid =~= valid);
    }
}

/// A row function is strict, and its rows do not depend on the strategy: whichever way a batch is
/// run, the result is null exactly where an argument is null, its type is the sink's, nullable
/// where a column is, and every other row follows from its own elements.
pub proof fn lifting_is_strict<'a, F: RowFn>(
    f: &'a F,
    batch: &'a <F::Args as ElementTuple>::Batch,
    row_count: nat,
    dtype: DTypeModel,
    array: Array<<F::Sink as OutputSink>::Value>,
)
    requires
        never_reduces(f),
        F::Args::wf(*batch),
        F::Args::lens_match(*batch, row_count),
        lifted::<F>(f, batch, row_count, dtype, Ok(array)),
    ensures
        strict_result::<F>(f, batch, row_count, dtype, array@),
{
    let valid = validity::<F::Args>(*batch, row_count);
    let nullable = any_nullable(F::Args::dtypes(*batch));
    if F::Args::null_constant(*batch) || row_count > 0 && none_set(valid) {
        if !F::Args::null_constant(*batch) {
            assert(!valid[0]);
            assert(!F::Args::valid_at(*batch, 0));
        }
        F::Args::lemma_nullable(*batch, row_count);
        assert forall|i: int| 0 <= i < row_count implies !#[trigger] F::Args::valid_at(
            *batch,
            i,
        ) by {
            if !F::Args::null_constant(*batch) {
                assert(!valid[i]);
            }
        }
        assert(array@.valid =~= valid);
    } else if F::Args::arity() > 0 && row_count > 0 && F::Args::constant(*batch) {
        let row = F::Args::constant_row(*batch);
        F::Args::lemma_constant_row(*batch, row_count);
        let run = choose|run: Result<RowExecution<<F::Sink as OutputSink>::Value>, Error>|
            #[trigger]
            kernel::<F>(f, &row, 1, dtype, run) && shaped(
                run,
                |array: ArrayModel<<F::Sink as OutputSink>::Value>|
                    array.broadcast(row_count).widened(nullable),
                Ok(array),
            );
        let output = run->Ok_0->Output_0;
        lemma_kernel_rows::<F>(f, &row, 1, dtype, output);
        assert(follows::<F>(f, F::Args::consts(&row), F::Args::elems(&row, 0), output@.payload[0]));
        assert(array@.valid =~= valid);
    } else if all_set(valid) {
        let run = choose|run: Result<RowExecution<<F::Sink as OutputSink>::Value>, Error>|
            #[trigger]
            kernel::<F>(f, batch, row_count, dtype, run) && shaped(
                run,
                |array: ArrayModel<<F::Sink as OutputSink>::Value>| array.widened(nullable),
                Ok(array),
            );
        let output = run->Ok_0->Output_0;
        lemma_kernel_rows::<F>(f, batch, row_count, dtype, output);
        assert(array@.valid =~= valid);
    } else {
        let i = choose|i: int| 0 <= i < row_count && !valid[i];
        assert(!F::Args::valid_at(*batch, i));
        F::Args::lemma_nullable(*batch, row_count);
        match policy::<F>() {
            RowPolicy::ValidOnly { filtered_decode_cost } => {
                lemma_valid_only_is_strict::<F>(
                    f,
                    batch,
                    valid,
                    dtype,
                    filtered_decode_cost,
                    array,
                );
            },
            _ => {
                let retried = policy::<F>() == RowPolicy::DenseWithRetry;
                let run = choose|run: Result<RowExecution<<F::Sink as OutputSink>::Value>, Error>|
                    #[trigger]
                    kernel::<F>(f, batch, valid.len(), dtype, run) && if retried && (
                    run matches Ok(RowExecution::DeferredError(_))) {
                        lifted_valid_only::<F>(
                            f,
                            batch,
                            valid,
                            dtype,
                            F::Args::FILTERED_DECODE_COST,
                            Ok(array),
                        )
                    } else {
                        shaped(
                            run,
                            |array: ArrayModel<<F::Sink as OutputSink>::Value>| array.mask(valid),
                            Ok(array),
                        )
                    };
                if retried && (run matches Ok(RowExecution::DeferredError(_))) {
                    lemma_valid_only_is_strict::<F>(
                        f,
                        batch,
                        valid,
                        dtype,
                        F::Args::FILTERED_DECODE_COST,
                        array,
                    );
                } else {
                    let output = run->Ok_0->Output_0;
                    lemma_kernel_rows::<F>(f, batch, row_count, dtype, output);
                    assert(array@.valid =~= valid);
                }
            },
        }
    }
}

/// A row that is null in any argument is null in the result, also where a function answers from how
/// its columns are stored.
pub proof fn nulls_propagate<'a, F: RowFn>(
    f: &'a F,
    batch: &'a <F::Args as ElementTuple>::Batch,
    row_count: nat,
    dtype: DTypeModel,
    array: Array<<F::Sink as OutputSink>::Value>,
)
    requires
        F::Args::wf(*batch),
        F::Args::lens_match(*batch, row_count),
        lifted::<F>(f, batch, row_count, dtype, Ok(array)),
    ensures
        array@.len() == row_count,
        forall|i: int|
            0 <= i < row_count && !#[trigger] F::Args::valid_at(*batch, i) ==> !array@.valid[i],
{
    let valid = validity::<F::Args>(*batch, row_count);
    if F::Args::constant(*batch) {
        F::Args::lemma_constant_row(*batch, row_count);
    }
    assert forall|i: int|
        0 <= i < row_count && !#[trigger] F::Args::valid_at(*batch, i) implies !array@.valid[i] by {
        assert(!valid[i]);
    }
}

/// Whether nothing but a row can make a run over a batch fail: every column decodes into all of its
/// rows, and the sink allocates what it is asked for and finishes unless a row left evidence.
pub open spec fn only_rows_fail<F: RowFn>(
    batch: <F::Args as ElementTuple>::Batch,
    row_count: nat,
    dtype: DTypeModel,
) -> bool {
    &&& F::Args::failure(batch) is None
    &&& F::Args::decoded_lens(batch, row_count)
    &&& F::Sink::capacity_failure(row_count, dtype) is None
    &&& F::Sink::capacity(row_count, dtype) == row_count
    &&& forall|slots: Seq<<F::Sink as OutputSink>::Slot>| #[trigger]
        F::Sink::finish_failure(dtype, slots, false) is None
}

/// Whether every row of a batch that is null in no argument succeeds.
pub open spec fn valid_rows_succeed<'a, F: RowFn>(
    f: &'a F,
    batch: &'a <F::Args as ElementTuple>::Batch,
    row_count: nat,
) -> bool {
    forall|
        i: int,
        state: F::State,
        before: <F::Sink as OutputSink>::Slot,
        after: <F::Sink as OutputSink>::Slot,
        outcome: F::Outcome,
    |
        0 <= i < row_count && F::Args::valid_at(*batch, i) && f.prepares(
            F::Args::consts(batch),
            state,
        ) && #[trigger] f.computes(state, F::Args::elems(batch, i), before, after, outcome)
            ==> outcome.early_error() is None && !outcome.evidence()
}

/// What a row that ran may have done.
proof fn lemma_ran_row<'a, F: RowFn>(
    f: &'a F,
    batch: &'a <F::Args as ElementTuple>::Batch,
    row_count: nat,
    state: F::State,
    i: int,
    before: <F::Sink as OutputSink>::Slot,
    after: <F::Sink as OutputSink>::Slot,
    outcome: F::Outcome,
)
    requires
        0 <= i < row_count,
        f.prepares(F::Args::consts(batch), state),
        valid_rows_succeed::<F>(f, batch, row_count),
        steps(
            row_step::<F::Args, F::State, F::Sink, F::Outcome>(
                batch,
                stated::<F>(f, batch).1,
                state,
            ),
            i,
            before,
            after,
            outcome,
        ),
    ensures
        F::Args::valid_at(*batch, i) ==> outcome.early_error() is None && !outcome.evidence(),
        !F::Outcome::FALLIBLE ==> outcome.early_error() is None,
        !F::Outcome::DEFERRED ==> !outcome.evidence(),
{
    let computes = stated::<F>(f, batch).1;
    let elems = choose|elems: <F::Args as ElementTuple>::Elems<'a>| #[trigger]
        presents::<F::Args>(batch, i, elems) && computes(state, elems, before, after, outcome);
    outcome.lemma_kind();
    if F::Args::valid_at(*batch, i) {
        assert(f.computes(state, F::Args::elems(batch, i), before, after, outcome));
    }
}

/// A run in which only a row can fail, and no row that ran ends the loop, is not ended; and it
/// leaves evidence only where a row did.
proof fn lemma_run_succeeds<'a, F: RowFn>(
    f: &'a F,
    batch: &'a <F::Args as ElementTuple>::Batch,
    dtype: DTypeModel,
    bits: Seq<bool>,
    state: F::State,
    result: Result<RowExecution<<F::Sink as OutputSink>::Value>, Error>,
)
    requires
        executes::<F::Args, F::State, F::Sink, F::Outcome>(
            batch,
            dtype,
            bits,
            stated::<F>(f, batch).0,
            stated::<F>(f, batch).1,
            state,
            result,
        ),
        only_rows_fail::<F>(*batch, bits.len(), dtype),
        valid_rows_succeed::<F>(f, batch, bits.len()),
        !F::Outcome::FALLIBLE || forall|i: int|
            0 <= i < bits.len() && bits[i] ==> #[trigger] F::Args::valid_at(*batch, i),
    ensures
        result is Ok,
        !F::Outcome::DEFERRED || (forall|i: int|
            0 <= i < bits.len() && bits[i] ==> #[trigger] F::Args::valid_at(*batch, i))
            ==> result matches Ok(RowExecution::Output(_)),
{
    let computes = stated::<F>(f, batch).1;
    let step = row_step::<F::Args, F::State, F::Sink, F::Outcome>(batch, computes, state);
    let start = choose|start: Seq<<F::Sink as OutputSink>::Slot>| #[trigger]
        starts::<F::Sink>(bits.len(), dtype, start) && execution_from::<F::Sink, F::Outcome>(
            step,
            dtype,
            bits,
            start,
            result,
        );
    match result {
        Err(error) => {
            if exists|
                k: int,
                slots: Seq<<F::Sink as OutputSink>::Slot>,
                outcomes: Seq<F::Outcome>,
                after: <F::Sink as OutputSink>::Slot,
            | #[trigger] row_fails(step, bits, k, start, slots, outcomes, after, error@) {
                let (k, slots, outcomes, after) = choose|
                    k: int,
                    slots: Seq<<F::Sink as OutputSink>::Slot>,
                    outcomes: Seq<F::Outcome>,
                    after: <F::Sink as OutputSink>::Slot,
                | #[trigger] row_fails(step, bits, k, start, slots, outcomes, after, error@);
                assert(F::Outcome::FALLIBLE ==> F::Args::valid_at(*batch, k));
                lemma_ran_row::<F>(f, batch, bits.len(), state, k, start[k], after, outcomes[k]);
            }
        },
        Ok(RowExecution::DeferredError(error)) => {
            let (slots, outcomes) = choose|
                slots: Seq<<F::Sink as OutputSink>::Slot>,
                outcomes: Seq<F::Outcome>,
            |
                {
                    &&& #[trigger] rows_ran(step, bits, start, slots, outcomes)
                    &&& any_evidence(bits, outcomes)
                    &&& F::Sink::finish_failure(dtype, slots, true) == Some(error@)
                };
            let i = choose|i: int|
                0 <= i < bits.len() && bits[i] && #[trigger] outcomes[i].evidence();
            assert(row_ran(step, i, start, slots, outcomes));
            lemma_ran_row::<F>(
                f,
                batch,
                bits.len(),
                state,
                i,
                start[i],
                slots[i],
                outcomes[i],
            );
        },
        Ok(RowExecution::Output(_)) => {},
    }
}

/// A run over every row.
proof fn lemma_kernel_succeeds<'a, F: RowFn>(
    f: &'a F,
    batch: &'a <F::Args as ElementTuple>::Batch,
    row_count: nat,
    dtype: DTypeModel,
    run: Result<RowExecution<<F::Sink as OutputSink>::Value>, Error>,
)
    requires
        never_reduces(f),
        kernel::<F>(f, batch, row_count, dtype, run),
        only_rows_fail::<F>(*batch, row_count, dtype),
        valid_rows_succeed::<F>(f, batch, row_count),
        !F::Outcome::FALLIBLE || forall|i: int|
            0 <= i < row_count ==> #[trigger] F::Args::valid_at(*batch, i),
    ensures
        run is Ok,
        !F::Outcome::DEFERRED || (forall|i: int|
            0 <= i < row_count ==> #[trigger] F::Args::valid_at(*batch, i)) ==> run matches Ok(
            RowExecution::Output(_),
        ),
{
    assert(kernel_rows::<F>(f, batch, row_count, dtype, run));
    let bits = every_row(row_count);
    let state = choose|state: F::State| #[trigger]
        executes::<F::Args, F::State, F::Sink, F::Outcome>(
            batch,
            dtype,
            bits,
            stated::<F>(f, batch).0,
            stated::<F>(f, batch).1,
            state,
            run,
        );
    lemma_run_succeeds::<F>(f, batch, dtype, bits, state, run);
}

proof fn lemma_filtered_succeeds<'a, F: RowFn>(
    f: &'a F,
    batch: &'a <F::Args as ElementTuple>::Batch,
    valid: Seq<bool>,
    dtype: DTypeModel,
    result: Result<Array<<F::Sink as OutputSink>::Value>, Error>,
)
    requires
        never_reduces(f),
        F::Args::wf(*batch),
        F::Args::lens_match(*batch, valid.len()),
        valid == validity::<F::Args>(*batch, valid.len()),
        only_rows_fail::<F>(F::Args::filter(*batch, valid), set_count(valid), dtype),
        valid_rows_succeed::<F>(f, batch, valid.len()),
        lifted_filtered::<F>(f, batch, valid, dtype, result),
    ensures
        result is Ok,
{
    let kept = F::Args::filter(*batch, valid);
    F::Args::lemma_filter(*batch, valid);
    assert forall|k: int| 0 <= k < set_count(valid) implies {
        &&& #[trigger] F::Args::valid_at(kept, k)
        &&& exists|i: int|
            0 <= i < valid.len() && #[trigger] F::Args::valid_at(*batch, i) && F::Args::elems(
                &kept,
                k,
            ) == F::Args::elems(batch, i)
    } by {
        let i = lemma_filtered_source(valid, valid, k);
        assert(F::Args::valid_at(kept, rank(valid, i) as int) == F::Args::valid_at(*batch, i));
    }
    assert forall|
        k: int,
        state: F::State,
        before: <F::Sink as OutputSink>::Slot,
        after: <F::Sink as OutputSink>::Slot,
        outcome: F::Outcome,
    |
        0 <= k < set_count(valid) && F::Args::valid_at(kept, k) && f.prepares(
            F::Args::consts(&kept),
            state,
        ) && #[trigger] f.computes(
            state,
            F::Args::elems(&kept, k),
            before,
            after,
            outcome,
        ) implies outcome.early_error() is None && !outcome.evidence() by {
        let i = choose|i: int|
            0 <= i < valid.len() && #[trigger] F::Args::valid_at(*batch, i) && F::Args::elems(
                &kept,
                k,
            ) == F::Args::elems(batch, i);
        assert(f.computes(state, F::Args::elems(batch, i), before, after, outcome));
    }
    let run = choose|run: Result<RowExecution<<F::Sink as OutputSink>::Value>, Error>| #[trigger]
        kernel::<F>(f, &kept, set_count(valid), dtype, run) && shaped(
            run,
            |array: ArrayModel<<F::Sink as OutputSink>::Value>| array.scatter(valid),
            result,
        );
    lemma_kernel_succeeds::<F>(f, &kept, set_count(valid), dtype, run);
}

proof fn lemma_valid_only_succeeds<'a, F: RowFn>(
    f: &'a F,
    batch: &'a <F::Args as ElementTuple>::Batch,
    valid: Seq<bool>,
    dtype: DTypeModel,
    filtered_decode_cost: usize,
    result: Result<Array<<F::Sink as OutputSink>::Value>, Error>,
)
    requires
        never_reduces(f),
        F::Args::wf(*batch),
        F::Args::lens_match(*batch, valid.len()),
        valid == validity::<F::Args>(*batch, valid.len()),
        !all_set(valid),
        !none_set(valid),
        F::Args::tolerant(*batch) is Ok,
        only_rows_fail::<F>(*batch, valid.len(), dtype),
        only_rows_fail::<F>(F::Args::filter(*batch, valid), set_count(valid), dtype),
        valid_rows_succeed::<F>(f, batch, valid.len()),
        lifted_valid_only::<F>(f, batch, valid, dtype, filtered_decode_cost, result),
    ensures
        result is Ok,
{
    if lifted_filtered::<F>(f, batch, valid, dtype, result) {
        lemma_filtered_succeeds::<F>(f, batch, valid, dtype, result);
    } else {
        let run = choose|run: Result<Option<RowExecution<<F::Sink as OutputSink>::Value>>, Error>|
            #[trigger]
            kernel_branch::<F>(f, batch, valid.len(), dtype, valid, run) && if run matches Ok(
                None,
            ) {
                lifted_filtered::<F>(f, batch, valid, dtype, result)
            } else {
                shaped(
                    taken(run),
                    |array: ArrayModel<<F::Sink as OutputSink>::Value>| array.mask(valid),
                    result,
                )
            };
        assert(kernel_valid_rows::<F>(f, batch, valid.len(), dtype, valid, run));
        let state = choose|state: F::State| #[trigger]
            executes::<F::Args, F::State, F::Sink, F::Outcome>(
                batch,
                dtype,
                valid,
                stated::<F>(f, batch).0,
                stated::<F>(f, batch).1,
                state,
                taken(run),
            );
        assert forall|i: int| 0 <= i < valid.len() && valid[i] implies #[trigger] F::Args::valid_at(
            *batch,
            i,
        ) by {}
        lemma_run_succeeds::<F>(f, batch, dtype, valid, state, taken(run));
    }
}

/// What stands behind a null cannot fail a batch: where every row that is null in no argument
/// succeeds, and nothing but a row can fail, the whole batch succeeds.
pub proof fn rows_behind_nulls_never_fail<'a, F: RowFn>(
    f: &'a F,
    batch: &'a <F::Args as ElementTuple>::Batch,
    row_count: nat,
    dtype: DTypeModel,
    result: Result<Array<<F::Sink as OutputSink>::Value>, Error>,
)
    requires
        coherent::<F>(),
        never_reduces(f),
        F::Args::wf(*batch),
        F::Args::lens_match(*batch, row_count),
        F::Args::tolerant(*batch) is Ok,
        only_rows_fail::<F>(*batch, row_count, dtype),
        only_rows_fail::<F>(
            F::Args::filter(*batch, validity::<F::Args>(*batch, row_count)),
            set_count(validity::<F::Args>(*batch, row_count)),
            dtype,
        ),
        F::Args::constant(*batch) ==> only_rows_fail::<F>(
            F::Args::constant_row(*batch),
            1,
            dtype,
        ),
        valid_rows_succeed::<F>(f, batch, row_count),
        lifted::<F>(f, batch, row_count, dtype, result),
    ensures
        result is Ok,
{
    let valid = validity::<F::Args>(*batch, row_count);
    let nullable = any_nullable(F::Args::dtypes(*batch));
    if F::Args::null_constant(*batch) || row_count > 0 && none_set(valid) {
    } else if F::Args::arity() > 0 && row_count > 0 && F::Args::constant(*batch) {
        let row = F::Args::constant_row(*batch);
        F::Args::lemma_constant_row(*batch, row_count);
        assert(F::Args::valid_at(*batch, 0));
        assert forall|
            i: int,
            state: F::State,
            before: <F::Sink as OutputSink>::Slot,
            after: <F::Sink as OutputSink>::Slot,
            outcome: F::Outcome,
        |
            0 <= i < 1 && F::Args::valid_at(row, i) && f.prepares(F::Args::consts(&row), state)
                && #[trigger] f.computes(
                state,
                F::Args::elems(&row, i),
                before,
                after,
                outcome,
            ) implies outcome.early_error() is None && !outcome.evidence() by {
            assert(f.computes(state, F::Args::elems(batch, 0), before, after, outcome));
        }
        let run = choose|run: Result<RowExecution<<F::Sink as OutputSink>::Value>, Error>|
            #[trigger]
            kernel::<F>(f, &row, 1, dtype, run) && shaped(
                run,
                |array: ArrayModel<<F::Sink as OutputSink>::Value>|
                    array.broadcast(row_count).widened(nullable),
                result,
            );
        lemma_kernel_succeeds::<F>(f, &row, 1, dtype, run);
    } else if all_set(valid) {
        assert forall|i: int| 0 <= i < row_count implies #[trigger] F::Args::valid_at(
            *batch,
            i,
        ) by {
            assert(valid[i]);
        }
        let run = choose|run: Result<RowExecution<<F::Sink as OutputSink>::Value>, Error>|
            #[trigger]
            kernel::<F>(f, batch, row_count, dtype, run) && shaped(
                run,
                |array: ArrayModel<<F::Sink as OutputSink>::Value>| array.widened(nullable),
                result,
            );
        lemma_kernel_succeeds::<F>(f, batch, row_count, dtype, run);
    } else {
        match policy::<F>() {
            RowPolicy::ValidOnly { filtered_decode_cost } => {
                lemma_valid_only_succeeds::<F>(
                    f,
                    batch,
                    valid,
                    dtype,
                    filtered_decode_cost,
                    result,
                );
            },
            _ => {
                let retried = policy::<F>() == RowPolicy::DenseWithRetry;
                let run = choose|run: Result<RowExecution<<F::Sink as OutputSink>::Value>, Error>|
                    #[trigger]
                    kernel::<F>(f, batch, valid.len(), dtype, run) && if retried && (
                    run matches Ok(RowExecution::DeferredError(_))) {
                        lifted_valid_only::<F>(
                            f,
                            batch,
                            valid,
                            dtype,
                            F::Args::FILTERED_DECODE_COST,
                            result,
                        )
                    } else {
                        shaped(
                            run,
                            |array: ArrayModel<<F::Sink as OutputSink>::Value>| array.mask(valid),
                            result,
                        )
                    };
                lemma_kernel_succeeds::<F>(f, batch, row_count, dtype, run);
                if retried && (run matches Ok(RowExecution::DeferredError(_))) {
                    lemma_valid_only_succeeds::<F>(
                        f,
                        batch,
                        valid,
                        dtype,
                        F::Args::FILTERED_DECODE_COST,
                        result,
                    );
                }
            },
        }
    }
}

/// A function that claims never to fail does not: where nothing but a row can fail, the batch
/// succeeds, because no outcome of such a function carries a failure.
pub proof fn infallible_functions_succeed<'a, F: RowFn>(
    f: &'a F,
    batch: &'a <F::Args as ElementTuple>::Batch,
    row_count: nat,
    dtype: DTypeModel,
    result: Result<Array<<F::Sink as OutputSink>::Value>, Error>,
)
    requires
        coherent::<F>(),
        !F::FALLIBLE,
        never_reduces(f),
        F::Args::wf(*batch),
        F::Args::lens_match(*batch, row_count),
        F::Args::tolerant(*batch) is Ok,
        only_rows_fail::<F>(*batch, row_count, dtype),
        only_rows_fail::<F>(
            F::Args::filter(*batch, validity::<F::Args>(*batch, row_count)),
            set_count(validity::<F::Args>(*batch, row_count)),
            dtype,
        ),
        F::Args::constant(*batch) ==> only_rows_fail::<F>(
            F::Args::constant_row(*batch),
            1,
            dtype,
        ),
        lifted::<F>(f, batch, row_count, dtype, result),
    ensures
        result is Ok,
{
    assert forall|
        i: int,
        state: F::State,
        before: <F::Sink as OutputSink>::Slot,
        after: <F::Sink as OutputSink>::Slot,
        outcome: F::Outcome,
    |
        0 <= i < row_count && F::Args::valid_at(*batch, i) && f.prepares(
            F::Args::consts(batch),
            state,
        ) && #[trigger] f.computes(
            state,
            F::Args::elems(batch, i),
            before,
            after,
            outcome,
        ) implies outcome.early_error() is None && !outcome.evidence() by {
        outcome.lemma_kind();
    }
    rows_behind_nulls_never_fail::<F>(f, batch, row_count, dtype, result);
}

/// Whether a row that succeeds comes to `value` of its elements, whatever was prepared.
pub open spec fn pointwise<'a, F: RowFn>(
    f: &'a F,
    value: spec_fn(<F::Args as ElementTuple>::Elems<'a>) -> <F::Sink as OutputSink>::Value,
) -> bool {
    forall|
        consts: <F::Args as ElementTuple>::ConstElems<'a>,
        elems: <F::Args as ElementTuple>::Elems<'a>,
        state: F::State,
        before: <F::Sink as OutputSink>::Slot,
        after: <F::Sink as OutputSink>::Slot,
        outcome: F::Outcome,
    | #[trigger]
        succeeds::<F>(f, consts, elems, state, before, after, outcome) ==> F::Sink::value_of(after)
            == value(elems)
}

/// How a batch is stored does not show in the result: batches with the same nulls and the same
/// elements give the same rows, be their columns constant, masked or written out.
pub proof fn equal_elements_give_equal_rows<'a, F: RowFn>(
    f: &'a F,
    value: spec_fn(<F::Args as ElementTuple>::Elems<'a>) -> <F::Sink as OutputSink>::Value,
    left: &'a <F::Args as ElementTuple>::Batch,
    right: &'a <F::Args as ElementTuple>::Batch,
    row_count: nat,
    dtype: DTypeModel,
    left_result: Array<<F::Sink as OutputSink>::Value>,
    right_result: Array<<F::Sink as OutputSink>::Value>,
)
    requires
        never_reduces(f),
        pointwise::<F>(f, value),
        F::Args::wf(*left),
        F::Args::wf(*right),
        F::Args::lens_match(*left, row_count),
        F::Args::lens_match(*right, row_count),
        forall|i: int|
            0 <= i < row_count ==> {
                &&& #[trigger] F::Args::valid_at(*left, i) == F::Args::valid_at(*right, i)
                &&& F::Args::valid_at(*left, i) ==> F::Args::elems(left, i) == F::Args::elems(
                    right,
                    i,
                )
            },
        lifted::<F>(f, left, row_count, dtype, Ok(left_result)),
        lifted::<F>(f, right, row_count, dtype, Ok(right_result)),
    ensures
        left_result@.rows() == right_result@.rows(),
{
    lifting_is_strict::<F>(f, left, row_count, dtype, left_result);
    lifting_is_strict::<F>(f, right, row_count, dtype, right_result);
    assert forall|i: int| 0 <= i < row_count implies left_result@.row(i) == right_result@.row(
        i,
    ) by {
        assert(F::Args::valid_at(*left, i) == F::Args::valid_at(*right, i));
        if F::Args::valid_at(*left, i) {
            assert(follows::<F>(
                f,
                F::Args::consts(left),
                F::Args::elems(left, i),
                left_result@.payload[i],
            ));
            assert(follows::<F>(
                f,
                F::Args::consts(right),
                F::Args::elems(right, i),
                right_result@.payload[i],
            ));
        }
    }
    assert(left_result@.rows() =~= right_result@.rows());
}

/// Arguments that all hold one value in every row give a result that is stored as one value.
pub proof fn constants_give_a_constant<'a, F: RowFn>(
    f: &'a F,
    batch: &'a <F::Args as ElementTuple>::Batch,
    row_count: nat,
    dtype: DTypeModel,
    array: Array<<F::Sink as OutputSink>::Value>,
)
    requires
        never_reduces(f),
        F::Args::arity() > 0,
        row_count > 0,
        F::Args::constant(*batch),
        F::Args::wf(*batch),
        F::Args::lens_match(*batch, row_count),
        lifted::<F>(f, batch, row_count, dtype, Ok(array)),
    ensures
        array@.constant matches Some(Some(value)) && follows::<F>(
            f,
            F::Args::consts(batch),
            F::Args::elems(batch, 0),
            Some(value),
        ),
{
    lifting_is_strict::<F>(f, batch, row_count, dtype, array);
    F::Args::lemma_constant_row(*batch, row_count);
    assert(F::Args::valid_at(*batch, 0));
    if F::Args::null_constant(*batch) {
        F::Args::lemma_nullable(*batch, row_count);
    }
    assert(validity::<F::Args>(*batch, row_count)[0]);
    let row = F::Args::constant_row(*batch);
    let nullable = any_nullable(F::Args::dtypes(*batch));
    let run = choose|run: Result<RowExecution<<F::Sink as OutputSink>::Value>, Error>| #[trigger]
        kernel::<F>(f, &row, 1, dtype, run) && shaped(
            run,
            |array: ArrayModel<<F::Sink as OutputSink>::Value>|
                array.broadcast(row_count).widened(nullable),
            Ok(array),
        );
    let output = run->Ok_0->Output_0;
    lemma_kernel_rows::<F>(f, &row, 1, dtype, output);
    assert(follows::<F>(f, F::Args::consts(&row), F::Args::elems(&row, 0), output@.payload[0]));
}

/// A failure at a row that is null in no argument is reported, whether the row ends the loop or
/// leaves evidence for a sink that accepts it.
pub proof fn failing_valid_rows_are_reported<'a, F: RowFn>(
    f: &'a F,
    batch: &'a <F::Args as ElementTuple>::Batch,
    row_count: nat,
    dtype: DTypeModel,
    i: int,
    result: Result<Array<<F::Sink as OutputSink>::Value>, Error>,
)
    requires
        never_reduces(f),
        F::Args::wf(*batch),
        F::Args::lens_match(*batch, row_count),
        0 <= i < row_count,
        F::Args::valid_at(*batch, i),
        forall|
            state: F::State,
            before: <F::Sink as OutputSink>::Slot,
            after: <F::Sink as OutputSink>::Slot,
            outcome: F::Outcome,
        |
            f.prepares(F::Args::consts(batch), state) && #[trigger] f.computes(
                state,
                F::Args::elems(batch, i),
                before,
                after,
                outcome,
            ) ==> outcome.early_error() is Some || F::Sink::ERRORS_ARE_DEFERRED
                && outcome.evidence(),
        lifted::<F>(f, batch, row_count, dtype, result),
    ensures
        result is Err,
{
    if let Ok(array) = result {
        lifting_is_strict::<F>(f, batch, row_count, dtype, array);
        assert(follows::<F>(
            f,
            F::Args::consts(batch),
            F::Args::elems(batch, i),
            array@.payload[i],
        ));
    }
}

/// What a run over every row came of: an answer that was found without decoding, or the rows.
proof fn lemma_kernel_origin<'a, F: RowFn>(
    f: &'a F,
    batch: &'a <F::Args as ElementTuple>::Batch,
    row_count: nat,
    dtype: DTypeModel,
    array: Array<<F::Sink as OutputSink>::Value>,
) -> (answer: Option<Array<<F::Sink as OutputSink>::Value>>)
    requires
        kernel::<F>(f, batch, row_count, dtype, Ok(RowExecution::Output(array))),
    ensures
        f.reduces(*batch, Ok(answer)),
        match answer {
            Some(answer) => answer@.len() == row_count && array@ == answer@,
            None => {
                &&& array@.len() == row_count
                &&& all_set(array@.valid)
                &&& forall|i: int|
                    0 <= i < row_count && F::Args::valid_at(*batch, i) ==> follows::<F>(
                        f,
                        F::Args::consts(batch),
                        F::Args::elems(batch, i),
                        #[trigger] array@.payload[i],
                    )
            },
        },
{
    let run = Ok(RowExecution::Output(array));
    let reduced = choose|reduced: Result<Option<Array<<F::Sink as OutputSink>::Value>>, Error>|
        #[trigger]
        f.reduces(*batch, reduced) && match reduced {
            Ok(Some(array)) => reduction(array@, row_count, run),
            Ok(None) => kernel_rows::<F>(f, batch, row_count, dtype, run),
            Err(error) => run matches Err(cause) && cause@ == error@,
        };
    let answer = reduced->Ok_0;
    assert(reduced == Ok::<_, Error>(answer));
    if answer is None {
        lemma_decoded_rows::<F>(f, batch, row_count, dtype, array);
    }
    answer
}

/// What a run over only the valid rows came of.
proof fn lemma_branch_origin<'a, F: RowFn>(
    f: &'a F,
    batch: &'a <F::Args as ElementTuple>::Batch,
    dtype: DTypeModel,
    valid: Seq<bool>,
    array: Array<<F::Sink as OutputSink>::Value>,
) -> (answer: Option<Array<<F::Sink as OutputSink>::Value>>)
    requires
        valid == validity::<F::Args>(*batch, valid.len()),
        kernel_branch::<F>(
            f,
            batch,
            valid.len(),
            dtype,
            valid,
            Ok(Some(RowExecution::Output(array))),
        ),
    ensures
        f.reduces(*batch, Ok(answer)),
        match answer {
            Some(answer) => answer@.len() == valid.len() && array@ == answer@,
            None => {
                &&& array@.len() == valid.len()
                &&& all_set(array@.valid)
                &&& forall|i: int|
                    0 <= i < valid.len() && F::Args::valid_at(*batch, i) ==> follows::<F>(
                        f,
                        F::Args::consts(batch),
                        F::Args::elems(batch, i),
                        #[trigger] array@.payload[i],
                    )
            },
        },
{
    let run = Ok(Some(RowExecution::Output(array)));
    let reduced = choose|reduced: Result<Option<Array<<F::Sink as OutputSink>::Value>>, Error>|
        #[trigger]
        f.reduces(*batch, reduced) && match reduced {
            Ok(Some(array)) => {
                &&& run matches Ok(run) ==> run is Some
                &&& reduction(array@, valid.len(), taken(run))
            },
            Ok(None) => kernel_valid_rows::<F>(f, batch, valid.len(), dtype, valid, run),
            Err(error) => run matches Err(cause) && cause@ == error@,
        };
    let answer = reduced->Ok_0;
    assert(reduced == Ok::<_, Error>(answer));
    if answer is None {
        lemma_skipped_to_rows::<F>(f, batch, dtype, valid, array);
    }
    answer
}

/// Where the rows of a result came from: all from their elements, or all from one answer that the
/// function gave without decoding.
#[verifier::reject_recursive_types(V)]
pub enum Origin<V> {
    /// Every row that is null in no argument follows from its own elements.
    Elements,
    /// Row `i` is row `i` of an answer over the batch.
    Answer(Array<V>),
    /// Row `i` is the next row of an answer over only the rows that are null in no argument.
    FilteredAnswer(Array<V>),
    /// Every row is the only row of an answer over the row that stands for constants.
    ConstantAnswer(Array<V>),
}

/// Whether the rows of `array` come from `origin`.
pub open spec fn comes_from<'a, F: RowFn>(
    f: &'a F,
    batch: &'a <F::Args as ElementTuple>::Batch,
    row_count: nat,
    array: ArrayModel<<F::Sink as OutputSink>::Value>,
    origin: Origin<<F::Sink as OutputSink>::Value>,
) -> bool {
    match origin {
        Origin::Elements => {
            &&& exists|asked: <F::Args as ElementTuple>::Batch| #[trigger]
                f.reduces(asked, Ok(None))
            &&& forall|i: int|
                0 <= i < row_count && #[trigger] F::Args::valid_at(*batch, i) ==> array.valid[i]
            &&& forall|i: int|
                0 <= i < row_count && F::Args::valid_at(*batch, i) ==> follows::<F>(
                    f,
                    F::Args::consts(batch),
                    F::Args::elems(batch, i),
                    #[trigger] array.payload[i],
                )
        },
        Origin::Answer(answer) => {
            &&& f.reduces(*batch, Ok(Some(answer)))
            &&& answer@.len() == row_count
            &&& forall|i: int|
                0 <= i < row_count && F::Args::valid_at(*batch, i) ==> #[trigger] array.row(i)
                    == answer@.row(i)
        },
        Origin::FilteredAnswer(answer) => {
            let valid = validity::<F::Args>(*batch, row_count);
            &&& exists|i: int| 0 <= i < row_count && !#[trigger] F::Args::valid_at(*batch, i)
            &&& f.reduces(F::Args::filter(*batch, valid), Ok(Some(answer)))
            &&& answer@.len() == set_count(valid)
            &&& forall|i: int|
                0 <= i < row_count && F::Args::valid_at(*batch, i) ==> #[trigger] array.row(i)
                    == answer@.row(rank(valid, i) as int)
        },
        Origin::ConstantAnswer(answer) => {
            &&& F::Args::constant(*batch)
            &&& f.reduces(F::Args::constant_row(*batch), Ok(Some(answer)))
            &&& answer@.len() == 1
            &&& forall|i: int| 0 <= i < row_count ==> #[trigger] array.row(i) == answer@.row(0)
        },
    }
}

proof fn lemma_filtered_origin<'a, F: RowFn>(
    f: &'a F,
    batch: &'a <F::Args as ElementTuple>::Batch,
    valid: Seq<bool>,
    dtype: DTypeModel,
    array: Array<<F::Sink as OutputSink>::Value>,
) -> (origin: Origin<<F::Sink as OutputSink>::Value>)
    requires
        F::Args::wf(*batch),
        F::Args::lens_match(*batch, valid.len()),
        valid == validity::<F::Args>(*batch, valid.len()),
        !all_set(valid),
        lifted_filtered::<F>(f, batch, valid, dtype, Ok(array)),
    ensures
        comes_from::<F>(f, batch, valid.len(), array@, origin),
{
    let kept = F::Args::filter(*batch, valid);
    F::Args::lemma_filter(*batch, valid);
    let run = choose|run: Result<RowExecution<<F::Sink as OutputSink>::Value>, Error>| #[trigger]
        kernel::<F>(f, &kept, set_count(valid), dtype, run) && shaped(
            run,
            |array: ArrayModel<<F::Sink as OutputSink>::Value>| array.scatter(valid),
            Ok(array),
        );
    let output = run->Ok_0->Output_0;
    let answer = lemma_kernel_origin::<F>(f, &kept, set_count(valid), dtype, output);
    let skipped = choose|i: int| 0 <= i < valid.len() && !valid[i];
    assert(!F::Args::valid_at(*batch, skipped));
    assert forall|i: int| 0 <= i < valid.len() && F::Args::valid_at(*batch, i) implies {
        &&& rank(valid, i) < set_count(valid)
        &&& array@.valid[i] == output@.valid[rank(valid, i) as int]
        &&& #[trigger] array@.payload[i] == output@.payload[rank(valid, i) as int]
    } by {
        assert(valid[i]);
        lemma_rank_of_set(valid, i);
    }
    match answer {
        Some(answer) => {
            assert forall|i: int|
                0 <= i < valid.len() && F::Args::valid_at(*batch, i) implies #[trigger] array@.row(
                i,
            ) == answer@.row(rank(valid, i) as int) by {
                assert(array@.payload[i] == output@.payload[rank(valid, i) as int]);
            }
            Origin::FilteredAnswer(answer)
        },
        None => {
            assert forall|i: int|
                0 <= i < valid.len() && #[trigger] F::Args::valid_at(
                    *batch,
                    i,
                ) implies array@.valid[i] by {
                assert(valid[i]);
                lemma_rank_of_set(valid, i);
                assert(array@.payload[i] == output@.payload[rank(valid, i) as int]);
            }
            assert forall|i: int|
                0 <= i < valid.len() && F::Args::valid_at(*batch, i) implies follows::<F>(
                f,
                F::Args::consts(batch),
                F::Args::elems(batch, i),
                #[trigger] array@.payload[i],
            ) by {
                assert(valid[i]);
                lemma_rank_of_set(valid, i);
                assert(F::Args::valid_at(kept, rank(valid, i) as int) == F::Args::valid_at(
                    *batch,
                    i,
                ));
                assert(array@.payload[i] == output@.payload[rank(valid, i) as int]);
            }
            Origin::Elements
        },
    }
}

proof fn lemma_valid_only_origin<'a, F: RowFn>(
    f: &'a F,
    batch: &'a <F::Args as ElementTuple>::Batch,
    valid: Seq<bool>,
    dtype: DTypeModel,
    filtered_decode_cost: usize,
    array: Array<<F::Sink as OutputSink>::Value>,
) -> (origin: Origin<<F::Sink as OutputSink>::Value>)
    requires
        F::Args::wf(*batch),
        F::Args::lens_match(*batch, valid.len()),
        valid == validity::<F::Args>(*batch, valid.len()),
        !all_set(valid),
        lifted_valid_only::<F>(f, batch, valid, dtype, filtered_decode_cost, Ok(array)),
    ensures
        comes_from::<F>(f, batch, valid.len(), array@, origin),
{
    if lifted_filtered::<F>(f, batch, valid, dtype, Ok(array)) {
        lemma_filtered_origin::<F>(f, batch, valid, dtype, array)
    } else {
        let run = choose|run: Result<Option<RowExecution<<F::Sink as OutputSink>::Value>>, Error>|
            #[trigger]
            kernel_branch::<F>(f, batch, valid.len(), dtype, valid, run) && if run matches Ok(
                None,
            ) {
                lifted_filtered::<F>(f, batch, valid, dtype, Ok(array))
            } else {
                shaped(
                    taken(run),
                    |array: ArrayModel<<F::Sink as OutputSink>::Value>| array.mask(valid),
                    Ok(array),
                )
            };
        let output = taken(run)->Ok_0->Output_0;
        assert(run == Ok::<_, Error>(Some(RowExecution::Output(output))));
        match lemma_branch_origin::<F>(f, batch, dtype, valid, output) {
            Some(answer) => Origin::Answer(answer),
            None => Origin::Elements,
        }
    }
}

/// A row function is strict, also where it answers from how its columns are stored: a row that is
/// null in any argument is null in the result, and all other rows come from one place. Either each
/// follows from its own elements, which a function that answers every time never leaves it at; or
/// each is its own row of the one answer that was given, and then null only where the answer is.
pub proof fn rows_come_from_their_elements_or_from_an_answer<'a, F: RowFn>(
    f: &'a F,
    args: &'a <F::Args as ElementTuple>::Args,
    row_count: usize,
    array: Array<<F::Sink as OutputSink>::Value>,
) -> (origin: Origin<<F::Sink as OutputSink>::Value>)
    requires
        F::Args::wf(F::Args::batch(args)),
        call_ensures(
            execute::<F>,
            (f, args, row_count),
            Ok::<Array<<F::Sink as OutputSink>::Value>, Error>(array),
        ),
    ensures
        array@.len() == row_count,
        forall|i: int|
            0 <= i < row_count && !#[trigger] F::Args::valid_at(F::Args::batch(args), i)
                ==> !array@.valid[i],
        (exists|i: int|
            0 <= i < row_count && #[trigger] F::Args::valid_at(F::Args::batch(args), i))
            ==> comes_from::<F>(f, &F::Args::batch(args), row_count as nat, array@, origin),
{
    let batch = &F::Args::batch(args);
    let dtype = F::Sink::dtype_over(F::Args::dtypes(*batch));
    nulls_propagate::<F>(f, batch, row_count as nat, dtype, array);
    lemma_origin::<F>(f, batch, row_count as nat, dtype, array)
}

/// Where the rows of a result came from.
proof fn lemma_origin<'a, F: RowFn>(
    f: &'a F,
    batch: &'a <F::Args as ElementTuple>::Batch,
    row_count: nat,
    dtype: DTypeModel,
    array: Array<<F::Sink as OutputSink>::Value>,
) -> (origin: Origin<<F::Sink as OutputSink>::Value>)
    requires
        F::Args::wf(*batch),
        F::Args::lens_match(*batch, row_count),
        lifted::<F>(f, batch, row_count, dtype, Ok(array)),
    ensures
        (exists|i: int| 0 <= i < row_count && #[trigger] F::Args::valid_at(*batch, i))
            ==> comes_from::<F>(f, batch, row_count, array@, origin),
{
    let valid = validity::<F::Args>(*batch, row_count);
    let nullable = any_nullable(F::Args::dtypes(*batch));
    if !exists|i: int| 0 <= i < row_count && #[trigger] F::Args::valid_at(*batch, i) {
        Origin::Elements
    } else {
        let seen = choose|i: int| 0 <= i < row_count && #[trigger] F::Args::valid_at(*batch, i);
        assert(valid[seen]);
        F::Args::lemma_nullable(*batch, row_count);
        if F::Args::arity() > 0 && row_count > 0 && F::Args::constant(*batch) {
            let row = F::Args::constant_row(*batch);
            F::Args::lemma_constant_row(*batch, row_count);
            let run = choose|run: Result<RowExecution<<F::Sink as OutputSink>::Value>, Error>|
                #[trigger]
                kernel::<F>(f, &row, 1, dtype, run) && shaped(
                    run,
                    |array: ArrayModel<<F::Sink as OutputSink>::Value>|
                        array.broadcast(row_count).widened(nullable),
                    Ok(array),
                );
            let output = run->Ok_0->Output_0;
            match lemma_kernel_origin::<F>(f, &row, 1, dtype, output) {
                Some(answer) => Origin::ConstantAnswer(answer),
                None => {
                    assert(follows::<F>(
                        f,
                        F::Args::consts(&row),
                        F::Args::elems(&row, 0),
                        output@.payload[0],
                    ));
                    Origin::Elements
                },
            }
        } else if all_set(valid) {
            let run = choose|run: Result<RowExecution<<F::Sink as OutputSink>::Value>, Error>|
                #[trigger]
                kernel::<F>(f, batch, row_count, dtype, run) && shaped(
                    run,
                    |array: ArrayModel<<F::Sink as OutputSink>::Value>| array.widened(nullable),
                    Ok(array),
                );
            let output = run->Ok_0->Output_0;
            match lemma_kernel_origin::<F>(f, batch, row_count, dtype, output) {
                Some(answer) => Origin::Answer(answer),
                None => Origin::Elements,
            }
        } else {
            match policy::<F>() {
                RowPolicy::ValidOnly { filtered_decode_cost } => lemma_valid_only_origin::<F>(
                    f,
                    batch,
                    valid,
                    dtype,
                    filtered_decode_cost,
                    array,
                ),
                _ => {
                    let retried = policy::<F>() == RowPolicy::DenseWithRetry;
                    let run = choose|
                        run: Result<RowExecution<<F::Sink as OutputSink>::Value>, Error>,
                    | #[trigger]
                        kernel::<F>(f, batch, valid.len(), dtype, run) && if retried && (
                        run matches Ok(RowExecution::DeferredError(_))) {
                            lifted_valid_only::<F>(
                                f,
                                batch,
                                valid,
                                dtype,
                                F::Args::FILTERED_DECODE_COST,
                                Ok(array),
                            )
                        } else {
                            shaped(
                                run,
                                |array: ArrayModel<<F::Sink as OutputSink>::Value>|
                                    array.mask(valid),
                                Ok(array),
                            )
                        };
                    if retried && (run matches Ok(RowExecution::DeferredError(_))) {
                        lemma_valid_only_origin::<F>(
                            f,
                            batch,
                            valid,
                            dtype,
                            F::Args::FILTERED_DECODE_COST,
                            array,
                        )
                    } else {
                        let output = run->Ok_0->Output_0;
                        match lemma_kernel_origin::<F>(f, batch, row_count, dtype, output) {
                            Some(answer) => Origin::Answer(answer),
                            None => Origin::Elements,
                        }
                    }
                },
            }
        }
    }
}

/// An answer that is found without decoding is the result: where a function answers every time, and
/// no argument is null anywhere nor are all constant, the rows of the result are those of the
/// answer.
pub proof fn answers_are_the_result<'a, F: RowFn>(
    f: &'a F,
    args: &'a <F::Args as ElementTuple>::Args,
    row_count: usize,
    array: Array<<F::Sink as OutputSink>::Value>,
) -> (answer: Array<<F::Sink as OutputSink>::Value>)
    requires
        F::Args::wf(F::Args::batch(args)),
        forall|asked: <F::Args as ElementTuple>::Batch| !#[trigger] f.reduces(asked, Ok(None)),
        forall|i: int| 0 <= i < row_count ==> #[trigger] F::Args::valid_at(F::Args::batch(args), i),
        !F::Args::constant(F::Args::batch(args)),
        row_count > 0,
        call_ensures(
            execute::<F>,
            (f, args, row_count),
            Ok::<Array<<F::Sink as OutputSink>::Value>, Error>(array),
        ),
    ensures
        f.reduces(F::Args::batch(args), Ok(Some(answer))),
        answer@.len() == row_count,
        array@.len() == row_count,
        forall|i: int| 0 <= i < row_count ==> #[trigger] array@.row(i) == answer@.row(i),
{
    assert(F::Args::valid_at(F::Args::batch(args), 0));
    match rows_come_from_their_elements_or_from_an_answer::<F>(f, args, row_count, array) {
        Origin::Answer(answer) => {
            assert forall|i: int| 0 <= i < row_count implies #[trigger] array@.row(i)
                == answer@.row(i) by {
                assert(F::Args::valid_at(F::Args::batch(args), i));
            }
            answer
        },
        _ => arbitrary(),
    }
}

/// What executing a function states.
proof fn lemma_executed<'a, F: RowFn>(
    f: &'a F,
    args: &'a <F::Args as ElementTuple>::Args,
    row_count: usize,
    array: Array<<F::Sink as OutputSink>::Value>,
)
    requires
        call_ensures(
            execute::<F>,
            (f, args, row_count),
            Ok::<Array<<F::Sink as OutputSink>::Value>, Error>(array),
        ),
    ensures
        executed::<F>(f, &F::Args::batch(args), row_count as nat, Ok(array)),
{
}

/// What a function of two columns comes to, row by row: a row is null exactly where either column
/// is null there, and otherwise it is the value that the computation leaves for the values of the
/// two columns in that row, prepared from those columns that hold one value throughout. No row that
/// failed is left in the result.
pub proof fn binary_functions_compute_each_row<
    'a,
    A: InputElement,
    B: InputElement,
    F: RowFn<Args = (A, (B, ()))>,
>(
    f: &'a F,
    args: &'a (Array<A::Value>, (Array<B::Value>, ())),
    row_count: usize,
    array: Array<<F::Sink as OutputSink>::Value>,
    i: int,
)
    requires
        never_reduces(f),
        args.0@.wf(),
        args.1.0@.wf(),
        call_ensures(
            execute::<F>,
            (f, args, row_count),
            Ok::<Array<<F::Sink as OutputSink>::Value>, Error>(array),
        ),
        0 <= i < row_count,
    ensures
        array@.len() == row_count,
        args.0@.len() == row_count,
        args.1.0@.len() == row_count,
        ({
            let dtype = F::Sink::dtype_over(seq![args.0@.dtype, args.1.0@.dtype]);
            array@.dtype == if args.0@.dtype.nullability() == Nullability::Nullable
                || args.1.0@.dtype.nullability() == Nullability::Nullable {
                dtype.with_nullability(Nullability::Nullable)
            } else {
                dtype
            }
        }),
        array@.valid[i] <==> args.0@.valid[i] && args.1.0@.valid[i],
        array@.valid[i] ==> exists|
            state: F::State,
            before: <F::Sink as OutputSink>::Slot,
            after: <F::Sink as OutputSink>::Slot,
            outcome: F::Outcome,
        |
            {
                &&& f.prepares(
                    (
                        match args.0@.constant {
                            Some(Some(value)) => Some(A::elem_of(&value)),
                            _ => None,
                        },
                        (
                            match args.1.0@.constant {
                                Some(Some(value)) => Some(B::elem_of(&value)),
                                _ => None,
                            },
                            (),
                        ),
                    ),
                    state,
                )
                &&& #[trigger] f.computes(
                    state,
                    (
                        A::elem_of(&args.0@.payload[i]->0),
                        (B::elem_of(&args.1.0@.payload[i]->0), ()),
                    ),
                    before,
                    after,
                    outcome,
                )
                &&& outcome.early_error() is None
                &&& F::Sink::ERRORS_ARE_DEFERRED ==> !outcome.evidence()
                &&& array@.payload[i] == Some(F::Sink::value_of(after))
            },
{
    let batch = &F::Args::batch(args);
    let dtype = F::Sink::dtype_over(F::Args::dtypes(*batch));
    let dtypes = F::Args::dtypes(*batch);
    assert(dtypes =~= seq![args.0@.dtype, args.1.0@.dtype]);
    if any_nullable(dtypes) {
        let k = choose|k: int| 0 <= k < dtypes.len() && (#[trigger] dtypes[k]).nullable();
        assert(k == 0 || k == 1);
    }
    if dtypes[0].nullable() || dtypes[1].nullable() {
        assert(any_nullable(dtypes));
    }
    lemma_executed::<F>(f, args, row_count, array);
    lifting_is_strict::<F>(f, batch, row_count as nat, dtype, array);
    assert(validity::<F::Args>(*batch, row_count as nat)[i] == array@.valid[i]);
    if array@.valid[i] {
        assert(F::Args::valid_at(*batch, i));
        assert(follows::<F>(
            f,
            F::Args::consts(batch),
            F::Args::elems(batch, i),
            array@.payload[i],
        ));
    }
}

/// What a function of one column comes to, row by row: a row is null exactly where the column
/// is null there, and otherwise it is the value that the computation leaves for the value of the
/// column in that row, prepared from the column where it holds one value throughout. No row that
/// failed is left in the result.
pub proof fn unary_functions_compute_each_row<'a, A: InputElement, F: RowFn<Args = (A, ())>>(
    f: &'a F,
    args: &'a (Array<A::Value>, ()),
    row_count: usize,
    array: Array<<F::Sink as OutputSink>::Value>,
    i: int,
)
    requires
        never_reduces(f),
        args.0@.wf(),
        call_ensures(
            execute::<F>,
            (f, args, row_count),
            Ok::<Array<<F::Sink as OutputSink>::Value>, Error>(array),
        ),
        0 <= i < row_count,
    ensures
        array@.len() == row_count,
        args.0@.len() == row_count,
        ({
            let dtype = F::Sink::dtype_over(seq![args.0@.dtype]);
            array@.dtype == if args.0@.dtype.nullability() == Nullability::Nullable {
                dtype.with_nullability(Nullability::Nullable)
            } else {
                dtype
            }
        }),
        array@.valid[i] <==> args.0@.valid[i],
        array@.valid[i] ==> exists|
            state: F::State,
            before: <F::Sink as OutputSink>::Slot,
            after: <F::Sink as OutputSink>::Slot,
            outcome: F::Outcome,
        |
            {
                &&& f.prepares(
                    (
                        match args.0@.constant {
                            Some(Some(value)) => Some(A::elem_of(&value)),
                            _ => None,
                        },
                        (),
                    ),
                    state,
                )
                &&& #[trigger] f.computes(
                    state,
                    (A::elem_of(&args.0@.payload[i]->0), ()),
                    before,
                    after,
                    outcome,
                )
                &&& outcome.early_error() is None
                &&& F::Sink::ERRORS_ARE_DEFERRED ==> !outcome.evidence()
                &&& array@.payload[i] == Some(F::Sink::value_of(after))
            },
{
    let batch = &F::Args::batch(args);
    let dtype = F::Sink::dtype_over(F::Args::dtypes(*batch));
    let dtypes = F::Args::dtypes(*batch);
    assert(dtypes =~= seq![args.0@.dtype]);
    if any_nullable(dtypes) {
        let k = choose|k: int| 0 <= k < dtypes.len() && (#[trigger] dtypes[k]).nullable();
        assert(k == 0);
    }
    if dtypes[0].nullable() {
        assert(any_nullable(dtypes));
    }
    lemma_executed::<F>(f, args, row_count, array);
    lifting_is_strict::<F>(f, batch, row_count as nat, dtype, array);
    assert(validity::<F::Args>(*batch, row_count as nat)[i] == array@.valid[i]);
    if array@.valid[i] {
        assert(F::Args::valid_at(*batch, i));
        assert(follows::<F>(
            f,
            F::Args::consts(batch),
            F::Args::elems(batch, i),
            array@.payload[i],
        ));
    }
}

/// The first row of a run that ends it decides the error.
proof fn lemma_first_failure<'a, F: RowFn>(
    f: &'a F,
    batch: &'a <F::Args as ElementTuple>::Batch,
    dtype: DTypeModel,
    bits: Seq<bool>,
    state: F::State,
    k: int,
    error: ErrorModel,
    result: Result<RowExecution<<F::Sink as OutputSink>::Value>, Error>,
)
    requires
        executes::<F::Args, F::State, F::Sink, F::Outcome>(
            batch,
            dtype,
            bits,
            stated::<F>(f, batch).0,
            stated::<F>(f, batch).1,
            state,
            result,
        ),
        0 <= k < bits.len(),
        bits[k],
        forall|i: int|
            0 <= i < bits.len() && bits[i] ==> #[trigger] F::Args::valid_at(*batch, i),
        fails_first::<F>(f, batch, k, error),
    ensures
        result matches Err(cause) && cause@ == error,
{
    let computes = stated::<F>(f, batch).1;
    let step = row_step::<F::Args, F::State, F::Sink, F::Outcome>(batch, computes, state);
    let start = choose|start: Seq<<F::Sink as OutputSink>::Slot>| #[trigger]
        starts::<F::Sink>(bits.len(), dtype, start) && execution_from::<F::Sink, F::Outcome>(
            step,
            dtype,
            bits,
            start,
            result,
        );
    if exists|slots: Seq<<F::Sink as OutputSink>::Slot>, outcomes: Seq<F::Outcome>| #[trigger]
        rows_ran(step, bits, start, slots, outcomes) {
        let (slots, outcomes) = choose|
            slots: Seq<<F::Sink as OutputSink>::Slot>,
            outcomes: Seq<F::Outcome>,
        | #[trigger] rows_ran(step, bits, start, slots, outcomes);
        assert(row_ran(step, k, start, slots, outcomes));
        lemma_row_computed::<F>(f, batch, state, k, start[k], slots[k], outcomes[k]);
    } else {
        let cause = result->Err_0;
        let (at, slots, outcomes, after) = choose|
            at: int,
            slots: Seq<<F::Sink as OutputSink>::Slot>,
            outcomes: Seq<F::Outcome>,
            after: <F::Sink as OutputSink>::Slot,
        | #[trigger] row_fails(step, bits, at, start, slots, outcomes, after, cause@);
        assert(F::Args::valid_at(*batch, at));
        if at > k {
            assert(row_ran(step, k, start, slots, outcomes));
            lemma_row_computed::<F>(f, batch, state, k, start[k], slots[k], outcomes[k]);
        } else {
            lemma_row_computed::<F>(f, batch, state, at, start[at], after, outcomes[at]);
        }
    }
}

/// What a row that is null in no argument did.
proof fn lemma_row_computed<'a, F: RowFn>(
    f: &'a F,
    batch: &'a <F::Args as ElementTuple>::Batch,
    state: F::State,
    i: int,
    before: <F::Sink as OutputSink>::Slot,
    after: <F::Sink as OutputSink>::Slot,
    outcome: F::Outcome,
)
    requires
        F::Args::valid_at(*batch, i),
        steps(
            row_step::<F::Args, F::State, F::Sink, F::Outcome>(
                batch,
                stated::<F>(f, batch).1,
                state,
            ),
            i,
            before,
            after,
            outcome,
        ),
    ensures
        f.computes(state, F::Args::elems(batch, i), before, after, outcome),
{
    let computes = stated::<F>(f, batch).1;
    let elems = choose|elems: <F::Args as ElementTuple>::Elems<'a>| #[trigger]
        presents::<F::Args>(batch, i, elems) && computes(state, elems, before, after, outcome);
}

/// Whether row `k` returns `error`, and no row in front of it that is null in no argument returns
/// any.
pub open spec fn fails_first<'a, F: RowFn>(
    f: &'a F,
    batch: &'a <F::Args as ElementTuple>::Batch,
    k: int,
    error: ErrorModel,
) -> bool {
    forall|
        i: int,
        state: F::State,
        before: <F::Sink as OutputSink>::Slot,
        after: <F::Sink as OutputSink>::Slot,
        outcome: F::Outcome,
    |
        0 <= i <= k && F::Args::valid_at(*batch, i) && f.prepares(F::Args::consts(batch), state)
            && #[trigger] f.computes(state, F::Args::elems(batch, i), before, after, outcome)
            ==> outcome.early_error() == if i == k {
            Some(error)
        } else {
            None
        }
}

proof fn lemma_filtered_failure<'a, F: RowFn>(
    f: &'a F,
    batch: &'a <F::Args as ElementTuple>::Batch,
    valid: Seq<bool>,
    dtype: DTypeModel,
    k: int,
    error: ErrorModel,
    result: Result<Array<<F::Sink as OutputSink>::Value>, Error>,
)
    requires
        never_reduces(f),
        F::Args::wf(*batch),
        F::Args::lens_match(*batch, valid.len()),
        valid == validity::<F::Args>(*batch, valid.len()),
        only_rows_fail::<F>(F::Args::filter(*batch, valid), set_count(valid), dtype),
        0 <= k < valid.len(),
        F::Args::valid_at(*batch, k),
        fails_first::<F>(f, batch, k, error),
        lifted_filtered::<F>(f, batch, valid, dtype, result),
    ensures
        result matches Err(cause) && cause@ == error,
{
    let kept = F::Args::filter(*batch, valid);
    let count = set_count(valid);
    F::Args::lemma_filter(*batch, valid);
    assert(valid[k]);
    lemma_rank_of_set(valid, k);
    let at = rank(valid, k) as int;
    assert forall|j: int| 0 <= j < count implies {
        &&& #[trigger] F::Args::valid_at(kept, j)
        &&& exists|i: int|
            0 <= i < valid.len() && #[trigger] F::Args::valid_at(*batch, i) && rank(valid, i) == j
                && F::Args::elems(&kept, j) == F::Args::elems(batch, i)
    } by {
        let i = lemma_filtered_source(valid, valid, j);
        assert(F::Args::valid_at(kept, rank(valid, i) as int) == F::Args::valid_at(*batch, i));
    }
    assert(F::Args::valid_at(kept, rank(valid, k) as int) == F::Args::valid_at(*batch, k));
    assert(fails_first::<F>(f, &kept, at, error)) by {
        assert forall|
            j: int,
            state: F::State,
            before: <F::Sink as OutputSink>::Slot,
            after: <F::Sink as OutputSink>::Slot,
            outcome: F::Outcome,
        |
            0 <= j <= at && F::Args::valid_at(kept, j) && f.prepares(F::Args::consts(&kept), state)
                && #[trigger] f.computes(
                state,
                F::Args::elems(&kept, j),
                before,
                after,
                outcome,
            ) implies outcome.early_error() == (if j == at {
            Some(error)
        } else {
            None
        }) by {
            let i = choose|i: int|
                0 <= i < valid.len() && #[trigger] F::Args::valid_at(*batch, i) && rank(valid, i)
                    == j && F::Args::elems(&kept, j) == F::Args::elems(batch, i);
            assert(valid[i]);
            if i > k {
                assert(rank(valid, k + 1) == rank(valid, k) + 1);
                crate::mask::lemma_rank_monotone(valid, k + 1, i);
            } else if i < k {
                assert(rank(valid, i + 1) == rank(valid, i) + 1);
                crate::mask::lemma_rank_monotone(valid, i + 1, k);
            }
            assert(f.computes(state, F::Args::elems(batch, i), before, after, outcome));
        }
    }
    let run = choose|run: Result<RowExecution<<F::Sink as OutputSink>::Value>, Error>| #[trigger]
        kernel::<F>(f, &kept, count, dtype, run) && shaped(
            run,
            |array: ArrayModel<<F::Sink as OutputSink>::Value>| array.scatter(valid),
            result,
        );
    lemma_kernel_failure::<F>(f, &kept, count, dtype, at, error, run);
}

proof fn lemma_kernel_failure<'a, F: RowFn>(
    f: &'a F,
    batch: &'a <F::Args as ElementTuple>::Batch,
    row_count: nat,
    dtype: DTypeModel,
    k: int,
    error: ErrorModel,
    run: Result<RowExecution<<F::Sink as OutputSink>::Value>, Error>,
)
    requires
        never_reduces(f),
        only_rows_fail::<F>(*batch, row_count, dtype),
        0 <= k < row_count,
        forall|i: int| 0 <= i < row_count ==> #[trigger] F::Args::valid_at(*batch, i),
        fails_first::<F>(f, batch, k, error),
        kernel::<F>(f, batch, row_count, dtype, run),
    ensures
        run matches Err(cause) && cause@ == error,
{
    assert(kernel_rows::<F>(f, batch, row_count, dtype, run));
    let bits = every_row(row_count);
    let state = choose|state: F::State| #[trigger]
        executes::<F::Args, F::State, F::Sink, F::Outcome>(
            batch,
            dtype,
            bits,
            stated::<F>(f, batch).0,
            stated::<F>(f, batch).1,
            state,
            run,
        );
    lemma_first_failure::<F>(f, batch, dtype, bits, state, k, error, run);
}

/// Of a function that returns errors, the first row that is null in no argument and returns one
/// decides the error of the batch, whichever way the batch is run: no later row does, and no row
/// behind a null.
pub proof fn the_first_failing_row_decides_the_error<'a, F: RowFn>(
    f: &'a F,
    batch: &'a <F::Args as ElementTuple>::Batch,
    row_count: nat,
    dtype: DTypeModel,
    k: int,
    error: ErrorModel,
    result: Result<Array<<F::Sink as OutputSink>::Value>, Error>,
)
    requires
        F::Outcome::FALLIBLE,
        never_reduces(f),
        F::Args::wf(*batch),
        F::Args::lens_match(*batch, row_count),
        F::Args::tolerant(*batch) is Ok,
        only_rows_fail::<F>(*batch, row_count, dtype),
        only_rows_fail::<F>(
            F::Args::filter(*batch, validity::<F::Args>(*batch, row_count)),
            set_count(validity::<F::Args>(*batch, row_count)),
            dtype,
        ),
        F::Args::constant(*batch) ==> only_rows_fail::<F>(
            F::Args::constant_row(*batch),
            1,
            dtype,
        ),
        0 <= k < row_count,
        F::Args::valid_at(*batch, k),
        forall|
            i: int,
            state: F::State,
            before: <F::Sink as OutputSink>::Slot,
            after: <F::Sink as OutputSink>::Slot,
            outcome: F::Outcome,
        |
            0 <= i <= k && F::Args::valid_at(*batch, i) && f.prepares(F::Args::consts(batch), state)
                && #[trigger] f.computes(state, F::Args::elems(batch, i), before, after, outcome)
                ==> outcome.early_error() == if i == k {
                Some(error)
            } else {
                None
            },
        lifted::<F>(f, batch, row_count, dtype, result),
    ensures
        result matches Err(cause) && cause@ == error,
{
    let valid = validity::<F::Args>(*batch, row_count);
    let nullable = any_nullable(F::Args::dtypes(*batch));
    assert(valid[k]);
    assert(fails_first::<F>(f, batch, k, error));
    F::Args::lemma_nullable(*batch, row_count);
    if F::Args::arity() > 0 && row_count > 0 && F::Args::constant(*batch) {
        let row = F::Args::constant_row(*batch);
        F::Args::lemma_constant_row(*batch, row_count);
        assert(F::Args::valid_at(*batch, 0));
        assert(F::Args::valid_at(*batch, k));
        assert(fails_first::<F>(f, &row, 0, error)) by {
            assert forall|
                i: int,
                state: F::State,
                before: <F::Sink as OutputSink>::Slot,
                after: <F::Sink as OutputSink>::Slot,
                outcome: F::Outcome,
            |
                0 <= i <= 0 && F::Args::valid_at(row, i) && f.prepares(
                    F::Args::consts(&row),
                    state,
                ) && #[trigger] f.computes(
                    state,
                    F::Args::elems(&row, i),
                    before,
                    after,
                    outcome,
                ) implies outcome.early_error() == (if i == 0 {
                Some(error)
            } else {
                None
            }) by {
                assert(f.computes(state, F::Args::elems(batch, k), before, after, outcome));
            }
        }
        let run = choose|run: Result<RowExecution<<F::Sink as OutputSink>::Value>, Error>|
            #[trigger]
            kernel::<F>(f, &row, 1, dtype, run) && shaped(
                run,
                |array: ArrayModel<<F::Sink as OutputSink>::Value>|
                    array.broadcast(row_count).widened(nullable),
                result,
            );
        lemma_kernel_failure::<F>(f, &row, 1, dtype, 0, error, run);
    } else if all_set(valid) {
        assert forall|i: int| 0 <= i < row_count implies #[trigger] F::Args::valid_at(
            *batch,
            i,
        ) by {
            assert(valid[i]);
        }
        let run = choose|run: Result<RowExecution<<F::Sink as OutputSink>::Value>, Error>|
            #[trigger]
            kernel::<F>(f, batch, row_count, dtype, run) && shaped(
                run,
                |array: ArrayModel<<F::Sink as OutputSink>::Value>| array.widened(nullable),
                result,
            );
        lemma_kernel_failure::<F>(f, batch, row_count, dtype, k, error, run);
    } else if lifted_filtered::<F>(f, batch, valid, dtype, result) {
        lemma_filtered_failure::<F>(f, batch, valid, dtype, k, error, result);
    } else {
        let run = choose|run: Result<Option<RowExecution<<F::Sink as OutputSink>::Value>>, Error>|
            #[trigger]
            kernel_branch::<F>(f, batch, valid.len(), dtype, valid, run) && if run matches Ok(
                None,
            ) {
                lifted_filtered::<F>(f, batch, valid, dtype, result)
            } else {
                shaped(
                    taken(run),
                    |array: ArrayModel<<F::Sink as OutputSink>::Value>| array.mask(valid),
                    result,
                )
            };
        assert(kernel_valid_rows::<F>(f, batch, valid.len(), dtype, valid, run));
        let state = choose|state: F::State| #[trigger]
            executes::<F::Args, F::State, F::Sink, F::Outcome>(
                batch,
                dtype,
                valid,
                stated::<F>(f, batch).0,
                stated::<F>(f, batch).1,
                state,
                taken(run),
            );
        assert forall|i: int| 0 <= i < valid.len() && valid[i] implies #[trigger] F::Args::valid_at(
            *batch,
            i,
        ) by {}
        lemma_first_failure::<F>(f, batch, dtype, valid, state, k, error, taken(run));
    }
}

/// What is checked before a function is run: columns that it does not take are refused with the
/// reason, and columns that do not all have as many rows as asked for are refused. Nothing else
/// keeps it from being run.
pub proof fn functions_run_on_what_they_take<'a, F: RowFn>(
    f: &'a F,
    args: &'a <F::Args as ElementTuple>::Args,
    row_count: usize,
    result: Result<Array<<F::Sink as OutputSink>::Value>, Error>,
)
    requires
        call_ensures(execute::<F>, (f, args, row_count), result),
    ensures
        ({
            let batch = F::Args::batch(args);
            let dtypes = F::Args::dtypes(batch);
            let refusal = row_sink_rejection::<F::Args, F::Sink>(dtypes);
            &&& refusal is Some ==> result is Err && refusal == Some(result->Err_0@)
            &&& refusal is None && !F::Args::lens_match(batch, row_count as nat) ==> result is Err
                && result->Err_0@ == (ErrorModel::ColumnRows { row_count: row_count as nat })
            &&& refusal is None && F::Args::lens_match(batch, row_count as nat) ==> lifted::<F>(
                f,
                &batch,
                row_count as nat,
                F::Sink::dtype_over(dtypes),
                result,
            )
        }),
{
}

/// A function of two fixed-width columns that claims never to fail has a result wherever it takes
/// the columns: each of its own type, nullable or not, and with as many rows as asked for.
pub proof fn infallible_functions_of_fixed_width_columns_succeed<
    'a,
    A: Native,
    B: Native,
    T: OutputElement,
    F: RowFn<Args = (A, (B, ())), Sink = ElementSink<T>>,
>(
    f: &'a F,
    args: &'a (Array<A>, (Array<B>, ())),
    row_count: usize,
    result: Result<Array<T>, Error>,
)
    requires
        coherent::<F>(),
        !F::FALLIBLE,
        never_reduces(f),
        args.0@.wf(),
        args.1.0@.wf(),
        args.0@.len() == row_count,
        args.1.0@.len() == row_count,
        args.0@.dtype.with_nullability(Nullability::NonNullable) == A::stored(),
        args.1.0@.dtype.with_nullability(Nullability::NonNullable) == B::stored(),
        T::dtype().nullability() == Nullability::NonNullable,
        call_ensures(execute::<F>, (f, args, row_count), result),
    ensures
        result is Ok,
{
    let batch = (args.0@, (args.1.0@, ()));
    functions_run_on_what_they_take::<F>(f, args, row_count, result);
    let dtypes = <(A, (B, ())) as ElementTuple>::dtypes(batch);
    assert(dtypes =~= seq![args.0@.dtype, args.1.0@.dtype]);
    assert(dtypes.skip(1) =~= seq![args.1.0@.dtype]);
    let valid = validity::<(A, (B, ()))>(batch, row_count as nat);
    <(A, (B, ())) as ElementTuple>::lemma_filter(batch, valid);
    infallible_functions_succeed::<F>(f, &batch, row_count as nat, T::dtype(), result);
}

/// A function that fails to answer fails over the batch, with the same error, whichever way the
/// batch would have been run. Columns that are null in every row are not asked about.
pub proof fn failed_answers_are_reported<'a, F: RowFn>(
    f: &'a F,
    args: &'a <F::Args as ElementTuple>::Args,
    row_count: usize,
    k: int,
    cause: ErrorModel,
    result: Result<Array<<F::Sink as OutputSink>::Value>, Error>,
)
    requires
        F::Args::wf(F::Args::batch(args)),
        F::Args::lens_match(F::Args::batch(args), row_count as nat),
        row_sink_rejection::<F::Args, F::Sink>(F::Args::dtypes(F::Args::batch(args))) is None,
        0 <= k < row_count,
        F::Args::valid_at(F::Args::batch(args), k),
        forall|
            asked: <F::Args as ElementTuple>::Batch,
            answer: Result<Option<Array<<F::Sink as OutputSink>::Value>>, Error>,
        | #[trigger] f.reduces(asked, answer) ==> answer is Err && answer->Err_0@ == cause,
        call_ensures(execute::<F>, (f, args, row_count), result),
    ensures
        result is Err && result->Err_0@ == cause,
{
    let batch = &F::Args::batch(args);
    let valid = validity::<F::Args>(*batch, row_count as nat);
    assert(valid[k]);
    F::Args::lemma_nullable(*batch, row_count as nat);
    functions_run_on_what_they_take::<F>(f, args, row_count, result);
}

/// An answer that has not as many rows as there are to answer for is refused, and the error says
/// how many it has and how many it should have.
pub proof fn answers_of_another_length_are_refused<'a, F: RowFn>(
    f: &'a F,
    args: &'a <F::Args as ElementTuple>::Args,
    row_count: usize,
    len: nat,
    result: Result<Array<<F::Sink as OutputSink>::Value>, Error>,
)
    requires
        F::Args::wf(F::Args::batch(args)),
        F::Args::lens_match(F::Args::batch(args), row_count as nat),
        row_sink_rejection::<F::Args, F::Sink>(F::Args::dtypes(F::Args::batch(args))) is None,
        forall|i: int| 0 <= i < row_count ==> #[trigger] F::Args::valid_at(F::Args::batch(args), i),
        !F::Args::constant(F::Args::batch(args)),
        row_count > 0,
        len != row_count,
        forall|answer: Result<Option<Array<<F::Sink as OutputSink>::Value>>, Error>| #[trigger]
            f.reduces(F::Args::batch(args), answer) ==> answer is Ok && answer->Ok_0 is Some && (
            answer->Ok_0->0)@.len() == len,
        call_ensures(execute::<F>, (f, args, row_count), result),
    ensures
        result is Err && result->Err_0@ == (ErrorModel::ResultRows {
            got: len,
            expected: row_count as nat,
        }),
{
    let batch = &F::Args::batch(args);
    let valid = validity::<F::Args>(*batch, row_count as nat);
    assert(F::Args::valid_at(*batch, 0));
    assert(valid[0]);
    F::Args::lemma_nullable(*batch, row_count as nat);
    functions_run_on_what_they_take::<F>(f, args, row_count, result);
}

} // verus!
