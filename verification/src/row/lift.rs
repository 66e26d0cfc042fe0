//! Lifting a row function to columns: nulls, constants and the choice of which rows to run.

use vstd::prelude::*;

use crate::array::{nulls, Array, ArrayModel};
use crate::dtype::{any_nullable, is_any_nullable, models, DType, DTypeModel};
use crate::error::{Error, ErrorModel};
use crate::mask::{all_set, lemma_filtered_source, none_set, rank, set_count, Mask};
use crate::row::execute::{
    branch_execution, every_row, execute_row_sink_branch, execute_row_sink_prepared,
    lemma_executes_weakens, prepared_execution, row_sink_rejection, taken, validate_row_sink,
    RowExecution,
};
use crate::row::row_fn::{coherent, policy, row_policy, RowFn, RowPolicy};
use crate::row::sink::OutputSink;
use crate::row::tuple::ElementTuple;

verus! {

/// The rows of a batch that are null in no argument.
pub open spec fn validity<A: ElementTuple>(batch: A::Batch, row_count: nat) -> Seq<bool> {
    Seq::new(row_count, |i: int| A::valid_at(batch, i))
}

/// Whether to skip to the valid rows rather than filter the columns, given how much decoding
/// filtering saves and how many rows survive.
pub open spec fn branches(filtered_decode_cost: nat, survivors: nat, row_count: nat) -> bool {
    if filtered_decode_cost == 0 {
        true
    } else if filtered_decode_cost == 1 {
        2 * survivors >= row_count
    } else {
        100 * survivors >= 85 * row_count
    }
}

/// Whether to skip to the valid rows rather than filter the columns.
pub fn prefers_branch(filtered_decode_cost: usize, survivors: usize, row_count: usize) -> (result:
    bool)
    ensures
        result == branches(filtered_decode_cost as nat, survivors as nat, row_count as nat),
{
    if filtered_decode_cost == 0 {
        true
    } else if filtered_decode_cost == 1 {
        2u128 * (survivors as u128) >= row_count as u128
    } else {
        100u128 * (survivors as u128) >= 85u128 * (row_count as u128)
    }
}

/// What a function states of its preparation and its row computation.
pub open spec fn stated<'a, F: RowFn>(
    f: &'a F,
    batch: &'a <F::Args as ElementTuple>::Batch,
) -> (
    spec_fn(<F::Args as ElementTuple>::ConstElems<'a>, F::State) -> bool,
    spec_fn(
        F::State,
        <F::Args as ElementTuple>::Elems<'a>,
        <F::Sink as OutputSink>::Slot,
        <F::Sink as OutputSink>::Slot,
        F::Outcome,
    ) -> bool,
) {
    (
        |consts: <F::Args as ElementTuple>::ConstElems<'a>, state: F::State|
            f.prepares(consts, state),
        |
            state: F::State,
            elems: <F::Args as ElementTuple>::Elems<'a>,
            before: <F::Sink as OutputSink>::Slot,
            after: <F::Sink as OutputSink>::Slot,
            outcome: F::Outcome,
        | f.computes(state, elems, before, after, outcome),
    )
}

/// Whether `result` can come of decoding a batch and running a function over every row of it.
pub open spec fn kernel_rows<'a, F: RowFn>(
    f: &'a F,
    batch: &'a <F::Args as ElementTuple>::Batch,
    row_count: nat,
    dtype: DTypeModel,
    result: Result<RowExecution<<F::Sink as OutputSink>::Value>, Error>,
) -> bool {
    prepared_execution::<F::Args, F::State, F::Sink, F::Outcome>(
        batch,
        row_count,
        dtype,
        stated::<F>(f, batch).0,
        stated::<F>(f, batch).1,
        result,
    )
}

/// Whether `result` can come of running a function over every row of a batch.
pub open spec fn kernel<'a, F: RowFn>(
    f: &'a F,
    batch: &'a <F::Args as ElementTuple>::Batch,
    row_count: nat,
    dtype: DTypeModel,
    result: Result<RowExecution<<F::Sink as OutputSink>::Value>, Error>,
) -> bool {
    exists|reduced: Result<Option<Array<<F::Sink as OutputSink>::Value>>, Error>| #[trigger]
        f.reduces(*batch, reduced) && match reduced {
            Ok(Some(array)) => reduction(array@, row_count, result),
            Ok(None) => kernel_rows::<F>(f, batch, row_count, dtype, result),
            Err(error) => result matches Err(cause) && cause@ == error@,
        }
}

/// Whether `result` can come of decoding a batch and running a function over only the rows set in
/// `bits`.
pub open spec fn kernel_valid_rows<'a, F: RowFn>(
    f: &'a F,
    batch: &'a <F::Args as ElementTuple>::Batch,
    row_count: nat,
    dtype: DTypeModel,
    bits: Seq<bool>,
    result: Result<Option<RowExecution<<F::Sink as OutputSink>::Value>>, Error>,
) -> bool {
    branch_execution::<F::Args, F::State, F::Sink, F::Outcome>(
        batch,
        row_count,
        dtype,
        bits,
        stated::<F>(f, batch).0,
        stated::<F>(f, batch).1,
        result,
    )
}

/// Whether `result` can come of running a function over only the rows of a batch that are set in
/// `bits`.
pub open spec fn kernel_branch<'a, F: RowFn>(
    f: &'a F,
    batch: &'a <F::Args as ElementTuple>::Batch,
    row_count: nat,
    dtype: DTypeModel,
    bits: Seq<bool>,
    result: Result<Option<RowExecution<<F::Sink as OutputSink>::Value>>, Error>,
) -> bool {
    exists|reduced: Result<Option<Array<<F::Sink as OutputSink>::Value>>, Error>| #[trigger]
        f.reduces(*batch, reduced) && match reduced {
            Ok(Some(array)) => {
                &&& result matches Ok(run) ==> run is Some
                &&& reduction(array@, row_count, taken(result))
            },
            Ok(None) => kernel_valid_rows::<F>(f, batch, row_count, dtype, bits, result),
            Err(error) => result matches Err(cause) && cause@ == error@,
        }
}

/// Whether `result` is what is made of an answer that was found without decoding.
pub open spec fn reduction<V>(
    array: ArrayModel<V>,
    row_count: nat,
    result: Result<RowExecution<V>, Error>,
) -> bool {
    if array.len() == row_count {
        result matches Ok(RowExecution::Output(output)) && output@ == array
    } else {
        result matches Err(error) && error@ == (ErrorModel::ResultRows {
            got: array.len(),
            expected: row_count,
        })
    }
}

/// Run a computation that keeps to what `f` states, over every row.
fn run_prepared<F: RowFn>(
    f: &F,
    args: &<F::Args as ElementTuple>::Args,
    row_count: usize,
    sink_dtype: &DType,
    prepare: impl FnOnce(<F::Args as ElementTuple>::ConstElems<'_>) -> F::State,
    apply: impl Fn(
        &F::State,
        <F::Args as ElementTuple>::Elems<'_>,
        &mut <F::Sink as OutputSink>::Slot,
    ) -> F::Outcome,
) -> (result: Result<RowExecution<<F::Sink as OutputSink>::Value>, Error>)
    requires
        F::Args::lens_match(F::Args::batch(args), row_count as nat),
        F::Args::rejection(F::Args::dtypes(F::Args::batch(args))) is None,
        F::Sink::declares(sink_dtype@),
        F::Args::DENSE_SAFE || forall|i: int|
            0 <= i < row_count ==> #[trigger] F::Args::valid_at(F::Args::batch(args), i),
        forall|consts: <F::Args as ElementTuple>::ConstElems<'_>| #[trigger]
            call_requires(prepare, (consts,)),
        forall|consts: <F::Args as ElementTuple>::ConstElems<'_>, state: F::State| #[trigger]
            call_ensures(prepare, (consts,), state) ==> f.prepares(consts, state),
        forall|
            state: &F::State,
            elems: <F::Args as ElementTuple>::Elems<'_>,
            slot: &mut <F::Sink as OutputSink>::Slot,
        | #[trigger] call_requires(apply, (state, elems, slot)),
        forall|
            state: &F::State,
            elems: <F::Args as ElementTuple>::Elems<'_>,
            slot: &mut <F::Sink as OutputSink>::Slot,
            outcome: F::Outcome,
        | #[trigger]
            call_ensures(apply, (state, elems, slot), outcome) ==> f.computes(
                *state,
                elems,
                *slot,
                *final(slot),
                outcome,
            ),
    ensures
        kernel_rows::<F>(f, &F::Args::batch(args), row_count as nat, sink_dtype@, result),
{
    let ghost batch = F::Args::batch(args);
    let ghost strong = (
        |consts: <F::Args as ElementTuple>::ConstElems<'_>, state: F::State|
            call_ensures(prepare, (consts,), state),
        |
            state: F::State,
            elems: <F::Args as ElementTuple>::Elems<'_>,
            before: <F::Sink as OutputSink>::Slot,
            after: <F::Sink as OutputSink>::Slot,
            outcome: F::Outcome,
        |
            exists|slot: &mut <F::Sink as OutputSink>::Slot|
                *slot == before && *final(slot) == after && #[trigger] call_ensures(
                    apply,
                    (&state, elems, slot),
                    outcome,
                ),
    );
    let result = execute_row_sink_prepared::<F::Args, F::State, F::Sink, F::Outcome>(
        args,
        row_count,
        sink_dtype,
        prepare,
        apply,
    );
    proof {
        assert(prepared_execution::<F::Args, F::State, F::Sink, F::Outcome>(
            &batch,
            row_count as nat,
            sink_dtype@,
            strong.0,
            strong.1,
            result,
        ));
        lemma_executes_weakens::<F::Args, F::State, F::Sink, F::Outcome>(
            &batch,
            sink_dtype@,
            every_row(row_count as nat),
            strong,
            stated::<F>(f, &batch),
            result,
        );
    }
    result
}

/// Run a function over every row.
fn run<F: RowFn>(
    f: &F,
    args: &<F::Args as ElementTuple>::Args,
    row_count: usize,
    sink_dtype: &DType,
) -> (result: Result<RowExecution<<F::Sink as OutputSink>::Value>, Error>)
    requires
        F::Args::lens_match(F::Args::batch(args), row_count as nat),
        F::Args::rejection(F::Args::dtypes(F::Args::batch(args))) is None,
        F::Sink::declares(sink_dtype@),
        F::Args::DENSE_SAFE || forall|i: int|
            0 <= i < row_count ==> #[trigger] F::Args::valid_at(F::Args::batch(args), i),
    ensures
        kernel::<F>(f, &F::Args::batch(args), row_count as nat, sink_dtype@, result),
{
    let reduced = f.reduce_encoded(args);
    let ghost answer = reduced;
    assert(f.reduces(F::Args::batch(args), answer));
    match reduced {
        Ok(Some(array)) => {
            if array.len() != row_count {
                return Err(Error::ResultRows { got: array.len(), expected: row_count });
            }
            return Ok(RowExecution::Output(array));
        },
        Ok(None) => {},
        Err(error) => return Err(error),
    }
    run_prepared(
        f,
        args,
        row_count,
        sink_dtype,
        |consts| -> (state: F::State)
            ensures
                f.prepares(consts, state)
            { f.prepare(consts) },
        |state, elems, slot| -> (outcome: F::Outcome)
            ensures
                f.computes(*state, elems, *old(slot), *final(slot), outcome)
            { f.apply(state, elems, slot) },
    )
}

/// Run a computation that keeps to what `f` states, over only the rows set in `valid`.
fn run_branch_prepared<F: RowFn>(
    f: &F,
    args: &<F::Args as ElementTuple>::Args,
    row_count: usize,
    sink_dtype: &DType,
    valid: &Mask,
    prepare: impl FnOnce(<F::Args as ElementTuple>::ConstElems<'_>) -> F::State,
    apply: impl Fn(
        &F::State,
        <F::Args as ElementTuple>::Elems<'_>,
        &mut <F::Sink as OutputSink>::Slot,
    ) -> F::Outcome,
) -> (result: Result<Option<RowExecution<<F::Sink as OutputSink>::Value>>, Error>)
    requires
        F::Args::lens_match(F::Args::batch(args), row_count as nat),
        F::Args::rejection(F::Args::dtypes(F::Args::batch(args))) is None,
        F::Sink::declares(sink_dtype@),
        valid@.len() == row_count,
        forall|i: int|
            0 <= i < row_count && valid@[i] ==> #[trigger] F::Args::valid_at(
                F::Args::batch(args),
                i,
            ),
        forall|consts: <F::Args as ElementTuple>::ConstElems<'_>| #[trigger]
            call_requires(prepare, (consts,)),
        forall|consts: <F::Args as ElementTuple>::ConstElems<'_>, state: F::State| #[trigger]
            call_ensures(prepare, (consts,), state) ==> f.prepares(consts, state),
        forall|
            state: &F::State,
            elems: <F::Args as ElementTuple>::Elems<'_>,
            slot: &mut <F::Sink as OutputSink>::Slot,
        | #[trigger] call_requires(apply, (state, elems, slot)),
        forall|
            state: &F::State,
            elems: <F::Args as ElementTuple>::Elems<'_>,
            slot: &mut <F::Sink as OutputSink>::Slot,
            outcome: F::Outcome,
        | #[trigger]
            call_ensures(apply, (state, elems, slot), outcome) ==> f.computes(
                *state,
                elems,
                *slot,
                *final(slot),
                outcome,
            ),
    ensures
        kernel_valid_rows::<F>(
            f,
            &F::Args::batch(args),
            row_count as nat,
            sink_dtype@,
            valid@,
            result,
        ),
{
    let ghost batch = F::Args::batch(args);
    let ghost strong = (
        |consts: <F::Args as ElementTuple>::ConstElems<'_>, state: F::State|
            call_ensures(prepare, (consts,), state),
        |
            state: F::State,
            elems: <F::Args as ElementTuple>::Elems<'_>,
            before: <F::Sink as OutputSink>::Slot,
            after: <F::Sink as OutputSink>::Slot,
            outcome: F::Outcome,
        |
            exists|slot: &mut <F::Sink as OutputSink>::Slot|
                *slot == before && *final(slot) == after && #[trigger] call_ensures(
                    apply,
                    (&state, elems, slot),
                    outcome,
                ),
    );
    let result = execute_row_sink_branch::<F::Args, F::State, F::Sink, F::Outcome>(
        args,
        row_count,
        sink_dtype,
        valid,
        prepare,
        apply,
    );
    proof {
        assert(branch_execution::<F::Args, F::State, F::Sink, F::Outcome>(
            &batch,
            row_count as nat,
            sink_dtype@,
            valid@,
            strong.0,
            strong.1,
            result,
        ));
        lemma_executes_weakens::<F::Args, F::State, F::Sink, F::Outcome>(
            &batch,
            sink_dtype@,
            valid@,
            strong,
            stated::<F>(f, &batch),
            taken(result),
        );
    }
    result
}

/// Run a function over only the rows set in `valid`, or decline.
fn run_branch<F: RowFn>(
    f: &F,
    args: &<F::Args as ElementTuple>::Args,
    row_count: usize,
    sink_dtype: &DType,
    valid: &Mask,
) -> (result: Result<Option<RowExecution<<F::Sink as OutputSink>::Value>>, Error>)
    requires
        F::Args::lens_match(F::Args::batch(args), row_count as nat),
        F::Args::rejection(F::Args::dtypes(F::Args::batch(args))) is None,
        F::Sink::declares(sink_dtype@),
        valid@.len() == row_count,
        forall|i: int|
            0 <= i < row_count && valid@[i] ==> #[trigger] F::Args::valid_at(
                F::Args::batch(args),
                i,
            ),
    ensures
        kernel_branch::<F>(
            f,
            &F::Args::batch(args),
            row_count as nat,
            sink_dtype@,
            valid@,
            result,
        ),
{
    let reduced = f.reduce_encoded(args);
    let ghost answer = reduced;
    assert(f.reduces(F::Args::batch(args), answer));
    match reduced {
        Ok(Some(array)) => {
            if array.len() != row_count {
                return Err(Error::ResultRows { got: array.len(), expected: row_count });
            }
            return Ok(Some(RowExecution::Output(array)));
        },
        Ok(None) => {},
        Err(error) => return Err(error),
    }
    run_branch_prepared(
        f,
        args,
        row_count,
        sink_dtype,
        valid,
        |consts| -> (state: F::State)
            ensures
                f.prepares(consts, state)
            { f.prepare(consts) },
        |state, elems, slot| -> (outcome: F::Outcome)
            ensures
                f.computes(*state, elems, *old(slot), *final(slot), outcome)
            { f.apply(state, elems, slot) },
    )
}

/// Whether `result` is what `shape` makes of the output of a run, or the error of the run.
pub open spec fn shaped<V>(
    run: Result<RowExecution<V>, Error>,
    shape: spec_fn(ArrayModel<V>) -> ArrayModel<V>,
    result: Result<Array<V>, Error>,
) -> bool {
    match run {
        Ok(RowExecution::Output(array)) => result matches Ok(output) && output@ == shape(array@),
        Ok(RowExecution::DeferredError(error)) => result matches Err(cause) && cause@ == error@,
        Err(error) => result matches Err(cause) && cause@ == error@,
    }
}

/// Whether `result` can come of filtering a batch to its valid rows, running a function over them
/// and scattering the output.
pub open spec fn lifted_filtered<'a, F: RowFn>(
    f: &'a F,
    batch: &'a <F::Args as ElementTuple>::Batch,
    valid: Seq<bool>,
    dtype: DTypeModel,
    result: Result<Array<<F::Sink as OutputSink>::Value>, Error>,
) -> bool {
    exists|run: Result<RowExecution<<F::Sink as OutputSink>::Value>, Error>| #[trigger]
        kernel::<F>(f, &F::Args::filter(*batch, valid), set_count(valid), dtype, run) && shaped(
            run,
            |array: ArrayModel<<F::Sink as OutputSink>::Value>| array.scatter(valid),
            result,
        )
}

/// Whether `result` can come of running a function over only the valid rows of a batch, skipped to
/// or filtered.
pub open spec fn lifted_valid_only<'a, F: RowFn>(
    f: &'a F,
    batch: &'a <F::Args as ElementTuple>::Batch,
    valid: Seq<bool>,
    dtype: DTypeModel,
    filtered_decode_cost: usize,
    result: Result<Array<<F::Sink as OutputSink>::Value>, Error>,
) -> bool {
    if branches(filtered_decode_cost as nat, set_count(valid), valid.len()) {
        exists|run: Result<Option<RowExecution<<F::Sink as OutputSink>::Value>>, Error>| #[trigger]
            kernel_branch::<F>(f, batch, valid.len(), dtype, valid, run) && if run matches Ok(
                None,
            ) {
                lifted_filtered::<F>(f, batch, valid, dtype, result)
            } else {
                shaped(
                    taken(run),
                    |array: ArrayModel<<F::Sink as OutputSink>::Value>| array.mask(valid),
                    result,
                )
            }
    } else {
        lifted_filtered::<F>(f, batch, valid, dtype, result)
    }
}

/// Whether `result` can come of running a function over every row of a batch and making null what
/// is null in any argument. A deferred error is `retried` over only the valid rows.
pub open spec fn lifted_dense<'a, F: RowFn>(
    f: &'a F,
    batch: &'a <F::Args as ElementTuple>::Batch,
    valid: Seq<bool>,
    dtype: DTypeModel,
    retried: bool,
    result: Result<Array<<F::Sink as OutputSink>::Value>, Error>,
) -> bool {
    exists|run: Result<RowExecution<<F::Sink as OutputSink>::Value>, Error>| #[trigger]
        kernel::<F>(f, batch, valid.len(), dtype, run) && if retried && (run matches Ok(
            RowExecution::DeferredError(_),
        )) {
            lifted_valid_only::<F>(
                f,
                batch,
                valid,
                dtype,
                F::Args::FILTERED_DECODE_COST,
                result,
            )
        } else {
            shaped(
                run,
                |array: ArrayModel<<F::Sink as OutputSink>::Value>| array.mask(valid),
                result,
            )
        }
}

/// Whether `result` can come of applying a function to a batch.
pub open spec fn lifted<'a, F: RowFn>(
    f: &'a F,
    batch: &'a <F::Args as ElementTuple>::Batch,
    row_count: nat,
    dtype: DTypeModel,
    result: Result<Array<<F::Sink as OutputSink>::Value>, Error>,
) -> bool {
    let valid = validity::<F::Args>(*batch, row_count);
    let nullable = any_nullable(F::Args::dtypes(*batch));
    if F::Args::null_constant(*batch) || row_count > 0 && none_set(valid) {
        result matches Ok(array) && array@ == nulls::<<F::Sink as OutputSink>::Value>(
            dtype,
            row_count,
        )
    } else if F::Args::arity() > 0 && row_count > 0 && F::Args::constant(*batch) {
        exists|run: Result<RowExecution<<F::Sink as OutputSink>::Value>, Error>| #[trigger]
            kernel::<F>(f, &F::Args::constant_row(*batch), 1, dtype, run) && shaped(
                run,
                |array: ArrayModel<<F::Sink as OutputSink>::Value>|
                    array.broadcast(row_count).widened(nullable),
                result,
            )
    } else if all_set(valid) {
        exists|run: Result<RowExecution<<F::Sink as OutputSink>::Value>, Error>| #[trigger]
            kernel::<F>(f, batch, row_count, dtype, run) && shaped(
                run,
                |array: ArrayModel<<F::Sink as OutputSink>::Value>| array.widened(nullable),
                result,
            )
    } else {
        match policy::<F>() {
            RowPolicy::Dense => lifted_dense::<F>(f, batch, valid, dtype, false, result),
            RowPolicy::DenseWithRetry => lifted_dense::<F>(f, batch, valid, dtype, true, result),
            RowPolicy::ValidOnly { filtered_decode_cost } => lifted_valid_only::<F>(
                f,
                batch,
                valid,
                dtype,
                filtered_decode_cost,
                result,
            ),
        }
    }
}

/// An output of a run has a row for each row that ran.
proof fn lemma_output_len<'a, F: RowFn>(
    f: &'a F,
    batch: &'a <F::Args as ElementTuple>::Batch,
    row_count: nat,
    dtype: DTypeModel,
    array: Array<<F::Sink as OutputSink>::Value>,
)
    requires
        kernel::<F>(f, batch, row_count, dtype, Ok(RowExecution::Output(array))),
    ensures
        array@.len() == row_count,
{
}

/// An output of a run over some rows has a row for each row of the batch.
proof fn lemma_branch_output_len<'a, F: RowFn>(
    f: &'a F,
    batch: &'a <F::Args as ElementTuple>::Batch,
    row_count: nat,
    dtype: DTypeModel,
    bits: Seq<bool>,
    array: Array<<F::Sink as OutputSink>::Value>,
)
    requires
        bits.len() == row_count,
        kernel_branch::<F>(
            f,
            batch,
            row_count,
            dtype,
            bits,
            Ok(Some(RowExecution::Output(array))),
        ),
    ensures
        array@.len() == row_count,
{
}

/// Run a function over the valid rows, filtered out and scattered back.
fn lift_filtered<F: RowFn>(
    f: &F,
    args: &<F::Args as ElementTuple>::Args,
    sink_dtype: &DType,
    valid: &Mask,
) -> (result: Result<Array<<F::Sink as OutputSink>::Value>, Error>)
    requires
        F::Args::wf(F::Args::batch(args)),
        F::Args::lens_match(F::Args::batch(args), valid@.len()),
        F::Args::rejection(F::Args::dtypes(F::Args::batch(args))) is None,
        F::Sink::declares(sink_dtype@),
        valid@ == validity::<F::Args>(F::Args::batch(args), valid@.len()),
    ensures
        lifted_filtered::<F>(f, &F::Args::batch(args), valid@, sink_dtype@, result),
{
    let kept = F::Args::filter_args(args, valid);
    let survivors = valid.true_count();
    let ghost batch = F::Args::batch(args);
    let ghost filtered = F::Args::filter(batch, valid@);
    proof {
        F::Args::lemma_filter(batch, valid@);
        assert forall|k: int| 0 <= k < survivors implies #[trigger] F::Args::valid_at(
            filtered,
            k,
        ) by {
            let i = lemma_filtered_source(valid@, valid@, k);
            assert(F::Args::valid_at(filtered, rank(valid@, i) as int) == F::Args::valid_at(
                batch,
                i,
            ));
        }
    }
    let run = run(f, &kept, survivors, sink_dtype);
    let ghost ran = run;
    assert(kernel::<F>(f, &filtered, set_count(valid@), sink_dtype@, ran));
    let output = match run {
        Ok(RowExecution::Output(output)) => output,
        Ok(RowExecution::DeferredError(error)) => return Err(error),
        Err(error) => return Err(error),
    };
    proof {
        lemma_output_len::<F>(f, &filtered, set_count(valid@), sink_dtype@, output);
    }
    Ok(output.scatter(valid))
}

/// Run a function over the valid rows, skipped to or filtered.
fn lift_valid_only<F: RowFn>(
    f: &F,
    args: &<F::Args as ElementTuple>::Args,
    sink_dtype: &DType,
    valid: &Mask,
    filtered_decode_cost: usize,
) -> (result: Result<Array<<F::Sink as OutputSink>::Value>, Error>)
    requires
        F::Args::wf(F::Args::batch(args)),
        F::Args::lens_match(F::Args::batch(args), valid@.len()),
        F::Args::rejection(F::Args::dtypes(F::Args::batch(args))) is None,
        F::Sink::declares(sink_dtype@),
        valid@ == validity::<F::Args>(F::Args::batch(args), valid@.len()),
    ensures
        lifted_valid_only::<F>(
            f,
            &F::Args::batch(args),
            valid@,
            sink_dtype@,
            filtered_decode_cost,
            result,
        ),
{
    let row_count = valid.len();
    if prefers_branch(filtered_decode_cost, valid.true_count(), row_count) {
        assert forall|i: int| 0 <= i < row_count && valid@[i] implies #[trigger] F::Args::valid_at(
            F::Args::batch(args),
            i,
        ) by {
            assert(validity::<F::Args>(F::Args::batch(args), valid@.len())[i]);
        }
        let run = run_branch(f, args, row_count, sink_dtype, valid);
        let ghost ran = run;
        assert(kernel_branch::<F>(
            f,
            &F::Args::batch(args),
            row_count as nat,
            sink_dtype@,
            valid@,
            ran,
        ));
        match run {
            Ok(Some(RowExecution::Output(output))) => {
                proof {
                    lemma_branch_output_len::<F>(
                        f,
                        &F::Args::batch(args),
                        row_count as nat,
                        sink_dtype@,
                        valid@,
                        output,
                    );
                }
                return Ok(output.mask(valid));
            },
            Ok(Some(RowExecution::DeferredError(error))) => return Err(error),
            Ok(None) => {},
            Err(error) => return Err(error),
        }
    }
    lift_filtered(f, args, sink_dtype, valid)
}

/// Run a function over every row and make null what is null in any argument.
fn lift_dense<F: RowFn>(
    f: &F,
    args: &<F::Args as ElementTuple>::Args,
    sink_dtype: &DType,
    valid: &Mask,
    retried: bool,
) -> (result: Result<Array<<F::Sink as OutputSink>::Value>, Error>)
    requires
        F::Args::wf(F::Args::batch(args)),
        F::Args::lens_match(F::Args::batch(args), valid@.len()),
        F::Args::rejection(F::Args::dtypes(F::Args::batch(args))) is None,
        F::Sink::declares(sink_dtype@),
        valid@ == validity::<F::Args>(F::Args::batch(args), valid@.len()),
        F::Args::DENSE_SAFE,
    ensures
        lifted_dense::<F>(f, &F::Args::batch(args), valid@, sink_dtype@, retried, result),
{
    let row_count = valid.len();
    let run = run(f, args, row_count, sink_dtype);
    let ghost ran = run;
    assert(kernel::<F>(f, &F::Args::batch(args), row_count as nat, sink_dtype@, ran));
    let output = match run {
        Ok(RowExecution::Output(output)) => output,
        Ok(RowExecution::DeferredError(error)) => {
            if retried {
                return lift_valid_only(
                    f,
                    args,
                    sink_dtype,
                    valid,
                    F::Args::FILTERED_DECODE_COST,
                );
            }
            return Err(error);
        },
        Err(error) => return Err(error),
    };
    proof {
        lemma_output_len::<F>(
            f,
            &F::Args::batch(args),
            row_count as nat,
            sink_dtype@,
            output,
        );
    }
    Ok(output.mask(valid))
}

/// Apply a function to columns.
pub fn lift<F: RowFn>(
    f: &F,
    args: &<F::Args as ElementTuple>::Args,
    row_count: usize,
    sink_dtype: &DType,
) -> (result: Result<Array<<F::Sink as OutputSink>::Value>, Error>)
    requires
        coherent::<F>(),
        F::Args::lens_match(F::Args::batch(args), row_count as nat),
        F::Args::rejection(F::Args::dtypes(F::Args::batch(args))) is None,
        F::Sink::declares(sink_dtype@),
    ensures
        lifted::<F>(f, &F::Args::batch(args), row_count as nat, sink_dtype@, result),
{
    let ghost batch = F::Args::batch(args);
    if F::Args::any_null_constant(args) {
        return Ok(Array::null_constant(sink_dtype, row_count));
    }
    let valid = F::Args::validity(args, row_count);
    assert(valid@ =~= validity::<F::Args>(batch, row_count as nat));
    if row_count > 0 && valid.all_false() {
        return Ok(Array::null_constant(sink_dtype, row_count));
    }
    let mut dtypes: Vec<DType> = Vec::new();
    F::Args::push_dtypes(args, &mut dtypes);
    assert(models(dtypes@) =~= F::Args::dtypes(batch));
    let nullable = is_any_nullable(dtypes.as_slice());
    if !F::Args::takes(0) && row_count > 0 && F::Args::all_constant(args) {
        proof {
            F::Args::lemma_constant_row(batch, row_count as nat);
        }
        let row = F::Args::constant_args(args);
        let run = run(f, &row, 1, sink_dtype);
        let ghost ran = run;
        assert(kernel::<F>(f, &F::Args::constant_row(batch), 1, sink_dtype@, ran));
        let output = match run {
            Ok(RowExecution::Output(output)) => output,
            Ok(RowExecution::DeferredError(error)) => return Err(error),
            Err(error) => return Err(error),
        };
        proof {
            lemma_output_len::<F>(f, &F::Args::constant_row(batch), 1, sink_dtype@, output);
        }
        return Ok(output.broadcast(row_count).widen(nullable));
    }
    if valid.all_true() {
        assert forall|i: int| 0 <= i < row_count implies #[trigger] F::Args::valid_at(
            batch,
            i,
        ) by {
            assert(valid@[i]);
        }
        let run = run(f, args, row_count, sink_dtype);
        let ghost ran = run;
        assert(kernel::<F>(f, &batch, row_count as nat, sink_dtype@, ran));
        let output = match run {
            Ok(RowExecution::Output(output)) => output,
            Ok(RowExecution::DeferredError(error)) => return Err(error),
            Err(error) => return Err(error),
        };
        return Ok(output.widen(nullable));
    }
    match row_policy::<F>() {
        RowPolicy::Dense => lift_dense(f, args, sink_dtype, &valid, false),
        RowPolicy::DenseWithRetry => lift_dense(f, args, sink_dtype, &valid, true),
        RowPolicy::ValidOnly { filtered_decode_cost } => lift_valid_only(
            f,
            args,
            sink_dtype,
            &valid,
            filtered_decode_cost,
        ),
    }
}

/// Whether `result` can come of type-checking a function over a batch and applying it.
pub open spec fn executed<'a, F: RowFn>(
    f: &'a F,
    batch: &'a <F::Args as ElementTuple>::Batch,
    row_count: nat,
    result: Result<Array<<F::Sink as OutputSink>::Value>, Error>,
) -> bool {
    let dtypes = F::Args::dtypes(*batch);
    if row_sink_rejection::<F::Args, F::Sink>(dtypes) is Some {
        result matches Err(error) && row_sink_rejection::<F::Args, F::Sink>(dtypes) == Some(error@)
    } else if !F::Args::lens_match(*batch, row_count) {
        result matches Err(error) && error@ == (ErrorModel::ColumnRows { row_count })
    } else {
        lifted::<F>(f, batch, row_count, F::Sink::dtype_over(dtypes), result)
    }
}

/// Type-check a function over columns and apply it to them.
///
/// A function whose claims are not coherent is no function: evidence that its rows leave would go
/// to a sink that does not report it.
pub fn execute<F: RowFn>(
    f: &F,
    args: &<F::Args as ElementTuple>::Args,
    row_count: usize,
) -> (result: Result<Array<<F::Sink as OutputSink>::Value>, Error>)
    requires
        coherent::<F>(),
    ensures
        executed::<F>(f, &F::Args::batch(args), row_count as nat, result),
{
    let mut dtypes: Vec<DType> = Vec::new();
    F::Args::push_dtypes(args, &mut dtypes);
    assert(models(dtypes@) =~= F::Args::dtypes(F::Args::batch(args)));
    let dtype = match validate_row_sink::<F::Args, F::Sink>(dtypes.as_slice()) {
        Ok(dtype) => dtype,
        Err(error) => return Err(error),
    };
    if !F::Args::args_match(args, row_count) {
        return Err(Error::ColumnRows { row_count });
    }
    lift(f, args, row_count, &dtype)
}

/// The rows of a function's result that are not null: those that are null in no argument.
pub fn result_validity<F: RowFn>(
    args: &<F::Args as ElementTuple>::Args,
    row_count: usize,
) -> (mask: Mask)
    requires
        F::Args::lens_match(F::Args::batch(args), row_count as nat),
    ensures
        mask@ == validity::<F::Args>(F::Args::batch(args), row_count as nat),
{
    let mask = F::Args::validity(args, row_count);
    assert(mask@ =~= validity::<F::Args>(F::Args::batch(args), row_count as nat));
    mask
}

/// A row function is strict: a row that is null in any argument is null in the result.
pub fn is_strict<F: RowFn>() -> (result: bool)
    ensures
        result,
{
    true
}

/// Which rows of a batch are valid: as many bits as rows, each set where the row is null in no
/// argument. The mask of a result is just that.
pub proof fn valid_rows_are_null_in_no_argument<F: RowFn>(
    args: &<F::Args as ElementTuple>::Args,
    row_count: usize,
    mask: Mask,
)
    requires
        F::Args::lens_match(F::Args::batch(args), row_count as nat),
        call_ensures(result_validity::<F>, (args, row_count), mask),
    ensures
        mask@.len() == row_count,
        validity::<F::Args>(F::Args::batch(args), row_count as nat) == mask@,
        forall|i: int|
            0 <= i < row_count ==> #[trigger] mask@[i] == F::Args::valid_at(
                F::Args::batch(args),
                i,
            ),
{
}

/// When rows are skipped to rather than filtered out: always where filtering saves no decoding,
/// where it saves the work of one column if at least half of the rows are valid, and where it saves
/// more if at least 85 of 100 are.
pub proof fn rows_are_skipped_to_where_few_are_null(
    filtered_decode_cost: usize,
    survivors: usize,
    row_count: usize,
    branch: bool,
)
    requires
        call_ensures(prefers_branch, (filtered_decode_cost, survivors, row_count), branch),
    ensures
        filtered_decode_cost == 0 ==> branch,
        filtered_decode_cost == 1 ==> (branch <==> survivors + survivors >= row_count),
        filtered_decode_cost > 1 ==> (branch <==> survivors * 100 >= row_count * 85),
{
}

} // verus!
