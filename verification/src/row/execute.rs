//! The pieces every row function is built from: validation, the row loops and finishing a sink.

use vstd::prelude::*;

use crate::array::{dense, Array};
use crate::dtype::{models, DType, DTypeModel, Nullability};
use crate::error::{Error, ErrorModel};
use crate::mask::{all_set, none_set, AllOr, Mask};
use crate::row::result::{DeferredError, SinkResult};
use crate::row::sink::OutputSink;
use crate::row::tuple::ElementTuple;

verus! {

/// The value path out of a row executor.
///
/// A deferred row error is kept apart from structural execution errors, so that nullable lifting
/// retries only the former.
pub enum RowExecution<V> {
    /// A successfully built output column.
    Output(Array<V>),
    /// A batch-wide row error that nullable lifting may retry over only the valid rows.
    DeferredError(Error),
}

impl<V> RowExecution<V> {
    /// The output, or the deferred row error.
    pub open spec fn surfaced(self) -> Result<Array<V>, Error> {
        match self {
            RowExecution::Output(output) => Ok(output),
            RowExecution::DeferredError(error) => Err(error),
        }
    }

    /// Return the output or surface its deferred row error.
    pub fn into_result(self) -> (result: Result<Array<V>, Error>)
        ensures
            result == self.surfaced(),
    {
        match self {
            RowExecution::Output(output) => Ok(output),
            RowExecution::DeferredError(error) => Err(error),
        }
    }
}

/// Whether the row computation can turn `before` into `after` at row `i` and return `outcome`.
pub open spec fn steps<Slot, R>(
    step: spec_fn(int, Slot, Slot, R) -> bool,
    i: int,
    before: Slot,
    after: Slot,
    outcome: R,
) -> bool {
    step(i, before, after, outcome)
}

/// Whether the row computation can turn what row `i` started from into what was left in its slot,
/// and return its outcome.
///
/// `step` relates a row, its slot before and after the computation, and the outcome.
pub open spec fn row_ran<Slot, R>(
    step: spec_fn(int, Slot, Slot, R) -> bool,
    i: int,
    start: Seq<Slot>,
    slots: Seq<Slot>,
    outcomes: Seq<R>,
) -> bool {
    steps(step, i, start[i], slots[i], outcomes[i])
}

/// Whether running the row computation once over each row set in `bits` before row `n` can leave
/// `slots` and return `outcomes`, none of which ends the loop. Every other slot is left as it was.
pub open spec fn ran_before<Slot, R: SinkResult>(
    step: spec_fn(int, Slot, Slot, R) -> bool,
    bits: Seq<bool>,
    n: int,
    start: Seq<Slot>,
    slots: Seq<Slot>,
    outcomes: Seq<R>,
) -> bool {
    &&& start.len() == bits.len()
    &&& slots.len() == bits.len()
    &&& outcomes.len() == bits.len()
    &&& forall|i: int|
        0 <= i < n && bits[i] ==> {
            &&& #[trigger] row_ran(step, i, start, slots, outcomes)
            &&& outcomes[i].early_error() is None
        }
    &&& forall|i: int|
        0 <= i < bits.len() && !(i < n && bits[i]) ==> #[trigger] slots[i] == start[i]
}

/// Whether running the row computation once over each row set in `bits` can leave `slots` and
/// return `outcomes`.
pub open spec fn rows_ran<Slot, R: SinkResult>(
    step: spec_fn(int, Slot, Slot, R) -> bool,
    bits: Seq<bool>,
    start: Seq<Slot>,
    slots: Seq<Slot>,
    outcomes: Seq<R>,
) -> bool {
    ran_before(step, bits, bits.len() as int, start, slots, outcomes)
}

/// Whether row `k` can be the first of the rows set in `bits` to end the loop, and with `error`.
pub open spec fn row_fails<Slot, R: SinkResult>(
    step: spec_fn(int, Slot, Slot, R) -> bool,
    bits: Seq<bool>,
    k: int,
    start: Seq<Slot>,
    slots: Seq<Slot>,
    outcomes: Seq<R>,
    after: Slot,
    error: ErrorModel,
) -> bool {
    &&& 0 <= k < bits.len()
    &&& bits[k]
    &&& ran_before(step, bits, k, start, slots, outcomes)
    &&& steps(step, k, start[k], after, outcomes[k])
    &&& outcomes[k].early_error() == Some(error)
}

/// Whether some row set in `bits` before row `n` left evidence of failure.
pub open spec fn evidence_before<R: SinkResult>(
    bits: Seq<bool>,
    n: int,
    outcomes: Seq<R>,
) -> bool {
    exists|i: int| 0 <= i < n && bits[i] && #[trigger] outcomes[i].evidence()
}

/// Whether some row set in `bits` left evidence of failure.
pub open spec fn any_evidence<R: SinkResult>(bits: Seq<bool>, outcomes: Seq<R>) -> bool {
    evidence_before(bits, bits.len() as int, outcomes)
}

/// One more row of a loop.
proof fn lemma_row<Slot, R: SinkResult>(
    step: spec_fn(int, Slot, Slot, R) -> bool,
    bits: Seq<bool>,
    k: int,
    start: Seq<Slot>,
    slots: Seq<Slot>,
    outcomes: Seq<R>,
    after: Slot,
    outcome: R,
)
    requires
        0 <= k < bits.len(),
        bits[k],
        ran_before(step, bits, k, start, slots, outcomes),
        steps(step, k, slots[k], after, outcome),
    ensures
        ({
            let written = slots.update(k, after);
            let outcomes = outcomes.update(k, outcome);
            &&& match outcome.early_error() {
                Some(error) => row_fails(
                    step,
                    bits,
                    k,
                    start,
                    slots,
                    outcomes,
                    after,
                    error,
                ),
                None => ran_before(step, bits, k + 1, start, written, outcomes),
            }
            &&& evidence_before(bits, k + 1, outcomes) == (evidence_before(
                bits,
                k,
                outcomes,
            ) || outcome.evidence())
        }),
        evidence_before(bits, k, outcomes.update(k, outcome)) == evidence_before(bits, k, outcomes),
{
    let now = outcomes.update(k, outcome);
    let written = slots.update(k, after);
    assert(row_ran(step, k, start, written, now));
    assert forall|i: int| 0 <= i < k && bits[i] implies {
        &&& #[trigger] row_ran(step, i, start, written, now)
        &&& now[i].early_error() is None
    } by {
        assert(row_ran(step, i, start, slots, outcomes));
    }
    assert forall|i: int| 0 <= i < k && bits[i] implies {
        &&& #[trigger] row_ran(step, i, start, slots, now)
        &&& now[i].early_error() is None
    } by {
        assert(row_ran(step, i, start, slots, outcomes));
    }
    assert forall|i: int|
        0 <= i < k implies now[i].evidence() == #[trigger] outcomes[i].evidence() by {}
    if evidence_before(bits, k, outcomes) {
        let i = choose|i: int| 0 <= i < k && bits[i] && #[trigger] outcomes[i].evidence();
        assert(now[i].evidence());
    }
    if evidence_before(bits, k, now) {
        let i = choose|i: int| 0 <= i < k && bits[i] && #[trigger] now[i].evidence();
        assert(outcomes[i].evidence());
    }
    if outcome.evidence() {
        assert(now[k].evidence());
    }
}

/// One row that a loop passes over.
proof fn lemma_skipped<Slot, R: SinkResult>(
    step: spec_fn(int, Slot, Slot, R) -> bool,
    bits: Seq<bool>,
    k: int,
    start: Seq<Slot>,
    slots: Seq<Slot>,
    outcomes: Seq<R>,
)
    requires
        0 <= k < bits.len(),
        !bits[k],
        ran_before(step, bits, k, start, slots, outcomes),
    ensures
        ran_before(step, bits, k + 1, start, slots, outcomes),
        evidence_before(bits, k + 1, outcomes) == evidence_before(bits, k, outcomes),
{
    assert forall|i: int| 0 <= i < k + 1 && bits[i] implies {
        &&& #[trigger] row_ran(step, i, start, slots, outcomes)
        &&& outcomes[i].early_error() is None
    } by {
        assert(row_ran(step, i, start, slots, outcomes));
    }
}

/// Whether a sink may come of an allocation.
pub open spec fn allocated<S: OutputSink>(rows: usize, dtype: &DType, sink: S) -> bool {
    call_ensures(S::with_capacity, (rows, dtype), Ok::<S, Error>(sink))
}

/// Whether a sink for `row_count` rows may start out with these slots.
pub open spec fn starts<S: OutputSink>(
    row_count: nat,
    dtype: DTypeModel,
    start: Seq<S::Slot>,
) -> bool {
    exists|rows: usize, declared: &DType, sink: S| #[trigger]
        allocated(rows, declared, sink) && rows == row_count && declared@ == dtype && start
            == sink.slots()
}

/// Whether `result` can come of allocating a sink, running the row computation once over each row
/// set in `bits`, in order, and finishing the sink.
pub open spec fn execution<S: OutputSink, R: SinkResult>(
    step: spec_fn(int, S::Slot, S::Slot, R) -> bool,
    dtype: DTypeModel,
    bits: Seq<bool>,
    result: Result<RowExecution<S::Value>, Error>,
) -> bool {
    exists|start: Seq<S::Slot>| #[trigger]
        starts::<S>(bits.len(), dtype, start) && execution_from::<S, R>(
            step,
            dtype,
            bits,
            start,
            result,
        )
}

/// Whether `result` can come of running the row computation once over each row set in `bits`, on
/// slots that start out as `start`, and finishing the sink.
pub open spec fn execution_from<S: OutputSink, R: SinkResult>(
    step: spec_fn(int, S::Slot, S::Slot, R) -> bool,
    dtype: DTypeModel,
    bits: Seq<bool>,
    start: Seq<S::Slot>,
    result: Result<RowExecution<S::Value>, Error>,
) -> bool {
    match result {
        Ok(RowExecution::Output(array)) => exists|slots: Seq<S::Slot>, outcomes: Seq<R>|
            {
                &&& #[trigger] rows_ran(step, bits, start, slots, outcomes)
                &&& S::ERRORS_ARE_DEFERRED ==> !any_evidence(bits, outcomes)
                &&& S::finish_failure(dtype, slots, any_evidence(bits, outcomes)) is None
                &&& array@ == dense(dtype, slots.map_values(|slot: S::Slot| S::value_of(slot)))
            },
        Ok(RowExecution::DeferredError(error)) => exists|slots: Seq<S::Slot>, outcomes: Seq<R>|
            {
                &&& #[trigger] rows_ran(step, bits, start, slots, outcomes)
                &&& any_evidence(bits, outcomes)
                &&& S::finish_failure(dtype, slots, true) == Some(error@)
            },
        Err(error) => {
            ||| exists|k: int, slots: Seq<S::Slot>, outcomes: Seq<R>, after: S::Slot| #[trigger]
                row_fails(step, bits, k, start, slots, outcomes, after, error@)
            ||| exists|slots: Seq<S::Slot>, outcomes: Seq<R>|
                {
                    &&& #[trigger] rows_ran(step, bits, start, slots, outcomes)
                    &&& !any_evidence(bits, outcomes)
                    &&& S::finish_failure(dtype, slots, false) == Some(error@)
                }
        },
    }
}

/// What is left of a run whose deferred row error is surfaced.
pub open spec fn surfaced<V>(run: Result<RowExecution<V>, Error>) -> Result<Array<V>, Error> {
    match run {
        Ok(run) => run.surfaced(),
        Err(error) => Err(error),
    }
}

/// Finish a sink while preserving whether its error came from the deferred row accumulator.
///
/// Surfacing that error again, with [`RowExecution::into_result`], gives back what the sink
/// returned.
pub fn finish_sink<S: OutputSink>(sink: S, deferred_error: DeferredError) -> (result: Result<
    RowExecution<S::Value>,
    Error,
>)
    ensures
        call_ensures(S::finish, (sink, deferred_error), surfaced(result)),
        (result matches Ok(RowExecution::DeferredError(_))) == (surfaced(result) is Err
            && deferred_error.failed()),
        match result {
            Ok(RowExecution::Output(array)) => {
                &&& S::ERRORS_ARE_DEFERRED ==> !deferred_error.failed()
                &&& S::finish_failure(sink.dtype(), sink.slots(), deferred_error.failed()) is None
                &&& array@ == dense(
                    sink.dtype(),
                    sink.slots().map_values(|slot: S::Slot| S::value_of(slot)),
                )
            },
            Ok(RowExecution::DeferredError(error)) => {
                &&& deferred_error.failed()
                &&& S::finish_failure(sink.dtype(), sink.slots(), true) == Some(error@)
            },
            Err(error) => {
                &&& !deferred_error.failed()
                &&& S::finish_failure(sink.dtype(), sink.slots(), false) == Some(error@)
            },
        },
{
    match sink.finish(deferred_error) {
        Ok(output) => Ok(RowExecution::Output(output)),
        Err(error) => {
            if deferred_error.occurred() {
                Ok(RowExecution::DeferredError(error))
            } else {
                Err(error)
            }
        },
    }
}

/// Why the inputs of a sink-writing row function are rejected, given their types.
pub open spec fn row_sink_rejection<A: ElementTuple, S: OutputSink>(
    args: Seq<DTypeModel>,
) -> Option<ErrorModel> {
    if args.len() != A::arity() {
        Some(ErrorModel::ArgumentCount { expected: A::ARITY as nat, got: args.len() })
    } else if A::rejection(args) is Some {
        A::rejection(args)
    } else if S::dtype_failure(args) is Some {
        S::dtype_failure(args)
    } else if S::dtype_over(args).nullable() {
        Some(ErrorModel::NullableSink { dtype: S::dtype_over(args) })
    } else {
        None
    }
}

/// Validate the input types of a sink-writing row function and return the type its sink builds.
///
/// The output type may be a function of the inputs.
pub fn validate_row_sink<A: ElementTuple, S: OutputSink>(args: &[DType]) -> (result: Result<
    DType,
    Error,
>)
    ensures
        match result {
            Ok(dtype) => {
                &&& row_sink_rejection::<A, S>(models(args@)) is None
                &&& dtype@ == S::dtype_over(models(args@))
                &&& S::declares(dtype@)
            },
            Err(error) => row_sink_rejection::<A, S>(models(args@)) == Some(error@),
        },
{
    if !A::takes(args.len()) {
        return Err(Error::ArgumentCount { expected: A::ARITY, got: args.len() });
    }
    assert(models(args@).skip(0) =~= models(args@));
    match A::validate_from(args, 0) {
        Ok(_) => {},
        Err(error) => return Err(error),
    }
    let dtype = match S::sink_dtype(args) {
        Ok(dtype) => dtype,
        Err(error) => return Err(error),
    };
    if dtype.is_nullable() {
        return Err(Error::NullableSink { dtype });
    }
    Ok(dtype)
}

/// Whether row `i` of a batch may reach the row computation as `elems`: as the elements of what the
/// arguments store there. What is read behind a null where nothing is stored is left open.
pub open spec fn presents<'a, A: ElementTuple>(
    batch: &'a A::Batch,
    i: int,
    elems: A::Elems<'a>,
) -> bool {
    determined::<A>(*batch, i) ==> elems == A::elems(batch, i)
}

/// Whether it is determined what row `i` of a batch is read as: it is null in no argument, or every
/// argument stores a payload behind the null.
pub open spec fn determined<A: ElementTuple>(batch: A::Batch, i: int) -> bool {
    A::valid_at(batch, i) || A::stored_at(batch, i)
}

/// A selection of every row.
pub open spec fn every_row(row_count: nat) -> Seq<bool> {
    Seq::new(row_count, |i: int| true)
}

/// The step of each row of a batch, given what the row computation makes of the elements of a row.
pub open spec fn row_step<'a, A: ElementTuple, P, S: OutputSink, R: SinkResult>(
    batch: &'a A::Batch,
    computes: spec_fn(P, A::Elems<'a>, S::Slot, S::Slot, R) -> bool,
    state: P,
) -> spec_fn(int, S::Slot, S::Slot, R) -> bool {
    |i: int, before: S::Slot, after: S::Slot, outcome: R|
        exists|elems: A::Elems<'a>| #[trigger]
            presents::<A>(batch, i, elems) && computes(state, elems, before, after, outcome)
}

/// Whether `result` can come of running a prepared row computation over every row of a batch.
///
/// `prepares` relates the constant arguments to the prepared state; `computes` relates the state,
/// the elements of a row, the slot before and after the computation, and its outcome.
pub open spec fn prepared_execution<'a, A: ElementTuple, P, S: OutputSink, R: SinkResult>(
    batch: &'a A::Batch,
    row_count: nat,
    dtype: DTypeModel,
    prepares: spec_fn(A::ConstElems<'a>, P) -> bool,
    computes: spec_fn(P, A::Elems<'a>, S::Slot, S::Slot, R) -> bool,
    result: Result<RowExecution<S::Value>, Error>,
) -> bool {
    if S::capacity_failure(row_count, dtype) is Some {
        result matches Err(error) && S::capacity_failure(row_count, dtype) == Some(error@)
    } else if A::failure(*batch) is Some {
        result matches Err(error) && A::failure(*batch) == Some(error@)
    } else if S::capacity(row_count, dtype) != row_count {
        result matches Err(error) && error@ == (ErrorModel::SinkRows { row_count })
    } else if !A::decoded_lens(*batch, row_count) {
        result matches Err(error) && error@ == (ErrorModel::InputRows { row_count })
    } else {
        exists|state: P| #[trigger]
            executes::<A, P, S, R>(
                batch,
                dtype,
                every_row(row_count),
                prepares,
                computes,
                state,
                result,
            )
    }
}

/// Whether `result` can come of running the row computation from `state` over the rows set in
/// `bits`.
pub open spec fn executes<'a, A: ElementTuple, P, S: OutputSink, R: SinkResult>(
    batch: &'a A::Batch,
    dtype: DTypeModel,
    bits: Seq<bool>,
    prepares: spec_fn(A::ConstElems<'a>, P) -> bool,
    computes: spec_fn(P, A::Elems<'a>, S::Slot, S::Slot, R) -> bool,
    state: P,
    result: Result<RowExecution<S::Value>, Error>,
) -> bool {
    &&& prepares(A::consts(batch), state)
    &&& execution::<S, R>(row_step::<A, P, S, R>(batch, computes, state), dtype, bits, result)
}

/// Whether `result` can come of running a prepared row computation over only the rows of a batch
/// that are set in `bits`.
pub open spec fn branch_execution<'a, A: ElementTuple, P, S: OutputSink, R: SinkResult>(
    batch: &'a A::Batch,
    row_count: nat,
    dtype: DTypeModel,
    bits: Seq<bool>,
    prepares: spec_fn(A::ConstElems<'a>, P) -> bool,
    computes: spec_fn(P, A::Elems<'a>, S::Slot, S::Slot, R) -> bool,
    result: Result<Option<RowExecution<S::Value>>, Error>,
) -> bool {
    if declines::<A, S>(*batch) {
        result matches Ok(None)
    } else if A::tolerant(*batch) is Err {
        result matches Err(error) && A::tolerant(*batch) == Err::<bool, ErrorModel>(error@)
    } else if S::capacity_failure(row_count, dtype) is Some {
        result matches Err(error) && S::capacity_failure(row_count, dtype) == Some(error@)
    } else if all_set(bits) || none_set(bits) {
        result matches Err(error) && error@ == ErrorModel::MixedMaskRequired
    } else if S::capacity(row_count, dtype) != row_count {
        result matches Err(error) && error@ == (ErrorModel::SinkRows { row_count })
    } else if !A::decoded_lens(*batch, row_count) {
        result matches Err(error) && error@ == (ErrorModel::InputRows { row_count })
    } else {
        &&& result matches Ok(run) ==> run is Some
        &&& exists|state: P| #[trigger]
            executes::<A, P, S, R>(
                batch,
                dtype,
                bits,
                prepares,
                computes,
                state,
                taken(result),
            )
    }
}

/// The result of a run that was not declined.
pub open spec fn taken<V>(result: Result<Option<RowExecution<V>>, Error>) -> Result<
    RowExecution<V>,
    Error,
> {
    match result {
        Ok(run) => Ok(run->0),
        Err(error) => Err(error),
    }
}

/// Whether rows of a batch cannot be skipped: the sink does not allow it, or a column cannot be
/// decoded without reading behind nulls.
pub open spec fn declines<A: ElementTuple, S: OutputSink>(batch: A::Batch) -> bool {
    !S::SUPPORTS_SKIPPED_ROWS || A::tolerant(batch) == Ok::<bool, ErrorModel>(false)
}

/// What a row computation states of a row, for the elements of the row.
pub open spec fn computed<E, P, Slot, R>(
    computes: spec_fn(P, E, Slot, Slot, R) -> bool,
    state: P,
    elems: E,
    before: Slot,
    after: Slot,
    outcome: R,
) -> bool {
    computes(state, elems, before, after, outcome)
}

/// What a preparation states of its state, for the constant arguments.
pub open spec fn yields<C, P>(prepares: spec_fn(C, P) -> bool, consts: C, state: P) -> bool {
    prepares(consts, state)
}

proof fn lemma_execution_weakens<S: OutputSink, R: SinkResult>(
    strong: spec_fn(int, S::Slot, S::Slot, R) -> bool,
    weak: spec_fn(int, S::Slot, S::Slot, R) -> bool,
    dtype: DTypeModel,
    bits: Seq<bool>,
    result: Result<RowExecution<S::Value>, Error>,
)
    requires
        execution::<S, R>(strong, dtype, bits, result),
        forall|i: int, before: S::Slot, after: S::Slot, outcome: R| #[trigger]
            steps(strong, i, before, after, outcome) ==> steps(weak, i, before, after, outcome),
    ensures
        execution::<S, R>(weak, dtype, bits, result),
{
    let start = choose|start: Seq<S::Slot>| #[trigger]
        starts::<S>(bits.len(), dtype, start) && execution_from::<S, R>(
            strong,
            dtype,
            bits,
            start,
            result,
        );
    assert forall|n: int, slots: Seq<S::Slot>, outcomes: Seq<R>| #[trigger]
        ran_before(strong, bits, n, start, slots, outcomes) implies ran_before(
        weak,
        bits,
        n,
        start,
        slots,
        outcomes,
    ) by {
        assert forall|i: int| 0 <= i < n && bits[i] implies {
            &&& #[trigger] row_ran(weak, i, start, slots, outcomes)
            &&& outcomes[i].early_error() is None
        } by {
            assert(row_ran(strong, i, start, slots, outcomes));
        }
    }
    assert forall|slots: Seq<S::Slot>, outcomes: Seq<R>| #[trigger]
        rows_ran(strong, bits, start, slots, outcomes) implies rows_ran(
        weak,
        bits,
        start,
        slots,
        outcomes,
    ) by {}
    match result {
        Ok(RowExecution::Output(array)) => {
            let (slots, outcomes) = choose|slots: Seq<S::Slot>, outcomes: Seq<R>|
                {
                    &&& #[trigger] rows_ran(strong, bits, start, slots, outcomes)
                    &&& S::ERRORS_ARE_DEFERRED ==> !any_evidence(bits, outcomes)
                    &&& S::finish_failure(dtype, slots, any_evidence(bits, outcomes)) is None
                    &&& array@ == dense(dtype, slots.map_values(|slot: S::Slot| S::value_of(slot)))
                };
            assert(rows_ran(weak, bits, start, slots, outcomes));
        },
        Ok(RowExecution::DeferredError(error)) => {
            let (slots, outcomes) = choose|slots: Seq<S::Slot>, outcomes: Seq<R>|
                {
                    &&& #[trigger] rows_ran(strong, bits, start, slots, outcomes)
                    &&& any_evidence(bits, outcomes)
                    &&& S::finish_failure(dtype, slots, true) == Some(error@)
                };
            assert(rows_ran(weak, bits, start, slots, outcomes));
        },
        Err(error) => {
            if exists|k: int, slots: Seq<S::Slot>, outcomes: Seq<R>, after: S::Slot| #[trigger]
                row_fails(strong, bits, k, start, slots, outcomes, after, error@) {
                let (k, slots, outcomes, after) = choose|
                    k: int,
                    slots: Seq<S::Slot>,
                    outcomes: Seq<R>,
                    after: S::Slot,
                | #[trigger] row_fails(strong, bits, k, start, slots, outcomes, after, error@);
                assert(ran_before(strong, bits, k, start, slots, outcomes));
                assert(row_fails(weak, bits, k, start, slots, outcomes, after, error@));
            } else {
                let (slots, outcomes) = choose|slots: Seq<S::Slot>, outcomes: Seq<R>|
                    {
                        &&& #[trigger] rows_ran(strong, bits, start, slots, outcomes)
                        &&& !any_evidence(bits, outcomes)
                        &&& S::finish_failure(dtype, slots, false) == Some(error@)
                    };
                assert(rows_ran(weak, bits, start, slots, outcomes));
            }
        },
    }
    assert(execution_from::<S, R>(weak, dtype, bits, start, result));
}

/// A run stays one where less is stated of the preparation and of the row computation.
pub proof fn lemma_executes_weakens<'a, A: ElementTuple, P, S: OutputSink, R: SinkResult>(
    batch: &'a A::Batch,
    dtype: DTypeModel,
    bits: Seq<bool>,
    strong: (
        spec_fn(A::ConstElems<'a>, P) -> bool,
        spec_fn(P, A::Elems<'a>, S::Slot, S::Slot, R) -> bool,
    ),
    weak: (
        spec_fn(A::ConstElems<'a>, P) -> bool,
        spec_fn(P, A::Elems<'a>, S::Slot, S::Slot, R) -> bool,
    ),
    result: Result<RowExecution<S::Value>, Error>,
)
    requires
        forall|consts: A::ConstElems<'a>, state: P| #[trigger]
            yields(strong.0, consts, state) ==> yields(weak.0, consts, state),
        forall|
            state: P,
            elems: A::Elems<'a>,
            before: S::Slot,
            after: S::Slot,
            outcome: R,
        | #[trigger]
            computed(strong.1, state, elems, before, after, outcome) ==> computed(
                weak.1,
                state,
                elems,
                before,
                after,
                outcome,
            ),
    ensures
        forall|state: P| #[trigger]
            executes::<A, P, S, R>(batch, dtype, bits, strong.0, strong.1, state, result)
                ==> executes::<A, P, S, R>(batch, dtype, bits, weak.0, weak.1, state, result),
{
    assert forall|state: P| #[trigger]
        executes::<A, P, S, R>(
            batch,
            dtype,
            bits,
            strong.0,
            strong.1,
            state,
            result,
        ) implies executes::<A, P, S, R>(batch, dtype, bits, weak.0, weak.1, state, result) by {
        let from = row_step::<A, P, S, R>(batch, strong.1, state);
        let to = row_step::<A, P, S, R>(batch, weak.1, state);
        assert forall|i: int, before: S::Slot, after: S::Slot, outcome: R| #[trigger]
            steps(from, i, before, after, outcome) implies steps(
            to,
            i,
            before,
            after,
            outcome,
        ) by {
            let elems = choose|elems: A::Elems<'a>| #[trigger]
                presents::<A>(batch, i, elems) && (strong.1)(state, elems, before, after, outcome);
            assert(computed(strong.1, state, elems, before, after, outcome));
            assert(computed(weak.1, state, elems, before, after, outcome));
            assert(presents::<A>(batch, i, elems));
        }
        lemma_execution_weakens::<S, R>(from, to, dtype, bits, result);
        assert(yields(strong.0, A::consts(batch), state));
    }
}

/// Decode every input column once, allocate the sink once, then write one row at a time.
///
/// The sink lives here rather than in the closure, so `apply` stays [`Fn`] and the loop keeps an
/// unconditional shape.
#[verifier::loop_isolation(false)]
pub fn execute_row_sink_prepared<A: ElementTuple, P, S: OutputSink, R: SinkResult>(
    args: &A::Args,
    row_count: usize,
    sink_dtype: &DType,
    prepare: impl FnOnce(A::ConstElems<'_>) -> P,
    apply: impl Fn(&P, A::Elems<'_>, &mut S::Slot) -> R,
) -> (result: Result<RowExecution<S::Value>, Error>)
    requires
        A::lens_match(A::batch(args), row_count as nat),
        A::rejection(A::dtypes(A::batch(args))) is None,
        S::declares(sink_dtype@),
        A::DENSE_SAFE || forall|i: int|
            0 <= i < row_count ==> #[trigger] A::valid_at(A::batch(args), i),
        call_requires(prepare, (A::consts(&A::batch(args)),)),
        forall|i: int, state: &P, elems: A::Elems<'_>, slot: &mut S::Slot|
            0 <= i < row_count && call_ensures(
                prepare,
                (A::consts(&A::batch(args)),),
                *state,
            ) && #[trigger] presents::<A>(&A::batch(args), i, elems) ==> #[trigger] call_requires(
                apply,
                (state, elems, slot),
            ),
    ensures
        prepared_execution::<A, P, S, R>(
            &A::batch(args),
            row_count as nat,
            sink_dtype@,
            |consts: A::ConstElems<'_>, state: P| call_ensures(prepare, (consts,), state),
            |state: P, elems: A::Elems<'_>, before: S::Slot, after: S::Slot, outcome: R|
                exists|slot: &mut S::Slot|
                    *slot == before && *final(slot) == after && #[trigger] call_ensures(
                        apply,
                        (&state, elems, slot),
                        outcome,
                    ),
            result,
        ),
{
    let mut sink = match S::with_capacity(row_count, sink_dtype) {
        Ok(sink) => sink,
        Err(error) => return Err(error),
    };
    let columns = match A::decode(args) {
        Ok(columns) => columns,
        Err(error) => return Err(error),
    };
    proof {
        A::lemma_decoded(A::batch(args), &columns, row_count as nat);
    }
    let state = prepare(A::constants(&columns));
    let mut accumulated = R::start();
    let ghost start = sink.slots();
    assert(allocated(row_count, sink_dtype, sink));
    assert(starts::<S>(row_count as nat, sink_dtype@, start));
    let rows = sink.rows();
    if !S::row_count_matches(rows, row_count) {
        return Err(Error::SinkRows { row_count });
    }
    let ghost bits = every_row(row_count as nat);
    let ghost mut outcomes = Seq::new(row_count as nat, |i: int| arbitrary::<R>());
    let ghost batch = A::batch(args);
    let ghost prepares = |consts: A::ConstElems<'_>, state: P|
        call_ensures(prepare, (consts,), state);
    let ghost computes =
        |state: P, elems: A::Elems<'_>, before: S::Slot, after: S::Slot, outcome: R|
        exists|slot: &mut S::Slot|
            *slot == before && *final(slot) == after && #[trigger] call_ensures(
                apply,
                (&state, elems, slot),
                outcome,
            );
    let ghost step = row_step::<A, P, S, R>(&batch, computes, state);
    if let Some(varying) = A::varying(&columns) {
        if !A::varying_len_matches(&varying, row_count) {
            return Err(Error::InputRows { row_count });
        }
        let mut index: usize = 0;
        while index < row_count
            invariant
                index <= row_count,
                after_borrow(sink).dtype() == sink_dtype@,
                after_borrow(sink).slots() == S::slots_in(*final(rows)),
                ran_before(step, bits, index as int, start, S::slots_in(*rows), outcomes),
                R::failed(accumulated) == evidence_before(bits, index as int, outcomes),
            decreases row_count - index,
        {
            let ghost before = S::slots_in(*rows);
            assert(A::readable(&columns, index as int));
            let elems = A::get_varying(&varying, index);
            assert(presents::<A>(&batch, index as int, elems));
            let outcome = apply(&state, elems, S::row(rows, index));
            proof {
                let k = index as int;
                assert(steps(step, k, before[k], S::slots_in(*rows)[k], outcome));
                lemma_row(step, bits, k, start, before, outcomes, S::slots_in(*rows)[k], outcome);
                outcomes = outcomes.update(k, outcome);
            }
            match outcome.accumulate(&mut accumulated) {
                Ok(_) => {},
                Err(error) => {
                    let failed = Err(error);
                    assert(execution_from::<S, R>(step, sink_dtype@, bits, start, failed));
                    assert(executes::<A, P, S, R>(
                        &batch,
                        sink_dtype@,
                        bits,
                        prepares,
                        computes,
                        state,
                        failed,
                    ));
                    return failed;
                },
            }
            index += 1;
        }
    } else {
        if !A::decoded_lens_match(&columns, row_count) {
            return Err(Error::InputRows { row_count });
        }
        let mut index: usize = 0;
        while index < row_count
            invariant
                index <= row_count,
                after_borrow(sink).dtype() == sink_dtype@,
                after_borrow(sink).slots() == S::slots_in(*final(rows)),
                ran_before(step, bits, index as int, start, S::slots_in(*rows), outcomes),
                R::failed(accumulated) == evidence_before(bits, index as int, outcomes),
            decreases row_count - index,
        {
            let ghost before = S::slots_in(*rows);
            assert(A::readable(&columns, index as int));
            let elems = A::get(&columns, index);
            assert(presents::<A>(&batch, index as int, elems));
            let outcome = apply(&state, elems, S::row(rows, index));
            proof {
                let k = index as int;
                assert(steps(step, k, before[k], S::slots_in(*rows)[k], outcome));
                lemma_row(step, bits, k, start, before, outcomes, S::slots_in(*rows)[k], outcome);
                outcomes = outcomes.update(k, outcome);
            }
            match outcome.accumulate(&mut accumulated) {
                Ok(_) => {},
                Err(error) => {
                    let failed = Err(error);
                    assert(execution_from::<S, R>(step, sink_dtype@, bits, start, failed));
                    assert(executes::<A, P, S, R>(
                        &batch,
                        sink_dtype@,
                        bits,
                        prepares,
                        computes,
                        state,
                        failed,
                    ));
                    return failed;
                },
            }
            index += 1;
        }
    }
    assert(rows_ran(step, bits, start, sink.slots(), outcomes));
    let result = finish_sink(sink, DeferredError::new(R::occurred(accumulated)));
    assert(execution_from::<S, R>(step, sink_dtype@, bits, start, result));
    assert(executes::<A, P, S, R>(&batch, sink_dtype@, bits, prepares, computes, state, result));
    result
}

/// Run a prepared sink over only the rows set in `valid`, or decline when the sink cannot skip or
/// the columns cannot be decoded without reading behind nulls.
#[verifier::loop_isolation(false)]
pub fn execute_row_sink_branch<A: ElementTuple, P, S: OutputSink, R: SinkResult>(
    args: &A::Args,
    row_count: usize,
    sink_dtype: &DType,
    valid: &Mask,
    prepare: impl FnOnce(A::ConstElems<'_>) -> P,
    apply: impl Fn(&P, A::Elems<'_>, &mut S::Slot) -> R,
) -> (result: Result<Option<RowExecution<S::Value>>, Error>)
    requires
        A::lens_match(A::batch(args), row_count as nat),
        A::rejection(A::dtypes(A::batch(args))) is None,
        S::declares(sink_dtype@),
        valid@.len() == row_count,
        A::DENSE_SAFE || forall|i: int|
            0 <= i < row_count && valid@[i] ==> #[trigger] A::valid_at(A::batch(args), i),
        call_requires(prepare, (A::consts(&A::batch(args)),)),
        forall|i: int, state: &P, elems: A::Elems<'_>, slot: &mut S::Slot|
            0 <= i < row_count && valid@[i] && call_ensures(
                prepare,
                (A::consts(&A::batch(args)),),
                *state,
            ) && #[trigger] presents::<A>(&A::batch(args), i, elems) ==> #[trigger] call_requires(
                apply,
                (state, elems, slot),
            ),
    ensures
        branch_execution::<A, P, S, R>(
            &A::batch(args),
            row_count as nat,
            sink_dtype@,
            valid@,
            |consts: A::ConstElems<'_>, state: P| call_ensures(prepare, (consts,), state),
            |state: P, elems: A::Elems<'_>, before: S::Slot, after: S::Slot, outcome: R|
                exists|slot: &mut S::Slot|
                    *slot == before && *final(slot) == after && #[trigger] call_ensures(
                        apply,
                        (&state, elems, slot),
                        outcome,
                    ),
            result,
        ),
{
    if !S::SUPPORTS_SKIPPED_ROWS {
        return Ok(None);
    }
    let columns = match A::decode_null_tolerant(args) {
        Ok(Some(columns)) => columns,
        Ok(None) => return Ok(None),
        Err(error) => return Err(error),
    };
    proof {
        A::lemma_decoded(A::batch(args), &columns, row_count as nat);
    }
    let state = prepare(A::constants(&columns));
    let mut sink = match S::with_capacity(row_count, sink_dtype) {
        Ok(sink) => sink,
        Err(error) => return Err(error),
    };
    let mut accumulated = R::start();
    let valid = match valid.bit_buffer() {
        AllOr::Mixed(valid) => valid,
        _ => return Err(Error::MixedMaskRequired),
    };
    let ghost start = sink.slots();
    assert(allocated(row_count, sink_dtype, sink));
    assert(starts::<S>(row_count as nat, sink_dtype@, start));
    let rows = sink.rows();
    if !S::row_count_matches(rows, row_count) {
        return Err(Error::SinkRows { row_count });
    }
    let varying = A::varying(&columns);
    let lens_match = match &varying {
        Some(varying) => A::varying_len_matches(varying, row_count),
        None => A::decoded_lens_match(&columns, row_count),
    };
    if !lens_match {
        return Err(Error::InputRows { row_count });
    }
    let ghost mut outcomes = Seq::new(row_count as nat, |i: int| arbitrary::<R>());
    let ghost batch = A::batch(args);
    let ghost prepares = |consts: A::ConstElems<'_>, state: P|
        call_ensures(prepare, (consts,), state);
    let ghost computes =
        |state: P, elems: A::Elems<'_>, before: S::Slot, after: S::Slot, outcome: R|
        exists|slot: &mut S::Slot|
            *slot == before && *final(slot) == after && #[trigger] call_ensures(
                apply,
                (&state, elems, slot),
                outcome,
            );
    let ghost step = row_step::<A, P, S, R>(&batch, computes, state);
    let mut index: usize = 0;
    while index < row_count
        invariant
            index <= row_count,
            after_borrow(sink).dtype() == sink_dtype@,
            after_borrow(sink).slots() == S::slots_in(*final(rows)),
            ran_before(step, valid@, index as int, start, S::slots_in(*rows), outcomes),
            R::failed(accumulated) == evidence_before(valid@, index as int, outcomes),
        decreases row_count - index,
    {
        if valid.value(index) {
            let ghost before = S::slots_in(*rows);
            assert(A::readable(&columns, index as int));
            let elems = match &varying {
                Some(varying) => A::get_varying(varying, index),
                None => A::get(&columns, index),
            };
            assert(presents::<A>(&batch, index as int, elems));
            let outcome = apply(&state, elems, S::row(rows, index));
            proof {
                let k = index as int;
                assert(steps(step, k, before[k], S::slots_in(*rows)[k], outcome));
                lemma_row(step, valid@, k, start, before, outcomes, S::slots_in(*rows)[k], outcome);
                outcomes = outcomes.update(k, outcome);
            }
            match outcome.accumulate(&mut accumulated) {
                Ok(_) => {},
                Err(error) => {
                    let failed = Err(error);
                    assert(execution_from::<S, R>(
                        step,
                        sink_dtype@,
                        valid@,
                        start,
                        taken(failed),
                    ));
                    assert(executes::<A, P, S, R>(
                        &batch,
                        sink_dtype@,
                        valid@,
                        prepares,
                        computes,
                        state,
                        taken(failed),
                    ));
                    return failed;
                },
            }
        } else {
            proof {
                lemma_skipped(step, valid@, index as int, start, S::slots_in(*rows), outcomes);
            }
        }
        index += 1;
    }
    assert(rows_ran(step, valid@, start, sink.slots(), outcomes));
    let result = finish_sink(sink, DeferredError::new(R::occurred(accumulated)));
    assert(execution_from::<S, R>(step, sink_dtype@, valid@, start, result));
    assert(executes::<A, P, S, R>(&batch, sink_dtype@, valid@, prepares, computes, state, result));
    match result {
        Ok(run) => Ok(Some(run)),
        Err(error) => Err(error),
    }
}

/// What is left of a run when its deferred error is surfaced: the output where there is one, and
/// the error where there is not.
pub proof fn deferred_errors_are_surfaced<V>(
    run: RowExecution<V>,
    result: Result<Array<V>, Error>,
)
    requires
        call_ensures(RowExecution::<V>::into_result, (run,), result),
    ensures
        match run {
            RowExecution::Output(output) => result == Ok::<Array<V>, Error>(output),
            RowExecution::DeferredError(error) => result == Err::<Array<V>, Error>(error),
        },
{
}

/// Finishing a sink keeps apart an error that rows left evidence of from one that they did not, and
/// changes neither it nor the output.
pub proof fn finishing_keeps_deferred_errors_apart<S: OutputSink>(
    sink: S,
    evidence: DeferredError,
    failed: bool,
    result: Result<RowExecution<S::Value>, Error>,
)
    requires
        call_ensures(DeferredError::occurred, (evidence,), failed),
        call_ensures(finish_sink::<S>, (sink, evidence), result),
    ensures
        match result {
            Ok(RowExecution::Output(array)) => {
                &&& call_ensures(S::finish, (sink, evidence), Ok::<Array<S::Value>, Error>(array))
                &&& S::ERRORS_ARE_DEFERRED ==> !failed
            },
            Ok(RowExecution::DeferredError(error)) => {
                &&& call_ensures(S::finish, (sink, evidence), Err::<Array<S::Value>, Error>(error))
                &&& failed
            },
            Err(error) => {
                &&& call_ensures(S::finish, (sink, evidence), Err::<Array<S::Value>, Error>(error))
                &&& !failed
            },
        },
{
}

/// A function that writes into a sink takes columns exactly where there is one for each argument,
/// each argument can be read from its column, and the sink declares a type over them that is not
/// nullable. The type is then the sink's. Otherwise the first of these that does not hold is said.
pub proof fn inputs_are_checked_before_they_run<A: ElementTuple, S: OutputSink>(
    args: &[DType],
    result: Result<DType, Error>,
)
    requires
        call_ensures(validate_row_sink::<A, S>, (args,), result),
    ensures
        result is Ok <==> {
            &&& args@.len() == A::arity()
            &&& A::rejection(models(args@)) is None
            &&& S::dtype_failure(models(args@)) is None
            &&& S::dtype_over(models(args@)).nullability() == Nullability::NonNullable
        },
        match result {
            Ok(dtype) => dtype@ == S::dtype_over(models(args@)),
            Err(error) => {
                &&& args@.len() != A::arity() ==> error@ == (ErrorModel::ArgumentCount {
                    expected: A::ARITY as nat,
                    got: args@.len(),
                })
                &&& args@.len() == A::arity() && A::rejection(models(args@)) is Some
                    ==> A::rejection(models(args@)) == Some(error@)
                &&& args@.len() == A::arity() && A::rejection(models(args@)) is None
                    && S::dtype_failure(models(args@)) is Some ==> S::dtype_failure(models(args@))
                    == Some(error@)
                &&& args@.len() == A::arity() && A::rejection(models(args@)) is None
                    && S::dtype_failure(models(args@)) is None ==> error@ == (
                ErrorModel::NullableSink { dtype: S::dtype_over(models(args@)) })
            },
        },
{
}

/// What keeps a run over every row from starting: a sink that cannot be allocated, columns that
/// cannot be decoded, a sink or columns that do not address as many rows as there are. The first of
/// these is the error.
pub proof fn runs_start_only_with_matching_rows<
    'a,
    A: ElementTuple,
    P,
    S: OutputSink,
    R: SinkResult,
>(
    batch: &'a A::Batch,
    row_count: nat,
    dtype: DTypeModel,
    prepares: spec_fn(A::ConstElems<'a>, P) -> bool,
    computes: spec_fn(P, A::Elems<'a>, S::Slot, S::Slot, R) -> bool,
    result: Result<RowExecution<S::Value>, Error>,
)
    requires
        prepared_execution::<A, P, S, R>(batch, row_count, dtype, prepares, computes, result),
    ensures
        S::capacity_failure(row_count, dtype) matches Some(cause) ==> result is Err
            && result->Err_0@ == cause,
        S::capacity_failure(row_count, dtype) is None ==> (A::failure(*batch) matches Some(cause)
            ==> result is Err && result->Err_0@ == cause),
        S::capacity_failure(row_count, dtype) is None && A::failure(*batch) is None && S::capacity(
            row_count,
            dtype,
        ) != row_count ==> result is Err && result->Err_0@ == (ErrorModel::SinkRows {
            row_count,
        }),
        S::capacity_failure(row_count, dtype) is None && A::failure(*batch) is None && S::capacity(
            row_count,
            dtype,
        ) == row_count && !A::decoded_lens(*batch, row_count) ==> result is Err
            && result->Err_0@ == (ErrorModel::InputRows { row_count }),
        result is Ok ==> {
            &&& S::capacity_failure(row_count, dtype) is None
            &&& A::failure(*batch) is None
            &&& S::capacity(row_count, dtype) == row_count
            &&& A::decoded_lens(*batch, row_count)
        },
{
}

/// A run over some rows is declined exactly where the sink cannot skip rows, or a column cannot be
/// decoded without reading behind nulls. It is refused where every row is set, or none is.
pub proof fn skipping_needs_rows_to_skip<'a, A: ElementTuple, P, S: OutputSink, R: SinkResult>(
    batch: &'a A::Batch,
    row_count: nat,
    dtype: DTypeModel,
    bits: Seq<bool>,
    prepares: spec_fn(A::ConstElems<'a>, P) -> bool,
    computes: spec_fn(P, A::Elems<'a>, S::Slot, S::Slot, R) -> bool,
    result: Result<Option<RowExecution<S::Value>>, Error>,
)
    requires
        branch_execution::<A, P, S, R>(
            batch,
            row_count,
            dtype,
            bits,
            prepares,
            computes,
            result,
        ),
    ensures
        (result matches Ok(None)) <==> !S::SUPPORTS_SKIPPED_ROWS || A::tolerant(*batch) == Ok::<
            bool,
            ErrorModel,
        >(false),
        result matches Ok(Some(_)) ==> {
            &&& exists|i: int| 0 <= i < bits.len() && bits[i]
            &&& exists|i: int| 0 <= i < bits.len() && !bits[i]
        },
        S::SUPPORTS_SKIPPED_ROWS && A::tolerant(*batch) == Ok::<bool, ErrorModel>(true)
            && S::capacity_failure(row_count, dtype) is None && ((forall|i: int|
            0 <= i < bits.len() ==> bits[i]) || (forall|i: int| 0 <= i < bits.len() ==> !bits[i]))
            ==> result is Err && result->Err_0@ == ErrorModel::MixedMaskRequired,
{
}

/// What keeps a run over some rows from starting once it is not declined: columns that cannot be
/// decoded, a sink that cannot be allocated, and, where some rows are set and some are not, a sink
/// or columns that do not address as many rows as there are. The first of these is the error, and
/// where none holds the run starts.
pub proof fn skipping_runs_start_only_with_matching_rows<
    'a,
    A: ElementTuple,
    P,
    S: OutputSink,
    R: SinkResult,
>(
    batch: &'a A::Batch,
    row_count: nat,
    dtype: DTypeModel,
    bits: Seq<bool>,
    j: int,
    k: int,
    prepares: spec_fn(A::ConstElems<'a>, P) -> bool,
    computes: spec_fn(P, A::Elems<'a>, S::Slot, S::Slot, R) -> bool,
    result: Result<Option<RowExecution<S::Value>>, Error>,
)
    requires
        S::SUPPORTS_SKIPPED_ROWS,
        0 <= j < bits.len(),
        0 <= k < bits.len(),
        bits[j],
        !bits[k],
        branch_execution::<A, P, S, R>(
            batch,
            row_count,
            dtype,
            bits,
            prepares,
            computes,
            result,
        ),
    ensures
        A::tolerant(*batch) matches Err(cause) ==> result is Err && result->Err_0@ == cause,
        A::tolerant(*batch) == Ok::<bool, ErrorModel>(true) ==> {
            &&& S::capacity_failure(row_count, dtype) matches Some(cause) ==> result is Err
                && result->Err_0@ == cause
            &&& S::capacity_failure(row_count, dtype) is None && S::capacity(row_count, dtype)
                != row_count ==> result is Err && result->Err_0@ == (ErrorModel::SinkRows {
                row_count,
            })
            &&& S::capacity_failure(row_count, dtype) is None && S::capacity(row_count, dtype)
                == row_count && !A::decoded_lens(*batch, row_count) ==> result is Err
                && result->Err_0@ == (ErrorModel::InputRows { row_count })
            &&& S::capacity_failure(row_count, dtype) is None && S::capacity(row_count, dtype)
                == row_count && A::decoded_lens(*batch, row_count) ==> exists|state: P| #[trigger]
                yields(prepares, A::consts(batch), state)
        },
{
    assert(!all_set(bits));
    assert(!none_set(bits));
    if A::tolerant(*batch) == Ok::<bool, ErrorModel>(true) && S::capacity_failure(row_count, dtype)
        is None && S::capacity(row_count, dtype) == row_count && A::decoded_lens(
        *batch,
        row_count,
    ) {
        let state = choose|state: P| #[trigger]
            executes::<A, P, S, R>(batch, dtype, bits, prepares, computes, state, taken(result));
        assert(yields(prepares, A::consts(batch), state));
    }
}

} // verus!
