//! Row functions: one row at a time, lifted to whole columns.

use vstd::prelude::*;

use crate::array::Array;
use crate::dtype::{any_nullable, is_any_nullable, models, DType, Nullability};
use crate::error::{Error, ErrorModel};
use crate::row::execute::{row_sink_rejection, validate_row_sink};
use crate::row::result::SinkResult;
use crate::row::sink::OutputSink;
use crate::row::tuple::ElementTuple;

verus! {

/// A function that is written as a computation on one row and applied to whole columns.
///
/// The lifting owns nulls, constants and the type of the result: the computation sees elements, a
/// state that was prepared once per batch, and a place to write its row. What an implementation
/// leaves unstated of its computation is unconstrained.
pub trait RowFn: Sized {
    /// The elements that a row is read as.
    type Args: ElementTuple;

    /// What rows are written into.
    type Sink: OutputSink;

    /// What is prepared once per batch.
    type State;

    /// What the computation returns of a row.
    type Outcome: SinkResult;

    /// Whether the function can fail on legal input.
    const FALLIBLE: bool;

    /// Whether the constant arguments may be prepared into `state`.
    open spec fn prepares<'a>(
        &'a self,
        consts: <Self::Args as ElementTuple>::ConstElems<'a>,
        state: Self::State,
    ) -> bool {
        true
    }

    /// Whether the computation may turn `before` into `after` and return `outcome`.
    open spec fn computes<'a>(
        &'a self,
        state: Self::State,
        elems: <Self::Args as ElementTuple>::Elems<'a>,
        before: <Self::Sink as OutputSink>::Slot,
        after: <Self::Sink as OutputSink>::Slot,
        outcome: Self::Outcome,
    ) -> bool {
        true
    }

    /// Whether the columns may be answered, from how they are stored, with `reduced`.
    open spec fn reduces(
        &self,
        batch: <Self::Args as ElementTuple>::Batch,
        reduced: Result<Option<Array<<Self::Sink as OutputSink>::Value>>, Error>,
    ) -> bool {
        true
    }

    /// The name of the argument at `index`.
    open spec fn argument(index: int) -> Seq<char> {
        arbitrary()
    }

    /// The name of the function.
    fn id(&self) -> String;

    /// The name of the argument at `index`.
    fn arg_name(&self, index: usize) -> (name: String)
        requires
            index < Self::Args::arity(),
        ensures
            name@ == Self::argument(index as int),
    ;

    /// Prepare what every row needs of the constant arguments, once per batch.
    fn prepare<'a>(&self, consts: <Self::Args as ElementTuple>::ConstElems<'a>) -> (state:
        Self::State)
        ensures
            self.prepares(consts, state),
    ;

    /// Compute one row and write it.
    fn apply<'a>(
        &self,
        state: &Self::State,
        elems: <Self::Args as ElementTuple>::Elems<'a>,
        slot: &mut <Self::Sink as OutputSink>::Slot,
    ) -> (outcome: Self::Outcome)
        ensures
            self.computes(*state, elems, *old(slot), *final(slot), outcome),
    ;

    /// Answer from how the columns are stored, without decoding a row, or decline.
    fn reduce_encoded(&self, args: &<Self::Args as ElementTuple>::Args) -> (reduced: Result<
        Option<Array<<Self::Sink as OutputSink>::Value>>,
        Error,
    >)
        ensures
            self.reduces(<Self::Args as ElementTuple>::batch(args), reduced),
    ;

    /// The bytes that stand for the function's options, where it has a wire representation.
    fn serialize(&self) -> (result: Result<Option<Vec<u8>>, Error>)
        default_ensures
            result matches Ok(None),
    {
        Ok(None)
    }

    /// The options that some bytes stand for.
    fn deserialize(&self, metadata: &[u8]) -> (result: Result<EmptyOptions, Error>)
        default_ensures
            result matches Err(error) && error@ == ErrorModel::NotSerializable,
    {
        Err(Error::NotSerializable)
    }
}

/// The options of a function that has none.
#[derive(Clone, Copy, Debug, PartialEq, Eq, Structural)]
pub struct EmptyOptions;

/// How a row function treats a batch in which some rows are null and some are not.
#[derive(Clone, Copy, Debug, PartialEq, Eq, Structural)]
pub enum RowPolicy {
    /// Every row runs, and the null rows are masked afterwards.
    Dense,
    /// Every row runs. Where that leaves evidence of failure, only the valid rows run again.
    DenseWithRetry,
    /// Only the valid rows run, skipped to or filtered.
    ValidOnly { filtered_decode_cost: usize },
}

/// How a row function treats nulls, which follows from what it reads and returns.
///
/// Every row may run where reading behind a null is safe, decoding cannot fail and no row can end
/// the loop. Evidence that a sink reports after the loop can be taken back by a retry.
pub open spec fn policy<F: RowFn>() -> RowPolicy {
    if !F::Args::DENSE_SAFE || F::Args::DECODE_FALLIBLE || F::Outcome::FALLIBLE {
        RowPolicy::ValidOnly { filtered_decode_cost: F::Args::FILTERED_DECODE_COST }
    } else if F::Outcome::DEFERRED && F::Sink::ERRORS_ARE_DEFERRED {
        RowPolicy::DenseWithRetry
    } else {
        RowPolicy::Dense
    }
}

/// The policy of a row function.
pub fn row_policy<F: RowFn>() -> (result: RowPolicy)
    ensures
        result == policy::<F>(),
{
    if !F::Args::DENSE_SAFE || F::Args::DECODE_FALLIBLE || F::Outcome::FALLIBLE {
        RowPolicy::ValidOnly { filtered_decode_cost: F::Args::FILTERED_DECODE_COST }
    } else if F::Outcome::DEFERRED && F::Sink::ERRORS_ARE_DEFERRED {
        RowPolicy::DenseWithRetry
    } else {
        RowPolicy::Dense
    }
}

/// Whether a function may claim what it claims: only a fallible one decodes fallibly or returns
/// errors, and evidence of failure goes to a sink that reports it.
pub open spec fn coherent<F: RowFn>() -> bool {
    &&& F::Args::DECODE_FALLIBLE || F::Outcome::FALLIBLE || F::Outcome::DEFERRED ==> F::FALLIBLE
    &&& F::Outcome::DEFERRED ==> F::Sink::ERRORS_ARE_DEFERRED
}

/// Whether a function's claims are coherent.
pub fn is_coherent<F: RowFn>() -> (result: bool)
    ensures
        result == coherent::<F>(),
{
    (F::FALLIBLE || !(F::Args::DECODE_FALLIBLE || F::Outcome::FALLIBLE || F::Outcome::DEFERRED))
        && (F::Sink::ERRORS_ARE_DEFERRED || !F::Outcome::DEFERRED)
}

/// Whether the function can fail on legal input.
pub fn is_fallible<F: RowFn>() -> (result: bool)
    ensures
        result == F::FALLIBLE,
{
    F::FALLIBLE
}

/// The type of the function's result over columns of these types: what the sink builds, nullable
/// where any column is.
pub fn return_dtype<F: RowFn>(args: &[DType]) -> (result: Result<DType, Error>)
    ensures
        match result {
            Ok(dtype) => {
                &&& row_sink_rejection::<F::Args, F::Sink>(models(args@)) is None
                &&& dtype@ == F::Sink::dtype_over(models(args@)).widened(
                    any_nullable(models(args@)),
                )
            },
            Err(error) => row_sink_rejection::<F::Args, F::Sink>(models(args@)) == Some(error@),
        },
{
    let dtype = match validate_row_sink::<F::Args, F::Sink>(args) {
        Ok(dtype) => dtype,
        Err(error) => return Err(error),
    };
    if is_any_nullable(args) {
        Ok(dtype.as_nullable())
    } else {
        Ok(dtype)
    }
}

/// `count` placeholders, separated by commas.
pub open spec fn placeholders(count: nat) -> Seq<char>
    decreases count,
{
    if count == 0 {
        Seq::empty()
    } else if count == 1 {
        "$"@
    } else {
        placeholders((count - 1) as nat) + ", "@ + "$"@
    }
}

/// How a call of the function over the root of an expression reads: its name, then a placeholder
/// for each argument.
pub fn display<F: RowFn>(f: &F) -> (text: String)
    requires
        F::Args::arity() <= usize::MAX,
    ensures
        exists|id: String| #[trigger] call_ensures(F::id, (f,), id) && text@ == id@ + "("@
            + placeholders(F::Args::arity()) + ")"@,
{
    let mut text = f.id();
    let ghost id = text;
    text.append("(");
    let ghost open = text@;
    let mut i: usize = 0;
    while !F::Args::takes(i)
        invariant
            call_ensures(F::id, (f,), id),
            open == id@ + "("@,
            i <= F::Args::arity() <= usize::MAX,
            text@ == open + placeholders(i as nat),
        decreases F::Args::arity() - i,
    {
        if i > 0 {
            text.append(", ");
        }
        text.append("$");
        i += 1;
    }
    text.append(")");
    text
}

/// How a function treats nulls follows from what it reads and returns: it keeps to the valid rows
/// where reading behind a null is not safe, decoding can fail, or a row can return an error;
/// otherwise it runs every row, and where rows leave evidence for a sink that reports it, runs the
/// valid ones again should there be any.
pub proof fn nulls_are_treated_as_claimed<F: RowFn>(policy: RowPolicy)
    requires
        call_ensures(row_policy::<F>, (), policy),
    ensures
        match policy {
            RowPolicy::Dense => {
                &&& F::Args::DENSE_SAFE
                &&& !F::Args::DECODE_FALLIBLE
                &&& !F::Outcome::FALLIBLE
                &&& !(F::Outcome::DEFERRED && F::Sink::ERRORS_ARE_DEFERRED)
            },
            RowPolicy::DenseWithRetry => {
                &&& F::Args::DENSE_SAFE
                &&& !F::Args::DECODE_FALLIBLE
                &&& !F::Outcome::FALLIBLE
                &&& F::Outcome::DEFERRED
                &&& F::Sink::ERRORS_ARE_DEFERRED
            },
            RowPolicy::ValidOnly { filtered_decode_cost } => {
                &&& !F::Args::DENSE_SAFE || F::Args::DECODE_FALLIBLE || F::Outcome::FALLIBLE
                &&& filtered_decode_cost == F::Args::FILTERED_DECODE_COST
            },
        },
{
}

/// A function may claim never to fail only where nothing that it reads or returns can, and may
/// leave evidence only for a sink that reports it. What it claims is what it says of itself.
pub proof fn claims_must_be_coherent<F: RowFn>(coherent: bool, fallible: bool)
    requires
        call_ensures(is_coherent::<F>, (), coherent),
        call_ensures(is_fallible::<F>, (), fallible),
    ensures
        fallible == F::FALLIBLE,
        coherent && !fallible ==> !F::Args::DECODE_FALLIBLE && !F::Outcome::FALLIBLE
            && !F::Outcome::DEFERRED,
        coherent && F::Outcome::DEFERRED ==> F::Sink::ERRORS_ARE_DEFERRED,
        !coherent ==> {
            ||| !fallible && (F::Args::DECODE_FALLIBLE || F::Outcome::FALLIBLE
                || F::Outcome::DEFERRED)
            ||| F::Outcome::DEFERRED && !F::Sink::ERRORS_ARE_DEFERRED
        },
{
}

/// The type of a function's result is its sink's, made nullable exactly where some column is.
pub proof fn results_are_nullable_where_a_column_is<F: RowFn>(
    args: &[DType],
    result: Result<DType, Error>,
)
    requires
        call_ensures(return_dtype::<F>, (args,), result),
    ensures
        result is Ok <==> row_sink_rejection::<F::Args, F::Sink>(models(args@)) is None,
        result matches Ok(dtype) ==> {
            &&& (exists|i: int|
                0 <= i < args@.len() && (#[trigger] args@[i])@.nullability()
                    == Nullability::Nullable) ==> dtype@ == F::Sink::dtype_over(
                models(args@),
            ).with_nullability(Nullability::Nullable)
            &&& (forall|i: int|
                0 <= i < args@.len() ==> (#[trigger] args@[i])@.nullability()
                    == Nullability::NonNullable) ==> dtype@ == F::Sink::dtype_over(models(args@))
        },
        result matches Err(error) ==> row_sink_rejection::<F::Args, F::Sink>(models(args@)) == Some(
            error@,
        ),
{
    let all = models(args@);
    assert forall|i: int| 0 <= i < args@.len() implies all[i] == (#[trigger] args@[i])@ by {}
    if exists|i: int|
        0 <= i < args@.len() && (#[trigger] args@[i])@.nullability() == Nullability::Nullable {
        let i = choose|i: int|
            0 <= i < args@.len() && (#[trigger] args@[i])@.nullability() == Nullability::Nullable;
        assert(all[i].nullable());
    }
    if any_nullable(all) {
        let i = choose|i: int| 0 <= i < all.len() && (#[trigger] all[i]).nullable();
        assert(args@[i]@.nullability() == Nullability::Nullable);
    }
}

/// Placeholders are as many as asked for, with a comma and a blank between two.
pub proof fn placeholders_are_separated(count: nat)
    ensures
        count == 0 ==> placeholders(count).len() == 0,
        count > 0 ==> {
            &&& placeholders(count).len() == 3 * count - 2
            &&& forall|k: int|
                0 <= k < placeholders(count).len() ==> #[trigger] placeholders(count)[k] == if k % 3
                    == 0 {
                    '$'
                } else if k % 3 == 1 {
                    ','
                } else {
                    ' '
                }
        },
    decreases count,
{
    reveal_strlit("$");
    reveal_strlit(", ");
    if count > 1 {
        placeholders_are_separated((count - 1) as nat);
        let front = placeholders((count - 1) as nat);
        assert forall|k: int| 0 <= k < placeholders(count).len() implies #[trigger] placeholders(
            count,
        )[k] == (if k % 3 == 0 {
            '$'
        } else if k % 3 == 1 {
            ','
        } else {
            ' '
        }) by {
            if k < front.len() {
                assert(placeholders(count)[k] == front[k]);
            }
        }
    }
}

/// A call of a function reads as its name with a placeholder for each argument in brackets.
pub proof fn calls_read_as_name_and_placeholders<F: RowFn>(f: &F, text: String) -> (id: String)
    requires
        call_ensures(display::<F>, (f,), text),
    ensures
        call_ensures(F::id, (f,), id),
        text@ == id@ + "("@ + placeholders(F::Args::arity()) + ")"@,
{
    choose|id: String| #[trigger] call_ensures(F::id, (f,), id) && text@ == id@ + "("@
        + placeholders(F::Args::arity()) + ")"@
}

} // verus!
