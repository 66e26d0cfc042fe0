//! The column builders a row function can write its output into.

use vstd::prelude::*;

use crate::array::{dense, Array};
use crate::dtype::{models, DType, DTypeModel};
use crate::error::{Error, ErrorModel};
use crate::row::result::DeferredError;

verus! {

/// A column allocated once per batch that a row closure writes into, one row at a time.
///
/// [`ElementSink`] covers an ordinary owned value per row. A custom sink covers output whose width
/// is runtime data. Every row is written into a slot of its own, which [`finish`](Self::finish)
/// puts together.
///
/// The row loop, not the closure, holds the sink: [`row`](Self::row) is called by the executor and
/// its result passed in, so a writing closure captures nothing mutable. Rows arrive in increasing
/// index order. Ordinary execution visits every row exactly once; branch-and-skip may omit null
/// rows when [`SUPPORTS_SKIPPED_ROWS`](Self::SUPPORTS_SKIPPED_ROWS) is `true`.
pub trait OutputSink: Sized {
    /// Whether this sink accepts deferred evidence from its row closure.
    ///
    /// The executor reduces the evidence of the rows and passes the result to
    /// [`finish`](Self::finish), which must then report an error. When the arguments are safe to
    /// read behind nulls, this lets the lifting run a dense loop first and retry over only the
    /// valid rows: success means the error came exclusively from null rows.
    const ERRORS_ARE_DEFERRED: bool = false;

    /// Whether this sink can finish a full-length output when some rows were never visited.
    ///
    /// A supporting sink leaves a legal arbitrary value at every skipped row. The lifting masks
    /// those rows before the result escapes, so that value is never observable.
    const SUPPORTS_SKIPPED_ROWS: bool = false;

    /// All output rows.
    ///
    /// Borrowed once before the row loop, so that the loop reads nothing else of the sink.
    type Rows;

    /// What a row closure writes one row through.
    type Slot;

    /// The values of the column this sink builds.
    type Value;

    /// Why no sink can be declared over inputs of these types.
    open spec fn dtype_failure(args: Seq<DTypeModel>) -> Option<ErrorModel> {
        arbitrary()
    }

    /// The type of the column this sink builds over inputs of these types.
    open spec fn dtype_over(args: Seq<DTypeModel>) -> DTypeModel {
        arbitrary()
    }

    /// Whether this sink can build a column of this type.
    open spec fn declares(dtype: DTypeModel) -> bool {
        arbitrary()
    }

    /// Why no sink can be allocated.
    open spec fn capacity_failure(rows: nat, dtype: DTypeModel) -> Option<ErrorModel> {
        arbitrary()
    }

    /// The number of rows that an allocated sink addresses.
    open spec fn capacity(rows: nat, dtype: DTypeModel) -> nat {
        arbitrary()
    }

    /// The type of the column that this sink is building.
    open spec fn dtype(self) -> DTypeModel {
        arbitrary()
    }

    /// What was written so far.
    open spec fn slots(self) -> Seq<Self::Slot> {
        arbitrary()
    }

    /// What was written through some rows.
    open spec fn slots_in(rows: Self::Rows) -> Seq<Self::Slot> {
        arbitrary()
    }

    /// The value of the row that was written through `slot`.
    open spec fn value_of(slot: Self::Slot) -> Self::Value {
        arbitrary()
    }

    /// Why a sink cannot finish, given whether a row left evidence of failure.
    open spec fn finish_failure(
        dtype: DTypeModel,
        slots: Seq<Self::Slot>,
        failed: bool,
    ) -> Option<ErrorModel> {
        arbitrary()
    }

    /// The type of the column this sink builds, given the function's input types.
    ///
    /// Must be non-nullable: nullability is derived from the inputs by the lifting, which widens
    /// the result and masks the null rows itself.
    fn sink_dtype(args: &[DType]) -> (result: Result<DType, Error>)
        ensures
            match result {
                Ok(dtype) => {
                    &&& Self::dtype_failure(models(args@)) is None
                    &&& dtype@ == Self::dtype_over(models(args@))
                    &&& Self::declares(dtype@)
                },
                Err(error) => Self::dtype_failure(models(args@)) == Some(error@),
            },
    ;

    /// Allocate a sink for `rows` rows of `dtype`, which is this sink's own
    /// [`sink_dtype`](Self::sink_dtype). Called once per batch.
    fn with_capacity(rows: usize, dtype: &DType) -> (result: Result<Self, Error>)
        requires
            Self::declares(dtype@),
        ensures
            match result {
                Ok(sink) => {
                    &&& Self::capacity_failure(rows as nat, dtype@) is None
                    &&& sink.dtype() == dtype@
                    &&& sink.slots().len() == Self::capacity(rows as nat, dtype@)
                },
                Err(error) => Self::capacity_failure(rows as nat, dtype@) == Some(error@),
            },
    ;

    /// Borrow all output rows for the row loop.
    fn rows(&mut self) -> (rows: &mut Self::Rows)
        ensures
            Self::slots_in(*rows) == old(self).slots(),
            final(self).slots() == Self::slots_in(*final(rows)),
            final(self).dtype() == old(self).dtype(),
    ;

    /// Whether the rows addressable through [`row`](Self::row) are exactly `0..row_count`.
    fn row_count_matches(rows: &Self::Rows, row_count: usize) -> (result: bool)
        ensures
            result == (Self::slots_in(*rows).len() == row_count),
    ;

    /// Hand out the place to write row `index`.
    fn row<'a>(rows: &'a mut Self::Rows, index: usize) -> (slot: &'a mut Self::Slot)
        requires
            index < Self::slots_in(*old(rows)).len(),
        ensures
            *slot == Self::slots_in(*old(rows))[index as int],
            Self::slots_in(*final(rows)) == Self::slots_in(*old(rows)).update(
                index as int,
                *final(slot),
            ),
    ;

    /// Finish into the built column. Called once per batch with the reduction of every row's
    /// deferred evidence.
    fn finish(self, error: DeferredError) -> (result: Result<Array<Self::Value>, Error>)
        ensures
            match result {
                Ok(array) => {
                    &&& Self::ERRORS_ARE_DEFERRED ==> !error.failed()
                    &&& Self::finish_failure(self.dtype(), self.slots(), error.failed()) is None
                    &&& array@ == dense(
                        self.dtype(),
                        self.slots().map_values(|slot: Self::Slot| Self::value_of(slot)),
                    )
                },
                Err(cause) => Self::finish_failure(self.dtype(), self.slots(), error.failed())
                    == Some(cause@),
            },
    ;
}

/// One owned value per row, whose logical type is a property of its own type.
pub trait OutputElement: Sized {
    /// The type of a column of these.
    open spec fn dtype() -> DTypeModel {
        arbitrary()
    }

    /// The type of a column of these.
    fn element_dtype() -> (dtype: DType)
        ensures
            dtype@ == Self::dtype(),
    ;

    /// A legal value for a row that nobody will see.
    open spec fn unseen() -> Self {
        arbitrary()
    }

    /// A legal value for a row that nobody will see.
    fn placeholder() -> (value: Self)
        ensures
            value == Self::unseen(),
    ;

    /// The column of `values`.
    fn build(values: Vec<Self>) -> (array: Array<Self>)
        ensures
            array@ == dense(Self::dtype(), values@),
    ;
}

/// The standard output sink for one owned [`OutputElement`] per row.
pub struct ElementSink<T> {
    values: Vec<T>,
}

impl<T: OutputElement> OutputSink for ElementSink<T> {
    const SUPPORTS_SKIPPED_ROWS: bool = true;

    type Rows = Vec<T>;

    type Slot = T;

    type Value = T;

    open spec fn dtype_failure(args: Seq<DTypeModel>) -> Option<ErrorModel> {
        None
    }

    open spec fn dtype_over(args: Seq<DTypeModel>) -> DTypeModel {
        T::dtype()
    }

    open spec fn declares(dtype: DTypeModel) -> bool {
        dtype == T::dtype()
    }

    open spec fn capacity_failure(rows: nat, dtype: DTypeModel) -> Option<ErrorModel> {
        None
    }

    open spec fn capacity(rows: nat, dtype: DTypeModel) -> nat {
        rows
    }

    open spec fn dtype(self) -> DTypeModel {
        T::dtype()
    }

    closed spec fn slots(self) -> Seq<T> {
        self.values@
    }

    open spec fn slots_in(rows: Vec<T>) -> Seq<T> {
        rows@
    }

    open spec fn value_of(slot: T) -> T {
        slot
    }

    open spec fn finish_failure(
        dtype: DTypeModel,
        slots: Seq<T>,
        failed: bool,
    ) -> Option<ErrorModel> {
        None
    }

    fn sink_dtype(args: &[DType]) -> (result: Result<DType, Error>) {
        Ok(T::element_dtype())
    }

    fn with_capacity(rows: usize, dtype: &DType) -> (result: Result<Self, Error>)
        ensures
            result matches Ok(sink) && sink.slots() == Seq::new(rows as nat, |i: int| T::unseen()),
    {
        let mut values: Vec<T> = Vec::with_capacity(rows);
        while values.len() < rows
            invariant
                values@.len() <= rows,
                forall|i: int| 0 <= i < values@.len() ==> #[trigger] values@[i] == T::unseen(),
            decreases rows - values@.len(),
        {
            values.push(T::placeholder());
        }
        assert(values@ =~= Seq::new(rows as nat, |i: int| T::unseen()));
        Ok(Self { values })
    }

    fn rows(&mut self) -> (rows: &mut Vec<T>) {
        &mut self.values
    }

    fn row_count_matches(rows: &Vec<T>, row_count: usize) -> (result: bool) {
        rows.len() == row_count
    }

    fn row<'a>(rows: &'a mut Vec<T>, index: usize) -> (slot: &'a mut T) {
        &mut rows[index]
    }

    fn finish(self, error: DeferredError) -> (result: Result<Array<T>, Error>) {
        assert(self.slots().map_values(|slot: T| Self::value_of(slot)) =~= self.values@);
        Ok(T::build(self.values))
    }
}

/// What the standard sink claims: it can skip rows, and reports no evidence of its own.
pub proof fn element_sink_claims<T: OutputElement>()
    ensures
        <ElementSink<T> as OutputSink>::SUPPORTS_SKIPPED_ROWS,
        !<ElementSink<T> as OutputSink>::ERRORS_ARE_DEFERRED,
{
}

/// A sink of owned values builds the column of what was written into its slots: one row per slot,
/// in order, none of them null, and of the values' own type. It never fails, whatever the rows
/// left, and starts out with a slot for every row.
pub proof fn element_sinks_build_what_was_written<T: OutputElement>(
    rows: usize,
    dtype: DType,
    allocated: Result<ElementSink<T>, Error>,
    sink: ElementSink<T>,
    error: DeferredError,
    result: Result<Array<T>, Error>,
)
    requires
        call_ensures(<ElementSink<T> as OutputSink>::with_capacity, (rows, &dtype), allocated),
        call_ensures(<ElementSink<T> as OutputSink>::finish, (sink, error), result),
    ensures
        allocated matches Ok(fresh) && fresh.slots().len() == rows,
        match result {
            Ok(array) => {
                &&& array@.dtype == T::dtype()
                &&& array@.valid.len() == sink.slots().len()
                &&& array@.constant is None
                &&& forall|i: int|
                    0 <= i < sink.slots().len() ==> #[trigger] array@.valid[i]
                        && array@.payload[i] == Some(sink.slots()[i])
            },
            Err(_) => false,
        },
{
}

/// What is written through a slot of a sink of owned values is the value of the row, and the type
/// of the column does not depend on the arguments.
pub proof fn element_sinks_hold_values<T: OutputElement>(args: Seq<DTypeModel>, slot: T)
    ensures
        <ElementSink<T> as OutputSink>::value_of(slot) == slot,
        <ElementSink<T> as OutputSink>::dtype_failure(args) is None,
        <ElementSink<T> as OutputSink>::dtype_over(args) == T::dtype(),
{
}

} // verus!
