//! The arguments of a row function, taken together.
//!
//! Arguments are a list of elements, written as nested pairs: `()` takes none, `(A, ())` takes one
//! and `(A, (B, ()))` takes two.

use vstd::prelude::*;

use crate::array::{lemma_filter_wf, repeated, Array, ArrayModel};
use crate::dtype::{any_nullable, models, DType, DTypeModel};
use crate::error::{Error, ErrorModel};
use crate::mask::{all_set, lemma_filtered_at, rank, set_count, Mask};
use crate::row::element::{decodes, may_read, InputElement};
use crate::row::private::Sealed;

verus! {

/// Whether an argument holds one value in every row that is not null, and has a row to hold it in.
pub open spec fn batch_constant<V>(array: ArrayModel<V>) -> bool {
    array.len() > 0 && (array.constant matches Some(Some(_)))
}

/// Whether an argument holds one value in every row.
pub open spec fn plain_constant<V>(array: ArrayModel<V>) -> bool {
    batch_constant(array) && all_set(array.valid)
}

/// The single row that stands for a constant argument.
pub open spec fn constant_row<V>(array: ArrayModel<V>) -> ArrayModel<V> {
    repeated(array.dtype, array.constant->0->0, 1)
}

/// What is decoded of an argument: one row of a constant, and all of a column.
pub open spec fn decode_input<V>(array: ArrayModel<V>) -> ArrayModel<V> {
    if batch_constant(array) {
        constant_row(array)
    } else {
        array
    }
}

/// Why an argument cannot be decoded.
pub open spec fn argument_failure<E: InputElement>(
    array: ArrayModel<E::Value>,
) -> Option<ErrorModel> {
    if E::decode_failure(decode_input(array)) is Some {
        E::decode_failure(decode_input(array))
    } else if batch_constant(array) && E::decoded_len(constant_row(array)) != 1 {
        Some(ErrorModel::InputRows { row_count: 1 })
    } else {
        None
    }
}

/// Whether an argument can be decoded without reading behind its nulls, or why that fails.
pub open spec fn argument_tolerant<E: InputElement>(array: ArrayModel<E::Value>) -> Result<
    bool,
    ErrorModel,
> {
    if !batch_constant(array) && !E::null_tolerant(array) {
        Ok(false)
    } else if argument_failure::<E>(array) is Some {
        Err(argument_failure::<E>(array)->0)
    } else {
        Ok(true)
    }
}

/// The value that row `i` of an argument is read from.
pub open spec fn argument_value<V>(array: ArrayModel<V>, i: int) -> V {
    if batch_constant(array) {
        array.constant->0->0
    } else {
        array.payload[i]->0
    }
}

/// A decoded argument. A constant is decoded once and read at every row.
pub struct ArgColumn<E: InputElement> {
    column: E::Column,
    constant: bool,
}

impl<E: InputElement> ArgColumn<E> {
    /// The decoded rows.
    pub closed spec fn rows(self) -> E::Column {
        self.column
    }

    /// Whether every row reads the only decoded one.
    pub closed spec fn repeats(self) -> bool {
        self.constant
    }

    pub open spec fn index(self, i: int) -> int {
        if self.repeats() {
            0
        } else {
            i
        }
    }

    pub open spec fn readable(self, i: int) -> bool {
        &&& 0 <= self.index(i) < E::column_len(&self.rows())
        &&& E::readable(&self.rows(), self.index(i))
    }

    pub open spec fn addresses(self, row_count: nat) -> bool {
        self.repeats() || E::column_len(&self.rows()) == row_count
    }

    pub open spec fn decoded_from(self, array: ArrayModel<E::Value>) -> bool {
        &&& self.repeats() == batch_constant(array)
        &&& decodes::<E>(decode_input(array), &self.rows())
        &&& self.repeats() ==> E::column_len(&self.rows()) == 1
    }

    /// Whether an argument holds one value in every row that is not null, and has a row.
    fn holds_one_value(array: &Array<E::Value>) -> (result: bool)
        ensures
            result == batch_constant(array@),
    {
        array.len() > 0 && array.scalar().is_some()
    }

    /// Decode one argument.
    fn decode(array: &Array<E::Value>) -> (result: Result<ArgColumn<E>, Error>)
        requires
            E::rejection(array@.dtype) is None,
        ensures
            match result {
                Ok(column) => argument_failure::<E>(array@) is None && column.decoded_from(array@),
                Err(error) => argument_failure::<E>(array@) == Some(error@),
            },
    {
        if ArgColumn::<E>::holds_one_value(array) {
            let row = array.constant_row();
            match E::decode(&row) {
                Ok(column) => {
                    if E::varying_len(&E::varying(&column)) != 1 {
                        return Err(Error::InputRows { row_count: 1 });
                    }
                    Ok(ArgColumn { column, constant: true })
                },
                Err(error) => Err(error),
            }
        } else {
            match E::decode(array) {
                Ok(column) => Ok(ArgColumn { column, constant: false }),
                Err(error) => Err(error),
            }
        }
    }

    /// Decode one argument without reading behind its nulls, or decline.
    fn decode_null_tolerant(array: &Array<E::Value>) -> (result: Result<
        Option<ArgColumn<E>>,
        Error,
    >)
        requires
            E::rejection(array@.dtype) is None,
        ensures
            match result {
                Ok(Some(column)) => argument_tolerant::<E>(array@) == Ok::<bool, ErrorModel>(true)
                    && column.decoded_from(array@),
                Ok(None) => argument_tolerant::<E>(array@) == Ok::<bool, ErrorModel>(false),
                Err(error) => argument_tolerant::<E>(array@) == Err::<bool, ErrorModel>(error@),
            },
    {
        if ArgColumn::<E>::holds_one_value(array) {
            return match ArgColumn::decode(array) {
                Ok(column) => Ok(Some(column)),
                Err(error) => Err(error),
            };
        }
        match E::decode_null_tolerant(array) {
            Ok(Some(column)) => Ok(Some(ArgColumn { column, constant: false })),
            Ok(None) => Ok(None),
            Err(error) => Err(error),
        }
    }

    fn get<'a>(&'a self, index: usize) -> (elem: E::Elem<'a>)
        requires
            self.readable(index as int),
        ensures
            elem == E::elem_at(&self.rows(), self.index(index as int)),
    {
        if self.constant {
            E::get(&self.column, 0)
        } else {
            E::get(&self.column, index)
        }
    }
}

/// The arguments of a row function: a list of elements and the columns that they are read from.
pub trait ElementTuple: Sized + Sealed {
    /// The number of arguments.
    const ARITY: usize;

    /// Whether every argument may be read where it is null.
    const DENSE_SAFE: bool;

    /// Whether decoding any argument can fail on otherwise legal input.
    const DECODE_FALLIBLE: bool;

    /// How much work filtering saves when the arguments are decoded, all of them together.
    const FILTERED_DECODE_COST: usize;

    /// The argument columns.
    type Args;

    /// What the argument columns denote.
    type Batch;

    /// The decoded arguments.
    type Columns;

    /// The decoded rows, as the row loop reads them when no argument is constant.
    type Varying<'a>;

    /// One row of every argument.
    type Elems<'a>;

    /// The arguments that are constant for the batch.
    type ConstElems<'a>;

    spec fn arity() -> nat;

    spec fn batch(args: &Self::Args) -> Self::Batch;

    spec fn wf(batch: Self::Batch) -> bool;

    /// Whether every column has `row_count` rows.
    spec fn lens_match(batch: Self::Batch, row_count: nat) -> bool;

    /// Whether row `i` is null in no argument.
    spec fn valid_at(batch: Self::Batch, i: int) -> bool;

    /// Whether every argument stores a payload at row `i`, be the row null or not.
    spec fn stored_at(batch: Self::Batch, i: int) -> bool;

    /// The types of the columns.
    spec fn dtypes(batch: Self::Batch) -> Seq<DTypeModel>;

    /// Why the elements cannot be read from columns of these types.
    spec fn rejection(dtypes: Seq<DTypeModel>) -> Option<ErrorModel>;

    /// Why the columns cannot be decoded.
    spec fn failure(batch: Self::Batch) -> Option<ErrorModel>;

    /// Whether the columns can be decoded without reading behind nulls, or why that fails.
    spec fn tolerant(batch: Self::Batch) -> Result<bool, ErrorModel>;

    /// Whether every argument that varies decodes into `row_count` rows.
    spec fn decoded_lens(batch: Self::Batch, row_count: nat) -> bool;

    /// Whether some argument is a null constant.
    spec fn null_constant(batch: Self::Batch) -> bool;

    /// Whether every argument holds one value in every row.
    spec fn constant(batch: Self::Batch) -> bool;

    /// Only the rows set in `bits`.
    spec fn filter(batch: Self::Batch, bits: Seq<bool>) -> Self::Batch;

    /// The row that stands for a batch of constants.
    spec fn constant_row(batch: Self::Batch) -> Self::Batch;

    /// What row `i` is read as.
    spec fn elems<'a>(batch: &'a Self::Batch, i: int) -> Self::Elems<'a>;

    /// What the constant arguments are read as.
    spec fn consts<'a>(batch: &'a Self::Batch) -> Self::ConstElems<'a>;

    /// Whether `columns` is what the batch decodes into.
    spec fn decoded(batch: Self::Batch, columns: &Self::Columns) -> bool;

    /// Whether every decoded argument addresses `row_count` rows.
    spec fn addresses(columns: &Self::Columns, row_count: nat) -> bool;

    /// Whether decoded row `i` may be read.
    spec fn readable(columns: &Self::Columns, i: int) -> bool;

    /// What decoded row `i` is read as.
    spec fn elems_at<'a>(columns: &'a Self::Columns, i: int) -> Self::Elems<'a>;

    /// Whether the decoded constants may be read.
    spec fn consts_readable(columns: &Self::Columns) -> bool;

    /// What the decoded constants are read as.
    spec fn consts_at<'a>(columns: &'a Self::Columns) -> Self::ConstElems<'a>;

    /// Whether no decoded argument is constant.
    spec fn varies(columns: &Self::Columns) -> bool;

    /// The columns that a varying view reads.
    spec fn viewed<'a>(varying: &Self::Varying<'a>) -> Self::Columns;

    /// Where a decoded batch may be read, and what it reads as.
    proof fn lemma_decoded(batch: Self::Batch, columns: &Self::Columns, row_count: nat)
        requires
            Self::wf(batch),
            Self::lens_match(batch, row_count),
            Self::decoded(batch, columns),
        ensures
            Self::addresses(columns, row_count) == Self::decoded_lens(batch, row_count),
            Self::consts_readable(columns),
            Self::consts_at(columns) == Self::consts(&batch),
            forall|i: int|
                0 <= i < row_count && Self::addresses(columns, row_count) && (Self::DENSE_SAFE
                    || Self::valid_at(batch, i)) ==> #[trigger] Self::readable(columns, i),
            forall|i: int|
                0 <= i < row_count && Self::addresses(columns, row_count) && (Self::valid_at(
                    batch,
                    i,
                ) || Self::DENSE_SAFE && Self::stored_at(batch, i)) ==> #[trigger] Self::elems_at(
                    columns,
                    i,
                ) == Self::elems(&batch, i),
    ;

    /// Filtering keeps the set rows as they are.
    proof fn lemma_filter(batch: Self::Batch, bits: Seq<bool>)
        requires
            Self::wf(batch),
            Self::lens_match(batch, bits.len()),
        ensures
            Self::wf(Self::filter(batch, bits)),
            Self::lens_match(Self::filter(batch, bits), set_count(bits)),
            Self::dtypes(Self::filter(batch, bits)) == Self::dtypes(batch),
            set_count(bits) > 0 ==> Self::consts(&Self::filter(batch, bits)) == Self::consts(
                &batch,
            ),
            forall|i: int|
                0 <= i < bits.len() && bits[i] ==> {
                    &&& #[trigger] Self::valid_at(Self::filter(batch, bits), rank(bits, i) as int)
                        == Self::valid_at(batch, i)
                    &&& Self::elems(&Self::filter(batch, bits), rank(bits, i) as int)
                        == Self::elems(&batch, i)
                },
    ;

    /// A batch of constants repeats one row, which is not null.
    proof fn lemma_constant_row(batch: Self::Batch, row_count: nat)
        requires
            Self::wf(batch),
            Self::lens_match(batch, row_count),
            Self::constant(batch),
        ensures
            Self::wf(Self::constant_row(batch)),
            Self::lens_match(Self::constant_row(batch), 1),
            Self::dtypes(Self::constant_row(batch)) == Self::dtypes(batch),
            Self::consts(&Self::constant_row(batch)) == Self::consts(&batch),
            Self::valid_at(Self::constant_row(batch), 0),
            forall|i: int|
                0 <= i < row_count ==> {
                    &&& #[trigger] Self::valid_at(batch, i)
                    &&& Self::elems(&batch, i) == Self::elems(&Self::constant_row(batch), 0)
                },
    ;

    /// Only a nullable column holds a null, and a null constant makes every row null.
    proof fn lemma_nullable(batch: Self::Batch, row_count: nat)
        requires
            Self::wf(batch),
            Self::lens_match(batch, row_count),
        ensures
            Self::null_constant(batch) ==> any_nullable(Self::dtypes(batch)),
            forall|i: int|
                0 <= i < row_count && !#[trigger] Self::valid_at(batch, i) ==> any_nullable(
                    Self::dtypes(batch),
                ),
            Self::null_constant(batch) ==> forall|i: int|
                0 <= i < row_count ==> !#[trigger] Self::valid_at(batch, i),
    ;

    /// Whether `count` columns are one for each element.
    fn takes(count: usize) -> (result: bool)
        ensures
            result == (count == Self::arity()),
    ;

    /// Reject columns that the elements cannot be read from, starting at argument `at`.
    fn validate_from(dtypes: &[DType], at: usize) -> (result: Result<(), Error>)
        requires
            at + Self::arity() == dtypes@.len(),
        ensures
            match result {
                Ok(_) => Self::rejection(models(dtypes@).skip(at as int)) is None,
                Err(error) => Self::rejection(models(dtypes@).skip(at as int)) == Some(error@),
            },
    ;

    /// Append the types of the columns to `dtypes`.
    fn push_dtypes(args: &Self::Args, dtypes: &mut Vec<DType>)
        ensures
            models(final(dtypes)@) == models(old(dtypes)@) + Self::dtypes(Self::batch(args)),
    ;

    /// Whether every column has `row_count` rows.
    fn args_match(args: &Self::Args, row_count: usize) -> (result: bool)
        ensures
            Self::wf(Self::batch(args)),
            result == Self::lens_match(Self::batch(args), row_count as nat),
    ;

    /// Whether some argument is a null constant.
    fn any_null_constant(args: &Self::Args) -> (result: bool)
        ensures
            result == Self::null_constant(Self::batch(args)),
    ;

    /// Whether every argument holds one value in every row.
    fn all_constant(args: &Self::Args) -> (result: bool)
        ensures
            result == Self::constant(Self::batch(args)),
    ;

    /// The rows that are null in no argument.
    fn validity(args: &Self::Args, row_count: usize) -> (mask: Mask)
        requires
            Self::lens_match(Self::batch(args), row_count as nat),
        ensures
            Self::wf(Self::batch(args)),
            mask@.len() == row_count,
            forall|i: int|
                0 <= i < row_count ==> #[trigger] mask@[i] == Self::valid_at(Self::batch(args), i),
    ;

    /// The columns over only the rows set in `mask`.
    fn filter_args(args: &Self::Args, mask: &Mask) -> (kept: Self::Args)
        requires
            Self::lens_match(Self::batch(args), mask@.len()),
        ensures
            Self::batch(&kept) == Self::filter(Self::batch(args), mask@),
    ;

    /// One row of a batch of constants.
    fn constant_args(args: &Self::Args) -> (row: Self::Args)
        requires
            Self::constant(Self::batch(args)),
        ensures
            Self::batch(&row) == Self::constant_row(Self::batch(args)),
    ;

    /// Decode every column, once per batch.
    fn decode(args: &Self::Args) -> (result: Result<Self::Columns, Error>)
        requires
            Self::rejection(Self::dtypes(Self::batch(args))) is None,
        ensures
            match result {
                Ok(columns) => {
                    &&& Self::failure(Self::batch(args)) is None
                    &&& Self::wf(Self::batch(args))
                    &&& Self::decoded(Self::batch(args), &columns)
                },
                Err(error) => Self::failure(Self::batch(args)) == Some(error@),
            },
    ;

    /// Decode every column without reading behind nulls, or decline.
    fn decode_null_tolerant(args: &Self::Args) -> (result: Result<Option<Self::Columns>, Error>)
        requires
            Self::rejection(Self::dtypes(Self::batch(args))) is None,
        ensures
            match result {
                Ok(Some(columns)) => {
                    &&& Self::tolerant(Self::batch(args)) == Ok::<bool, ErrorModel>(true)
                    &&& Self::wf(Self::batch(args))
                    &&& Self::decoded(Self::batch(args), &columns)
                },
                Ok(None) => Self::tolerant(Self::batch(args)) == Ok::<bool, ErrorModel>(false),
                Err(error) => Self::tolerant(Self::batch(args)) == Err::<bool, ErrorModel>(error@),
            },
    ;

    /// The constant arguments of a decoded batch.
    fn constants<'a>(columns: &'a Self::Columns) -> (consts: Self::ConstElems<'a>)
        requires
            Self::consts_readable(columns),
        ensures
            consts == Self::consts_at(columns),
    ;

    /// A view of the decoded rows, where no argument is constant.
    fn varying<'a>(columns: &'a Self::Columns) -> (varying: Option<Self::Varying<'a>>)
        ensures
            match varying {
                Some(varying) => Self::varies(columns) && Self::viewed(&varying) == *columns,
                None => !Self::varies(columns),
            },
    ;

    /// Whether a varying view has exactly `row_count` rows.
    fn varying_len_matches<'a>(varying: &Self::Varying<'a>, row_count: usize) -> (result: bool)
        ensures
            result == Self::addresses(&Self::viewed(varying), row_count as nat),
    ;

    /// Whether every decoded argument addresses exactly `row_count` rows.
    fn decoded_lens_match(columns: &Self::Columns, row_count: usize) -> (result: bool)
        ensures
            result == Self::addresses(columns, row_count as nat),
    ;

    /// Read one row of a varying view.
    fn get_varying<'a>(varying: &Self::Varying<'a>, index: usize) -> (elems: Self::Elems<'a>) where
        Self: 'a,

        requires
            Self::readable(&Self::viewed(varying), index as int),
        ensures
            elems == Self::elems_at(&Self::viewed(varying), index as int),
    ;

    /// Read one row.
    fn get<'a>(columns: &'a Self::Columns, index: usize) -> (elems: Self::Elems<'a>)
        requires
            Self::readable(columns, index as int),
        ensures
            elems == Self::elems_at(columns, index as int),
    ;
}

impl ElementTuple for () {
    const ARITY: usize = 0;

    const DENSE_SAFE: bool = true;

    const DECODE_FALLIBLE: bool = false;

    const FILTERED_DECODE_COST: usize = 0;

    type Args = ();

    type Batch = ();

    type Columns = ();

    type Varying<'a> = ();

    type Elems<'a> = ();

    type ConstElems<'a> = ();

    open spec fn arity() -> nat {
        0
    }

    open spec fn batch(args: &()) -> () {
        ()
    }

    open spec fn wf(batch: ()) -> bool {
        true
    }

    open spec fn lens_match(batch: (), row_count: nat) -> bool {
        true
    }

    open spec fn valid_at(batch: (), i: int) -> bool {
        true
    }

    open spec fn stored_at(batch: (), i: int) -> bool {
        true
    }

    open spec fn dtypes(batch: ()) -> Seq<DTypeModel> {
        Seq::empty()
    }

    open spec fn rejection(dtypes: Seq<DTypeModel>) -> Option<ErrorModel> {
        None
    }

    open spec fn failure(batch: ()) -> Option<ErrorModel> {
        None
    }

    open spec fn tolerant(batch: ()) -> Result<bool, ErrorModel> {
        Ok(true)
    }

    open spec fn decoded_lens(batch: (), row_count: nat) -> bool {
        true
    }

    open spec fn null_constant(batch: ()) -> bool {
        false
    }

    open spec fn constant(batch: ()) -> bool {
        true
    }

    open spec fn filter(batch: (), bits: Seq<bool>) -> () {
        ()
    }

    open spec fn constant_row(batch: ()) -> () {
        ()
    }

    open spec fn elems<'a>(batch: &'a (), i: int) -> () {
        ()
    }

    open spec fn consts<'a>(batch: &'a ()) -> () {
        ()
    }

    open spec fn decoded(batch: (), columns: &()) -> bool {
        true
    }

    open spec fn addresses(columns: &(), row_count: nat) -> bool {
        true
    }

    open spec fn readable(columns: &(), i: int) -> bool {
        true
    }

    open spec fn elems_at<'a>(columns: &'a (), i: int) -> () {
        ()
    }

    open spec fn consts_readable(columns: &()) -> bool {
        true
    }

    open spec fn consts_at<'a>(columns: &'a ()) -> () {
        ()
    }

    open spec fn varies(columns: &()) -> bool {
        true
    }

    open spec fn viewed<'a>(varying: &()) -> () {
        ()
    }

    proof fn lemma_decoded(batch: (), columns: &(), row_count: nat) {
    }

    proof fn lemma_filter(batch: (), bits: Seq<bool>) {
    }

    proof fn lemma_constant_row(batch: (), row_count: nat) {
    }

    proof fn lemma_nullable(batch: (), row_count: nat) {
    }

    fn takes(count: usize) -> (result: bool) {
        count == 0
    }

    fn validate_from(dtypes: &[DType], at: usize) -> (result: Result<(), Error>) {
        Ok(())
    }

    fn push_dtypes(args: &(), dtypes: &mut Vec<DType>) {
        assert(models(dtypes@) + Seq::empty() =~= models(dtypes@));
    }

    fn args_match(args: &(), row_count: usize) -> (result: bool) {
        true
    }

    fn any_null_constant(args: &()) -> (result: bool) {
        false
    }

    fn all_constant(args: &()) -> (result: bool) {
        true
    }

    fn validity(args: &(), row_count: usize) -> (mask: Mask) {
        Mask::new_true(row_count)
    }

    fn filter_args(args: &(), mask: &Mask) -> (kept: ()) {
    }

    fn constant_args(args: &()) -> (row: ()) {
    }

    fn decode(args: &()) -> (result: Result<(), Error>) {
        Ok(())
    }

    fn decode_null_tolerant(args: &()) -> (result: Result<Option<()>, Error>) {
        Ok(Some(()))
    }

    fn constants<'a>(columns: &'a ()) -> (consts: ()) {
    }

    fn varying<'a>(columns: &'a ()) -> (varying: Option<()>) {
        Some(())
    }

    fn varying_len_matches<'a>(varying: &(), row_count: usize) -> (result: bool) {
        true
    }

    fn decoded_lens_match(columns: &(), row_count: usize) -> (result: bool) {
        true
    }

    fn get_varying<'a>(varying: &(), index: usize) -> (elems: ()) where Self: 'a {
    }

    fn get<'a>(columns: &'a (), index: usize) -> (elems: ()) {
    }
}

impl<E: InputElement, R: ElementTuple> Sealed for (E, R) {

}

impl<E: InputElement, R: ElementTuple> ElementTuple for (E, R) {
    const ARITY: usize = 1 + R::ARITY;

    const DENSE_SAFE: bool = E::DENSE_SAFE && R::DENSE_SAFE;

    const DECODE_FALLIBLE: bool = E::DECODE_FALLIBLE || R::DECODE_FALLIBLE;

    const FILTERED_DECODE_COST: usize = E::FILTERED_DECODE_COST + R::FILTERED_DECODE_COST;

    type Args = (Array<E::Value>, R::Args);

    type Batch = (ArrayModel<E::Value>, R::Batch);

    type Columns = (ArgColumn<E>, R::Columns);

    type Varying<'a> = (E::Varying<'a>, R::Varying<'a>);

    type Elems<'a> = (E::Elem<'a>, R::Elems<'a>);

    type ConstElems<'a> = (Option<E::Elem<'a>>, R::ConstElems<'a>);

    open spec fn arity() -> nat {
        1 + R::arity()
    }

    open spec fn batch(args: &Self::Args) -> Self::Batch {
        (args.0@, R::batch(&args.1))
    }

    open spec fn wf(batch: Self::Batch) -> bool {
        batch.0.wf() && R::wf(batch.1)
    }

    open spec fn lens_match(batch: Self::Batch, row_count: nat) -> bool {
        batch.0.len() == row_count && R::lens_match(batch.1, row_count)
    }

    open spec fn valid_at(batch: Self::Batch, i: int) -> bool {
        batch.0.valid[i] && R::valid_at(batch.1, i)
    }

    open spec fn stored_at(batch: Self::Batch, i: int) -> bool {
        batch.0.payload[i] is Some && R::stored_at(batch.1, i)
    }

    open spec fn dtypes(batch: Self::Batch) -> Seq<DTypeModel> {
        seq![batch.0.dtype] + R::dtypes(batch.1)
    }

    open spec fn rejection(dtypes: Seq<DTypeModel>) -> Option<ErrorModel> {
        if E::rejection(dtypes[0]) is Some {
            E::rejection(dtypes[0])
        } else {
            R::rejection(dtypes.skip(1))
        }
    }

    open spec fn failure(batch: Self::Batch) -> Option<ErrorModel> {
        if argument_failure::<E>(batch.0) is Some {
            argument_failure::<E>(batch.0)
        } else {
            R::failure(batch.1)
        }
    }

    open spec fn tolerant(batch: Self::Batch) -> Result<bool, ErrorModel> {
        if argument_tolerant::<E>(batch.0) == Ok::<bool, ErrorModel>(true) {
            R::tolerant(batch.1)
        } else {
            argument_tolerant::<E>(batch.0)
        }
    }

    open spec fn decoded_lens(batch: Self::Batch, row_count: nat) -> bool {
        (batch_constant(batch.0) || E::decoded_len(batch.0) == row_count) && R::decoded_lens(
            batch.1,
            row_count,
        )
    }

    open spec fn null_constant(batch: Self::Batch) -> bool {
        batch.0.null_constant() || R::null_constant(batch.1)
    }

    open spec fn constant(batch: Self::Batch) -> bool {
        plain_constant(batch.0) && R::constant(batch.1)
    }

    open spec fn filter(batch: Self::Batch, bits: Seq<bool>) -> Self::Batch {
        (batch.0.filter(bits), R::filter(batch.1, bits))
    }

    open spec fn constant_row(batch: Self::Batch) -> Self::Batch {
        (constant_row(batch.0), R::constant_row(batch.1))
    }

    open spec fn elems<'a>(batch: &'a Self::Batch, i: int) -> Self::Elems<'a> {
        (E::elem_of(&argument_value(batch.0, i)), R::elems(&batch.1, i))
    }

    open spec fn consts<'a>(batch: &'a Self::Batch) -> Self::ConstElems<'a> {
        (
            if batch_constant(batch.0) {
                Some(E::elem_of(&argument_value(batch.0, 0)))
            } else {
                None
            },
            R::consts(&batch.1),
        )
    }

    open spec fn decoded(batch: Self::Batch, columns: &Self::Columns) -> bool {
        columns.0.decoded_from(batch.0) && R::decoded(batch.1, &columns.1)
    }

    open spec fn addresses(columns: &Self::Columns, row_count: nat) -> bool {
        columns.0.addresses(row_count) && R::addresses(&columns.1, row_count)
    }

    open spec fn readable(columns: &Self::Columns, i: int) -> bool {
        columns.0.readable(i) && R::readable(&columns.1, i)
    }

    open spec fn elems_at<'a>(columns: &'a Self::Columns, i: int) -> Self::Elems<'a> {
        (E::elem_at(&columns.0.rows(), columns.0.index(i)), R::elems_at(&columns.1, i))
    }

    open spec fn consts_readable(columns: &Self::Columns) -> bool {
        (columns.0.repeats() ==> columns.0.readable(0)) && R::consts_readable(&columns.1)
    }

    open spec fn consts_at<'a>(columns: &'a Self::Columns) -> Self::ConstElems<'a> {
        (
            if columns.0.repeats() {
                Some(E::elem_at(&columns.0.rows(), 0))
            } else {
                None
            },
            R::consts_at(&columns.1),
        )
    }

    open spec fn varies(columns: &Self::Columns) -> bool {
        !columns.0.repeats() && R::varies(&columns.1)
    }

    closed spec fn viewed<'a>(varying: &Self::Varying<'a>) -> Self::Columns {
        (ArgColumn { column: E::viewed(&varying.0), constant: false }, R::viewed(&varying.1))
    }

    proof fn lemma_decoded(batch: Self::Batch, columns: &Self::Columns, row_count: nat) {
        R::lemma_decoded(batch.1, &columns.1, row_count);
        let column = columns.0;
        let array = batch.0;
        let input = decode_input(array);
        if column.repeats() {
            assert(may_read::<E>(input, 0));
            assert(E::readable(&column.rows(), 0));
        }
        assert forall|i: int|
            0 <= i < row_count && Self::addresses(columns, row_count) && (Self::DENSE_SAFE
                || Self::valid_at(batch, i)) implies #[trigger] Self::readable(columns, i) by {
            assert(may_read::<E>(input, column.index(i)));
            assert(E::readable(&column.rows(), column.index(i)));
            assert(R::readable(&columns.1, i));
        }
        assert forall|i: int|
            0 <= i < row_count && Self::addresses(columns, row_count) && (Self::valid_at(
                batch,
                i,
            ) || Self::DENSE_SAFE && Self::stored_at(batch, i)) implies #[trigger] Self::elems_at(
            columns,
            i,
        ) == Self::elems(&batch, i) by {
            assert(may_read::<E>(input, column.index(i)));
            assert(E::readable(&column.rows(), column.index(i)));
            assert(R::elems_at(&columns.1, i) == R::elems(&batch.1, i));
            assert(input.payload[column.index(i)] == Some(argument_value(array, i)));
        }
    }

    proof fn lemma_filter(batch: Self::Batch, bits: Seq<bool>) {
        R::lemma_filter(batch.1, bits);
        lemma_filter_wf(batch.0, bits);
        let kept = Self::filter(batch, bits);
        assert forall|i: int| 0 <= i < bits.len() && bits[i] implies {
            &&& #[trigger] Self::valid_at(kept, rank(bits, i) as int) == Self::valid_at(batch, i)
            &&& Self::elems(&kept, rank(bits, i) as int) == Self::elems(&batch, i)
        } by {
            lemma_filtered_at(batch.0.payload, bits, i);
            lemma_filtered_at(batch.0.valid, bits, i);
            assert(R::valid_at(kept.1, rank(bits, i) as int) == R::valid_at(batch.1, i));
        }
    }

    proof fn lemma_constant_row(batch: Self::Batch, row_count: nat) {
        R::lemma_constant_row(batch.1, row_count);
        let row = Self::constant_row(batch);
        assert(batch_constant(row.0));
        assert forall|i: int| 0 <= i < row_count implies {
            &&& #[trigger] Self::valid_at(batch, i)
            &&& Self::elems(&batch, i) == Self::elems(&row, 0)
        } by {
            assert(R::valid_at(batch.1, i));
            assert(batch.0.valid[i]);
            assert(argument_value(batch.0, i) == argument_value(row.0, 0));
        }
    }

    proof fn lemma_nullable(batch: Self::Batch, row_count: nat) {
        R::lemma_nullable(batch.1, row_count);
        let dtypes = Self::dtypes(batch);
        let rest = R::dtypes(batch.1);
        if batch.0.dtype.nullable() {
            assert(dtypes[0].nullable());
        } else if any_nullable(rest) {
            let k = choose|k: int| 0 <= k < rest.len() && (#[trigger] rest[k]).nullable();
            assert(dtypes[k + 1] == rest[k]);
        }
        assert forall|i: int|
            0 <= i < row_count && !#[trigger] Self::valid_at(batch, i) implies any_nullable(
            dtypes,
        ) by {
            if batch.0.valid[i] {
                assert(!R::valid_at(batch.1, i));
            }
        }
        assert forall|i: int| Self::null_constant(batch) && 0 <= i < row_count implies !#[trigger]
        Self::valid_at(batch, i) by {
            if R::null_constant(batch.1) {
                assert(!R::valid_at(batch.1, i));
            }
        }
    }

    fn takes(count: usize) -> (result: bool) {
        count > 0 && R::takes(count - 1)
    }

    fn validate_from(dtypes: &[DType], at: usize) -> (result: Result<(), Error>) {
        proof {
            let here = models(dtypes@).skip(at as int);
            assert(here[0] == dtypes@[at as int]@);
            assert(here.skip(1) =~= models(dtypes@).skip(at + 1));
        }
        match E::validate(&dtypes[at]) {
            Ok(_) => R::validate_from(dtypes, at + 1),
            Err(error) => Err(error),
        }
    }

    fn push_dtypes(args: &Self::Args, dtypes: &mut Vec<DType>) {
        let ghost before = models(dtypes@);
        let dtype = args.0.dtype().clone();
        dtypes.push(dtype);
        assert(models(dtypes@) =~= before.push(args.0@.dtype));
        R::push_dtypes(&args.1, dtypes);
        assert(before.push(args.0@.dtype) + R::dtypes(R::batch(&args.1)) =~= before + Self::dtypes(
            Self::batch(args),
        ));
    }

    fn args_match(args: &Self::Args, row_count: usize) -> (result: bool) {
        let array = &args.0;
        proof {
            use_type_invariant(array);
            Array::lemma_wf(*array);
        }
        let rest = R::args_match(&args.1, row_count);
        array.len() == row_count && rest
    }

    fn any_null_constant(args: &Self::Args) -> (result: bool) {
        args.0.is_null_constant() || R::any_null_constant(&args.1)
    }

    fn all_constant(args: &Self::Args) -> (result: bool) {
        ArgColumn::<E>::holds_one_value(&args.0) && args.0.validity().all_true() && R::all_constant(
            &args.1,
        )
    }

    fn validity(args: &Self::Args, row_count: usize) -> (mask: Mask) {
        proof {
            use_type_invariant(&args.0);
            Array::lemma_wf(args.0);
        }
        let rest = R::validity(&args.1, row_count);
        args.0.validity().and(&rest)
    }

    fn filter_args(args: &Self::Args, mask: &Mask) -> (kept: Self::Args) {
        (args.0.filter(mask), R::filter_args(&args.1, mask))
    }

    fn constant_args(args: &Self::Args) -> (row: Self::Args) {
        (args.0.constant_row(), R::constant_args(&args.1))
    }

    fn decode(args: &Self::Args) -> (result: Result<Self::Columns, Error>) {
        proof {
            let dtypes = Self::dtypes(Self::batch(args));
            assert(dtypes.skip(1) =~= R::dtypes(R::batch(&args.1)));
            use_type_invariant(&args.0);
            Array::lemma_wf(args.0);
        }
        let column = match ArgColumn::decode(&args.0) {
            Ok(column) => column,
            Err(error) => return Err(error),
        };
        match R::decode(&args.1) {
            Ok(rest) => Ok((column, rest)),
            Err(error) => Err(error),
        }
    }

    fn decode_null_tolerant(args: &Self::Args) -> (result: Result<Option<Self::Columns>, Error>) {
        proof {
            let dtypes = Self::dtypes(Self::batch(args));
            assert(dtypes.skip(1) =~= R::dtypes(R::batch(&args.1)));
            use_type_invariant(&args.0);
            Array::lemma_wf(args.0);
        }
        let column = match ArgColumn::decode_null_tolerant(&args.0) {
            Ok(Some(column)) => column,
            Ok(None) => return Ok(None),
            Err(error) => return Err(error),
        };
        match R::decode_null_tolerant(&args.1) {
            Ok(Some(rest)) => Ok(Some((column, rest))),
            Ok(None) => Ok(None),
            Err(error) => Err(error),
        }
    }

    fn constants<'a>(columns: &'a Self::Columns) -> (consts: Self::ConstElems<'a>) {
        let first = if columns.0.constant {
            Some(columns.0.get(0))
        } else {
            None
        };
        (first, R::constants(&columns.1))
    }

    fn varying<'a>(columns: &'a Self::Columns) -> (varying: Option<Self::Varying<'a>>) {
        if columns.0.constant {
            return None;
        }
        match R::varying(&columns.1) {
            Some(rest) => Some((E::varying(&columns.0.column), rest)),
            None => None,
        }
    }

    fn varying_len_matches<'a>(varying: &Self::Varying<'a>, row_count: usize) -> (result: bool) {
        E::varying_len(&varying.0) == row_count && R::varying_len_matches(&varying.1, row_count)
    }

    fn decoded_lens_match(columns: &Self::Columns, row_count: usize) -> (result: bool) {
        (columns.0.constant || E::varying_len(&E::varying(&columns.0.column)) == row_count)
            && R::decoded_lens_match(&columns.1, row_count)
    }

    fn get_varying<'a>(varying: &Self::Varying<'a>, index: usize) -> (elems: Self::Elems<'a>) where
        Self: 'a,
     {
        (E::get_varying(&varying.0, index), R::get_varying(&varying.1, index))
    }

    fn get<'a>(columns: &'a Self::Columns, index: usize) -> (elems: Self::Elems<'a>) {
        (columns.0.get(index), R::get(&columns.1, index))
    }
}

/// What no arguments claim together.
pub proof fn no_argument_claims()
    ensures
        <() as ElementTuple>::ARITY == 0,
        <() as ElementTuple>::DENSE_SAFE,
        !<() as ElementTuple>::DECODE_FALLIBLE,
        <() as ElementTuple>::FILTERED_DECODE_COST == 0,
{
}

/// What arguments claim together: they may be read behind nulls where each may, decoding them can
/// fail where any can, and their costs add up.
pub proof fn argument_claims<E: InputElement, R: ElementTuple>()
    ensures
        R::ARITY < usize::MAX ==> <(E, R) as ElementTuple>::ARITY == 1 + R::ARITY,
        <(E, R) as ElementTuple>::DENSE_SAFE == (E::DENSE_SAFE && R::DENSE_SAFE),
        <(E, R) as ElementTuple>::DECODE_FALLIBLE == (E::DECODE_FALLIBLE || R::DECODE_FALLIBLE),
        E::FILTERED_DECODE_COST + R::FILTERED_DECODE_COST <= usize::MAX ==> <(
            E,
            R,
        ) as ElementTuple>::FILTERED_DECODE_COST == E::FILTERED_DECODE_COST
            + R::FILTERED_DECODE_COST,
{
}

/// What a batch with one more argument is, given the rest: as many rows as both have, null where
/// either is, its types in front of theirs; a batch of constants where both are, and one that a
/// null constant makes null where either does.
pub proof fn arguments_are_taken_together<E: InputElement, R: ElementTuple>(
    first: ArrayModel<E::Value>,
    rest: R::Batch,
    row_count: nat,
    i: int,
)
    requires
        first.wf(),
        first.len() == row_count,
        0 <= i < row_count,
    ensures
        <(E, R) as ElementTuple>::arity() == 1 + R::arity(),
        <(E, R) as ElementTuple>::wf((first, rest)) == R::wf(rest),
        <(E, R) as ElementTuple>::lens_match((first, rest), row_count) == R::lens_match(
            rest,
            row_count,
        ),
        <(E, R) as ElementTuple>::valid_at((first, rest), i) <==> first.valid[i] && R::valid_at(
            rest,
            i,
        ),
        <(E, R) as ElementTuple>::stored_at((first, rest), i) <==> first.payload[i] is Some
            && R::stored_at(rest, i),
        <(E, R) as ElementTuple>::dtypes((first, rest)) == seq![first.dtype] + R::dtypes(rest),
        <(E, R) as ElementTuple>::null_constant((first, rest)) <==> first.constant == Some(
            None::<E::Value>,
        ) || R::null_constant(rest),
        <(E, R) as ElementTuple>::constant((first, rest)) <==> first.constant is Some
            && first.constant->0 is Some && (forall|k: int| 0 <= k < row_count ==> first.valid[k])
            && R::constant(rest),
{
    if first.constant is Some && first.constant->0 is Some && (forall|k: int|
        0 <= k < row_count ==> first.valid[k]) {
        assert(all_set(first.valid));
    }
}

/// A row of a batch is read as the elements of the values in it, one for each argument, whether the
/// column is stored as one value or not. What holds one value throughout is handed to the
/// preparation as the element of that value, and nothing else is.
pub proof fn arguments_are_read_from_their_values<E: InputElement, R: ElementTuple>(
    first: ArrayModel<E::Value>,
    rest: R::Batch,
    i: int,
)
    requires
        first.wf(),
        0 <= i < first.len(),
        first.payload[i] is Some,
    ensures
        <(E, R) as ElementTuple>::elems(&(first, rest), i) == (
            E::elem_of(&first.payload[i]->0),
            R::elems(&rest, i),
        ),
        <(E, R) as ElementTuple>::consts(&(first, rest)) == (
            match first.constant {
                Some(Some(value)) => Some(E::elem_of(&value)),
                _ => None,
            },
            R::consts(&rest),
        ),
{
}

/// Columns are refused with what the first argument that cannot be read from its column says.
pub proof fn the_first_refused_column_is_named<E: InputElement, R: ElementTuple>(
    dtypes: Seq<DTypeModel>,
)
    requires
        dtypes.len() > 0,
    ensures
        <() as ElementTuple>::rejection(dtypes) is None,
        E::rejection(dtypes[0]) is Some ==> <(E, R) as ElementTuple>::rejection(dtypes)
            == E::rejection(dtypes[0]),
        E::rejection(dtypes[0]) is None ==> <(E, R) as ElementTuple>::rejection(dtypes)
            == R::rejection(dtypes.skip(1)),
{
}

/// What is decoded of an argument: its one value where it is a constant that has a row, and all of
/// it otherwise. It fails where that does, and nothing but the first failure is said.
pub proof fn constants_are_decoded_as_one_row<E: InputElement, R: ElementTuple>(
    first: ArrayModel<E::Value>,
    rest: R::Batch,
    value: E::Value,
)
    ensures
        first.len() > 0 && first.constant == Some(Some(value)) ==> {
            let row = repeated(first.dtype, value, 1);
            &&& E::decode_failure(row) is Some ==> <(E, R) as ElementTuple>::failure((first, rest))
                == E::decode_failure(row)
            &&& E::decode_failure(row) is None && E::decoded_len(row) == 1 ==> <(
                E,
                R,
            ) as ElementTuple>::failure((first, rest)) == R::failure(rest)
            &&& E::decode_failure(row) is None && E::decoded_len(row) != 1 ==> <(
                E,
                R,
            ) as ElementTuple>::failure((first, rest)) == Some(
                ErrorModel::InputRows { row_count: 1 },
            )
        },
        first.constant is None || first.constant == Some(None::<E::Value>) ==> {
            &&& E::decode_failure(first) is Some ==> <(E, R) as ElementTuple>::failure(
                (first, rest),
            ) == E::decode_failure(first)
            &&& E::decode_failure(first) is None ==> <(E, R) as ElementTuple>::failure(
                (first, rest),
            ) == R::failure(rest)
        },
{
}

/// No arguments are never null, and read as nothing.
pub proof fn no_arguments_are_never_null(i: int)
    ensures
        <() as ElementTuple>::arity() == 0,
        <() as ElementTuple>::valid_at((), i),
        !<() as ElementTuple>::null_constant(()),
        <() as ElementTuple>::dtypes(()).len() == 0,
        <() as ElementTuple>::failure(()) is None,
        <() as ElementTuple>::tolerant(()) == Ok::<bool, ErrorModel>(true),
        <() as ElementTuple>::constant(()),
{
}

/// Whether rows of a batch can be skipped to, given the rest: not where the first column, if it is
/// no constant, cannot be decoded without reading behind its nulls. Where it can be, or is a
/// constant, its failure to decode is that of the batch, and otherwise the rest decides. Nothing
/// stands in the way of skipping a constant that decodes.
pub proof fn constants_can_always_be_skipped_to<E: InputElement, R: ElementTuple>(
    first: ArrayModel<E::Value>,
    rest: R::Batch,
    value: E::Value,
)
    ensures
        first.len() > 0 && first.constant == Some(Some(value)) ==> {
            let row = repeated(first.dtype, value, 1);
            let tolerant = <(E, R) as ElementTuple>::tolerant((first, rest));
            &&& E::decode_failure(row) matches Some(error) ==> tolerant == Err::<bool, ErrorModel>(
                error,
            )
            &&& E::decode_failure(row) is None && E::decoded_len(row) == 1 ==> tolerant
                == R::tolerant(rest)
        },
        first.constant is None || first.constant == Some(None::<E::Value>) ==> {
            let tolerant = <(E, R) as ElementTuple>::tolerant((first, rest));
            &&& !E::null_tolerant(first) ==> tolerant == Ok::<bool, ErrorModel>(false)
            &&& E::null_tolerant(first) ==> (E::decode_failure(first) matches Some(error)
                ==> tolerant == Err::<bool, ErrorModel>(error))
            &&& E::null_tolerant(first) && E::decode_failure(first) is None ==> tolerant
                == R::tolerant(rest)
        },
{
}

/// A batch is filtered column by column, decodes into as many rows as it has where each column that
/// is no constant does, and stands for constants in one row that holds their values.
pub proof fn batches_are_handled_column_by_column<E: InputElement, R: ElementTuple>(
    first: ArrayModel<E::Value>,
    rest: R::Batch,
    bits: Seq<bool>,
    row_count: nat,
    value: E::Value,
)
    ensures
        <(E, R) as ElementTuple>::filter((first, rest), bits) == (
            first.filter(bits),
            R::filter(rest, bits),
        ),
        <(E, R) as ElementTuple>::decoded_lens((first, rest), row_count) <==> {
            &&& first.len() == 0 || first.constant is None || first.constant == Some(
                None::<E::Value>,
            ) ==> E::decoded_len(first) == row_count
            &&& R::decoded_lens(rest, row_count)
        },
        first.constant == Some(Some(value)) ==> {
            let (row, others) = <(E, R) as ElementTuple>::constant_row((first, rest));
            &&& row.dtype == first.dtype
            &&& row.len() == 1
            &&& row.valid[0]
            &&& row.payload[0] == Some(value)
            &&& row.constant == Some(Some(value))
            &&& others == R::constant_row(rest)
        },
{
}

} // verus!
