//! Interleaving columns: each output row is picked from one of several value columns.

use num_traits::AsPrimitive;
use vstd::prelude::*;

use crate::array::{dense, Array, ArrayModel};
use crate::dtype::Nullability;
use crate::error::{Error, ErrorModel};
use crate::mask::Mask;
use crate::row::element::{InputElement, Native};

verus! {

/// `AsPrimitive::as_` from `u8` to `usize` is the `as` cast.
pub assume_specification[ <u8 as AsPrimitive<usize>>::as_ ](selector: u8) -> (position: usize)
    ensures
        position == selector as usize,
;

/// `AsPrimitive::as_` from `u16` to `usize` is the `as` cast.
pub assume_specification[ <u16 as AsPrimitive<usize>>::as_ ](selector: u16) -> (position: usize)
    ensures
        position == selector as usize,
;

/// `AsPrimitive::as_` from `u32` to `usize` is the `as` cast.
pub assume_specification[ <u32 as AsPrimitive<usize>>::as_ ](selector: u32) -> (position: usize)
    ensures
        position == selector as usize,
;

/// `AsPrimitive::as_` from `u64` to `usize` is the `as` cast, which keeps the low bits where
/// `usize` is narrower.
pub assume_specification[ <u64 as AsPrimitive<usize>>::as_ ](selector: u64) -> (position: usize)
    ensures
        position == selector as usize,
;

/// An unsigned integer that selects a value column or a row of one.
pub trait Selector: Copy {
    /// What is selected.
    spec fn at(self) -> usize;

    /// What is selected.
    fn position(self) -> (position: usize)
        ensures
            position == self.at(),
    ;
}

impl Selector for u8 {
    open spec fn at(self) -> usize {
        self as usize
    }

    fn position(self) -> (position: usize)
        ensures
            position as int == self as int,
    {
        self.as_()
    }
}

impl Selector for u16 {
    open spec fn at(self) -> usize {
        self as usize
    }

    fn position(self) -> (position: usize)
        ensures
            position as int == self as int,
    {
        self.as_()
    }
}

impl Selector for u32 {
    open spec fn at(self) -> usize {
        self as usize
    }

    fn position(self) -> (position: usize)
        ensures
            self <= usize::MAX ==> position as int == self as int,
    {
        self.as_()
    }
}

impl Selector for u64 {
    open spec fn at(self) -> usize {
        self as usize
    }

    fn position(self) -> (position: usize)
        ensures
            self <= usize::MAX ==> position as int == self as int,
    {
        self.as_()
    }
}

/// What each of some selectors selects.
pub open spec fn positions<S: Selector>(selectors: Seq<S>) -> Seq<usize> {
    selectors.map_values(|selector: S| selector.at())
}

/// Why row `i` cannot be picked from value columns of these lengths.
pub open spec fn selector_failure(
    lens: Seq<nat>,
    branches: Seq<usize>,
    rows: Seq<usize>,
    i: int,
) -> Option<ErrorModel> {
    if branches[i] >= lens.len() {
        Some(
            ErrorModel::BranchOutOfBounds {
                row: i as nat,
                branch: branches[i] as nat,
                count: lens.len(),
            },
        )
    } else if rows[i] >= lens[branches[i] as int] {
        Some(
            ErrorModel::RowOutOfBounds {
                row: i as nat,
                selected: rows[i] as nat,
                len: lens[branches[i] as int],
            },
        )
    } else {
        None
    }
}

/// Whether every output row can be picked.
pub open spec fn selectable(lens: Seq<nat>, branches: Seq<usize>, rows: Seq<usize>) -> bool {
    &&& branches.len() == rows.len()
    &&& forall|i: int|
        0 <= i < branches.len() ==> #[trigger] selector_failure(lens, branches, rows, i) is None
}

/// Whether `error` is why the selectors are rejected: there are not as many of one kind as of the
/// other, or it is the failure of the first row that cannot be picked.
pub open spec fn rejects_selectors(
    lens: Seq<nat>,
    branches: Seq<usize>,
    rows: Seq<usize>,
    error: ErrorModel,
) -> bool {
    if branches.len() != rows.len() {
        error == (ErrorModel::SelectorRows { branches: branches.len(), rows: rows.len() })
    } else {
        exists|k: int|
            {
                &&& 0 <= k < branches.len()
                &&& #[trigger] selector_failure(lens, branches, rows, k) == Some(error)
                &&& forall|i: int|
                    0 <= i < k ==> #[trigger] selector_failure(lens, branches, rows, i) is None
            }
    }
}

/// The lengths of some buffers.
pub open spec fn lens_of<T>(values: Seq<Vec<T>>) -> Seq<nat> {
    values.map_values(|buffer: Vec<T>| buffer@.len())
}

/// Check that every output row can be picked, and return the number of output rows.
pub fn validate_selectors<T, A: Selector, R: Selector>(
    values: &[Vec<T>],
    branches: &[A],
    rows: &[R],
) -> (result: Result<usize, Error>)
    ensures
        match result {
            Ok(len) => {
                &&& len == branches@.len()
                &&& selectable(lens_of(values@), positions(branches@), positions(rows@))
            },
            Err(error) => rejects_selectors(
                lens_of(values@),
                positions(branches@),
                positions(rows@),
                error@,
            ),
        },
{
    if branches.len() != rows.len() {
        return Err(Error::SelectorRows { branches: branches.len(), rows: rows.len() });
    }
    let len = branches.len();
    let ghost lens = lens_of(values@);
    let ghost from = positions(branches@);
    let ghost at = positions(rows@);
    let mut i: usize = 0;
    while i < len
        invariant
            i <= len,
            len == branches@.len(),
            len == rows@.len(),
            lens == lens_of(values@),
            from == positions(branches@),
            at == positions(rows@),
            forall|j: int| 0 <= j < i ==> #[trigger] selector_failure(lens, from, at, j) is None,
        decreases len - i,
    {
        let branch = branches[i].position();
        let selected = rows[i].position();
        assert(branch == from[i as int] && selected == at[i as int]);
        if branch >= values.len() {
            let error = Error::BranchOutOfBounds { row: i, branch, count: values.len() };
            assert(selector_failure(lens, from, at, i as int) == Some(error@));
            return Err(error);
        }
        assert(lens[branch as int] == values@[branch as int]@.len());
        if selected >= values[branch].len() {
            let error = Error::RowOutOfBounds { row: i, selected, len: values[branch].len() };
            assert(selector_failure(lens, from, at, i as int) == Some(error@));
            return Err(error);
        }
        i += 1;
    }
    Ok(len)
}

/// Pick each output row from the buffer and the row of it that the selectors name.
pub fn gather<T: Copy, A: Selector, R: Selector>(
    values: &[Vec<T>],
    branches: &[A],
    rows: &[R],
) -> (result: Result<Vec<T>, Error>)
    ensures
        match result {
            Ok(output) => {
                &&& selectable(lens_of(values@), positions(branches@), positions(rows@))
                &&& output@.len() == branches@.len()
                &&& forall|i: int|
                    0 <= i < output@.len() ==> #[trigger] output@[i]
                        == values@[branches@[i].at() as int]@[rows@[i].at() as int]
            },
            Err(error) => rejects_selectors(
                lens_of(values@),
                positions(branches@),
                positions(rows@),
                error@,
            ),
        },
{
    let len = match validate_selectors(values, branches, rows) {
        Ok(len) => len,
        Err(error) => return Err(error),
    };
    let mut output: Vec<T> = Vec::with_capacity(len);
    let mut i: usize = 0;
    while i < len
        invariant
            i <= len,
            i == output@.len(),
            len == branches@.len(),
            selectable(lens_of(values@), positions(branches@), positions(rows@)),
            forall|j: int|
                0 <= j < i ==> #[trigger] output@[j]
                    == values@[branches@[j].at() as int]@[rows@[j].at() as int],
        decreases len - i,
    {
        assert(selector_failure(
            lens_of(values@),
            positions(branches@),
            positions(rows@),
            i as int,
        ) is None);
        output.push(values[branches[i].position()][rows[i].position()]);
        i += 1;
    }
    Ok(output)
}

/// A column of selectors, of any unsigned width.
#[derive(Debug)]
pub enum Selectors {
    U8(Vec<u8>),
    U16(Vec<u16>),
    U32(Vec<u32>),
    U64(Vec<u64>),
}

impl View for Selectors {
    type V = Seq<usize>;

    open spec fn view(&self) -> Seq<usize> {
        match *self {
            Selectors::U8(selectors) => positions(selectors@),
            Selectors::U16(selectors) => positions(selectors@),
            Selectors::U32(selectors) => positions(selectors@),
            Selectors::U64(selectors) => positions(selectors@),
        }
    }
}

impl Selectors {
    pub fn len(&self) -> (len: usize)
        ensures
            len == self@.len(),
    {
        match self {
            Selectors::U8(selectors) => selectors.len(),
            Selectors::U16(selectors) => selectors.len(),
            Selectors::U32(selectors) => selectors.len(),
            Selectors::U64(selectors) => selectors.len(),
        }
    }

    /// What the selector at `index` selects.
    pub fn position(&self, index: usize) -> (position: usize)
        requires
            index < self@.len(),
        ensures
            position == self@[index as int],
    {
        match self {
            Selectors::U8(selectors) => selectors[index].position(),
            Selectors::U16(selectors) => selectors[index].position(),
            Selectors::U32(selectors) => selectors[index].position(),
            Selectors::U64(selectors) => selectors[index].position(),
        }
    }
}

/// The value of each output row: the value at the selected row of the selected buffer.
pub open spec fn gathered<T>(
    values: Seq<Vec<T>>,
    branches: Seq<usize>,
    rows: Seq<usize>,
) -> Seq<T> {
    Seq::new(branches.len(), |i: int| values[branches[i] as int]@[rows[i] as int])
}

/// [`gather`], at the width of the row selectors.
pub fn gather_rows<T: Copy, A: Selector>(
    values: &[Vec<T>],
    branches: &[A],
    rows: &Selectors,
) -> (result: Result<Vec<T>, Error>)
    ensures
        match result {
            Ok(output) => {
                &&& selectable(lens_of(values@), positions(branches@), rows@)
                &&& output@ == gathered(values@, positions(branches@), rows@)
            },
            Err(error) => rejects_selectors(
                lens_of(values@),
                positions(branches@),
                rows@,
                error@,
            ),
        },
{
    let result = match rows {
        Selectors::U8(rows) => gather(values, branches, rows.as_slice()),
        Selectors::U16(rows) => gather(values, branches, rows.as_slice()),
        Selectors::U32(rows) => gather(values, branches, rows.as_slice()),
        Selectors::U64(rows) => gather(values, branches, rows.as_slice()),
    };
    assert(result matches Ok(output) ==> output@ =~= gathered(
        values@,
        positions(branches@),
        rows@,
    ));
    result
}

/// Columns of values and, for each output row, the column and the row of it to pick.
#[derive(Debug)]
pub struct Interleave<T> {
    pub values: Vec<Array<T>>,
    pub array_indices: Selectors,
    pub row_indices: Selectors,
}

/// The lengths of some columns.
pub open spec fn column_lens<T>(values: Seq<Array<T>>) -> Seq<nat> {
    values.map_values(|column: Array<T>| column@.len())
}

impl<T> Interleave<T> {
    /// Whether every output row can be picked.
    pub open spec fn picks(self) -> bool {
        selectable(column_lens(self.values@), self.array_indices@, self.row_indices@)
    }

    /// Whether `error` is why some output row cannot be picked.
    pub open spec fn rejected_with(self, error: ErrorModel) -> bool {
        rejects_selectors(
            column_lens(self.values@),
            self.array_indices@,
            self.row_indices@,
            error,
        )
    }

    /// The column that output row `i` is picked from.
    pub open spec fn source(self, i: int) -> ArrayModel<T> {
        self.values@[self.array_indices@[i] as int]@
    }

    /// Whether any value column may hold nulls.
    pub open spec fn nullable(self) -> bool {
        exists|k: int| 0 <= k < self.values@.len() && (#[trigger] self.values@[k])@.dtype.nullable()
    }

    /// The number of output rows.
    pub open spec fn len(self) -> nat {
        self.array_indices@.len()
    }

    /// Which output rows are not null.
    pub open spec fn valid(self) -> Seq<bool> {
        Seq::new(self.len(), |i: int| self.source(i).valid[self.row_indices@[i] as int])
    }
}

/// What each value column stores, and a stand-in where it stores nothing.
fn buffers<T: Native>(columns: &Vec<Array<T>>) -> (values: Vec<Vec<T>>)
    requires
        forall|k: int|
            0 <= k < columns@.len() ==> <T as InputElement>::rejection(
                (#[trigger] columns@[k])@.dtype,
            ) is None,
    ensures
        lens_of(values@) == column_lens(columns@),
        forall|k: int, r: int|
            0 <= k < columns@.len() && 0 <= r < columns@[k]@.len() && columns@[k]@.payload[r]
                is Some ==> #[trigger] values@[k]@[r] == columns@[k]@.payload[r]->0,
{
    let mut values: Vec<Vec<T>> = Vec::with_capacity(columns.len());
    while values.len() < columns.len()
        invariant
            values@.len() <= columns@.len(),
            forall|k: int|
                0 <= k < columns@.len() ==> <T as InputElement>::rejection(
                    (#[trigger] columns@[k])@.dtype,
                ) is None,
            forall|k: int|
                0 <= k < values@.len() ==> (#[trigger] values@[k])@.len() == columns@[k]@.len(),
            forall|k: int, r: int|
                0 <= k < values@.len() && 0 <= r < columns@[k]@.len() && columns@[k]@.payload[r]
                    is Some ==> #[trigger] values@[k]@[r] == columns@[k]@.payload[r]->0,
        decreases columns@.len() - values@.len(),
    {
        let column = &columns[values.len()];
        match <T as InputElement>::decode(column) {
            Ok(buffer) => {
                values.push(buffer);
            },
            Err(_) => {},
        }
    }
    assert(lens_of(values@) =~= column_lens(columns@));
    values
}

/// [`gather`] over what the value columns store, at the width of the selectors.
pub fn gather_values<T: Native>(array: &Interleave<T>) -> (result: Result<Vec<T>, Error>)
    requires
        forall|k: int|
            0 <= k < array.values@.len() ==> <T as InputElement>::rejection(
                (#[trigger] array.values@[k])@.dtype,
            ) is None,
    ensures
        match result {
            Ok(output) => {
                &&& array.picks()
                &&& output@.len() == array.len()
                &&& forall|i: int|
                    0 <= i < array.len() && array.source(i).payload[array.row_indices@[i] as int]
                        is Some ==> #[trigger] output@[i] == array.source(
                        i,
                    ).payload[array.row_indices@[i] as int]->0
            },
            Err(error) => array.rejected_with(error@),
        },
{
    let values = buffers(&array.values);
    let result = match &array.array_indices {
        Selectors::U8(branches) => gather_rows(
            values.as_slice(),
            branches.as_slice(),
            &array.row_indices,
        ),
        Selectors::U16(branches) => gather_rows(
            values.as_slice(),
            branches.as_slice(),
            &array.row_indices,
        ),
        Selectors::U32(branches) => gather_rows(
            values.as_slice(),
            branches.as_slice(),
            &array.row_indices,
        ),
        Selectors::U64(branches) => gather_rows(
            values.as_slice(),
            branches.as_slice(),
            &array.row_indices,
        ),
    };
    proof {
        if result is Ok {
            let output = result->Ok_0;
            assert forall|i: int|
                0 <= i < array.len() && array.source(i).payload[array.row_indices@[i] as int]
                    is Some implies #[trigger] output@[i] == array.source(
                i,
            ).payload[array.row_indices@[i] as int]->0 by {
                let k = array.array_indices@[i] as int;
                let r = array.row_indices@[i] as int;
                assert(selector_failure(
                    column_lens(array.values@),
                    array.array_indices@,
                    array.row_indices@,
                    i,
                ) is None);
                assert(column_lens(array.values@)[k] == array.values@[k]@.len());
                assert(values@[k]@[r] == array.values@[k]@.payload[r]->0);
            }
        }
    }
    result
}

/// Whether every value column stores `T`s.
pub open spec fn stores<T: Native>(columns: Seq<Array<T>>) -> bool {
    forall|k: int|
        0 <= k < columns.len() ==> <T as InputElement>::rejection((#[trigger] columns[k])@.dtype)
            is None
}

/// Whether `error` is why the first value column that does not store `T`s is rejected.
pub open spec fn rejects_column<T: Native>(columns: Seq<Array<T>>, error: ErrorModel) -> bool {
    exists|k: int|
        {
            &&& 0 <= k < columns.len()
            &&& <T as InputElement>::rejection((#[trigger] columns[k])@.dtype) == Some(error)
            &&& stores::<T>(columns.take(k))
        }
}

fn check_columns<T: Native>(columns: &Vec<Array<T>>) -> (result: Result<bool, Error>)
    ensures
        match result {
            Ok(nullable) => {
                &&& stores::<T>(columns@)
                &&& forall|k: int| 0 <= k < columns@.len() ==> (#[trigger] columns@[k])@.wf()
                &&& nullable == exists|k: int|
                    0 <= k < columns@.len() && (#[trigger] columns@[k])@.dtype.nullable()
            },
            Err(error) => rejects_column::<T>(columns@, error@),
        },
{
    let mut nullable = false;
    let mut k: usize = 0;
    while k < columns.len()
        invariant
            k <= columns@.len(),
            forall|j: int|
                0 <= j < k ==> <T as InputElement>::rejection((#[trigger] columns@[j])@.dtype)
                    is None,
            forall|j: int| 0 <= j < k ==> (#[trigger] columns@[j])@.wf(),
            nullable == exists|j: int|
                0 <= j < k && (#[trigger] columns@[j])@.dtype.nullable(),
        decreases columns@.len() - k,
    {
        match <T as InputElement>::validate(columns[k].dtype()) {
            Ok(_) => {},
            Err(error) => {
                assert(stores::<T>(columns@.take(k as int)));
                assert(<T as InputElement>::rejection(columns@[k as int]@.dtype) == Some(error@));
                return Err(error);
            },
        }
        let column = &columns[k];
        proof {
            use_type_invariant(column);
            Array::lemma_wf(*column);
        }
        let here = column.dtype().is_nullable();
        assert(here == columns@[k as int]@.dtype.nullable());
        nullable = nullable || here;
        k += 1;
    }
    Ok(nullable)
}

/// Which output rows are not null.
fn picked_validity<T>(array: &Interleave<T>) -> (mask: Mask)
    requires
        array.picks(),
    ensures
        mask@ == array.valid(),
{
    let len = array.array_indices.len();
    let mut bits: Vec<bool> = Vec::with_capacity(len);
    while bits.len() < len
        invariant
            array.picks(),
            len == array.len(),
            bits@.len() <= len,
            forall|i: int| 0 <= i < bits@.len() ==> #[trigger] bits@[i] == array.valid()[i],
        decreases len - bits@.len(),
    {
        let i = bits.len();
        assert(selector_failure(
            column_lens(array.values@),
            array.array_indices@,
            array.row_indices@,
            i as int,
        ) is None);
        let branch = array.array_indices.position(i);
        assert(column_lens(array.values@)[branch as int] == array.values@[branch as int]@.len());
        bits.push(array.values[branch].validity().value(array.row_indices.position(i)));
    }
    assert(bits@ =~= array.valid());
    Mask::from_bits(bits)
}

/// Interleave value columns of `T`s: every output row is the selected row of the selected column,
/// null where that row is. What a selected row stores behind a null is carried over with it.
pub fn execute<T: Native>(array: &Interleave<T>) -> (result: Result<Array<T>, Error>)
    ensures
        match result {
            Ok(output) => {
                &&& stores::<T>(array.values@)
                &&& array.picks()
                &&& output@.dtype == T::stored().widened(array.nullable())
                &&& output@.rows() == Seq::new(
                    array.len(),
                    |i: int| array.source(i).row(array.row_indices@[i] as int),
                )
                &&& forall|i: int|
                    0 <= i < array.len() && array.source(i).payload[array.row_indices@[i] as int]
                        is Some ==> #[trigger] output@.payload[i] == array.source(
                        i,
                    ).payload[array.row_indices@[i] as int]
            },
            Err(error) => rejects_column::<T>(array.values@, error@) || stores::<T>(array.values@)
                && array.rejected_with(error@),
        },
{
    let nullable = match check_columns(&array.values) {
        Ok(nullable) => nullable,
        Err(error) => return Err(error),
    };
    let values = match gather_values(array) {
        Ok(values) => values,
        Err(error) => return Err(error),
    };
    let valid = picked_validity(array);
    let dense = Array::from_values(values, T::stored_dtype());
    let output = if nullable {
        dense.mask(&valid)
    } else {
        dense
    };
    proof {
        let picked = Seq::new(
            array.len(),
            |i: int| array.source(i).row(array.row_indices@[i] as int),
        );
        assert forall|i: int| 0 <= i < array.len() implies output@.row(i) == picked[i] by {
            let k = array.array_indices@[i] as int;
            let r = array.row_indices@[i] as int;
            assert(selector_failure(
                column_lens(array.values@),
                array.array_indices@,
                array.row_indices@,
                i,
            ) is None);
            assert(column_lens(array.values@)[k] == array.values@[k]@.len());
            assert(array.values@[k]@.wf());
        }
        assert(output@.rows() =~= picked);
    }
    Ok(output)
}

/// A selector selects the number that it is, whatever its width, where the number fits.
pub proof fn selectors_select_their_number(
    narrow: u8,
    short: u16,
    word: u32,
    wide: u64,
    narrow_position: usize,
    short_position: usize,
    word_position: usize,
    wide_position: usize,
)
    requires
        call_ensures(<u8 as Selector>::position, (narrow,), narrow_position),
        call_ensures(<u16 as Selector>::position, (short,), short_position),
        call_ensures(<u32 as Selector>::position, (word,), word_position),
        call_ensures(<u64 as Selector>::position, (wide,), wide_position),
    ensures
        narrow_position as int == narrow as int,
        narrow.at() as int == narrow as int,
        short_position as int == short as int,
        short.at() as int == short as int,
        word <= usize::MAX ==> word_position as int == word as int && word.at() as int
            == word as int,
        wide <= usize::MAX ==> wide_position as int == wide as int && wide.at() as int
            == wide as int,
{
}

/// Selectors of any width are read as the numbers that they are: as many, in order, and each of
/// them the number itself where it fits.
pub proof fn selectors_are_read_as_numbers(
    selectors: Selectors,
    len: usize,
    i: usize,
    position: usize,
)
    requires
        call_ensures(Selectors::len, (&selectors,), len),
        call_ensures(Selectors::position, (&selectors, i), position),
    ensures
        i < len ==> position == selectors@[i as int],
        selectors@.len() == len,
        match selectors {
            Selectors::U8(numbers) => len == numbers@.len() && (i < len ==> position as int
                == numbers@[i as int] as int),
            Selectors::U16(numbers) => len == numbers@.len() && (i < len ==> position as int
                == numbers@[i as int] as int),
            Selectors::U32(numbers) => len == numbers@.len() && (i < len && numbers@[i as int]
                <= usize::MAX ==> position as int == numbers@[i as int] as int),
            Selectors::U64(numbers) => len == numbers@.len() && (i < len && numbers@[i as int]
                <= usize::MAX ==> position as int == numbers@[i as int] as int),
        },
{
}

/// Gathering picks each output row from the buffer and the row that the selectors name. It succeeds
/// exactly where there are as many selectors of one kind as of the other, and each names a buffer
/// and a row that are there.
pub proof fn gathering_picks_what_is_selected<T: Copy, A: Selector, R: Selector>(
    values: &[Vec<T>],
    branches: &[A],
    rows: &[R],
    result: Result<Vec<T>, Error>,
)
    requires
        call_ensures(gather::<T, A, R>, (values, branches, rows), result),
    ensures
        result is Ok <==> {
            &&& branches@.len() == rows@.len()
            &&& forall|i: int|
                0 <= i < branches@.len() ==> {
                    &&& (#[trigger] branches@[i]).at() < values@.len()
                    &&& rows@[i].at() < values@[branches@[i].at() as int]@.len()
                }
        },
        result matches Ok(output) ==> {
            &&& output@.len() == branches@.len()
            &&& forall|i: int|
                0 <= i < branches@.len() ==> #[trigger] output@[i]
                    == values@[branches@[i].at() as int]@[rows@[i].at() as int]
        },
{
    let lens = lens_of(values@);
    let from = positions(branches@);
    let at = positions(rows@);
    if result is Ok {
        assert forall|i: int| 0 <= i < branches@.len() implies {
            &&& (#[trigger] branches@[i]).at() < values@.len()
            &&& rows@[i].at() < values@[branches@[i].at() as int]@.len()
        } by {
            assert(selector_failure(lens, from, at, i) is None);
        }
    } else if branches@.len() == rows@.len() {
        let error = result->Err_0@;
        let k = choose|k: int|
            {
                &&& 0 <= k < from.len()
                &&& #[trigger] selector_failure(lens, from, at, k) == Some(error)
            };
        assert(branches@[k].at() == from[k]);
        if branches@[k].at() < values@.len() {
            assert(lens[from[k] as int] == values@[from[k] as int]@.len());
        }
    }
}

/// Which selectors are refused, and with what: a different number of the two kinds, or else the
/// first row that names a value column that is not there, or a row that is not there of one that
/// is.
pub proof fn refused_selectors_name_the_first_bad_row<T, A: Selector, R: Selector>(
    values: &[Vec<T>],
    branches: &[A],
    rows: &[R],
    error: Error,
) -> (k: int)
    requires
        call_ensures(
            validate_selectors::<T, A, R>,
            (values, branches, rows),
            Err::<usize, Error>(error),
        ),
    ensures
        branches@.len() != rows@.len() ==> error@ == (ErrorModel::SelectorRows {
            branches: branches@.len(),
            rows: rows@.len(),
        }),
        branches@.len() == rows@.len() ==> {
            &&& 0 <= k < branches@.len()
            &&& forall|i: int|
                0 <= i < k ==> (#[trigger] branches@[i]).at() < values@.len() && rows@[i].at()
                    < values@[branches@[i].at() as int]@.len()
            &&& if branches@[k].at() >= values@.len() {
                error@ == (ErrorModel::BranchOutOfBounds {
                    row: k as nat,
                    branch: branches@[k].at() as nat,
                    count: values@.len(),
                })
            } else {
                &&& rows@[k].at() >= values@[branches@[k].at() as int]@.len()
                &&& error@ == (ErrorModel::RowOutOfBounds {
                    row: k as nat,
                    selected: rows@[k].at() as nat,
                    len: values@[branches@[k].at() as int]@.len(),
                })
            }
        },
{
    let lens = lens_of(values@);
    let from = positions(branches@);
    let at = positions(rows@);
    if branches@.len() == rows@.len() {
        let k = choose|k: int|
            {
                &&& 0 <= k < from.len()
                &&& #[trigger] selector_failure(lens, from, at, k) == Some(error@)
                &&& forall|i: int|
                    0 <= i < k ==> #[trigger] selector_failure(lens, from, at, i) is None
            };
        assert forall|i: int| 0 <= i < k implies (#[trigger] branches@[i]).at() < values@.len()
            && rows@[i].at() < values@[branches@[i].at() as int]@.len() by {
            assert(selector_failure(lens, from, at, i) is None);
            assert(lens[from[i] as int] == values@[from[i] as int]@.len());
        }
        if branches@[k].at() < values@.len() {
            assert(lens[from[k] as int] == values@[from[k] as int]@.len());
        }
        k
    } else {
        0
    }
}

/// Interleaving picks each output row from the column and the row of it that the selectors name,
/// null where that row is. It succeeds exactly where every column stores the values' type, there
/// are as many selectors of one kind as of the other, and each names a column and a row that are
/// there. The type is that of the values, nullable where a column is.
pub proof fn interleaving_picks_what_is_selected<T: Native>(
    array: Interleave<T>,
    result: Result<Array<T>, Error>,
)
    requires
        call_ensures(execute::<T>, (&array,), result),
    ensures
        result is Ok <==> {
            &&& forall|k: int|
                0 <= k < array.values@.len() ==> T::stored() == (
                #[trigger] array.values@[k])@.dtype.with_nullability(Nullability::NonNullable)
            &&& array.array_indices@.len() == array.row_indices@.len()
            &&& forall|i: int|
                0 <= i < array.array_indices@.len() ==> {
                    &&& #[trigger] array.array_indices@[i] < array.values@.len()
                    &&& array.row_indices@[i] < array.values@[array.array_indices@[i] as int]@.len()
                }
        },
        result matches Ok(output) ==> {
            &&& output@.len() == array.array_indices@.len()
            &&& forall|i: int|
                0 <= i < array.array_indices@.len() ==> #[trigger] output@.row(i)
                    == array.values@[array.array_indices@[i] as int]@.row(
                    array.row_indices@[i] as int,
                )
            &&& forall|i: int|
                0 <= i < array.array_indices@.len() ==> {
                    let source = array.values@[array.array_indices@[i] as int]@;
                    let stored = source.payload[array.row_indices@[i] as int];
                    stored is Some ==> #[trigger] output@.payload[i] == stored
                }
            &&& (exists|k: int|
                0 <= k < array.values@.len() && (#[trigger] array.values@[k])@.dtype.nullability()
                    == Nullability::Nullable) ==> output@.dtype == T::stored().with_nullability(
                Nullability::Nullable,
            )
            &&& (forall|k: int|
                0 <= k < array.values@.len() ==> (#[trigger] array.values@[k])@.dtype.nullability()
                    == Nullability::NonNullable) ==> output@.dtype == T::stored()
        },
{
    let lens = column_lens(array.values@);
    let from = array.array_indices@;
    let at = array.row_indices@;
    if let Ok(output) = result {
        assert(output@.rows().len() == array.len());
        assert forall|i: int| 0 <= i < from.len() implies {
            &&& #[trigger] from[i] < array.values@.len()
            &&& at[i] < array.values@[from[i] as int]@.len()
        } by {
            assert(selector_failure(lens, from, at, i) is None);
        }
        assert forall|i: int| 0 <= i < from.len() implies #[trigger] output@.row(i)
            == array.values@[from[i] as int]@.row(at[i] as int) by {
            let picked = output@.rows();
            assert(picked.len() == array.len());
            assert(picked[i] == output@.row(i));
        }
        if exists|k: int|
            0 <= k < array.values@.len() && (#[trigger] array.values@[k])@.dtype.nullability()
                == Nullability::Nullable {
            let k = choose|k: int|
                0 <= k < array.values@.len() && (#[trigger] array.values@[k])@.dtype.nullability()
                    == Nullability::Nullable;
            assert(array.values@[k]@.dtype.nullable());
        }
    } else {
        let error = result->Err_0@;
        if rejects_column::<T>(array.values@, error) {
            let k = choose|k: int|
                0 <= k < array.values@.len() && <T as InputElement>::rejection(
                    (#[trigger] array.values@[k])@.dtype,
                ) == Some(error);
            assert(array.values@[k]@.dtype.with_nullability(Nullability::NonNullable)
                != T::stored());
        } else if from.len() == at.len() {
            let k = choose|k: int|
                {
                    &&& 0 <= k < from.len()
                    &&& #[trigger] selector_failure(lens, from, at, k) == Some(error)
                };
            if from[k] < array.values@.len() {
                assert(lens[from[k] as int] == array.values@[from[k] as int]@.len());
            }
        }
    }
}

/// What is gathered of value columns before nulls are made is what they store at the rows that are
/// selected, null or not.
pub proof fn gathering_reads_behind_nulls<T: Native>(
    array: Interleave<T>,
    result: Result<Vec<T>, Error>,
    i: int,
)
    requires
        call_ensures(gather_values::<T>, (&array,), result),
        result is Ok,
        0 <= i < array.array_indices@.len(),
    ensures
        result->Ok_0@.len() == array.array_indices@.len() == array.row_indices@.len(),
        array.array_indices@[i] < array.values@.len(),
        array.row_indices@[i] < array.values@[array.array_indices@[i] as int]@.len(),
        array.values@[array.array_indices@[i] as int]@.payload[array.row_indices@[i] as int]
            matches Some(value) ==> result->Ok_0@[i] == value,
{
    assert(selector_failure(
        column_lens(array.values@),
        array.array_indices@,
        array.row_indices@,
        i,
    ) is None);
}

/// Why an interleaving is refused: the first column that does not store the values' type, or else a
/// different number of the two kinds of selectors, or else the first row that names a column that
/// is not there, or a row that is not there of one that is.
pub proof fn refused_interleavings_name_the_first_fault<T: Native>(
    array: Interleave<T>,
    error: Error,
) -> (k: int)
    requires
        call_ensures(execute::<T>, (&array,), Err::<Array<T>, Error>(error)),
    ensures
        if exists|c: int|
            0 <= c < array.values@.len() && (#[trigger] array.values@[c])@.dtype.with_nullability(
                Nullability::NonNullable,
            ) != T::stored() {
            &&& 0 <= k < array.values@.len()
            &&& array.values@[k]@.dtype.with_nullability(Nullability::NonNullable) != T::stored()
            &&& error@ == (ErrorModel::UnexpectedDType { dtype: array.values@[k]@.dtype })
            &&& forall|c: int|
                0 <= c < k ==> (#[trigger] array.values@[c])@.dtype.with_nullability(
                    Nullability::NonNullable,
                ) == T::stored()
        } else if array.array_indices@.len() != array.row_indices@.len() {
            error@ == (ErrorModel::SelectorRows {
                branches: array.array_indices@.len(),
                rows: array.row_indices@.len(),
            })
        } else {
            let branch = array.array_indices@[k];
            let row = array.row_indices@[k];
            &&& 0 <= k < array.array_indices@.len()
            &&& forall|i: int|
                0 <= i < k ==> #[trigger] array.array_indices@[i] < array.values@.len()
                    && array.row_indices@[i]
                    < array.values@[array.array_indices@[i] as int]@.len()
            &&& if branch >= array.values@.len() {
                error@ == (ErrorModel::BranchOutOfBounds {
                    row: k as nat,
                    branch: branch as nat,
                    count: array.values@.len(),
                })
            } else {
                &&& row >= array.values@[branch as int]@.len()
                &&& error@ == (ErrorModel::RowOutOfBounds {
                    row: k as nat,
                    selected: row as nat,
                    len: array.values@[branch as int]@.len(),
                })
            }
        },
{
    let lens = column_lens(array.values@);
    let from = array.array_indices@;
    let at = array.row_indices@;
    if rejects_column::<T>(array.values@, error@) {
        let k = choose|k: int|
            {
                &&& 0 <= k < array.values@.len()
                &&& <T as InputElement>::rejection((#[trigger] array.values@[k])@.dtype) == Some(
                    error@,
                )
                &&& stores::<T>(array.values@.take(k))
            };
        assert forall|c: int| 0 <= c < k implies (
        #[trigger] array.values@[c])@.dtype.with_nullability(Nullability::NonNullable)
            == T::stored() by {
            assert(array.values@.take(k)[c] == array.values@[c]);
        }
        k
    } else if from.len() == at.len() {
        let k = choose|k: int|
            {
                &&& 0 <= k < from.len()
                &&& #[trigger] selector_failure(lens, from, at, k) == Some(error@)
                &&& forall|i: int|
                    0 <= i < k ==> #[trigger] selector_failure(lens, from, at, i) is None
            };
        assert forall|i: int| 0 <= i < k implies #[trigger] from[i] < array.values@.len() && at[i]
            < array.values@[from[i] as int]@.len() by {
            assert(selector_failure(lens, from, at, i) is None);
            assert(lens[from[i] as int] == array.values@[from[i] as int]@.len());
        }
        if from[k] < array.values@.len() {
            assert(lens[from[k] as int] == array.values@[from[k] as int]@.len());
        }
        k
    } else {
        0
    }
}

} // verus!
