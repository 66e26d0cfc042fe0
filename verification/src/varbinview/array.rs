//! Columns of views, and the buffers that hold the bytes of the long ones.

use std::ops::Range;
use std::sync::Arc;

use vstd::prelude::*;

use crate::dtype::{DType, DTypeModel, Nullability};
use crate::error::{Error, ErrorModel};
use crate::mask::{lemma_rank_monotone, rank, set_count, Mask};
use crate::varbinview::view::{BinaryView, ViewModel, MAX_INLINED_SIZE};

verus! {

/// What a [`VarBinViewArray`] denotes: the bytes of each row, absent where the row is null.
pub struct BytesModel {
    pub dtype: DTypeModel,
    pub rows: Seq<Option<Seq<u8>>>,
}

/// The bytes in some buffers.
pub open spec fn contents(buffers: Seq<Vec<u8>>) -> Seq<Seq<u8>> {
    buffers.map_values(|buffer: Vec<u8>| buffer@)
}

/// Which strings are too long to stand in their views.
pub open spec fn long_strings(strings: Seq<&str>) -> Seq<bool> {
    Seq::new(
        strings.len(),
        |i: int| vstd::utf8::encode_utf8(strings[i]@).len() > MAX_INLINED_SIZE,
    )
}

/// Whether a view stays within the buffers.
pub open spec fn in_bounds(view: ViewModel, buffers: Seq<Seq<u8>>) -> bool {
    view matches ViewModel::Ref { size, buffer_index, offset, .. } ==> buffer_index < buffers.len()
        && offset + size <= buffers[buffer_index as int].len()
}

/// The bytes that a view leads to.
pub open spec fn view_bytes(view: ViewModel, buffers: Seq<Seq<u8>>) -> Seq<u8> {
    match view {
        ViewModel::Inlined(bytes) => bytes,
        ViewModel::Ref { size, buffer_index, offset, .. } => buffers[buffer_index as int].subrange(
            offset as int,
            offset + size,
        ),
    }
}

/// Whether a view starts as the bytes it leads to.
pub open spec fn prefix_matches(view: ViewModel, buffers: Seq<Seq<u8>>) -> bool {
    view matches ViewModel::Ref { prefix, .. } ==> prefix == view_bytes(view, buffers).take(4)
}

/// What is wrong with the view of a row. A view behind a null must stay within the buffers, but
/// nothing is asked of what it leads to.
pub open spec fn view_failure(
    view: ViewModel,
    buffers: Seq<Seq<u8>>,
    valid: bool,
    utf8: bool,
    row: nat,
) -> Option<ErrorModel> {
    if !in_bounds(view, buffers) {
        Some(ErrorModel::ViewOutOfBounds { row })
    } else if valid && !prefix_matches(view, buffers) {
        Some(ErrorModel::ViewPrefix { row })
    } else if valid && utf8 && !vstd::utf8::valid_utf8(view_bytes(view, buffers)) {
        Some(ErrorModel::NotUtf8 { row })
    } else {
        None
    }
}

/// What is wrong with row `i` of a column.
pub open spec fn row_failure(
    views: Seq<BinaryView>,
    buffers: Seq<Seq<u8>>,
    dtype: DTypeModel,
    valid: Seq<bool>,
    i: int,
) -> Option<ErrorModel> {
    if !dtype.nullable() && !valid[i] {
        Some(ErrorModel::UnexpectedNull { row: i as nat })
    } else {
        view_failure(views[i]@, buffers, valid[i], dtype is Utf8, i as nat)
    }
}

/// Whether columns of a type hold strings or byte strings.
pub open spec fn holds_bytes(dtype: DTypeModel) -> bool {
    dtype is Utf8 || dtype is Binary
}

/// Whether views, buffers and a validity make up a column of a type.
pub open spec fn consistent(
    views: Seq<BinaryView>,
    buffers: Seq<Seq<u8>>,
    dtype: DTypeModel,
    valid: Seq<bool>,
) -> bool {
    &&& holds_bytes(dtype)
    &&& views.len() == valid.len()
    &&& forall|i: int|
        0 <= i < views.len() ==> #[trigger] row_failure(views, buffers, dtype, valid, i) is None
}

/// Whether `error` is why views, buffers and a validity do not make up a column of a type: the
/// type, their number, or what is wrong with the first bad row.
pub open spec fn rejects_views(
    views: Seq<BinaryView>,
    buffers: Seq<Seq<u8>>,
    dtype: DTypeModel,
    valid: Seq<bool>,
    error: ErrorModel,
) -> bool {
    if !holds_bytes(dtype) {
        error == (ErrorModel::NotBytes { dtype })
    } else if views.len() != valid.len() {
        error == (ErrorModel::ViewRows { views: views.len(), rows: valid.len() })
    } else {
        exists|k: int|
            {
                &&& 0 <= k < views.len()
                &&& #[trigger] row_failure(views, buffers, dtype, valid, k) == Some(error)
                &&& forall|i: int|
                    0 <= i < k ==> #[trigger] row_failure(views, buffers, dtype, valid, i) is None
            }
    }
}

/// The bytes of each row of a column.
pub open spec fn rows_of(
    views: Seq<BinaryView>,
    buffers: Seq<Seq<u8>>,
    valid: Seq<bool>,
) -> Seq<Option<Seq<u8>>> {
    Seq::new(
        views.len(),
        |i: int|
            if valid[i] {
                Some(view_bytes(views[i]@, buffers))
            } else {
                None
            },
    )
}

/// `std::str::from_utf8` accepts exactly the bytes that are valid UTF-8.
#[verifier::external_body]
fn is_utf8(bytes: &[u8]) -> (result: bool)
    ensures
        result == vstd::utf8::valid_utf8(bytes@),
{
    std::str::from_utf8(bytes).is_ok()
}

/// A copy of some of the bytes of a buffer.
fn copy_range(buffer: &[u8], start: usize, len: usize) -> (bytes: Vec<u8>)
    requires
        start + len <= buffer@.len(),
    ensures
        bytes@ == buffer@.subrange(start as int, start + len),
{
    let total = buffer.len();
    let mut bytes: Vec<u8> = Vec::with_capacity(len);
    while bytes.len() < len
        invariant
            bytes@.len() <= len,
            start + len <= total,
            total == buffer@.len(),
            bytes@ == buffer@.subrange(start as int, start + bytes@.len()),
        decreases len - bytes@.len(),
    {
        let at = start + bytes.len();
        bytes.push(buffer[at]);
        assert(bytes@ =~= buffer@.subrange(start as int, start + bytes@.len()));
    }
    bytes
}

/// Whether two byte strings agree.
fn same_bytes(left: &[u8], right: &[u8]) -> (result: bool)
    ensures
        result == (left@ == right@),
{
    if left.len() != right.len() {
        return false;
    }
    let mut i: usize = 0;
    while i < left.len()
        invariant
            i <= left@.len(),
            left@.len() == right@.len(),
            forall|j: int| 0 <= j < i ==> left@[j] == right@[j],
        decreases left@.len() - i,
    {
        if left[i] != right[i] {
            return false;
        }
        i += 1;
    }
    assert(left@ =~= right@);
    true
}

/// Whether a view stays within the buffers.
fn is_in_bounds(view: &BinaryView, buffers: &Vec<Vec<u8>>) -> (result: bool)
    ensures
        result == in_bounds(view@, contents(buffers@)),
{
    if view.is_inlined() {
        return true;
    }
    let buffer_index = view.buffer_index() as usize;
    if buffer_index >= buffers.len() {
        return false;
    }
    view.offset() as u64 + view.len() as u64 <= buffers[buffer_index].len() as u64
}

/// The bytes that a view leads to.
fn bytes_of(view: &BinaryView, buffers: &Vec<Vec<u8>>) -> (bytes: Vec<u8>)
    requires
        in_bounds(view@, contents(buffers@)),
    ensures
        bytes@ == view_bytes(view@, contents(buffers@)),
{
    if view.is_inlined() {
        return view.inlined();
    }
    copy_range(
        buffers[view.buffer_index() as usize].as_slice(),
        view.offset() as usize,
        view.len() as usize,
    )
}

/// Append bytes to a buffer.
fn append(buffer: &mut Vec<u8>, bytes: &[u8])
    ensures
        final(buffer)@ == old(buffer)@ + bytes@,
{
    let mut i: usize = 0;
    while i < bytes.len()
        invariant
            i <= bytes@.len(),
            buffer@ == old(buffer)@ + bytes@.take(i as int),
        decreases bytes@.len() - i,
    {
        buffer.push(bytes[i]);
        i += 1;
        assert(buffer@ =~= old(buffer)@ + bytes@.take(i as int));
    }
    assert(bytes@.take(i as int) =~= bytes@);
}

/// Whether a view leads to `bytes`, and starts as they do.
spec fn holds(view: ViewModel, buffers: Seq<Seq<u8>>, bytes: Seq<u8>) -> bool {
    &&& in_bounds(view, buffers)
    &&& prefix_matches(view, buffers)
    &&& view_bytes(view, buffers) == bytes
}

/// Buffers may grow behind a view.
proof fn lemma_grown(
    view: ViewModel,
    before: Seq<Seq<u8>>,
    after: Seq<Seq<u8>>,
    bytes: Seq<u8>,
)
    requires
        holds(view, before, bytes),
        before.len() <= after.len(),
        forall|k: int|
            0 <= k < before.len() ==> {
                &&& before[k].len() <= (#[trigger] after[k]).len()
                &&& after[k].take(before[k].len() as int) == before[k]
            },
    ensures
        holds(view, after, bytes),
{
    if let ViewModel::Ref { size, buffer_index, offset, .. } = view {
        let k = buffer_index as int;
        assert(after[k].take(before[k].len() as int).subrange(offset as int, offset + size)
            =~= after[k].subrange(offset as int, offset + size));
    }
}

/// Reject the view of row `row` where something is wrong with it.
fn check_view(
    view: &BinaryView,
    buffers: &Vec<Vec<u8>>,
    valid: bool,
    utf8: bool,
    row: usize,
) -> (result: Result<(), Error>)
    ensures
        match result {
            Ok(_) => view_failure(view@, contents(buffers@), valid, utf8, row as nat) is None,
            Err(error) => view_failure(view@, contents(buffers@), valid, utf8, row as nat) == Some(
                error@,
            ),
        },
{
    if !is_in_bounds(view, buffers) {
        return Err(Error::ViewOutOfBounds { row });
    }
    if !valid {
        return Ok(());
    }
    let bytes = bytes_of(view, buffers);
    if !view.is_inlined() {
        let prefix = view.prefix();
        let start = copy_range(bytes.as_slice(), 0, 4);
        if !same_bytes(prefix.as_slice(), start.as_slice()) {
            return Err(Error::ViewPrefix { row });
        }
    }
    if utf8 && !is_utf8(bytes.as_slice()) {
        return Err(Error::NotUtf8 { row });
    }
    Ok(())
}

/// A column of strings or byte strings.
#[derive(Debug)]
pub struct VarBinViewArray {
    views: Vec<BinaryView>,
    buffers: Arc<Vec<Vec<u8>>>,
    dtype: DType,
    valid: Mask,
}

impl View for VarBinViewArray {
    type V = BytesModel;

    closed spec fn view(&self) -> BytesModel {
        BytesModel {
            dtype: self.dtype@,
            rows: rows_of(self.views@, contents(self.buffers@), self.valid@),
        }
    }
}

impl VarBinViewArray {
    #[verifier::type_invariant]
    pub closed spec fn inv(self) -> bool {
        consistent(self.views@, contents(self.buffers@), self.dtype@, self.valid@)
    }

    /// A column of these views, null where `valid` is not set.
    pub fn try_new(
        views: Vec<BinaryView>,
        buffers: Arc<Vec<Vec<u8>>>,
        dtype: DType,
        valid: Mask,
    ) -> (result: Result<VarBinViewArray, Error>)
        ensures
            match result {
                Ok(array) => {
                    &&& consistent(views@, contents(buffers@), dtype@, valid@)
                    &&& array@.dtype == dtype@
                    &&& array@.rows == rows_of(views@, contents(buffers@), valid@)
                },
                Err(error) => rejects_views(
                    views@,
                    contents(buffers@),
                    dtype@,
                    valid@,
                    error@,
                ),
            },
    {
        let utf8 = match &dtype {
            DType::Utf8(_) => true,
            DType::Binary(_) => false,
            _ => return Err(Error::NotBytes { dtype }),
        };
        if views.len() != valid.len() {
            return Err(Error::ViewRows { views: views.len(), rows: valid.len() });
        }
        let nullable = dtype.is_nullable();
        let ghost held = contents(buffers@);
        let mut row: usize = 0;
        while row < views.len()
            invariant
                row <= views@.len(),
                views@.len() == valid@.len(),
                holds_bytes(dtype@),
                utf8 == (dtype@ is Utf8),
                nullable == dtype@.nullable(),
                held == contents(buffers@),
                forall|i: int|
                    0 <= i < row ==> #[trigger] row_failure(views@, held, dtype@, valid@, i)
                        is None,
            decreases views@.len() - row,
        {
            let here = valid.value(row);
            if !nullable && !here {
                let error = Error::UnexpectedNull { row };
                assert(row_failure(views@, held, dtype@, valid@, row as int) == Some(error@));
                return Err(error);
            }
            match check_view(&views[row], &*buffers, here, utf8, row) {
                Ok(_) => {},
                Err(error) => {
                    assert(row_failure(views@, held, dtype@, valid@, row as int) == Some(error@));
                    return Err(error);
                },
            }
            row += 1;
        }
        Ok(VarBinViewArray { views, buffers, dtype, valid })
    }

    pub fn len(&self) -> (len: usize)
        ensures
            len == self@.rows.len(),
    {
        self.views.len()
    }

    pub fn dtype(&self) -> (dtype: &DType)
        ensures
            dtype@ == self@.dtype,
    {
        &self.dtype
    }

    /// The bytes of row `index`, absent where the row is null.
    pub fn bytes_at(&self, index: usize) -> (bytes: Option<Vec<u8>>)
        requires
            index < self@.rows.len(),
        ensures
            match bytes {
                Some(bytes) => self@.rows[index as int] == Some(bytes@),
                None => self@.rows[index as int] is None,
            },
    {
        proof {
            use_type_invariant(self);
        }
        assert(row_failure(
            self.views@,
            contents(self.buffers@),
            self.dtype@,
            self.valid@,
            index as int,
        ) is None);
        if self.valid.value(index) {
            Some(bytes_of(&self.views[index], &*self.buffers))
        } else {
            None
        }
    }

    /// Rows `range.start` to `range.end`, without a copy of their bytes.
    pub fn slice(&self, range: Range<usize>) -> (result: Result<VarBinViewArray, Error>)
        ensures
            match result {
                Ok(array) => {
                    &&& range.start <= range.end <= self@.rows.len()
                    &&& array@.dtype == self@.dtype
                    &&& array@.rows == self@.rows.subrange(range.start as int, range.end as int)
                },
                Err(error) => {
                    &&& !(range.start <= range.end <= self@.rows.len())
                    &&& error@ == (ErrorModel::SliceOutOfBounds {
                        start: range.start as nat,
                        stop: range.end as nat,
                        len: self@.rows.len(),
                    })
                },
            },
    {
        proof {
            use_type_invariant(self);
        }
        let start = range.start;
        let stop = range.end;
        if start > stop || stop > self.views.len() {
            return Err(Error::SliceOutOfBounds { start, stop, len: self.views.len() });
        }
        let len = stop - start;
        let mut views: Vec<BinaryView> = Vec::with_capacity(len);
        let mut bits: Vec<bool> = Vec::with_capacity(len);
        while views.len() < len
            invariant
                start + len == stop <= self.views@.len(),
                self.views@.len() == self.valid@.len(),
                views@.len() == bits@.len() <= len,
                forall|i: int| 0 <= i < views@.len() ==> #[trigger] views@[i] == self.views@[start
                    + i],
                forall|i: int| 0 <= i < bits@.len() ==> #[trigger] bits@[i] == self.valid@[start
                    + i],
            decreases len - views@.len(),
        {
            let at = start + views.len();
            views.push(self.views[at]);
            bits.push(self.valid.value(at));
        }
        let valid = Mask::from_bits(bits);
        let buffers = self.buffers.clone();
        let dtype = self.dtype.clone();
        let ghost held = contents(self.buffers@);
        proof {
            assert forall|i: int| 0 <= i < len implies #[trigger] row_failure(
                views@,
                held,
                dtype@,
                valid@,
                i,
            ) is None by {
                assert(row_failure(self.views@, held, self.dtype@, self.valid@, start + i) is None);
            }
            assert(rows_of(views@, held, valid@) =~= self@.rows.subrange(
                start as int,
                stop as int,
            ));
        }
        Ok(VarBinViewArray { views, buffers, dtype, valid })
    }

    /// Whether two columns have the same type and the same rows.
    pub fn same(&self, other: &VarBinViewArray) -> (result: bool)
        ensures
            result == (self@.dtype == other@.dtype && self@.rows == other@.rows),
    {
        if !self.dtype.same(&other.dtype) || self.len() != other.len() {
            return false;
        }
        let len = self.len();
        let mut i: usize = 0;
        while i < len
            invariant
                i <= len,
                len == self@.rows.len(),
                len == other@.rows.len(),
                forall|j: int| 0 <= j < i ==> self@.rows[j] == #[trigger] other@.rows[j],
            decreases len - i,
        {
            let same = match (self.bytes_at(i), other.bytes_at(i)) {
                (Some(left), Some(right)) => same_bytes(left.as_slice(), right.as_slice()),
                (None, None) => true,
                _ => false,
            };
            assert(same == (self@.rows[i as int] == other@.rows[i as int]));
            if !same {
                return false;
            }
            i += 1;
        }
        assert(self@.rows =~= other@.rows);
        true
    }

    /// A column of strings, none of them null.
    pub fn from_iter_str(strings: &[&str]) -> (array: VarBinViewArray)
        requires
            set_count(long_strings(strings@)) <= u32::MAX,
            forall|i: int|
                0 <= i < strings@.len() ==> vstd::utf8::encode_utf8((#[trigger] strings@[i])@).len()
                    <= u32::MAX,
        ensures
            array@.dtype == DTypeModel::Utf8(Nullability::NonNullable),
            array@.rows == Seq::new(
                strings@.len(),
                |i: int| Some(vstd::utf8::encode_utf8(strings@[i]@)),
            ),
    {
        let mut views: Vec<BinaryView> = Vec::with_capacity(strings.len());
        let mut buffers: Vec<Vec<u8>> = Vec::new();
        let mut filling: Vec<u8> = Vec::new();
        let mut row: usize = 0;
        let ghost long = long_strings(strings@);
        while row < strings.len()
            invariant
                row <= strings@.len(),
                views@.len() == row,
                buffers@.len() <= rank(long, row as int),
                long == long_strings(strings@),
                set_count(long) <= u32::MAX,
                filling@.len() <= u32::MAX,
                forall|i: int|
                    0 <= i < strings@.len() ==> vstd::utf8::encode_utf8(
                        (#[trigger] strings@[i])@,
                    ).len() <= u32::MAX,
                forall|i: int|
                    0 <= i < row ==> holds(
                        #[trigger] views@[i]@,
                        contents(buffers@).push(filling@),
                        vstd::utf8::encode_utf8(strings@[i]@),
                    ),
            decreases strings@.len() - row,
        {
            let bytes = strings[row].as_bytes();
            let size = bytes.len();
            let ghost before = contents(buffers@).push(filling@);
            let ghost written = views@;
            proof {
                lemma_rank_monotone(long, row + 1, long.len() as int);
            }
            let view = if size <= MAX_INLINED_SIZE as usize {
                BinaryView::new_inlined(bytes)
            } else {
                if filling.len() as u64 + size as u64 > u32::MAX as u64 {
                    buffers.push(filling);
                    filling = Vec::new();
                }
                let offset = filling.len();
                append(&mut filling, bytes);
                BinaryView::new_ref(
                    size as u32,
                    [bytes[0], bytes[1], bytes[2], bytes[3]],
                    buffers.len() as u32,
                    offset as u32,
                )
            };
            views.push(view);
            proof {
                let after = contents(buffers@).push(filling@);
                let all = vstd::utf8::encode_utf8(strings@[row as int]@);
                assert(view_bytes(view@, after) =~= all);
                assert(prefix_matches(view@, after)) by {
                    if view@ is Ref {
                        assert(view@->prefix =~= view_bytes(view@, after).take(4));
                    }
                }
                assert forall|k: int| 0 <= k < before.len() implies {
                    &&& before[k].len() <= (#[trigger] after[k]).len()
                    &&& after[k].take(before[k].len() as int) == before[k]
                } by {
                    assert(after[k].take(before[k].len() as int) =~= before[k]);
                }
                assert forall|i: int| 0 <= i < row + 1 implies holds(
                    #[trigger] views@[i]@,
                    after,
                    vstd::utf8::encode_utf8(strings@[i]@),
                ) by {
                    if i < row {
                        assert(views@[i] == written[i]);
                        lemma_grown(
                            views@[i]@,
                            before,
                            after,
                            vstd::utf8::encode_utf8(strings@[i]@),
                        );
                    }
                }
            }
            row += 1;
        }
        let ghost held = contents(buffers@).push(filling@);
        buffers.push(filling);
        assert(contents(buffers@) =~= held);
        let dtype = DType::Utf8(Nullability::NonNullable);
        let valid = Mask::new_true(strings.len());
        proof {
            assert forall|i: int| 0 <= i < views@.len() implies #[trigger] row_failure(
                views@,
                held,
                dtype@,
                valid@,
                i,
            ) is None by {
                assert(holds(views@[i]@, held, vstd::utf8::encode_utf8(strings@[i]@)));
                vstd::utf8::encode_utf8_valid_utf8(strings@[i]@);
            }
            assert(rows_of(views@, held, valid@) =~= Seq::new(
                strings@.len(),
                |i: int| Some(vstd::utf8::encode_utf8(strings@[i]@)),
            )) by {
                assert forall|i: int| 0 <= i < views@.len() implies view_bytes(views@[i]@, held)
                    == vstd::utf8::encode_utf8(strings@[i]@) by {
                    assert(holds(views@[i]@, held, vstd::utf8::encode_utf8(strings@[i]@)));
                }
            }
        }
        VarBinViewArray { views, buffers: Arc::new(buffers), dtype, valid }
    }
}

/// The view behind a null is validated like any other, but for what it leads to: it must stay
/// within the buffers, and neither its prefix nor the bytes it leads to matter.
pub proof fn only_bounds_matter_behind_nulls(
    view: ViewModel,
    buffers: Seq<Seq<u8>>,
    utf8: bool,
    row: nat,
)
    ensures
        view_failure(view, buffers, false, utf8, row) is None <==> in_bounds(view, buffers),
{
}

/// When a row of a column is in order, and what is wrong with it where it is not. A row may be null
/// only where the type allows it; every view stays within the buffers; and where the row is not
/// null, a long string starts as its view says, and a string is valid UTF-8.
pub proof fn rows_are_in_order_or_say_why(
    views: Seq<BinaryView>,
    buffers: Seq<Vec<u8>>,
    dtype: DTypeModel,
    valid: Seq<bool>,
    i: int,
)
    requires
        0 <= i < views.len(),
    ensures
        row_failure(views, contents(buffers), dtype, valid, i) is None <==> {
            &&& valid[i] || dtype.nullability() == Nullability::Nullable
            &&& match views[i]@ {
                ViewModel::Inlined(bytes) => valid[i] && dtype is Utf8 ==> vstd::utf8::valid_utf8(
                    bytes,
                ),
                ViewModel::Ref { size, prefix, buffer_index, offset } => {
                    &&& buffer_index < buffers.len()
                    &&& offset + size <= buffers[buffer_index as int]@.len()
                    &&& valid[i] ==> {
                        let bytes = buffers[buffer_index as int]@.subrange(
                            offset as int,
                            offset + size,
                        );
                        &&& prefix =~= bytes.take(4)
                        &&& dtype is Utf8 ==> vstd::utf8::valid_utf8(bytes)
                    }
                },
            }
        },
        match row_failure(views, contents(buffers), dtype, valid, i) {
            None => true,
            Some(ErrorModel::UnexpectedNull { row }) => row == i && !valid[i]
                && dtype.nullability() == Nullability::NonNullable,
            Some(ErrorModel::ViewOutOfBounds { row }) => row == i && match views[i]@ {
                ViewModel::Inlined(_) => false,
                ViewModel::Ref { size, buffer_index, offset, .. } => {
                    ||| buffer_index >= buffers.len()
                    ||| offset + size > buffers[buffer_index as int]@.len()
                },
            },
            Some(ErrorModel::ViewPrefix { row }) => row == i && valid[i] && match views[i]@ {
                ViewModel::Inlined(_) => false,
                ViewModel::Ref { size, prefix, buffer_index, offset } => !(prefix
                    =~= buffers[buffer_index as int]@.subrange(
                    offset as int,
                    offset + size,
                ).take(4)),
            },
            Some(ErrorModel::NotUtf8 { row }) => row == i && valid[i] && dtype is Utf8
                && match views[i]@ {
                ViewModel::Inlined(bytes) => !vstd::utf8::valid_utf8(bytes),
                ViewModel::Ref { size, buffer_index, offset, .. } => !vstd::utf8::valid_utf8(
                    buffers[buffer_index as int]@.subrange(offset as int, offset + size),
                ),
            },
            Some(_) => false,
        },
{
}

/// Views, buffers and a validity make up a column exactly where the type holds strings or byte
/// strings, there is a view for each row, and each row is in order.
pub proof fn columns_are_made_of_sound_views(
    views: Vec<BinaryView>,
    buffers: Arc<Vec<Vec<u8>>>,
    dtype: DType,
    valid: Mask,
    result: Result<VarBinViewArray, Error>,
)
    requires
        call_ensures(VarBinViewArray::try_new, (views, buffers, dtype, valid), result),
    ensures
        result is Ok <==> {
            &&& dtype@ is Utf8 || dtype@ is Binary
            &&& views@.len() == valid@.len()
            &&& forall|i: int|
                0 <= i < views@.len() ==> #[trigger] row_failure(
                    views@,
                    contents(buffers@),
                    dtype@,
                    valid@,
                    i,
                ) is None
        },
{
}

/// Why views, buffers and a validity are refused: a type that holds neither strings nor byte
/// strings, or else a different number of views and rows, or else the first row that is not in
/// order, with what is wrong with it.
pub proof fn refused_views_name_the_first_bad_row(
    views: Vec<BinaryView>,
    buffers: Arc<Vec<Vec<u8>>>,
    dtype: DType,
    valid: Mask,
    error: Error,
) -> (k: int)
    requires
        call_ensures(
            VarBinViewArray::try_new,
            (views, buffers, dtype, valid),
            Err::<VarBinViewArray, Error>(error),
        ),
    ensures
        if !(dtype@ is Utf8 || dtype@ is Binary) {
            error@ == (ErrorModel::NotBytes { dtype: dtype@ })
        } else if views@.len() != valid@.len() {
            error@ == (ErrorModel::ViewRows { views: views@.len(), rows: valid@.len() })
        } else {
            &&& 0 <= k < views@.len()
            &&& row_failure(views@, contents(buffers@), dtype@, valid@, k) == Some(error@)
            &&& forall|i: int|
                0 <= i < k ==> #[trigger] row_failure(
                    views@,
                    contents(buffers@),
                    dtype@,
                    valid@,
                    i,
                ) is None
        },
{
    let held = contents(buffers@);
    if holds_bytes(dtype@) && views@.len() == valid@.len() {
        choose|k: int|
            {
                &&& 0 <= k < views@.len()
                &&& #[trigger] row_failure(views@, held, dtype@, valid@, k) == Some(error@)
                &&& forall|i: int|
                    0 <= i < k ==> #[trigger] row_failure(views@, held, dtype@, valid@, i) is None
            }
    } else {
        0
    }
}

/// A column that is made of views reads back as they say: null exactly where the validity is not
/// set, however the view of the row is stored, and otherwise the bytes of the view itself or those
/// that it leads to.
pub proof fn columns_read_back_as_their_views_say(
    views: Vec<BinaryView>,
    buffers: Arc<Vec<Vec<u8>>>,
    dtype: DType,
    valid: Mask,
    array: VarBinViewArray,
    len: usize,
    kept: &DType,
    i: usize,
    bytes: Option<Vec<u8>>,
)
    requires
        call_ensures(
            VarBinViewArray::try_new,
            (views, buffers, dtype, valid),
            Ok::<VarBinViewArray, Error>(array),
        ),
        call_ensures(VarBinViewArray::len, (&array,), len),
        call_ensures(VarBinViewArray::dtype, (&array,), kept),
        call_ensures(VarBinViewArray::bytes_at, (&array, i), bytes),
    ensures
        len == views@.len() == valid@.len(),
        kept@ == dtype@,
        i < len ==> (bytes is None <==> !valid@[i as int]),
        i < len ==> (array@.rows[i as int] is None <==> !valid@[i as int]),
        i < len ==> (bytes matches Some(read) ==> match views@[i as int]@ {
            ViewModel::Inlined(held) => read@ == held,
            ViewModel::Ref { size, buffer_index, offset, .. } => {
                &&& buffer_index < buffers@.len()
                &&& offset + size <= buffers@[buffer_index as int]@.len()
                &&& read@ == buffers@[buffer_index as int]@.subrange(offset as int, offset + size)
            },
        }),
{
    let held = contents(buffers@);
    if i < len {
        assert(row_failure(views@, held, dtype@, valid@, i as int) is None);
    }
}

/// A slice reads back as the rows that it was cut from: row `i` of it is row `start + i` of the
/// column.
pub proof fn slices_read_back_as_the_rows_cut_out(
    array: VarBinViewArray,
    range: Range<usize>,
    slice: VarBinViewArray,
    len: usize,
    slice_len: usize,
    i: usize,
    bytes: Option<Vec<u8>>,
    source: Option<Vec<u8>>,
)
    requires
        call_ensures(
            VarBinViewArray::slice,
            (&array, range),
            Ok::<VarBinViewArray, Error>(slice),
        ),
        call_ensures(VarBinViewArray::len, (&array,), len),
        call_ensures(VarBinViewArray::len, (&slice,), slice_len),
        call_ensures(VarBinViewArray::bytes_at, (&slice, i), bytes),
        call_ensures(VarBinViewArray::bytes_at, (&array, (range.start + i) as usize), source),
    ensures
        range.start <= range.end <= len,
        slice_len == range.end - range.start,
        slice@.dtype == array@.dtype,
        i < slice_len ==> match (bytes, source) {
            (Some(read), Some(from)) => read@ == from@,
            (None, None) => true,
            _ => false,
        },
{
}

/// A slice can be cut out exactly where its rows are there.
pub proof fn slices_are_cut_where_the_rows_are(
    array: VarBinViewArray,
    range: Range<usize>,
    len: usize,
    result: Result<VarBinViewArray, Error>,
)
    requires
        call_ensures(VarBinViewArray::len, (&array,), len),
        call_ensures(VarBinViewArray::slice, (&array, range), result),
    ensures
        result is Ok <==> range.start <= range.end <= len,
        result matches Err(error) ==> error@ == (ErrorModel::SliceOutOfBounds {
            start: range.start as nat,
            stop: range.end as nat,
            len: len as nat,
        }),
{
}

/// Two columns are the same exactly where they are of one type, have as many rows, and each row is
/// null in both or has the same bytes in both, however either is stored.
pub proof fn columns_are_the_same_by_their_rows(
    left: VarBinViewArray,
    right: VarBinViewArray,
    same: bool,
)
    requires
        call_ensures(VarBinViewArray::same, (&left, &right), same),
    ensures
        same <==> {
            &&& left@.dtype == right@.dtype
            &&& left@.rows.len() == right@.rows.len()
            &&& forall|i: int|
                0 <= i < left@.rows.len() ==> #[trigger] left@.rows[i] == right@.rows[i]
        },
{
    if left@.rows.len() == right@.rows.len() && forall|i: int|
        0 <= i < left@.rows.len() ==> #[trigger] left@.rows[i] == right@.rows[i] {
        assert(left@.rows =~= right@.rows);
    }
}

/// A column of strings reads back as their UTF-8 bytes, none of them null.
pub proof fn strings_read_back_as_their_bytes(
    strings: &[&str],
    array: VarBinViewArray,
    len: usize,
    dtype: &DType,
    i: usize,
    bytes: Option<Vec<u8>>,
)
    requires
        call_ensures(VarBinViewArray::from_iter_str, (strings,), array),
        call_ensures(VarBinViewArray::len, (&array,), len),
        call_ensures(VarBinViewArray::dtype, (&array,), dtype),
        call_ensures(VarBinViewArray::bytes_at, (&array, i), bytes),
    ensures
        len == strings@.len(),
        dtype@ == DTypeModel::Utf8(Nullability::NonNullable),
        i < len ==> bytes is Some && (bytes->0)@ == vstd::utf8::encode_utf8(strings@[i as int]@),
{
}

} // verus!
