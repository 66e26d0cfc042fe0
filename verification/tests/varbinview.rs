use std::mem::{align_of, size_of};
use std::sync::Arc;

use vortex_row::dtype::{DType, Nullability, PType};
use vortex_row::error::Error;
use vortex_row::mask::Mask;
use vortex_row::varbinview::array::VarBinViewArray;
use vortex_row::varbinview::view::BinaryView;

fn assert_arrays_eq(left: &VarBinViewArray, right: &VarBinViewArray) {
    assert!(left.same(right), "{left:?} differs from {right:?}");
}

fn message(result: Result<VarBinViewArray, Error>) -> String {
    result.unwrap_err().message()
}

#[test]
fn varbin_view() {
    let binary_arr =
        VarBinViewArray::from_iter_str(&["hello world", "hello world this is a long string"]);
    assert_arrays_eq(
        &binary_arr,
        &VarBinViewArray::from_iter_str(&["hello world", "hello world this is a long string"]),
    );
}

#[test]
fn slice_array() {
    let binary_arr =
        VarBinViewArray::from_iter_str(&["hello world", "hello world this is a long string"])
            .slice(1..2)
            .unwrap();
    assert_arrays_eq(
        &binary_arr,
        &VarBinViewArray::from_iter_str(&["hello world this is a long string"]),
    );
}

#[test]
fn flatten_array() {
    let binary_arr = VarBinViewArray::from_iter_str(&["string1", "string2"]);
    assert_arrays_eq(
        &binary_arr,
        &VarBinViewArray::from_iter_str(&["string1", "string2"]),
    );
}

#[test]
fn binary_view_size_and_alignment() {
    assert_eq!(size_of::<BinaryView>(), 16);
    assert_eq!(align_of::<BinaryView>(), 16);
}

// Null views are validated.
#[test]
fn binary_view_null_view() {
    let views = vec![
        BinaryView::new_inlined(b"ololo"),
        BinaryView::new_ref(14, *b"hell", 0, 0),
        BinaryView::new_ref(13, *b"AAAA", 0xDEAD_BEEF, 0xF000_0000),
    ];
    let data = b"hello world ololo";

    let validity = Mask::from_bits(vec![true, true, false]);
    let buffers = Arc::new(vec![data.to_vec()]);
    let dtype = DType::Utf8(Nullability::Nullable);

    let array = VarBinViewArray::try_new(views.clone(), buffers.clone(), dtype.clone(), validity);
    assert!(array.is_err());
    let array = VarBinViewArray::try_new(views, buffers, dtype, Mask::new_false(3));
    assert!(array.is_err());
}

// Validation of null views doesn't check prefix and contents.
#[test]
fn binary_view_null_view_in_bounds() -> Result<(), Error> {
    let data = b"hello world foo\xFF\xFE\xFD";
    let buffers = Arc::new(vec![data.to_vec()]);
    let dtype = DType::Utf8(Nullability::Nullable);

    let validity = Mask::from_bits(vec![true, false]);

    let valid_row = BinaryView::new_ref(15, *b"hell", 0, 0);
    let garbage_row = BinaryView::new_ref(13, *b"XXXX", 0, 5);

    let views = vec![valid_row, garbage_row];
    VarBinViewArray::try_new(views.clone(), buffers.clone(), dtype.clone(), validity)?;
    VarBinViewArray::try_new(views, buffers, dtype, Mask::new_false(2))?;
    Ok(())
}

#[test]
fn garbage_is_rejected_where_it_is_visible() {
    let buffers = Arc::new(vec![b"hello world foo\xFF\xFE\xFD".to_vec()]);
    let utf8 = DType::Utf8(Nullability::Nullable);
    let all = Mask::new_true(1);

    let prefix = VarBinViewArray::try_new(
        vec![BinaryView::new_ref(13, *b"XXXX", 0, 5)],
        buffers.clone(),
        utf8.clone(),
        Mask::new_true(1),
    );
    assert_eq!(
        message(prefix),
        "the prefix of the view at row 0 does not match its bytes"
    );
    let text = VarBinViewArray::try_new(
        vec![BinaryView::new_ref(13, *b" wor", 0, 5)],
        buffers.clone(),
        utf8,
        Mask::new_true(1),
    );
    assert_eq!(message(text), "the bytes of row 0 are not valid UTF-8");
    let bytes = VarBinViewArray::try_new(
        vec![BinaryView::new_ref(13, *b" wor", 0, 5)],
        buffers,
        DType::Binary(Nullability::NonNullable),
        all,
    )
    .unwrap();
    assert_eq!(bytes.bytes_at(0), Some(b" world foo\xFF\xFE\xFD".to_vec()));
}

#[test]
fn short_garbage_is_no_string() {
    let array = VarBinViewArray::try_new(
        vec![
            BinaryView::new_inlined(b"fine"),
            BinaryView::new_inlined(b"\xFF"),
        ],
        Arc::new(vec![]),
        DType::Utf8(Nullability::NonNullable),
        Mask::new_true(2),
    );
    assert_eq!(message(array), "the bytes of row 1 are not valid UTF-8");
}

#[test]
fn views_stay_within_their_buffer() {
    let buffers = Arc::new(vec![vec![b'a'; 20]]);
    let dtype = DType::Binary(Nullability::NonNullable);
    let last = VarBinViewArray::try_new(
        vec![BinaryView::new_ref(13, *b"aaaa", 0, 7)],
        buffers.clone(),
        dtype.clone(),
        Mask::new_true(1),
    );
    assert_eq!(last.unwrap().bytes_at(0), Some(vec![b'a'; 13]));
    let past = VarBinViewArray::try_new(
        vec![BinaryView::new_ref(13, *b"aaaa", 0, 8)],
        buffers,
        dtype,
        Mask::new_true(1),
    );
    assert_eq!(message(past), "the view at row 0 is out of bounds");
}

#[test]
fn columns_of_views_are_typed() {
    let number = DType::Primitive(PType::I32, Nullability::NonNullable);
    let array = VarBinViewArray::try_new(vec![], Arc::new(vec![]), number, Mask::new_true(0));
    assert_eq!(
        message(array),
        "views hold strings or byte strings, got dtype i32"
    );
    let array = VarBinViewArray::try_new(
        vec![BinaryView::new_inlined(b"a")],
        Arc::new(vec![]),
        DType::Utf8(Nullability::NonNullable),
        Mask::new_true(2),
    );
    assert_eq!(message(array), "1 views for 2 rows of validity");
    let array = VarBinViewArray::try_new(
        vec![BinaryView::new_inlined(b"a"), BinaryView::new_inlined(b"b")],
        Arc::new(vec![]),
        DType::Utf8(Nullability::NonNullable),
        Mask::from_bits(vec![true, false]),
    );
    assert_eq!(message(array), "row 1 of a non-nullable column is null");
}

#[test]
fn strings_are_read_back() {
    let strings = ["", "twelve bytes", "thirteen byte", "sixteen bytes ok"];
    let array = VarBinViewArray::from_iter_str(&strings);
    assert_eq!(array.len(), 4);
    assert_eq!(array.dtype(), &DType::Utf8(Nullability::NonNullable));
    for (index, string) in strings.iter().enumerate() {
        assert_eq!(array.bytes_at(index), Some(string.as_bytes().to_vec()));
    }
}

#[test]
fn nulls_have_no_bytes() {
    let array = VarBinViewArray::try_new(
        vec![BinaryView::new_inlined(b"a"), BinaryView::new_inlined(b"b")],
        Arc::new(vec![]),
        DType::Utf8(Nullability::Nullable),
        Mask::from_bits(vec![false, true]),
    )
    .unwrap();
    assert_eq!(array.bytes_at(0), None);
    assert_eq!(array.bytes_at(1), Some(b"b".to_vec()));
    let tail = array.slice(1..2).unwrap();
    assert_eq!(tail.bytes_at(0), Some(b"b".to_vec()));
    assert!(!array.same(&tail));
}

#[test]
fn slices_stay_within_the_column() {
    let array = VarBinViewArray::from_iter_str(&["a", "b"]);
    assert_eq!(array.slice(2..2).unwrap().len(), 0);
    assert_eq!(
        message(array.slice(1..3)),
        "rows 1..3 are out of bounds for 2 rows"
    );
    assert_eq!(
        message(array.slice(2..1)),
        "rows 2..1 are out of bounds for 2 rows"
    );
}

#[test]
fn views_give_back_their_parts() {
    let inlined = BinaryView::new_inlined(b"ololo");
    assert!(inlined.is_inlined());
    assert_eq!(inlined.len(), 5);
    assert_eq!(inlined.inlined(), b"ololo".to_vec());

    let view = BinaryView::new_ref(13, *b"AAAA", 0xDEAD_BEEF, 0xF000_0000);
    assert!(!view.is_inlined());
    assert_eq!(view.len(), 13);
    assert_eq!(view.prefix(), *b"AAAA");
    assert_eq!(view.buffer_index(), 0xDEAD_BEEF);
    assert_eq!(view.offset(), 0xF000_0000);
}
