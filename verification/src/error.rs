//! Why an execution or a type check failed.

use vstd::prelude::*;

use crate::dtype::{DType, DTypeModel, PType};
use crate::text::{decimal, push_decimal};

verus! {

/// A failed execution or type check.
#[derive(Debug)]
pub enum Error {
    /// What a row computation, an element or a sink reports of its own accord.
    Message(String),
    /// An output sink does not address exactly `row_count` rows.
    SinkRows { row_count: usize },
    /// A decoded input does not address exactly `row_count` rows.
    InputRows { row_count: usize },
    /// Rows can only be skipped where some are null and some are not.
    MixedMaskRequired,
    /// A sink declares a nullable type.
    NullableSink { dtype: DType },
    /// A function got `got` arguments in place of `expected`.
    ArgumentCount { expected: usize, got: usize },
    /// An element cannot be read from a column of this type.
    UnexpectedDType { dtype: DType },
    /// A function has no wire representation.
    NotSerializable,
    /// Columns of a batch do not all have `row_count` rows.
    ColumnRows { row_count: usize },
    /// A function produced `got` rows for `expected` input rows.
    ResultRows { got: usize, expected: usize },
    /// An element accepted columns of a type that it was expected to reject.
    AcceptedDType { dtype: DType },
    /// No row of an array of this type is null.
    NoNullRow { dtype: DType },
    /// An element decoded `expected` rows into `got`.
    DecodedRows { got: usize, expected: usize },
    /// Selectors name `branches` value columns and `rows` rows.
    SelectorRows { branches: usize, rows: usize },
    /// Output row `row` selects value column `branch` out of `count`.
    BranchOutOfBounds { row: usize, branch: usize, count: usize },
    /// Output row `row` selects row `selected` of a value column of `len` rows.
    RowOutOfBounds { row: usize, selected: usize, len: usize },
    /// The operands of an intersection have different coordinate reference systems.
    DifferentCrs { left: String, right: String },
    /// An intersection got `got` operands in place of two.
    OperandCount { got: usize },
    /// An operand of an intersection is not a native polygon.
    NotAPolygon { dtype: DType },
    /// A tensor function got no columns.
    NoTensor,
    /// A tensor function got columns of a type that is no tensor type.
    NotATensor { dtype: DType },
    /// A tensor function got columns of different tensor types.
    DifferentTensors { first: DType, other: DType },
    /// A tensor function got tensors whose elements are no floats.
    NotAFloat { element: PType },
    /// Columns of this type hold neither strings nor byte strings.
    NotBytes { dtype: DType },
    /// There are `views` views and a validity of `rows` rows.
    ViewRows { views: usize, rows: usize },
    /// Row `row` is null, but the type of the column allows no nulls.
    UnexpectedNull { row: usize },
    /// The view at row `row` leads out of the buffers.
    ViewOutOfBounds { row: usize },
    /// The view at row `row` does not start as the bytes it leads to.
    ViewPrefix { row: usize },
    /// The bytes of row `row` are no string.
    NotUtf8 { row: usize },
    /// Rows `start` to `stop` are asked of `len`.
    SliceOutOfBounds { start: usize, stop: usize, len: usize },
}

/// What an [`Error`] denotes.
pub enum ErrorModel {
    Message(Seq<char>),
    SinkRows { row_count: nat },
    InputRows { row_count: nat },
    MixedMaskRequired,
    NullableSink { dtype: DTypeModel },
    ArgumentCount { expected: nat, got: nat },
    UnexpectedDType { dtype: DTypeModel },
    NotSerializable,
    ColumnRows { row_count: nat },
    ResultRows { got: nat, expected: nat },
    AcceptedDType { dtype: DTypeModel },
    NoNullRow { dtype: DTypeModel },
    DecodedRows { got: nat, expected: nat },
    SelectorRows { branches: nat, rows: nat },
    BranchOutOfBounds { row: nat, branch: nat, count: nat },
    RowOutOfBounds { row: nat, selected: nat, len: nat },
    DifferentCrs { left: Seq<char>, right: Seq<char> },
    OperandCount { got: nat },
    NotAPolygon { dtype: DTypeModel },
    NoTensor,
    NotATensor { dtype: DTypeModel },
    DifferentTensors { first: DTypeModel, other: DTypeModel },
    NotAFloat { element: PType },
    NotBytes { dtype: DTypeModel },
    ViewRows { views: nat, rows: nat },
    UnexpectedNull { row: nat },
    ViewOutOfBounds { row: nat },
    ViewPrefix { row: nat },
    NotUtf8 { row: nat },
    SliceOutOfBounds { start: nat, stop: nat, len: nat },
}

impl View for Error {
    type V = ErrorModel;

    open spec fn view(&self) -> ErrorModel {
        match *self {
            Error::Message(text) => ErrorModel::Message(text@),
            Error::SinkRows { row_count } => ErrorModel::SinkRows { row_count: row_count as nat },
            Error::InputRows { row_count } => ErrorModel::InputRows { row_count: row_count as nat },
            Error::MixedMaskRequired => ErrorModel::MixedMaskRequired,
            Error::NullableSink { dtype } => ErrorModel::NullableSink { dtype: dtype@ },
            Error::ArgumentCount { expected, got } => ErrorModel::ArgumentCount {
                expected: expected as nat,
                got: got as nat,
            },
            Error::UnexpectedDType { dtype } => ErrorModel::UnexpectedDType { dtype: dtype@ },
            Error::NotSerializable => ErrorModel::NotSerializable,
            Error::ColumnRows { row_count } => ErrorModel::ColumnRows {
                row_count: row_count as nat,
            },
            Error::ResultRows { got, expected } => ErrorModel::ResultRows {
                got: got as nat,
                expected: expected as nat,
            },
            Error::AcceptedDType { dtype } => ErrorModel::AcceptedDType { dtype: dtype@ },
            Error::NoNullRow { dtype } => ErrorModel::NoNullRow { dtype: dtype@ },
            Error::DecodedRows { got, expected } => ErrorModel::DecodedRows {
                got: got as nat,
                expected: expected as nat,
            },
            Error::SelectorRows { branches, rows } => ErrorModel::SelectorRows {
                branches: branches as nat,
                rows: rows as nat,
            },
            Error::BranchOutOfBounds { row, branch, count } => ErrorModel::BranchOutOfBounds {
                row: row as nat,
                branch: branch as nat,
                count: count as nat,
            },
            Error::RowOutOfBounds { row, selected, len } => ErrorModel::RowOutOfBounds {
                row: row as nat,
                selected: selected as nat,
                len: len as nat,
            },
            Error::DifferentCrs { left, right } => ErrorModel::DifferentCrs {
                left: left@,
                right: right@,
            },
            Error::OperandCount { got } => ErrorModel::OperandCount { got: got as nat },
            Error::NotAPolygon { dtype } => ErrorModel::NotAPolygon { dtype: dtype@ },
            Error::NoTensor => ErrorModel::NoTensor,
            Error::NotATensor { dtype } => ErrorModel::NotATensor { dtype: dtype@ },
            Error::DifferentTensors { first, other } => ErrorModel::DifferentTensors {
                first: first@,
                other: other@,
            },
            Error::NotAFloat { element } => ErrorModel::NotAFloat { element },
            Error::NotBytes { dtype } => ErrorModel::NotBytes { dtype: dtype@ },
            Error::ViewRows { views, rows } => ErrorModel::ViewRows {
                views: views as nat,
                rows: rows as nat,
            },
            Error::UnexpectedNull { row } => ErrorModel::UnexpectedNull { row: row as nat },
            Error::ViewOutOfBounds { row } => ErrorModel::ViewOutOfBounds { row: row as nat },
            Error::ViewPrefix { row } => ErrorModel::ViewPrefix { row: row as nat },
            Error::NotUtf8 { row } => ErrorModel::NotUtf8 { row: row as nat },
            Error::SliceOutOfBounds { start, stop, len } => ErrorModel::SliceOutOfBounds {
                start: start as nat,
                stop: stop as nat,
                len: len as nat,
            },
        }
    }
}

impl ErrorModel {
    /// How the error reads.
    pub open spec fn text(self) -> Seq<char> {
        match self {
            ErrorModel::Message(text) => text,
            ErrorModel::SinkRows { row_count } => {
                "the output sink does not address exactly "@ + decimal(row_count) + " rows"@
            },
            ErrorModel::InputRows { row_count } => {
                "a decoded row input does not address exactly "@ + decimal(row_count) + " rows"@
            },
            ErrorModel::MixedMaskRequired => "execute_row_sink_branch requires a mixed mask"@,
            ErrorModel::NullableSink { dtype } => {
                "row output sinks must declare a non-nullable dtype, got "@ + dtype.text()
            },
            ErrorModel::ArgumentCount { expected, got } => {
                "expected "@ + decimal(expected) + " arguments, got "@ + decimal(got)
            },
            ErrorModel::UnexpectedDType { dtype } => {
                "cannot read columns of dtype "@ + dtype.text()
            },
            ErrorModel::NotSerializable => "the function is not serializable"@,
            ErrorModel::ColumnRows { row_count } => {
                "a column does not have exactly "@ + decimal(row_count) + " rows"@
            },
            ErrorModel::ResultRows { got, expected } => {
                "the function produced "@ + decimal(got) + " rows for "@ + decimal(expected)
                    + " input rows"@
            },
            ErrorModel::AcceptedDType { dtype } => {
                "element accepted "@ + dtype.text() + ", which it was expected to reject"@
            },
            ErrorModel::NoNullRow { dtype } => {
                "conformance needs a null row to read behind, but every row of the "@
                    + dtype.text() + " input is valid"@
            },
            ErrorModel::DecodedRows { got, expected } => {
                "varying element view changed the decoded row count: "@ + decimal(got) + " for "@
                    + decimal(expected)
            },
            ErrorModel::SelectorRows { branches, rows } => {
                "interleave has "@ + decimal(branches) + " array selectors and "@ + decimal(rows)
                    + " row selectors"@
            },
            ErrorModel::BranchOutOfBounds { row, branch, count } => {
                "interleave row "@ + decimal(row) + " selects array "@ + decimal(branch) + " of "@
                    + decimal(count)
            },
            ErrorModel::RowOutOfBounds { row, selected, len } => {
                "interleave row "@ + decimal(row) + " selects row "@ + decimal(selected) + " of "@
                    + decimal(len)
            },
            ErrorModel::DifferentCrs { left, right } => {
                "geo: intersection operands have different coordinate reference systems: "@ + left
                    + " and "@ + right
            },
            ErrorModel::OperandCount { got } => {
                "geo: intersection requires exactly two Polygon operands, got "@ + decimal(got)
            },
            ErrorModel::NotAPolygon { dtype } => {
                "geo: intersection operand "@ + dtype.text() + " is not a native Polygon"@
            },
            ErrorModel::NoTensor => "a tensor function requires a tensor column"@,
            ErrorModel::NotATensor { dtype } => {
                "a tensor function requires tensor columns, got "@ + dtype.text()
            },
            ErrorModel::DifferentTensors { first, other } => {
                "a tensor function requires columns of one dtype, got "@ + first.text() + " and "@
                    + other.text()
            },
            ErrorModel::NotAFloat { element } => {
                "a tensor function requires float elements, got "@ + element.text()
            },
            ErrorModel::NotBytes { dtype } => {
                "views hold strings or byte strings, got dtype "@ + dtype.text()
            },
            ErrorModel::ViewRows { views, rows } => {
                decimal(views) + " views for "@ + decimal(rows) + " rows of validity"@
            },
            ErrorModel::UnexpectedNull { row } => {
                "row "@ + decimal(row) + " of a non-nullable column is null"@
            },
            ErrorModel::ViewOutOfBounds { row } => {
                "the view at row "@ + decimal(row) + " is out of bounds"@
            },
            ErrorModel::ViewPrefix { row } => {
                "the prefix of the view at row "@ + decimal(row) + " does not match its bytes"@
            },
            ErrorModel::NotUtf8 { row } => {
                "the bytes of row "@ + decimal(row) + " are not valid UTF-8"@
            },
            ErrorModel::SliceOutOfBounds { start, stop, len } => {
                "rows "@ + decimal(start) + ".."@ + decimal(stop) + " are out of bounds for "@
                    + decimal(len) + " rows"@
            },
        }
    }
}

impl Error {
    /// How the error reads.
    pub fn message(&self) -> (text: String)
        ensures
            text@ == self@.text(),
    {
        match self {
            Error::Message(text) => text.clone(),
            Error::SinkRows { row_count } => {
                let mut text = "the output sink does not address exactly ".to_owned();
                push_decimal(&mut text, *row_count);
                text.append(" rows");
                text
            },
            Error::InputRows { row_count } => {
                let mut text = "a decoded row input does not address exactly ".to_owned();
                push_decimal(&mut text, *row_count);
                text.append(" rows");
                text
            },
            Error::MixedMaskRequired => "execute_row_sink_branch requires a mixed mask".to_owned(),
            Error::NullableSink { dtype } => {
                let mut text =
                    "row output sinks must declare a non-nullable dtype, got ".to_owned();
                text.append(dtype.text().as_str());
                text
            },
            Error::ArgumentCount { expected, got } => {
                let mut text = "expected ".to_owned();
                push_decimal(&mut text, *expected);
                text.append(" arguments, got ");
                push_decimal(&mut text, *got);
                text
            },
            Error::UnexpectedDType { dtype } => {
                let mut text = "cannot read columns of dtype ".to_owned();
                text.append(dtype.text().as_str());
                text
            },
            Error::NotSerializable => "the function is not serializable".to_owned(),
            Error::ColumnRows { row_count } => {
                let mut text = "a column does not have exactly ".to_owned();
                push_decimal(&mut text, *row_count);
                text.append(" rows");
                text
            },
            Error::ResultRows { got, expected } => {
                let mut text = "the function produced ".to_owned();
                push_decimal(&mut text, *got);
                text.append(" rows for ");
                push_decimal(&mut text, *expected);
                text.append(" input rows");
                text
            },
            Error::AcceptedDType { dtype } => {
                let mut text = "element accepted ".to_owned();
                text.append(dtype.text().as_str());
                text.append(", which it was expected to reject");
                text
            },
            Error::NoNullRow { dtype } => {
                let mut text =
                    "conformance needs a null row to read behind, but every row of the ".to_owned();
                text.append(dtype.text().as_str());
                text.append(" input is valid");
                text
            },
            Error::DecodedRows { got, expected } => {
                let mut text = "varying element view changed the decoded row count: ".to_owned();
                push_decimal(&mut text, *got);
                text.append(" for ");
                push_decimal(&mut text, *expected);
                text
            },
            Error::SelectorRows { branches, rows } => {
                let mut text = "interleave has ".to_owned();
                push_decimal(&mut text, *branches);
                text.append(" array selectors and ");
                push_decimal(&mut text, *rows);
                text.append(" row selectors");
                text
            },
            Error::BranchOutOfBounds { row, branch, count } => {
                let mut text = "interleave row ".to_owned();
                push_decimal(&mut text, *row);
                text.append(" selects array ");
                push_decimal(&mut text, *branch);
                text.append(" of ");
                push_decimal(&mut text, *count);
                text
            },
            Error::RowOutOfBounds { row, selected, len } => {
                let mut text = "interleave row ".to_owned();
                push_decimal(&mut text, *row);
                text.append(" selects row ");
                push_decimal(&mut text, *selected);
                text.append(" of ");
                push_decimal(&mut text, *len);
                text
            },
            Error::DifferentCrs { left, right } => {
                let mut text =
                    "geo: intersection operands have different coordinate reference systems: ".to_owned();
                text.append(left.as_str());
                text.append(" and ");
                text.append(right.as_str());
                text
            },
            Error::OperandCount { got } => {
                let mut text =
                    "geo: intersection requires exactly two Polygon operands, got ".to_owned();
                push_decimal(&mut text, *got);
                text
            },
            Error::NotAPolygon { dtype } => {
                let mut text = "geo: intersection operand ".to_owned();
                text.append(dtype.text().as_str());
                text.append(" is not a native Polygon");
                text
            },
            Error::NoTensor => "a tensor function requires a tensor column".to_owned(),
            Error::NotATensor { dtype } => {
                let mut text = "a tensor function requires tensor columns, got ".to_owned();
                text.append(dtype.text().as_str());
                text
            },
            Error::DifferentTensors { first, other } => {
                let mut text = "a tensor function requires columns of one dtype, got ".to_owned();
                text.append(first.text().as_str());
                text.append(" and ");
                text.append(other.text().as_str());
                text
            },
            Error::NotAFloat { element } => {
                let mut text = "a tensor function requires float elements, got ".to_owned();
                text.append(element.name());
                text
            },
            Error::NotBytes { dtype } => {
                let mut text = "views hold strings or byte strings, got dtype ".to_owned();
                text.append(dtype.text().as_str());
                text
            },
            Error::ViewRows { views, rows } => {
                let mut text = "".to_owned();
                push_decimal(&mut text, *views);
                proof {
                    reveal_strlit("");
                    assert(text@ =~= decimal(*views as nat));
                }
                text.append(" views for ");
                push_decimal(&mut text, *rows);
                text.append(" rows of validity");
                text
            },
            Error::UnexpectedNull { row } => {
                let mut text = "row ".to_owned();
                push_decimal(&mut text, *row);
                text.append(" of a non-nullable column is null");
                text
            },
            Error::ViewOutOfBounds { row } => {
                let mut text = "the view at row ".to_owned();
                push_decimal(&mut text, *row);
                text.append(" is out of bounds");
                text
            },
            Error::ViewPrefix { row } => {
                let mut text = "the prefix of the view at row ".to_owned();
                push_decimal(&mut text, *row);
                text.append(" does not match its bytes");
                text
            },
            Error::NotUtf8 { row } => {
                let mut text = "the bytes of row ".to_owned();
                push_decimal(&mut text, *row);
                text.append(" are not valid UTF-8");
                text
            },
            Error::SliceOutOfBounds { start, stop, len } => {
                let mut text = "rows ".to_owned();
                push_decimal(&mut text, *start);
                text.append("..");
                push_decimal(&mut text, *stop);
                text.append(" are out of bounds for ");
                push_decimal(&mut text, *len);
                text.append(" rows");
                text
            },
        }
    }
}

/// Nothing is lost of an error in what it denotes: it is of the same kind, and every part is kept
/// under its name.
pub proof fn errors_denote_their_parts(error: Error)
    ensures
        error@ == match error {
            Error::Message(text) => ErrorModel::Message(text@),
            Error::SinkRows { row_count } => ErrorModel::SinkRows { row_count: row_count as nat },
            Error::InputRows { row_count } => ErrorModel::InputRows { row_count: row_count as nat },
            Error::MixedMaskRequired => ErrorModel::MixedMaskRequired,
            Error::NullableSink { dtype } => ErrorModel::NullableSink { dtype: dtype@ },
            Error::ArgumentCount { expected, got } => ErrorModel::ArgumentCount {
                expected: expected as nat,
                got: got as nat,
            },
            Error::UnexpectedDType { dtype } => ErrorModel::UnexpectedDType { dtype: dtype@ },
            Error::NotSerializable => ErrorModel::NotSerializable,
            Error::ColumnRows { row_count } => ErrorModel::ColumnRows {
                row_count: row_count as nat,
            },
            Error::ResultRows { got, expected } => ErrorModel::ResultRows {
                got: got as nat,
                expected: expected as nat,
            },
            Error::AcceptedDType { dtype } => ErrorModel::AcceptedDType { dtype: dtype@ },
            Error::NoNullRow { dtype } => ErrorModel::NoNullRow { dtype: dtype@ },
            Error::DecodedRows { got, expected } => ErrorModel::DecodedRows {
                got: got as nat,
                expected: expected as nat,
            },
            Error::SelectorRows { branches, rows } => ErrorModel::SelectorRows {
                branches: branches as nat,
                rows: rows as nat,
            },
            Error::BranchOutOfBounds { row, branch, count } => ErrorModel::BranchOutOfBounds {
                row: row as nat,
                branch: branch as nat,
                count: count as nat,
            },
            Error::RowOutOfBounds { row, selected, len } => ErrorModel::RowOutOfBounds {
                row: row as nat,
                selected: selected as nat,
                len: len as nat,
            },
            Error::DifferentCrs { left, right } => ErrorModel::DifferentCrs {
                left: left@,
                right: right@,
            },
            Error::OperandCount { got } => ErrorModel::OperandCount { got: got as nat },
            Error::NotAPolygon { dtype } => ErrorModel::NotAPolygon { dtype: dtype@ },
            Error::NoTensor => ErrorModel::NoTensor,
            Error::NotATensor { dtype } => ErrorModel::NotATensor { dtype: dtype@ },
            Error::DifferentTensors { first, other } => ErrorModel::DifferentTensors {
                first: first@,
                other: other@,
            },
            Error::NotAFloat { element } => ErrorModel::NotAFloat { element },
            Error::NotBytes { dtype } => ErrorModel::NotBytes { dtype: dtype@ },
            Error::ViewRows { views, rows } => ErrorModel::ViewRows {
                views: views as nat,
                rows: rows as nat,
            },
            Error::UnexpectedNull { row } => ErrorModel::UnexpectedNull { row: row as nat },
            Error::ViewOutOfBounds { row } => ErrorModel::ViewOutOfBounds { row: row as nat },
            Error::ViewPrefix { row } => ErrorModel::ViewPrefix { row: row as nat },
            Error::NotUtf8 { row } => ErrorModel::NotUtf8 { row: row as nat },
            Error::SliceOutOfBounds { start, stop, len } => ErrorModel::SliceOutOfBounds {
                start: start as nat,
                stop: stop as nat,
                len: len as nat,
            },
        },
{
}

/// An error says what went wrong, with each of its parts in its place.
pub proof fn errors_say_what_went_wrong(error: Error, message: String)
    requires
        call_ensures(Error::message, (&error,), message),
    ensures
        message@ == match error {
            Error::Message(text) => text@,
            Error::SinkRows { row_count } => {
                "the output sink does not address exactly "@ + decimal(row_count as nat) + " rows"@
            },
            Error::InputRows { row_count } => {
                "a decoded row input does not address exactly "@ + decimal(row_count as nat)
                    + " rows"@
            },
            Error::MixedMaskRequired => "execute_row_sink_branch requires a mixed mask"@,
            Error::NullableSink { dtype } => {
                "row output sinks must declare a non-nullable dtype, got "@ + dtype@.text()
            },
            Error::ArgumentCount { expected, got } => {
                "expected "@ + decimal(expected as nat) + " arguments, got "@ + decimal(got as nat)
            },
            Error::UnexpectedDType { dtype } => {
                "cannot read columns of dtype "@ + dtype@.text()
            },
            Error::NotSerializable => "the function is not serializable"@,
            Error::ColumnRows { row_count } => {
                "a column does not have exactly "@ + decimal(row_count as nat) + " rows"@
            },
            Error::ResultRows { got, expected } => {
                "the function produced "@ + decimal(got as nat) + " rows for "@ + decimal(
                    expected as nat,
                ) + " input rows"@
            },
            Error::AcceptedDType { dtype } => {
                "element accepted "@ + dtype@.text() + ", which it was expected to reject"@
            },
            Error::NoNullRow { dtype } => {
                "conformance needs a null row to read behind, but every row of the "@
                    + dtype@.text() + " input is valid"@
            },
            Error::DecodedRows { got, expected } => {
                "varying element view changed the decoded row count: "@ + decimal(got as nat)
                    + " for "@ + decimal(expected as nat)
            },
            Error::SelectorRows { branches, rows } => {
                "interleave has "@ + decimal(branches as nat) + " array selectors and "@
                    + decimal(rows as nat) + " row selectors"@
            },
            Error::BranchOutOfBounds { row, branch, count } => {
                "interleave row "@ + decimal(row as nat) + " selects array "@
                    + decimal(branch as nat) + " of "@ + decimal(count as nat)
            },
            Error::RowOutOfBounds { row, selected, len } => {
                "interleave row "@ + decimal(row as nat) + " selects row "@
                    + decimal(selected as nat) + " of "@ + decimal(len as nat)
            },
            Error::DifferentCrs { left, right } => {
                "geo: intersection operands have different coordinate reference systems: "@ + left@
                    + " and "@ + right@
            },
            Error::OperandCount { got } => {
                "geo: intersection requires exactly two Polygon operands, got "@
                    + decimal(got as nat)
            },
            Error::NotAPolygon { dtype } => {
                "geo: intersection operand "@ + dtype@.text() + " is not a native Polygon"@
            },
            Error::NoTensor => "a tensor function requires a tensor column"@,
            Error::NotATensor { dtype } => {
                "a tensor function requires tensor columns, got "@ + dtype@.text()
            },
            Error::DifferentTensors { first, other } => {
                "a tensor function requires columns of one dtype, got "@ + first@.text() + " and "@
                    + other@.text()
            },
            Error::NotAFloat { element } => {
                "a tensor function requires float elements, got "@ + element.text()
            },
            Error::NotBytes { dtype } => {
                "views hold strings or byte strings, got dtype "@ + dtype@.text()
            },
            Error::ViewRows { views, rows } => {
                decimal(views as nat) + " views for "@ + decimal(rows as nat) + " rows of validity"@
            },
            Error::UnexpectedNull { row } => {
                "row "@ + decimal(row as nat) + " of a non-nullable column is null"@
            },
            Error::ViewOutOfBounds { row } => {
                "the view at row "@ + decimal(row as nat) + " is out of bounds"@
            },
            Error::ViewPrefix { row } => {
                "the prefix of the view at row "@ + decimal(row as nat)
                    + " does not match its bytes"@
            },
            Error::NotUtf8 { row } => {
                "the bytes of row "@ + decimal(row as nat) + " are not valid UTF-8"@
            },
            Error::SliceOutOfBounds { start, stop, len } => {
                "rows "@ + decimal(start as nat) + ".."@ + decimal(stop as nat)
                    + " are out of bounds for "@ + decimal(len as nat) + " rows"@
            },
        },
{
}

} // verus!
