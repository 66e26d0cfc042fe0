//! Pairwise planar intersection of native polygons.

use vstd::prelude::*;

use crate::array::{lemma_filter_wf, lemma_rows, nulls, repeated, reverse, Array, ArrayModel};
use crate::dtype::{
    any_nullable, is_any_nullable, models, Crs, DType, DTypeModel, ExtDType, ExtModel, GeoMetadata,
    Nullability,
};
use crate::error::{Error, ErrorModel};
use crate::geometry::execute::{
    binary_execution, dispatch_binary, either_null, holds_one_value, Execution, Operand,
};
use crate::mask::{
    all_set, both, lemma_all_set_rank, lemma_filtered_at, lemma_filtered_len, lemma_filtered_source,
    lemma_rank_of_set, none_set, rank, scattered, set_count, set_indices, AllOr, Mask,
};
use crate::row::row_fn::EmptyOptions;

verus! {

/// The reference system that two polygon operands share, if they can be intersected: one that
/// either names is taken over, and two that differ exclude each other.
pub open spec fn shared_crs(left: Crs, right: Crs) -> Option<Crs> {
    match (left, right) {
        (Some(l), Some(r)) => if l == r {
            Some(left)
        } else {
            None
        },
        (Some(_), None) => Some(left),
        (None, _) => Some(right),
    }
}

/// Resolve the metadata shared by two polygon operands.
pub fn intersection_metadata(left: &GeoMetadata, right: &GeoMetadata) -> (result: Result<
    GeoMetadata,
    Error,
>)
    ensures
        match result {
            Ok(metadata) => shared_crs(left@, right@) == Some(metadata@),
            Err(error) => shared_crs(left@, right@) is None && error@
                == (ErrorModel::DifferentCrs { left: left@->0, right: right@->0 }),
        },
{
    match (&left.crs, &right.crs) {
        (Some(left_crs), Some(right_crs)) => {
            if *left_crs != *right_crs {
                return Err(
                    Error::DifferentCrs { left: left_crs.clone(), right: right_crs.clone() },
                );
            }
            Ok(left.clone())
        },
        (Some(_), None) => Ok(left.clone()),
        (None, Some(_)) => Ok(right.clone()),
        (None, None) => Ok(GeoMetadata::default()),
    }
}

/// Whether a type is that of native polygons.
pub open spec fn is_polygon(dtype: DTypeModel) -> bool {
    dtype matches DTypeModel::Extension(ExtModel::Polygon(_, _))
}

/// The reference system of a type of native polygons.
pub open spec fn polygon_crs(dtype: DTypeModel) -> Crs {
    dtype->Extension_0->Polygon_0
}

/// Why operands of these types cannot be intersected.
pub open spec fn intersection_rejection(dtypes: Seq<DTypeModel>) -> Option<ErrorModel> {
    if dtypes.len() != 2 {
        Some(ErrorModel::OperandCount { got: dtypes.len() })
    } else if !is_polygon(dtypes[0]) {
        Some(ErrorModel::NotAPolygon { dtype: dtypes[0] })
    } else if !is_polygon(dtypes[1]) {
        Some(ErrorModel::NotAPolygon { dtype: dtypes[1] })
    } else if shared_crs(polygon_crs(dtypes[0]), polygon_crs(dtypes[1])) is None {
        Some(
            ErrorModel::DifferentCrs {
                left: polygon_crs(dtypes[0])->0,
                right: polygon_crs(dtypes[1])->0,
            },
        )
    } else {
        None
    }
}

/// The type of the intersection of operands of these types: multipolygons in the shared reference
/// system, nullable where an operand is.
pub open spec fn intersection_type(dtypes: Seq<DTypeModel>) -> ExtModel {
    ExtModel::MultiPolygon(
        shared_crs(polygon_crs(dtypes[0]), polygon_crs(dtypes[1]))->0,
        if any_nullable(dtypes) {
            Nullability::Nullable
        } else {
            Nullability::NonNullable
        },
    )
}

/// The metadata of a type of native polygons.
fn polygon_metadata(dtype: &DType) -> (metadata: Option<&GeoMetadata>)
    ensures
        match metadata {
            Some(metadata) => is_polygon(dtype@) && metadata@ == polygon_crs(dtype@),
            None => !is_polygon(dtype@),
        },
{
    match dtype {
        DType::Extension(ExtDType::Polygon(metadata, _)) => Some(metadata),
        _ => None,
    }
}

/// Resolve the strict native `Polygon x Polygon -> MultiPolygon` overload.
pub fn intersection_dtype(dtypes: &[DType]) -> (result: Result<ExtDType, Error>)
    ensures
        match result {
            Ok(dtype) => {
                &&& intersection_rejection(models(dtypes@)) is None
                &&& dtype@ == intersection_type(models(dtypes@))
            },
            Err(error) => intersection_rejection(models(dtypes@)) == Some(error@),
        },
{
    if dtypes.len() != 2 {
        return Err(Error::OperandCount { got: dtypes.len() });
    }
    let left = match polygon_metadata(&dtypes[0]) {
        Some(metadata) => metadata,
        None => return Err(Error::NotAPolygon { dtype: dtypes[0].clone() }),
    };
    let right = match polygon_metadata(&dtypes[1]) {
        Some(metadata) => metadata,
        None => return Err(Error::NotAPolygon { dtype: dtypes[1].clone() }),
    };
    let metadata = match intersection_metadata(left, right) {
        Ok(metadata) => metadata,
        Err(error) => return Err(error),
    };
    let nullability = Nullability::from_bool(is_any_nullable(dtypes));
    Ok(ExtDType::MultiPolygon(metadata, nullability))
}

/// A column of multipolygons, null where there is none. Only a nullable column may lack any.
fn build_multipolygon_array<M>(
    rows: Vec<Option<M>>,
    metadata: &GeoMetadata,
    nullability: Nullability,
) -> (array: Array<M>)
    requires
        nullability == Nullability::NonNullable ==> forall|i: int|
            0 <= i < rows@.len() ==> (#[trigger] rows@[i]) is Some,
    ensures
        array@.dtype == DTypeModel::Extension(ExtModel::MultiPolygon(metadata@, nullability)),
        array@.constant is None,
        array@.rows() == rows@,
{
    let dtype = DType::Extension(ExtDType::MultiPolygon(metadata.clone(), nullability));
    if nullability.is_nullable() {
        let array = Array::from_options(rows, dtype);
        assert(array@.rows() =~= rows@);
        return array;
    }
    let ghost all = rows@;
    let mut backwards = reverse(rows);
    let mut values: Vec<M> = Vec::with_capacity(backwards.len());
    while backwards.len() > 0
        invariant
            backwards@.len() + values@.len() == all.len(),
            backwards@ == all.reverse().take(backwards@.len() as int),
            forall|i: int| 0 <= i < all.len() ==> (#[trigger] all[i]) is Some,
            forall|i: int| 0 <= i < values@.len() ==> Some(#[trigger] values@[i]) == all[i],
        decreases backwards@.len(),
    {
        let ghost n = backwards@.len();
        let row = backwards.pop();
        match row {
            Some(Some(value)) => {
                assert(all.reverse()[n - 1] == all[all.len() - n]);
                values.push(value);
            },
            _ => {
                assert(all[all.len() - n] is Some);
            },
        }
        assert(backwards@ =~= all.reverse().take(backwards@.len() as int));
    }
    let array = Array::from_values(values, dtype);
    assert(array@.rows() =~= all);
    array
}

/// Scatter valid intersection results and build their native column.
fn build_intersections<G, M>(
    intersections: Vec<M>,
    execution: &Execution<'_, G, 2>,
    metadata: &GeoMetadata,
) -> (array: Array<M>)
    requires
        execution.len == execution.valid@.len(),
        intersections@.len() == set_count(execution.valid@),
        execution.nullability == Nullability::NonNullable ==> forall|i: int|
            0 <= i < execution.valid@.len() ==> #[trigger] execution.valid@[i],
    ensures
        array@.dtype == DTypeModel::Extension(
            ExtModel::MultiPolygon(metadata@, execution.nullability),
        ),
        array@.constant is None,
        array@.rows() == scattered(intersections@, execution.valid@),
{
    let ghost all = intersections@;
    let ghost valid = execution.valid@;
    let mut backwards = reverse(intersections);
    let mut output: Vec<Option<M>> = Vec::with_capacity(execution.len);
    match execution.valid.indices() {
        AllOr::All => {
            while backwards.len() > 0
                invariant
                    all_set(valid),
                    all.len() == set_count(valid),
                    backwards@.len() + output@.len() == all.len(),
                    backwards@ == all.reverse().take(backwards@.len() as int),
                    forall|i: int|
                        0 <= i < output@.len() ==> #[trigger] output@[i] == Some(all[i]),
                decreases backwards@.len(),
            {
                let ghost n = backwards@.len();
                if let Some(intersection) = backwards.pop() {
                    assert(all.reverse()[n - 1] == all[all.len() - n]);
                    output.push(Some(intersection));
                }
                assert(backwards@ =~= all.reverse().take(backwards@.len() as int));
            }
            proof {
                lemma_all_set_rank(valid, valid.len() as int);
                assert forall|i: int| 0 <= i < valid.len() implies output@[i] == scattered(
                    all,
                    valid,
                )[i] by {
                    lemma_all_set_rank(valid, i);
                }
            }
        },
        AllOr::Nothing => {
            while output.len() < execution.len
                invariant
                    output@.len() <= execution.len,
                    forall|i: int| 0 <= i < output@.len() ==> (#[trigger] output@[i]) is None,
                decreases execution.len - output@.len(),
            {
                output.push(None);
            }
        },
        AllOr::Mixed(rows) => {
            while output.len() < execution.len
                invariant
                    output@.len() <= execution.len,
                    forall|i: int| 0 <= i < output@.len() ==> (#[trigger] output@[i]) is None,
                decreases execution.len - output@.len(),
            {
                output.push(None);
            }
            let ghost targets = set_indices(valid);
            proof {
                lemma_filtered_len(Seq::new(valid.len(), |i: int| i), valid);
            }
            let mut k: usize = 0;
            while k < rows.len()
                invariant
                    k <= rows@.len(),
                    rows@.map_values(|row: usize| row as int) == targets,
                    targets == set_indices(valid),
                    targets.len() == set_count(valid),
                    all.len() == set_count(valid),
                    output@.len() == valid.len(),
                    backwards@.len() == all.len() - k,
                    backwards@ == all.reverse().take(backwards@.len() as int),
                    forall|i: int|
                        0 <= i < output@.len() ==> #[trigger] output@[i] == if valid[i] && rank(
                            valid,
                            i,
                        ) < k {
                            Some(all[rank(valid, i) as int])
                        } else {
                            None
                        },
                decreases rows@.len() - k,
            {
                let ghost n = backwards@.len();
                let ghost positions = Seq::new(valid.len(), |i: int| i);
                proof {
                    let i = lemma_filtered_source(positions, valid, k as int);
                    assert(targets[k as int] == i);
                    assert(rows@.map_values(|row: usize| row as int)[k as int] == rows@[k as int]);
                }
                if let Some(intersection) = backwards.pop() {
                    assert(all.reverse()[n - 1] == all[k as int]);
                    output.set(rows[k], Some(intersection));
                }
                proof {
                    assert forall|i: int|
                        0 <= i < output@.len() implies #[trigger] output@[i] == if valid[i] && rank(
                        valid,
                        i,
                    ) < k + 1 {
                        Some(all[rank(valid, i) as int])
                    } else {
                        None
                    } by {
                        if valid[i] {
                            lemma_filtered_at(positions, valid, i);
                        }
                    }
                }
                assert(backwards@ =~= all.reverse().take(backwards@.len() as int));
                k += 1;
            }
            proof {
                assert forall|i: int| 0 <= i < valid.len() && valid[i] implies rank(valid, i)
                    < set_count(valid) by {
                    lemma_rank_of_set(valid, i);
                }
            }
        },
    }
    assert(output@ =~= scattered(all, valid));
    build_multipolygon_array(output, metadata, execution.nullability)
}

/// The value of row `i` of an operand.
pub open spec fn operand_row<G>(operand: Operand<G>, i: int) -> G {
    match operand {
        Operand::Constant(value) => *value,
        Operand::Column(column) => column@.payload[i]->0,
    }
}

/// Whether an operand has a value wherever `valid` is set.
pub open spec fn operand_covers<G>(operand: Operand<G>, valid: Seq<bool>) -> bool {
    operand matches Operand::Column(column) ==> {
        &&& column@.len() == valid.len()
        &&& forall|i: int| 0 <= i < valid.len() && valid[i] ==> #[trigger] column@.valid[i]
    }
}

/// Whether an intersection can be run: the operands have a value at every valid row, and rows are
/// null only where the output may be.
pub open spec fn runnable<G>(execution: Execution<G, 2>) -> bool {
    &&& execution.len == execution.valid@.len()
    &&& operand_covers(execution.operands@[0], execution.valid@)
    &&& operand_covers(execution.operands@[1], execution.valid@)
    &&& execution.nullability == Nullability::NonNullable ==> forall|i: int|
        0 <= i < execution.valid@.len() ==> #[trigger] execution.valid@[i]
}

/// Whether `intersect` takes every pair that an intersection calls it on: the one pair where both
/// operands are constant, and otherwise the pair of each valid row.
pub open spec fn takes_operands<G, M, F: Fn(&G, &G) -> M>(
    intersect: F,
    execution: Execution<G, 2>,
) -> bool {
    let left = execution.operands@[0];
    let right = execution.operands@[1];
    if left is Constant && right is Constant {
        call_requires(intersect, (&operand_row(left, 0), &operand_row(right, 0)))
    } else {
        forall|i: int|
            0 <= i < execution.valid@.len() && #[trigger] execution.valid@[i] ==> call_requires(
                intersect,
                (&operand_row(left, i), &operand_row(right, i)),
            )
    }
}

/// The valid rows of a column, each with its value.
fn valid_rows<G>(column: &Array<G>, valid: &Mask) -> (kept: Array<G>)
    requires
        operand_covers(Operand::Column(column), valid@),
    ensures
        kept@.len() == set_count(valid@),
        forall|k: int| 0 <= k < kept@.len() ==> (#[trigger] kept@.payload[k]) is Some,
        forall|i: int|
            0 <= i < valid@.len() && valid@[i] ==> kept@.payload[#[trigger] rank(valid@, i) as int]
                == column@.payload[i],
{
    let kept = column.filter(valid);
    proof {
        use_type_invariant(column);
        Array::lemma_wf(*column);
        lemma_filter_wf(column@, valid@);
        assert forall|k: int|
            0 <= k < kept@.len() implies (#[trigger] kept@.payload[k]) is Some by {
            let i = lemma_filtered_source(column@.payload, valid@, k);
            assert(column@.valid[i]);
        }
        assert forall|i: int| 0 <= i < valid@.len() && valid@[i] implies kept@.payload[
            #[trigger] rank(valid@, i) as int] == column@.payload[i] by {
            lemma_filtered_at(column@.payload, valid@, i);
        }
    }
    kept
}

/// The value of row `index`, which is there.
fn value_at<G>(kept: &Array<G>, index: usize) -> (value: &G)
    requires
        index < kept@.len(),
        kept@.payload[index as int] is Some,
    ensures
        *value == kept@.payload[index as int]->0,
{
    kept.payload(index).unwrap()
}

/// Whether `array` holds the intersection of two operands: of one pair for every row where both
/// are constant, and otherwise of each pair that is valid.
pub open spec fn intersected<G, M>(
    execution: Execution<G, 2>,
    crs: Crs,
    array: ArrayModel<M>,
    intersects: spec_fn(G, G, M) -> bool,
) -> bool {
    let dtype = DTypeModel::Extension(ExtModel::MultiPolygon(crs, execution.nullability));
    let left = execution.operands@[0];
    let right = execution.operands@[1];
    if left is Constant && right is Constant {
        exists|intersection: M|
            intersects(operand_row(left, 0), operand_row(right, 0), intersection) && array
                == #[trigger] repeated(dtype, intersection, execution.len as nat)
    } else {
        &&& array.dtype == dtype
        &&& array.constant is None
        &&& array.len() == execution.len
        &&& forall|i: int|
            0 <= i < execution.len ==> match #[trigger] array.row(i) {
                Some(intersection) => execution.valid@[i] && intersects(
                    operand_row(left, i),
                    operand_row(right, i),
                    intersection,
                ),
                None => !execution.valid@[i],
            }
    }
}

/// Execute intersection after shared binary shape and null dispatch.
#[verifier::loop_isolation(false)]
pub fn execute_intersection<G, M>(
    execution: Execution<'_, G, 2>,
    metadata: &GeoMetadata,
    intersect: impl Fn(&G, &G) -> M,
) -> (result: Result<Array<M>, Error>)
    requires
        runnable(execution),
        takes_operands(intersect, execution),
    ensures
        result matches Ok(array) && intersected(
            execution,
            metadata@,
            array@,
            |l: G, r: G, intersection: M| call_ensures(intersect, (&l, &r), intersection),
        ),
{
    let count = execution.valid.true_count();
    let mut values: Vec<M> = Vec::with_capacity(count);
    let ghost valid = execution.valid@;
    match (&execution.operands[0], &execution.operands[1]) {
        (Operand::Constant(left), Operand::Constant(right)) => {
            let intersection = intersect(left, right);
            let dtype = DType::Extension(
                ExtDType::MultiPolygon(metadata.clone(), execution.nullability),
            );
            return Ok(Array::constant(intersection, dtype, execution.len));
        },
        (Operand::Constant(left), Operand::Column(right)) => {
            let right = valid_rows(right, &execution.valid);
            assert forall|k: int| 0 <= k < count implies call_requires(
                intersect,
                (left, &(#[trigger] right@.payload[k])->0),
            ) by {
                let i = lemma_filtered_source(valid, valid, k);
                assert(valid[i] && rank(valid, i) == k);
            }
            while values.len() < count
                invariant
                    values@.len() <= count,
                    forall|k: int|
                        0 <= k < count ==> call_requires(
                            intersect,
                            (left, &(#[trigger] right@.payload[k])->0),
                        ),
                    right@.len() == count,
                    forall|k: int| 0 <= k < count ==> (#[trigger] right@.payload[k]) is Some,
                    forall|k: int|
                        0 <= k < values@.len() ==> call_ensures(
                            intersect,
                            (left, &right@.payload[k]->0),
                            #[trigger] values@[k],
                        ),
                decreases count - values@.len(),
            {
                let k = values.len();
                let intersection = intersect(left, value_at(&right, k));
                values.push(intersection);
            }
        },
        (Operand::Column(left), Operand::Constant(right)) => {
            let left = valid_rows(left, &execution.valid);
            assert forall|k: int| 0 <= k < count implies call_requires(
                intersect,
                (&(#[trigger] left@.payload[k])->0, right),
            ) by {
                let i = lemma_filtered_source(valid, valid, k);
                assert(valid[i] && rank(valid, i) == k);
            }
            while values.len() < count
                invariant
                    values@.len() <= count,
                    forall|k: int|
                        0 <= k < count ==> call_requires(
                            intersect,
                            (&(#[trigger] left@.payload[k])->0, right),
                        ),
                    left@.len() == count,
                    forall|k: int| 0 <= k < count ==> (#[trigger] left@.payload[k]) is Some,
                    forall|k: int|
                        0 <= k < values@.len() ==> call_ensures(
                            intersect,
                            (&left@.payload[k]->0, right),
                            #[trigger] values@[k],
                        ),
                decreases count - values@.len(),
            {
                let k = values.len();
                let intersection = intersect(value_at(&left, k), right);
                values.push(intersection);
            }
        },
        (Operand::Column(left), Operand::Column(right)) => {
            let left = valid_rows(left, &execution.valid);
            let right = valid_rows(right, &execution.valid);
            assert forall|k: int| 0 <= k < count implies call_requires(
                intersect,
                (&(#[trigger] left@.payload[k])->0, &right@.payload[k]->0),
            ) by {
                let i = lemma_filtered_source(valid, valid, k);
                assert(valid[i] && rank(valid, i) == k);
            }
            while values.len() < count
                invariant
                    values@.len() <= count,
                    forall|k: int|
                        0 <= k < count ==> call_requires(
                            intersect,
                            (&(#[trigger] left@.payload[k])->0, &right@.payload[k]->0),
                        ),
                    left@.len() == count,
                    forall|k: int| 0 <= k < count ==> (#[trigger] left@.payload[k]) is Some,
                    right@.len() == count,
                    forall|k: int| 0 <= k < count ==> (#[trigger] right@.payload[k]) is Some,
                    forall|k: int|
                        0 <= k < values@.len() ==> call_ensures(
                            intersect,
                            (&left@.payload[k]->0, &right@.payload[k]->0),
                            #[trigger] values@[k],
                        ),
                decreases count - values@.len(),
            {
                let k = values.len();
                let intersection = intersect(value_at(&left, k), value_at(&right, k));
                values.push(intersection);
            }
        },
    }
    let ghost all = values@;
    assert forall|i: int| 0 <= i < valid.len() && valid[i] implies call_ensures(
        intersect,
        (
            &operand_row(execution.operands@[0], i),
            &operand_row(execution.operands@[1], i),
        ),
        all[#[trigger] rank(valid, i) as int],
    ) by {
        lemma_rank_of_set(valid, i);
        assert(all[rank(valid, i) as int] == values@[rank(valid, i) as int]);
    }
    let array = build_intersections(values, &execution, metadata);
    proof {
        assert(array@.rows().len() == valid.len());
        assert forall|i: int| 0 <= i < execution.len implies match #[trigger] array@.row(i) {
            Some(intersection) => valid[i] && call_ensures(
                intersect,
                (
                    &operand_row(execution.operands@[0], i),
                    &operand_row(execution.operands@[1], i),
                ),
                intersection,
            ),
            None => !valid[i],
        } by {
            assert(array@.rows()[i] == scattered(all, valid)[i]);
            assert(valid[i] ==> array@.row(i) == Some(all[rank(valid, i) as int]));
        }
    }
    Ok(array)
}

/// The types of two operands.
pub open spec fn operand_types<G>(left: ArrayModel<G>, right: ArrayModel<G>) -> Seq<DTypeModel> {
    seq![left.dtype, right.dtype]
}

/// Whether `array` is the intersection of two columns: null exactly where either is, and otherwise
/// the intersection of the row's operands. It is stored as one value where both columns are, and
/// where either is a null constant or no row is valid in both.
pub open spec fn intersection_of<G, M>(
    left: ArrayModel<G>,
    right: ArrayModel<G>,
    intersects: spec_fn(G, G, M) -> bool,
    array: ArrayModel<M>,
) -> bool {
    &&& array.dtype == DTypeModel::Extension(intersection_type(operand_types(left, right)))
    &&& array.len() == left.len()
    &&& forall|i: int|
        0 <= i < left.len() ==> match #[trigger] array.row(i) {
            Some(intersection) => left.valid[i] && right.valid[i] && intersects(
                left.payload[i]->0,
                right.payload[i]->0,
                intersection,
            ),
            None => !(left.valid[i] && right.valid[i]),
        }
    &&& either_null(left, right) ==> array.null_constant()
    &&& !either_null(left, right) ==> ((array.constant matches Some(Some(_))) == (holds_one_value(
        left,
    ) && holds_one_value(right)))
}

/// Whether `intersect` takes the operands of every row that is valid in both columns, and the two
/// values where each column holds one, be there rows or not.
pub open spec fn takes_rows<G, M, F: Fn(&G, &G) -> M>(
    intersect: F,
    left: ArrayModel<G>,
    right: ArrayModel<G>,
) -> bool {
    &&& forall|i: int|
        0 <= i < left.len() && #[trigger] left.valid[i] && right.valid[i] ==> call_requires(
            intersect,
            (&left.payload[i]->0, &right.payload[i]->0),
        )
    &&& holds_one_value(left) && holds_one_value(right) ==> call_requires(
        intersect,
        (&left.constant->0->0, &right.constant->0->0),
    )
}

/// Compute the pairwise two-dimensional intersection of native `Polygon` operands as a native
/// `MultiPolygon`. Disjoint and boundary-only intersections produce an empty `MultiPolygon`.
#[derive(Clone, Copy, Debug, PartialEq, Eq, Structural, Hash)]
pub struct GeoIntersection;

impl Default for GeoIntersection {
    fn default() -> (result: Self)
        ensures
            result == GeoIntersection,
    {
        GeoIntersection
    }
}

impl GeoIntersection {
    /// The name of the function.
    pub fn id(&self) -> (id: String)
        ensures
            id@ == "vortex.geo.intersection"@,
    {
        "vortex.geo.intersection".to_owned()
    }

    /// The bytes that stand for the function's options: none are needed.
    pub fn serialize(&self) -> (result: Result<Option<Vec<u8>>, Error>)
        ensures
            result matches Ok(Some(bytes)) && bytes@.len() == 0,
    {
        Ok(Some(Vec::new()))
    }

    /// The options that some bytes stand for.
    pub fn deserialize(&self, metadata: &[u8]) -> (result: Result<EmptyOptions, Error>)
        ensures
            result == Ok::<EmptyOptions, Error>(EmptyOptions),
    {
        Ok(EmptyOptions)
    }

    /// The number of operands.
    pub fn arity(&self) -> (arity: usize)
        ensures
            arity == 2,
    {
        2
    }

    /// The name of an operand.
    pub fn child_name(&self, child_idx: usize) -> (name: String)
        requires
            child_idx < 2,
        ensures
            name@ == if child_idx == 0 {
                "left"@
            } else {
                "right"@
            },
    {
        if child_idx == 0 {
            "left".to_owned()
        } else {
            "right".to_owned()
        }
    }

    /// The type of the intersection of operands of these types.
    pub fn return_dtype(&self, dtypes: &[DType]) -> (result: Result<DType, Error>)
        ensures
            match result {
                Ok(dtype) => {
                    &&& intersection_rejection(models(dtypes@)) is None
                    &&& dtype@ == DTypeModel::Extension(intersection_type(models(dtypes@)))
                },
                Err(error) => intersection_rejection(models(dtypes@)) == Some(error@),
            },
    {
        match intersection_dtype(dtypes) {
            Ok(dtype) => Ok(DType::Extension(dtype)),
            Err(error) => Err(error),
        }
    }

    /// The rows of the intersection that are not null: those that are null in neither operand.
    pub fn validity<G>(&self, left: &Array<G>, right: &Array<G>) -> (valid: Mask)
        requires
            left@.len() == right@.len(),
        ensures
            valid@ == both(left@.valid, right@.valid),
    {
        left.validity().and(right.validity())
    }

    /// A row that is null in either operand is null in the intersection.
    pub fn is_strict(&self) -> (result: bool)
        ensures
            result,
    {
        true
    }

    /// No legal operands make the function fail.
    pub fn is_fallible(&self) -> (result: bool)
        ensures
            !result,
    {
        false
    }

    /// Intersect two columns of the same length row by row.
    pub fn execute<G, M>(
        &self,
        left: &Array<G>,
        right: &Array<G>,
        intersect: impl Fn(&G, &G) -> M,
    ) -> (result: Result<Array<M>, Error>)
        requires
            left@.len() == right@.len(),
            intersection_rejection(operand_types(left@, right@)) is None ==> takes_rows(
                intersect,
                left@,
                right@,
            ),
        ensures
            match result {
                Ok(array) => {
                    &&& intersection_rejection(operand_types(left@, right@)) is None
                    &&& intersection_of(
                        left@,
                        right@,
                        |l: G, r: G, intersection: M|
                            call_ensures(intersect, (&l, &r), intersection),
                        array@,
                    )
                },
                Err(error) => intersection_rejection(operand_types(left@, right@)) == Some(error@),
            },
    {
        let ghost intersects = |l: G, r: G, intersection: M|
            call_ensures(intersect, (&l, &r), intersection);
        let dtypes = [left.dtype().clone(), right.dtype().clone()];
        assert(models(dtypes@) =~= operand_types(left@, right@));
        let output_dtype = match intersection_dtype(dtypes.as_slice()) {
            Ok(output_dtype) => output_dtype,
            Err(error) => return Err(error),
        };
        proof {
            use_type_invariant(left);
            Array::lemma_wf(*left);
            use_type_invariant(right);
            Array::lemma_wf(*right);
        }
        let metadata = match &output_dtype {
            ExtDType::MultiPolygon(metadata, _) => metadata.clone(),
            _ => GeoMetadata::default(),
        };
        let dtype = DType::Extension(output_dtype);
        let result = dispatch_binary(
            left,
            right,
            &dtype,
            |execution: Execution<'_, G, 2>| -> (result: Result<Array<M>, Error>)
                requires
                    runnable(execution),
                    takes_operands(intersect, execution),
                ensures
                    result matches Ok(array) && intersected(
                        execution,
                        metadata@,
                        array@,
                        |l: G, r: G, intersection: M|
                            call_ensures(intersect, (&l, &r), intersection),
                    )
                { execute_intersection(execution, &metadata, intersect) },
        );
        proof {
            if either_null(left@, right@) {
                lemma_null_intersection(left@, right@, intersects, result->Ok_0@);
            } else {
                let nullability = dtype@.nullability();
                let execution = choose|execution: Execution<G, 2>| #[trigger]
                    binary_execution(left@, right@, nullability, execution) && intersected(
                        execution,
                        metadata@,
                        result->Ok_0@,
                        intersects,
                    );
                lemma_intersected(left@, right@, execution, intersects, result->Ok_0@);
            }
        }
        result
    }
}

proof fn lemma_null_intersection<G, M>(
    left: ArrayModel<G>,
    right: ArrayModel<G>,
    intersects: spec_fn(G, G, M) -> bool,
    array: ArrayModel<M>,
)
    requires
        left.wf(),
        right.wf(),
        left.len() == right.len(),
        either_null(left, right),
        array == nulls::<M>(
            DTypeModel::Extension(intersection_type(operand_types(left, right))),
            left.len(),
        ),
    ensures
        intersection_of(left, right, intersects, array),
{
    let dtypes = operand_types(left, right);
    if left.dtype.nullable() {
        assert(dtypes[0].nullable());
    }
    if right.dtype.nullable() {
        assert(dtypes[1].nullable());
    }
    if left.len() != 0 && none_set(both(left.valid, right.valid)) {
        assert(!both(left.valid, right.valid)[0]);
    }
    assert(any_nullable(dtypes));
    assert forall|i: int| 0 <= i < left.len() implies !(left.valid[i] && right.valid[i]) by {
        if none_set(both(left.valid, right.valid)) {
            assert(!both(left.valid, right.valid)[i]);
        }
    }
}

proof fn lemma_intersected<G, M>(
    left: ArrayModel<G>,
    right: ArrayModel<G>,
    execution: Execution<G, 2>,
    intersects: spec_fn(G, G, M) -> bool,
    array: ArrayModel<M>,
)
    requires
        left.wf(),
        right.wf(),
        left.len() == right.len(),
        !either_null(left, right),
        binary_execution(
            left,
            right,
            intersection_type(operand_types(left, right)).nullability(),
            execution,
        ),
        intersected(
            execution,
            intersection_type(operand_types(left, right))->MultiPolygon_0,
            array,
            intersects,
        ),
    ensures
        intersection_of(left, right, intersects, array),
{
    let valid = both(left.valid, right.valid);
    assert forall|i: int| 0 <= i < left.len() implies match #[trigger] array.row(i) {
        Some(intersection) => left.valid[i] && right.valid[i] && intersects(
            left.payload[i]->0,
            right.payload[i]->0,
            intersection,
        ),
        None => !(left.valid[i] && right.valid[i]),
    } by {
        assert(execution.valid@[i] == valid[i]);
    }
}

/// Two polygon columns that are yet to be intersected row by row.
#[derive(Debug)]
pub struct IntersectionArray<G> {
    left: Array<G>,
    right: Array<G>,
    dtype: DType,
}

impl<G> IntersectionArray<G> {
    #[verifier::type_invariant]
    pub closed spec fn inv(self) -> bool {
        &&& self.left@.len() == self.right@.len()
        &&& intersection_rejection(operand_types(self.left@, self.right@)) is None
        &&& self.dtype@ == DTypeModel::Extension(
            intersection_type(operand_types(self.left@, self.right@)),
        )
    }

    /// The left operand.
    pub closed spec fn lhs(self) -> ArrayModel<G> {
        self.left@
    }

    /// The right operand.
    pub closed spec fn rhs(self) -> ArrayModel<G> {
        self.right@
    }

    pub fn len(&self) -> (len: usize)
        ensures
            len == self.lhs().len(),
            len == self.rhs().len(),
    {
        proof {
            use_type_invariant(self);
        }
        self.left.len()
    }

    /// The type of the intersection.
    pub fn dtype(&self) -> (dtype: &DType)
        ensures
            dtype@ == DTypeModel::Extension(
                intersection_type(operand_types(self.lhs(), self.rhs())),
            ),
    {
        proof {
            use_type_invariant(self);
        }
        &self.dtype
    }

    /// Intersect the operands.
    pub fn execute<M>(&self, intersect: impl Fn(&G, &G) -> M) -> (result: Result<Array<M>, Error>)
        requires
            takes_rows(intersect, self.lhs(), self.rhs()),
        ensures
            result matches Ok(array) && intersection_of(
                self.lhs(),
                self.rhs(),
                |l: G, r: G, intersection: M| call_ensures(intersect, (&l, &r), intersection),
                array@,
            ),
    {
        proof {
            use_type_invariant(self);
        }
        GeoIntersection.execute(&self.left, &self.right, intersect)
    }
}

impl GeoIntersection {
    /// A lazy array intersecting two native polygon operands by row.
    pub fn try_new_array<G>(left: Array<G>, right: Array<G>) -> (result: Result<
        IntersectionArray<G>,
        Error,
    >)
        ensures
            match result {
                Ok(array) => {
                    &&& intersection_rejection(operand_types(left@, right@)) is None
                    &&& left@.len() == right@.len()
                    &&& array.lhs() == left@
                    &&& array.rhs() == right@
                },
                Err(error) => if intersection_rejection(operand_types(left@, right@)) is Some {
                    intersection_rejection(operand_types(left@, right@)) == Some(error@)
                } else {
                    left@.len() != right@.len() && error@ == (ErrorModel::ColumnRows {
                        row_count: left@.len(),
                    })
                },
            },
    {
        let dtypes = [left.dtype().clone(), right.dtype().clone()];
        assert(models(dtypes@) =~= operand_types(left@, right@));
        let dtype = match GeoIntersection.return_dtype(dtypes.as_slice()) {
            Ok(dtype) => dtype,
            Err(error) => return Err(error),
        };
        if left.len() != right.len() {
            return Err(Error::ColumnRows { row_count: left.len() });
        }
        Ok(IntersectionArray { left, right, dtype })
    }
}

/// Which operand names a reference system does not matter.
pub proof fn crs_resolution_is_symmetric(left: Crs, right: Crs)
    ensures
        shared_crs(left, right) == shared_crs(right, left),
{
}

/// The operands of an intersection may trade places: the same pairs of types are accepted, and with
/// the same type of result.
pub proof fn intersection_type_is_symmetric(left: DTypeModel, right: DTypeModel)
    ensures
        intersection_rejection(seq![left, right]) is None <==> intersection_rejection(
            seq![right, left],
        ) is None,
        intersection_rejection(seq![left, right]) is None ==> intersection_type(seq![left, right])
            == intersection_type(seq![right, left]),
{
    let ahead = seq![left, right];
    let back = seq![right, left];
    assert(ahead[0] == back[1] && ahead[1] == back[0]);
    if any_nullable(ahead) {
        let i = choose|i: int| 0 <= i < ahead.len() && (#[trigger] ahead[i]).nullable();
        assert(back[1 - i].nullable());
    }
    if any_nullable(back) {
        let i = choose|i: int| 0 <= i < back.len() && (#[trigger] back[i]).nullable();
        assert(ahead[1 - i].nullable());
    }
}

/// How the operands are stored does not show in the intersection: columns with the same rows give
/// the same rows, be they constant, masked or written out.
pub proof fn equal_rows_intersect_equally<G, M>(
    left: ArrayModel<G>,
    right: ArrayModel<G>,
    array: ArrayModel<M>,
    other_left: ArrayModel<G>,
    other_right: ArrayModel<G>,
    other_array: ArrayModel<M>,
    intersection: spec_fn(G, G) -> M,
)
    requires
        left.wf(),
        right.wf(),
        other_left.wf(),
        other_right.wf(),
        left.len() == right.len(),
        left.rows() == other_left.rows(),
        right.rows() == other_right.rows(),
        intersection_of(left, right, |l: G, r: G, m: M| m == intersection(l, r), array),
        intersection_of(
            other_left,
            other_right,
            |l: G, r: G, m: M| m == intersection(l, r),
            other_array,
        ),
    ensures
        array.rows() == other_array.rows(),
{
    lemma_rows(left);
    lemma_rows(right);
    lemma_rows(other_left);
    lemma_rows(other_right);
    assert forall|i: int| 0 <= i < left.len() implies array.row(i) == other_array.row(i) by {
        assert(left.row(i) == other_left.row(i));
        assert(right.row(i) == other_right.row(i));
        assert(left.valid[i] ==> left.payload[i] is Some);
        assert(right.valid[i] ==> right.payload[i] is Some);
        assert(other_left.valid[i] ==> other_left.payload[i] is Some);
        assert(other_right.valid[i] ==> other_right.payload[i] is Some);
    }
    assert(array.rows() =~= other_array.rows());
}

/// Two operands can be intersected in one reference system unless they name two that differ. It is
/// the one that either names, and none where neither does.
pub proof fn operands_share_a_reference_system(
    left: GeoMetadata,
    right: GeoMetadata,
    result: Result<GeoMetadata, Error>,
)
    requires
        call_ensures(intersection_metadata, (&left, &right), result),
    ensures
        match (left@, right@) {
            (Some(l), Some(r)) => {
                &&& result is Ok <==> l == r
                &&& result matches Ok(shared) ==> shared@ == Some(l)
                &&& result matches Err(error) ==> error@ == (ErrorModel::DifferentCrs {
                    left: l,
                    right: r,
                })
            },
            (Some(l), None) => result is Ok && result->Ok_0@ == Some(l),
            (None, Some(r)) => result is Ok && result->Ok_0@ == Some(r),
            (None, None) => result is Ok && result->Ok_0@ == None::<Seq<char>>,
        },
{
}

/// Two types can be intersected exactly where both are native polygons that name no two different
/// reference systems. The result is multipolygons in the one that either names, nullable exactly
/// where an operand is. Otherwise the first reason is said.
pub proof fn polygons_intersect_in_multipolygons(
    dtypes: &[DType],
    result: Result<ExtDType, Error>,
)
    requires
        call_ensures(intersection_dtype, (dtypes,), result),
    ensures
        dtypes@.len() != 2 ==> result is Err && result->Err_0@ == (ErrorModel::OperandCount {
            got: dtypes@.len(),
        }),
        dtypes@.len() == 2 ==> match (dtypes@[0]@, dtypes@[1]@) {
            (
                DTypeModel::Extension(ExtModel::Polygon(left, n)),
                DTypeModel::Extension(ExtModel::Polygon(right, m)),
            ) => {
                let nullability = if n == Nullability::Nullable || m == Nullability::Nullable {
                    Nullability::Nullable
                } else {
                    Nullability::NonNullable
                };
                match (left, right) {
                    (Some(l), Some(r)) => if l == r {
                        result is Ok && result->Ok_0@ == ExtModel::MultiPolygon(
                            Some(l),
                            nullability,
                        )
                    } else {
                        result is Err && result->Err_0@ == (ErrorModel::DifferentCrs {
                            left: l,
                            right: r,
                        })
                    },
                    (Some(l), None) => result is Ok && result->Ok_0@ == ExtModel::MultiPolygon(
                        Some(l),
                        nullability,
                    ),
                    (None, _) => result is Ok && result->Ok_0@ == ExtModel::MultiPolygon(
                        right,
                        nullability,
                    ),
                }
            },
            (DTypeModel::Extension(ExtModel::Polygon(_, _)), other) => result is Err
                && result->Err_0@ == (ErrorModel::NotAPolygon { dtype: other }),
            (other, _) => result is Err && result->Err_0@ == (ErrorModel::NotAPolygon {
                dtype: other,
            }),
        },
{
    let all = models(dtypes@);
    if dtypes@.len() == 2 {
        assert(all[0] == dtypes@[0]@ && all[1] == dtypes@[1]@);
        if any_nullable(all) {
            let i = choose|i: int| 0 <= i < all.len() && (#[trigger] all[i]).nullable();
            assert(i == 0 || i == 1);
        }
        if all[0].nullable() || all[1].nullable() {
            assert(any_nullable(all));
        }
    }
}

/// The intersection of two columns, row by row: null exactly where either is, and otherwise what
/// the overlay gives for the two operands of the row, the left one first.
pub proof fn columns_intersect_row_by_row<G, M, K: Fn(&G, &G) -> M>(
    f: GeoIntersection,
    left: &Array<G>,
    right: &Array<G>,
    intersect: K,
    array: Array<M>,
    i: int,
)
    requires
        left@.len() == right@.len(),
        call_ensures(
            GeoIntersection::execute::<G, M>,
            (&f, left, right, intersect),
            Ok::<Array<M>, Error>(array),
        ),
        0 <= i < left@.len(),
    ensures
        array@.len() == left@.len(),
        array@.row(i) is None <==> !(left@.valid[i] && right@.valid[i]),
        array@.row(i) matches Some(intersection) ==> call_ensures(
            intersect,
            (&left@.payload[i]->0, &right@.payload[i]->0),
            intersection,
        ),
{
}

/// How the intersection of two columns is stored: as one value exactly where each column holds one
/// throughout, be there rows or not, and as a null constant where an operand is one or no row is
/// valid in both.
pub proof fn constant_polygons_intersect_once<G, M, K: Fn(&G, &G) -> M>(
    f: GeoIntersection,
    left: &Array<G>,
    right: &Array<G>,
    intersect: K,
    array: Array<M>,
)
    requires
        left@.len() == right@.len(),
        call_ensures(
            GeoIntersection::execute::<G, M>,
            (&f, left, right, intersect),
            Ok::<Array<M>, Error>(array),
        ),
    ensures
        left@.constant == Some(None::<G>) || right@.constant == Some(None::<G>)
            ==> array@.constant == Some(None::<M>),
        left@.len() > 0 && (forall|i: int|
            0 <= i < left@.len() ==> !(#[trigger] left@.valid[i] && right@.valid[i]))
            ==> array@.constant == Some(None::<M>),
        left@.constant is Some && left@.constant->0 is Some && (forall|i: int|
            0 <= i < left@.len() ==> #[trigger] left@.valid[i]) && right@.constant is Some
            && right@.constant->0 is Some && (forall|i: int|
            0 <= i < right@.len() ==> #[trigger] right@.valid[i]) ==> array@.constant is Some
            && array@.constant->0 is Some,
{
    crate::geometry::execute::kernels_run_where_a_row_is_valid(left@, right@);
    if left@.len() > 0 && holds_one_value(left@) && holds_one_value(right@) {
        assert(left@.valid[0] && right@.valid[0]);
    }
}

/// Two columns are intersected exactly where their types can be, and the type of the result is the
/// one that their types intersect in.
pub proof fn columns_intersect_where_their_types_do<G, M, K: Fn(&G, &G) -> M>(
    f: GeoIntersection,
    left: &Array<G>,
    right: &Array<G>,
    intersect: K,
    result: Result<Array<M>, Error>,
)
    requires
        left@.len() == right@.len(),
        call_ensures(
            GeoIntersection::execute::<G, M>,
            (&f, left, right, intersect),
            result,
        ),
    ensures
        match (left@.dtype, right@.dtype) {
            (
                DTypeModel::Extension(ExtModel::Polygon(l, n)),
                DTypeModel::Extension(ExtModel::Polygon(r, m)),
            ) => {
                let nullability = if n == Nullability::Nullable || m == Nullability::Nullable {
                    Nullability::Nullable
                } else {
                    Nullability::NonNullable
                };
                if l is Some && r is Some && l != r {
                    result is Err && result->Err_0@ == (ErrorModel::DifferentCrs {
                        left: l->0,
                        right: r->0,
                    })
                } else {
                    result is Ok && result->Ok_0@.dtype == DTypeModel::Extension(
                        ExtModel::MultiPolygon(
                            if l is Some {
                                l
                            } else {
                                r
                            },
                            nullability,
                        ),
                    )
                }
            },
            (DTypeModel::Extension(ExtModel::Polygon(_, _)), other) => result is Err
                && result->Err_0@ == (ErrorModel::NotAPolygon { dtype: other }),
            (other, _) => result is Err && result->Err_0@ == (ErrorModel::NotAPolygon {
                dtype: other,
            }),
        },
{
    let all = operand_types(left@, right@);
    assert(all[0] == left@.dtype && all[1] == right@.dtype);
    if any_nullable(all) {
        let i = choose|i: int| 0 <= i < all.len() && (#[trigger] all[i]).nullable();
        assert(i == 0 || i == 1);
    }
    if all[0].nullable() || all[1].nullable() {
        assert(any_nullable(all));
    }
}

/// A lazy intersection is that of the operands that it was made of: it can be made exactly where
/// their types can be intersected and they have as many rows, and computing it gives what
/// intersecting them gives.
pub proof fn lazy_intersections_keep_their_operands<G, M, K: Fn(&G, &G) -> M>(
    left: Array<G>,
    right: Array<G>,
    lazy: IntersectionArray<G>,
    len: usize,
    intersect: K,
    result: Result<Array<M>, Error>,
    i: int,
)
    requires
        call_ensures(
            GeoIntersection::try_new_array::<G>,
            (left, right),
            Ok::<IntersectionArray<G>, Error>(lazy),
        ),
        call_ensures(IntersectionArray::<G>::len, (&lazy,), len),
        call_ensures(IntersectionArray::<G>::execute::<M>, (&lazy, intersect), result),
    ensures
        len == left@.len() == right@.len(),
        result is Ok,
        result->Ok_0@.len() == len,
        0 <= i < len ==> (result->Ok_0@.row(i) is None <==> !(left@.valid[i] && right@.valid[i])),
        0 <= i < len && result->Ok_0@.row(i) is Some ==> call_ensures(
            intersect,
            (&left@.payload[i]->0, &right@.payload[i]->0),
            result->Ok_0@.row(i)->0,
        ),
{
}

/// A lazy intersection is made up of polygons in reference systems that do not differ, of as many
/// rows on either side. The error says which of these does not hold, the types first.
pub proof fn lazy_intersections_need_matching_rows<G>(
    left: Array<G>,
    right: Array<G>,
    result: Result<IntersectionArray<G>, Error>,
)
    requires
        call_ensures(GeoIntersection::try_new_array::<G>, (left, right), result),
    ensures
        result is Ok ==> left@.len() == right@.len(),
        match (left@.dtype, right@.dtype) {
            (
                DTypeModel::Extension(ExtModel::Polygon(l, _)),
                DTypeModel::Extension(ExtModel::Polygon(r, _)),
            ) => if l is Some && r is Some && l != r {
                result is Err && result->Err_0@ == (ErrorModel::DifferentCrs {
                    left: l->0,
                    right: r->0,
                })
            } else {
                result is Ok <==> left@.len() == right@.len()
            },
            (DTypeModel::Extension(ExtModel::Polygon(_, _)), other) => result is Err
                && result->Err_0@ == (ErrorModel::NotAPolygon { dtype: other }),
            (other, _) => result is Err && result->Err_0@ == (ErrorModel::NotAPolygon {
                dtype: other,
            }),
        },
        left@.len() != right@.len() && intersection_rejection(seq![left@.dtype, right@.dtype])
            is None ==> result is Err && result->Err_0@ == (ErrorModel::ColumnRows {
            row_count: left@.len(),
        }),
        left@.len() == right@.len() && intersection_rejection(seq![left@.dtype, right@.dtype])
            is None ==> result is Ok,
{
}

/// What the intersection says of itself: its name, two operands called left and right, that nulls
/// pass through it and that no legal operands make it fail.
pub proof fn the_intersection_is_strict_and_infallible(
    f: GeoIntersection,
    id: String,
    arity: usize,
    first: String,
    second: String,
    strict: bool,
    fallible: bool,
)
    requires
        call_ensures(GeoIntersection::id, (&f,), id),
        call_ensures(GeoIntersection::arity, (&f,), arity),
        call_ensures(GeoIntersection::child_name, (&f, 0usize), first),
        call_ensures(GeoIntersection::child_name, (&f, 1usize), second),
        call_ensures(GeoIntersection::is_strict, (&f,), strict),
        call_ensures(GeoIntersection::is_fallible, (&f,), fallible),
    ensures
        id@ == "vortex.geo.intersection"@,
        arity == 2,
        first@ == "left"@,
        second@ == "right"@,
        strict,
        !fallible,
{
}

/// The rows of an intersection that are not null are those that are null in neither operand.
pub proof fn intersections_are_null_where_an_operand_is<G>(
    f: GeoIntersection,
    left: &Array<G>,
    right: &Array<G>,
    valid: Mask,
)
    requires
        left@.len() == right@.len(),
        call_ensures(GeoIntersection::validity::<G>, (&f, left, right), valid),
    ensures
        valid@.len() == left@.len(),
        forall|i: int|
            0 <= i < left@.len() ==> #[trigger] valid@[i] == (left@.valid[i] && right@.valid[i]),
{
}

/// What an intersection that was dispatched comes to: one pair's overlay for every row where both
/// operands are constant, and otherwise that of each row's own pair, the left one first, where the
/// row is valid, and null where it is not.
pub proof fn dispatched_intersections_pair_up_rows<G, M, K: Fn(&G, &G) -> M>(
    execution: Execution<'_, G, 2>,
    metadata: &GeoMetadata,
    intersect: K,
    result: Result<Array<M>, Error>,
    i: int,
)
    requires
        call_ensures(
            execute_intersection::<G, M>,
            (execution, metadata, intersect),
            result,
        ),
        execution.len == execution.valid@.len(),
        0 <= i < execution.len,
    ensures
        result is Ok,
        result->Ok_0@.len() == execution.len,
        result->Ok_0@.dtype == DTypeModel::Extension(
            ExtModel::MultiPolygon(metadata@, execution.nullability),
        ),
        match (execution.operands@[0], execution.operands@[1]) {
            (Operand::Constant(left), Operand::Constant(right)) => {
                &&& result->Ok_0@.row(i) is Some
                &&& call_ensures(intersect, (left, right), result->Ok_0@.row(i)->0)
            },
            (Operand::Constant(left), Operand::Column(right)) => {
                &&& result->Ok_0@.row(i) is Some <==> execution.valid@[i]
                &&& execution.valid@[i] ==> call_ensures(
                    intersect,
                    (left, &right@.payload[i]->0),
                    result->Ok_0@.row(i)->0,
                )
            },
            (Operand::Column(left), Operand::Constant(right)) => {
                &&& result->Ok_0@.row(i) is Some <==> execution.valid@[i]
                &&& execution.valid@[i] ==> call_ensures(
                    intersect,
                    (&left@.payload[i]->0, right),
                    result->Ok_0@.row(i)->0,
                )
            },
            (Operand::Column(left), Operand::Column(right)) => {
                &&& result->Ok_0@.row(i) is Some <==> execution.valid@[i]
                &&& execution.valid@[i] ==> call_ensures(
                    intersect,
                    (&left@.payload[i]->0, &right@.payload[i]->0),
                    result->Ok_0@.row(i)->0,
                )
            },
        },
{
    let array = result->Ok_0@;
    assert(array.row(i) == array.row(i));
}

/// An intersection has a wire representation, which is empty, and any bytes read back as it.
pub proof fn intersections_are_written_as_no_bytes(
    f: GeoIntersection,
    metadata: &[u8],
    written: Result<Option<Vec<u8>>, Error>,
    read: Result<EmptyOptions, Error>,
)
    requires
        call_ensures(GeoIntersection::serialize, (&f,), written),
        call_ensures(GeoIntersection::deserialize, (&f, metadata), read),
    ensures
        written matches Ok(Some(bytes)) && bytes@ == Seq::<u8>::empty(),
        read is Ok,
{
}

/// The type of a lazy intersection is that of what it computes: multipolygons in the reference
/// system that either operand names, nullable exactly where an operand is.
pub proof fn lazy_intersections_know_their_type<G, M, K: Fn(&G, &G) -> M>(
    left: Array<G>,
    right: Array<G>,
    lazy: IntersectionArray<G>,
    dtype: &DType,
    intersect: K,
    array: Array<M>,
)
    requires
        call_ensures(
            GeoIntersection::try_new_array::<G>,
            (left, right),
            Ok::<IntersectionArray<G>, Error>(lazy),
        ),
        call_ensures(IntersectionArray::<G>::dtype, (&lazy,), dtype),
        call_ensures(
            IntersectionArray::<G>::execute::<M>,
            (&lazy, intersect),
            Ok::<Array<M>, Error>(array),
        ),
    ensures
        array@.dtype == dtype@,
        match (left@.dtype, right@.dtype) {
            (
                DTypeModel::Extension(ExtModel::Polygon(l, n)),
                DTypeModel::Extension(ExtModel::Polygon(r, m)),
            ) => dtype@ == DTypeModel::Extension(
                ExtModel::MultiPolygon(
                    if l is Some {
                        l
                    } else {
                        r
                    },
                    if n == Nullability::Nullable || m == Nullability::Nullable {
                        Nullability::Nullable
                    } else {
                        Nullability::NonNullable
                    },
                ),
            ),
            _ => false,
        },
{
    let all = operand_types(left@, right@);
    assert(all[0] == left@.dtype);
    assert(all[1] == right@.dtype);
    if all[0].nullable() || all[1].nullable() {
        assert(any_nullable(all));
    }
}

} // verus!
