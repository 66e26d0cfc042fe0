//! Logical types of columns, and the metadata that extension types carry.

use vstd::prelude::*;

use crate::text::{decimal, push_decimal};

verus! {

/// Whether a column of some type may hold nulls.
#[derive(Clone, Copy, Debug, PartialEq, Eq, Structural)]
pub enum Nullability {
    NonNullable,
    Nullable,
}

impl Nullability {
    pub open spec fn allows_nulls(self) -> bool {
        self == Nullability::Nullable
    }

    /// `Nullable` when `nullable` is set.
    pub fn from_bool(nullable: bool) -> (result: Nullability)
        ensures
            result.allows_nulls() == nullable,
    {
        if nullable {
            Nullability::Nullable
        } else {
            Nullability::NonNullable
        }
    }

    pub fn is_nullable(&self) -> (result: bool)
        ensures
            result == self.allows_nulls(),
    {
        *self == Nullability::Nullable
    }
}

/// The physical type of a primitive column.
#[derive(Clone, Copy, Debug, PartialEq, Eq, Structural)]
pub enum PType {
    U8,
    U16,
    U32,
    U64,
    I8,
    I16,
    I32,
    I64,
    F16,
    F32,
    F64,
}

impl PType {
    pub open spec fn float(self) -> bool {
        self == PType::F16 || self == PType::F32 || self == PType::F64
    }

    pub open spec fn unsigned(self) -> bool {
        self == PType::U8 || self == PType::U16 || self == PType::U32 || self == PType::U64
    }

    pub fn is_float(&self) -> (result: bool)
        ensures
            result == self.float(),
    {
        *self == PType::F16 || *self == PType::F32 || *self == PType::F64
    }

    pub fn is_int(&self) -> (result: bool)
        ensures
            result == !self.float(),
    {
        !self.is_float()
    }
}

/// Metadata of a geometry extension type: its coordinate reference system, if one is known.
#[derive(Debug, PartialEq, Eq)]
pub struct GeoMetadata {
    pub crs: Option<String>,
}

/// The coordinate reference system that some geometry metadata names.
pub type Crs = Option<Seq<char>>;

impl View for GeoMetadata {
    type V = Crs;

    open spec fn view(&self) -> Crs {
        match self.crs {
            Some(crs) => Some(crs@),
            None => None,
        }
    }
}

impl Clone for GeoMetadata {
    fn clone(&self) -> (result: Self)
        ensures
            result@ == self@,
    {
        GeoMetadata {
            crs: match &self.crs {
                Some(crs) => Some(crs.clone()),
                None => None,
            },
        }
    }
}

impl Default for GeoMetadata {
    fn default() -> (result: Self)
        ensures
            result@ == None::<Seq<char>>,
    {
        GeoMetadata { crs: None }
    }
}

/// A logical type with a name of its own, stored as some other type.
#[derive(Debug, PartialEq, Eq)]
pub enum ExtDType {
    /// A native point geometry.
    Point(GeoMetadata, Nullability),
    /// A native polygon geometry.
    Polygon(GeoMetadata, Nullability),
    /// A native geometry of any number of polygons.
    MultiPolygon(GeoMetadata, Nullability),
    /// Vectors of a fixed number of elements.
    Vector { element: PType, dimensions: u32, nullability: Nullability },
    /// Tensors of a fixed shape.
    FixedShapeTensor { element: PType, shape: Vec<usize>, nullability: Nullability },
}

/// What an [`ExtDType`] denotes.
pub enum ExtModel {
    Point(Crs, Nullability),
    Polygon(Crs, Nullability),
    MultiPolygon(Crs, Nullability),
    Vector { element: PType, dimensions: u32, nullability: Nullability },
    FixedShapeTensor { element: PType, shape: Seq<usize>, nullability: Nullability },
}

impl View for ExtDType {
    type V = ExtModel;

    open spec fn view(&self) -> ExtModel {
        match *self {
            ExtDType::Point(metadata, nullability) => ExtModel::Point(metadata@, nullability),
            ExtDType::Polygon(metadata, nullability) => ExtModel::Polygon(metadata@, nullability),
            ExtDType::MultiPolygon(metadata, nullability) => ExtModel::MultiPolygon(
                metadata@,
                nullability,
            ),
            ExtDType::Vector { element, dimensions, nullability } => ExtModel::Vector {
                element,
                dimensions,
                nullability,
            },
            ExtDType::FixedShapeTensor { element, shape, nullability } => {
                ExtModel::FixedShapeTensor { element, shape: shape@, nullability }
            },
        }
    }
}

impl ExtModel {
    pub open spec fn nullability(self) -> Nullability {
        match self {
            ExtModel::Point(_, nullability) => nullability,
            ExtModel::Polygon(_, nullability) => nullability,
            ExtModel::MultiPolygon(_, nullability) => nullability,
            ExtModel::Vector { nullability, .. } => nullability,
            ExtModel::FixedShapeTensor { nullability, .. } => nullability,
        }
    }

    pub open spec fn with_nullability(self, nullability: Nullability) -> ExtModel {
        match self {
            ExtModel::Point(crs, _) => ExtModel::Point(crs, nullability),
            ExtModel::Polygon(crs, _) => ExtModel::Polygon(crs, nullability),
            ExtModel::MultiPolygon(crs, _) => ExtModel::MultiPolygon(crs, nullability),
            ExtModel::Vector { element, dimensions, .. } => ExtModel::Vector {
                element,
                dimensions,
                nullability,
            },
            ExtModel::FixedShapeTensor { element, shape, .. } => ExtModel::FixedShapeTensor {
                element,
                shape,
                nullability,
            },
        }
    }
}

/// Whether two optional strings agree.
fn same_crs(left: &GeoMetadata, right: &GeoMetadata) -> (result: bool)
    ensures
        result == (left@ == right@),
{
    match (&left.crs, &right.crs) {
        (Some(left), Some(right)) => *left == *right,
        (None, None) => true,
        _ => false,
    }
}

fn same_shape(left: &Vec<usize>, right: &Vec<usize>) -> (result: bool)
    ensures
        result == (left@ == right@),
{
    if left.len() != right.len() {
        return false;
    }
    let mut i: usize = 0;
    while i < left.len()
        invariant
            i <= left.len(),
            left.len() == right.len(),
            forall|j: int| 0 <= j < i ==> left@[j] == right@[j],
        decreases left.len() - i,
    {
        if left[i] != right[i] {
            return false;
        }
        i += 1;
    }
    assert(left@ =~= right@);
    true
}

fn clone_shape(shape: &Vec<usize>) -> (result: Vec<usize>)
    ensures
        result@ == shape@,
{
    let result = shape.clone();
    assert(result@ =~= shape@);
    result
}

impl ExtDType {
    pub fn nullability(&self) -> (result: Nullability)
        ensures
            result == self@.nullability(),
    {
        match self {
            ExtDType::Point(_, nullability) => *nullability,
            ExtDType::Polygon(_, nullability) => *nullability,
            ExtDType::MultiPolygon(_, nullability) => *nullability,
            ExtDType::Vector { nullability, .. } => *nullability,
            ExtDType::FixedShapeTensor { nullability, .. } => *nullability,
        }
    }

    /// The same type, with `nullability` in place of its own.
    pub fn with_nullability(&self, nullability: Nullability) -> (result: ExtDType)
        ensures
            result@ == self@.with_nullability(nullability),
    {
        match self {
            ExtDType::Point(metadata, _) => ExtDType::Point(metadata.clone(), nullability),
            ExtDType::Polygon(metadata, _) => ExtDType::Polygon(metadata.clone(), nullability),
            ExtDType::MultiPolygon(metadata, _) => ExtDType::MultiPolygon(
                metadata.clone(),
                nullability,
            ),
            ExtDType::Vector { element, dimensions, .. } => ExtDType::Vector {
                element: *element,
                dimensions: *dimensions,
                nullability,
            },
            ExtDType::FixedShapeTensor { element, shape, .. } => ExtDType::FixedShapeTensor {
                element: *element,
                shape: clone_shape(shape),
                nullability,
            },
        }
    }

    /// Whether two extension types are the same type.
    pub fn same(&self, other: &ExtDType) -> (result: bool)
        ensures
            result == (self@ == other@),
    {
        match (self, other) {
            (ExtDType::Point(a, n), ExtDType::Point(b, m)) => *n == *m && same_crs(a, b),
            (ExtDType::Polygon(a, n), ExtDType::Polygon(b, m)) => *n == *m && same_crs(a, b),
            (ExtDType::MultiPolygon(a, n), ExtDType::MultiPolygon(b, m)) => *n == *m && same_crs(
                a,
                b,
            ),
            (
                ExtDType::Vector { element: a, dimensions: i, nullability: n },
                ExtDType::Vector { element: b, dimensions: j, nullability: m },
            ) => *a == *b && *i == *j && *n == *m,
            (
                ExtDType::FixedShapeTensor { element: a, shape: s, nullability: n },
                ExtDType::FixedShapeTensor { element: b, shape: t, nullability: m },
            ) => *a == *b && *n == *m && same_shape(s, t),
            _ => false,
        }
    }
}

impl Clone for ExtDType {
    fn clone(&self) -> (result: Self)
        ensures
            result@ == self@,
    {
        self.with_nullability(self.nullability())
    }
}

/// The logical type of a column.
#[derive(Debug, PartialEq, Eq)]
pub enum DType {
    Bool(Nullability),
    Primitive(PType, Nullability),
    Utf8(Nullability),
    Binary(Nullability),
    /// Lists of a fixed number of elements of one type.
    FixedSizeList(Box<DType>, u32, Nullability),
    Extension(ExtDType),
}

/// What a [`DType`] denotes.
pub enum DTypeModel {
    Bool(Nullability),
    Primitive(PType, Nullability),
    Utf8(Nullability),
    Binary(Nullability),
    FixedSizeList(Box<DTypeModel>, u32, Nullability),
    Extension(ExtModel),
}

impl DTypeModel {
    pub open spec fn nullability(self) -> Nullability {
        match self {
            DTypeModel::Bool(nullability) => nullability,
            DTypeModel::Primitive(_, nullability) => nullability,
            DTypeModel::Utf8(nullability) => nullability,
            DTypeModel::Binary(nullability) => nullability,
            DTypeModel::FixedSizeList(_, _, nullability) => nullability,
            DTypeModel::Extension(extension) => extension.nullability(),
        }
    }

    pub open spec fn nullable(self) -> bool {
        self.nullability().allows_nulls()
    }

    pub open spec fn with_nullability(self, nullability: Nullability) -> DTypeModel {
        match self {
            DTypeModel::Bool(_) => DTypeModel::Bool(nullability),
            DTypeModel::Primitive(ptype, _) => DTypeModel::Primitive(ptype, nullability),
            DTypeModel::Utf8(_) => DTypeModel::Utf8(nullability),
            DTypeModel::Binary(_) => DTypeModel::Binary(nullability),
            DTypeModel::FixedSizeList(element, size, _) => DTypeModel::FixedSizeList(
                element,
                size,
                nullability,
            ),
            DTypeModel::Extension(extension) => DTypeModel::Extension(
                extension.with_nullability(nullability),
            ),
        }
    }

    pub open spec fn as_nullable(self) -> DTypeModel {
        self.with_nullability(Nullability::Nullable)
    }

    /// This type, made nullable where `nullable` is set and left alone otherwise.
    pub open spec fn widened(self, nullable: bool) -> DTypeModel {
        if nullable {
            self.as_nullable()
        } else {
            self
        }
    }
}

impl View for DType {
    type V = DTypeModel;

    open spec fn view(&self) -> DTypeModel
        decreases self,
    {
        match *self {
            DType::Bool(nullability) => DTypeModel::Bool(nullability),
            DType::Primitive(ptype, nullability) => DTypeModel::Primitive(ptype, nullability),
            DType::Utf8(nullability) => DTypeModel::Utf8(nullability),
            DType::Binary(nullability) => DTypeModel::Binary(nullability),
            DType::FixedSizeList(element, size, nullability) => DTypeModel::FixedSizeList(
                Box::new((*element).view()),
                size,
                nullability,
            ),
            DType::Extension(extension) => DTypeModel::Extension(extension@),
        }
    }
}

/// What each of some types denotes.
pub open spec fn models(dtypes: Seq<DType>) -> Seq<DTypeModel> {
    dtypes.map_values(|dtype: DType| dtype@)
}

/// Whether any of some types is nullable.
pub open spec fn any_nullable(dtypes: Seq<DTypeModel>) -> bool {
    exists|i: int| 0 <= i < dtypes.len() && (#[trigger] dtypes[i]).nullable()
}

/// Whether any of some types is nullable.
pub fn is_any_nullable(dtypes: &[DType]) -> (result: bool)
    ensures
        result == any_nullable(models(dtypes@)),
{
    let mut i: usize = 0;
    while i < dtypes.len()
        invariant
            i <= dtypes@.len(),
            forall|j: int| 0 <= j < i ==> !(#[trigger] models(dtypes@)[j]).nullable(),
        decreases dtypes@.len() - i,
    {
        if dtypes[i].is_nullable() {
            assert(models(dtypes@)[i as int].nullable());
            return true;
        }
        i += 1;
    }
    false
}

impl DType {
    pub fn nullability(&self) -> (result: Nullability)
        ensures
            result == self@.nullability(),
    {
        match self {
            DType::Bool(nullability) => *nullability,
            DType::Primitive(_, nullability) => *nullability,
            DType::Utf8(nullability) => *nullability,
            DType::Binary(nullability) => *nullability,
            DType::FixedSizeList(_, _, nullability) => *nullability,
            DType::Extension(extension) => extension.nullability(),
        }
    }

    pub fn is_nullable(&self) -> (result: bool)
        ensures
            result == self@.nullable(),
    {
        self.nullability().is_nullable()
    }

    /// The same type, with `nullability` in place of its own.
    pub fn with_nullability(&self, nullability: Nullability) -> (result: DType)
        ensures
            result@ == self@.with_nullability(nullability),
        decreases self,
    {
        match self {
            DType::Bool(_) => DType::Bool(nullability),
            DType::Primitive(ptype, _) => DType::Primitive(*ptype, nullability),
            DType::Utf8(_) => DType::Utf8(nullability),
            DType::Binary(_) => DType::Binary(nullability),
            DType::FixedSizeList(element, size, _) => {
                let element: DType = (&**element).copy();
                DType::FixedSizeList(Box::new(element), *size, nullability)
            },
            DType::Extension(extension) => DType::Extension(
                extension.with_nullability(nullability),
            ),
        }
    }

    pub fn as_nullable(&self) -> (result: DType)
        ensures
            result@ == self@.as_nullable(),
    {
        self.with_nullability(Nullability::Nullable)
    }

    pub fn as_nonnullable(&self) -> (result: DType)
        ensures
            result@ == self@.with_nullability(Nullability::NonNullable),
    {
        self.with_nullability(Nullability::NonNullable)
    }

    fn copy(&self) -> (result: DType)
        ensures
            result@ == self@,
        decreases self,
    {
        match self {
            DType::Bool(nullability) => DType::Bool(*nullability),
            DType::Primitive(ptype, nullability) => DType::Primitive(*ptype, *nullability),
            DType::Utf8(nullability) => DType::Utf8(*nullability),
            DType::Binary(nullability) => DType::Binary(*nullability),
            DType::FixedSizeList(element, size, nullability) => {
                let element: DType = (&**element).copy();
                DType::FixedSizeList(Box::new(element), *size, *nullability)
            },
            DType::Extension(extension) => DType::Extension(extension.clone()),
        }
    }

    /// Whether two types are the same.
    pub fn same(&self, other: &DType) -> (result: bool)
        ensures
            result == (self@ == other@),
        decreases self,
    {
        match (self, other) {
            (DType::Bool(n), DType::Bool(m)) => *n == *m,
            (DType::Primitive(p, n), DType::Primitive(q, m)) => *p == *q && *n == *m,
            (DType::Utf8(n), DType::Utf8(m)) => *n == *m,
            (DType::Binary(n), DType::Binary(m)) => *n == *m,
            (DType::FixedSizeList(a, i, n), DType::FixedSizeList(b, j, m)) => *i == *j && *n == *m
                && (&**a).same(&**b),
            (DType::Extension(a), DType::Extension(b)) => a.same(b),
            _ => false,
        }
    }
}

impl Clone for DType {
    fn clone(&self) -> (result: Self)
        ensures
            result@ == self@,
    {
        self.copy()
    }
}

impl Nullability {
    /// The mark of a nullable type.
    pub open spec fn text(self) -> Seq<char> {
        match self {
            Nullability::NonNullable => ""@,
            Nullability::Nullable => "?"@,
        }
    }

    fn mark(&self) -> (mark: &'static str)
        ensures
            mark@ == self.text(),
    {
        match self {
            Nullability::NonNullable => "",
            Nullability::Nullable => "?",
        }
    }
}

impl PType {
    /// The name of the type.
    pub open spec fn text(self) -> Seq<char> {
        match self {
            PType::U8 => "u8"@,
            PType::U16 => "u16"@,
            PType::U32 => "u32"@,
            PType::U64 => "u64"@,
            PType::I8 => "i8"@,
            PType::I16 => "i16"@,
            PType::I32 => "i32"@,
            PType::I64 => "i64"@,
            PType::F16 => "f16"@,
            PType::F32 => "f32"@,
            PType::F64 => "f64"@,
        }
    }

    /// The name of the type.
    pub fn name(&self) -> (name: &'static str)
        ensures
            name@ == self.text(),
    {
        match self {
            PType::U8 => "u8",
            PType::U16 => "u16",
            PType::U32 => "u32",
            PType::U64 => "u64",
            PType::I8 => "i8",
            PType::I16 => "i16",
            PType::I32 => "i32",
            PType::I64 => "i64",
            PType::F16 => "f16",
            PType::F32 => "f32",
            PType::F64 => "f64",
        }
    }
}

impl ExtModel {
    /// How the type reads.
    pub open spec fn text(self) -> Seq<char> {
        match self {
            ExtModel::Point(_, nullability) => "vortex.geo.point"@ + nullability.text(),
            ExtModel::Polygon(_, nullability) => "vortex.geo.polygon"@ + nullability.text(),
            ExtModel::MultiPolygon(_, nullability) => "vortex.geo.multipolygon"@
                + nullability.text(),
            ExtModel::Vector { element, dimensions, nullability } => "vortex.tensor.vector("@
                + element.text() + ")["@ + decimal(dimensions as nat) + "]"@ + nullability.text(),
            ExtModel::FixedShapeTensor { element, nullability, .. } => {
                "vortex.tensor.fixed_shape_tensor("@ + element.text() + ")"@ + nullability.text()
            },
        }
    }
}

impl DTypeModel {
    /// How the type reads.
    pub open spec fn text(self) -> Seq<char>
        decreases self,
    {
        match self {
            DTypeModel::Bool(nullability) => "bool"@ + nullability.text(),
            DTypeModel::Primitive(ptype, nullability) => ptype.text() + nullability.text(),
            DTypeModel::Utf8(nullability) => "utf8"@ + nullability.text(),
            DTypeModel::Binary(nullability) => "binary"@ + nullability.text(),
            DTypeModel::FixedSizeList(element, size, nullability) => "fixed_size_list("@
                + element.text() + ")["@ + decimal(size as nat) + "]"@ + nullability.text(),
            DTypeModel::Extension(extension) => extension.text(),
        }
    }
}

impl ExtDType {
    fn text(&self) -> (text: String)
        ensures
            text@ == self@.text(),
    {
        match self {
            ExtDType::Point(_, nullability) => "vortex.geo.point".to_owned().concat(
                nullability.mark(),
            ),
            ExtDType::Polygon(_, nullability) => "vortex.geo.polygon".to_owned().concat(
                nullability.mark(),
            ),
            ExtDType::MultiPolygon(_, nullability) => "vortex.geo.multipolygon".to_owned().concat(
                nullability.mark(),
            ),
            ExtDType::Vector { element, dimensions, nullability } => {
                let mut text = "vortex.tensor.vector(".to_owned();
                text.append(element.name());
                text.append(")[");
                push_decimal(&mut text, *dimensions as usize);
                text.append("]");
                text.append(nullability.mark());
                text
            },
            ExtDType::FixedShapeTensor { element, nullability, .. } => {
                let mut text = "vortex.tensor.fixed_shape_tensor(".to_owned();
                text.append(element.name());
                text.append(")");
                text.append(nullability.mark());
                text
            },
        }
    }
}

impl DType {
    /// How the type reads.
    pub fn text(&self) -> (text: String)
        ensures
            text@ == self@.text(),
        decreases self,
    {
        match self {
            DType::Bool(nullability) => "bool".to_owned().concat(nullability.mark()),
            DType::Primitive(ptype, nullability) => ptype.name().to_owned().concat(
                nullability.mark(),
            ),
            DType::Utf8(nullability) => "utf8".to_owned().concat(nullability.mark()),
            DType::Binary(nullability) => "binary".to_owned().concat(nullability.mark()),
            DType::FixedSizeList(element, size, nullability) => {
                let mut text = "fixed_size_list(".to_owned();
                let inner = (&**element).text();
                text.append(inner.as_str());
                text.append(")[");
                push_decimal(&mut text, *size as usize);
                text.append("]");
                text.append(nullability.mark());
                text
            },
            DType::Extension(extension) => extension.text(),
        }
    }
}

/// Nullability is all that is changed of a type by giving it another: it becomes what is asked for,
/// what the type is otherwise is kept, and the type's own nullability gives back the type.
pub proof fn nullability_is_independent(dtype: DTypeModel, nullability: Nullability)
    ensures
        dtype.with_nullability(nullability).nullability() == nullability,
        dtype.with_nullability(dtype.nullability()) == dtype,
        dtype.nullable() <==> dtype.nullability() == Nullability::Nullable,
        match dtype {
            DTypeModel::Bool(_) => dtype.with_nullability(nullability) == DTypeModel::Bool(
                nullability,
            ),
            DTypeModel::Primitive(ptype, _) => dtype.with_nullability(nullability)
                == DTypeModel::Primitive(ptype, nullability),
            DTypeModel::Utf8(_) => dtype.with_nullability(nullability) == DTypeModel::Utf8(
                nullability,
            ),
            DTypeModel::Binary(_) => dtype.with_nullability(nullability) == DTypeModel::Binary(
                nullability,
            ),
            DTypeModel::FixedSizeList(element, size, _) => dtype.with_nullability(nullability)
                == DTypeModel::FixedSizeList(element, size, nullability),
            DTypeModel::Extension(ExtModel::Point(crs, _)) => dtype.with_nullability(nullability)
                == DTypeModel::Extension(ExtModel::Point(crs, nullability)),
            DTypeModel::Extension(ExtModel::Polygon(crs, _)) => dtype.with_nullability(nullability)
                == DTypeModel::Extension(ExtModel::Polygon(crs, nullability)),
            DTypeModel::Extension(ExtModel::MultiPolygon(crs, _)) => dtype.with_nullability(
                nullability,
            ) == DTypeModel::Extension(ExtModel::MultiPolygon(crs, nullability)),
            DTypeModel::Extension(ExtModel::Vector { element, dimensions, .. }) => {
                dtype.with_nullability(nullability) == DTypeModel::Extension(
                    ExtModel::Vector { element, dimensions, nullability },
                )
            },
            DTypeModel::Extension(ExtModel::FixedShapeTensor { element, shape, .. }) => {
                dtype.with_nullability(nullability) == DTypeModel::Extension(
                    ExtModel::FixedShapeTensor { element, shape, nullability },
                )
            },
        },
{
}

/// What a type says of its nullability, and what is made of it with another.
pub proof fn types_know_their_nullability(
    dtype: DType,
    nullable: bool,
    asked: Nullability,
    given: DType,
    widened: DType,
    narrowed: DType,
    copied: DType,
)
    requires
        call_ensures(DType::is_nullable, (&dtype,), nullable),
        call_ensures(DType::with_nullability, (&dtype, asked), given),
        call_ensures(DType::as_nullable, (&dtype,), widened),
        call_ensures(DType::as_nonnullable, (&dtype,), narrowed),
        call_ensures(<DType as Clone>::clone, (&dtype,), copied),
    ensures
        nullable <==> dtype@.nullability() == Nullability::Nullable,
        given@ == dtype@.with_nullability(asked),
        widened@ == dtype@.with_nullability(Nullability::Nullable),
        narrowed@ == dtype@.with_nullability(Nullability::NonNullable),
        copied@ == dtype@,
{
}

/// Two types are the same exactly where they are of one kind and agree in every part of it.
pub proof fn types_agree_in_every_part(left: DType, right: DType, same: bool)
    requires
        call_ensures(DType::same, (&left, &right), same),
    ensures
        same <==> match (left, right) {
            (DType::Bool(n), DType::Bool(m)) => n == m,
            (DType::Primitive(p, n), DType::Primitive(q, m)) => p == q && n == m,
            (DType::Utf8(n), DType::Utf8(m)) => n == m,
            (DType::Binary(n), DType::Binary(m)) => n == m,
            (DType::FixedSizeList(a, i, n), DType::FixedSizeList(b, j, m)) => a@ == b@ && i == j
                && n == m,
            (
                DType::Extension(ExtDType::Point(a, n)),
                DType::Extension(ExtDType::Point(b, m)),
            ) => a@ == b@ && n == m,
            (
                DType::Extension(ExtDType::Polygon(a, n)),
                DType::Extension(ExtDType::Polygon(b, m)),
            ) => a@ == b@ && n == m,
            (
                DType::Extension(ExtDType::MultiPolygon(a, n)),
                DType::Extension(ExtDType::MultiPolygon(b, m)),
            ) => a@ == b@ && n == m,
            (
                DType::Extension(ExtDType::Vector { element: a, dimensions: i, nullability: n }),
                DType::Extension(ExtDType::Vector { element: b, dimensions: j, nullability: m }),
            ) => a == b && i == j && n == m,
            (
                DType::Extension(
                    ExtDType::FixedShapeTensor { element: a, shape: s, nullability: n },
                ),
                DType::Extension(
                    ExtDType::FixedShapeTensor { element: b, shape: t, nullability: m },
                ),
            ) => a == b && s@ == t@ && n == m,
            _ => false,
        },
{
}

/// Geometry metadata stands for the reference system that it names, and for nothing else.
pub proof fn metadata_stands_for_its_reference_system(left: GeoMetadata, right: GeoMetadata)
    ensures
        left@ is Some <==> left.crs is Some,
        left.crs is Some ==> left@->0 == left.crs->0@,
        left@ == right@ <==> match (left.crs, right.crs) {
            (Some(l), Some(r)) => l@ == r@,
            (None, None) => true,
            _ => false,
        },
{
}

/// One of some types is nullable exactly where one of them says so, and no type is where there is
/// none.
pub proof fn one_nullable_type_is_enough(dtypes: &[DType], nullable: bool)
    requires
        call_ensures(is_any_nullable, (dtypes,), nullable),
    ensures
        nullable <==> exists|i: int|
            0 <= i < dtypes@.len() && (#[trigger] dtypes@[i])@.nullability()
                == Nullability::Nullable,
{
    let all = models(dtypes@);
    assert forall|i: int| 0 <= i < dtypes@.len() implies all[i] == (#[trigger] dtypes@[i])@ by {}
    if any_nullable(all) {
        let i = choose|i: int| 0 <= i < all.len() && (#[trigger] all[i]).nullable();
        assert(dtypes@[i]@.nullability() == Nullability::Nullable);
    }
    if exists|i: int|
        0 <= i < dtypes@.len() && (#[trigger] dtypes@[i])@.nullability() == Nullability::Nullable {
        let i = choose|i: int|
            0 <= i < dtypes@.len() && (#[trigger] dtypes@[i])@.nullability()
                == Nullability::Nullable;
        assert(all[i].nullable());
    }
}

/// Every primitive type is a float or an integer, and three are floats.
pub proof fn primitives_are_floats_or_integers(ptype: PType, float: bool, whole: bool)
    requires
        call_ensures(PType::is_float, (&ptype,), float),
        call_ensures(PType::is_int, (&ptype,), whole),
    ensures
        float <==> match ptype {
            PType::F16 | PType::F32 | PType::F64 => true,
            PType::U8 | PType::U16 | PType::U32 | PType::U64 => false,
            PType::I8 | PType::I16 | PType::I32 | PType::I64 => false,
        },
        whole <==> !float,
{
}

/// A flag and a nullability say the same of a type.
pub proof fn flags_make_nullabilities(flag: bool, made: Nullability, back: bool)
    requires
        call_ensures(Nullability::from_bool, (flag,), made),
        call_ensures(Nullability::is_nullable, (&made,), back),
    ensures
        back == flag,
        flag <==> made == Nullability::Nullable,
{
}

/// A type reads as its name, followed by a question mark where it is nullable; a list and a vector
/// also say what of and how many.
pub proof fn types_read_as_their_names(dtype: DType, text: String)
    requires
        call_ensures(DType::text, (&dtype,), text),
    ensures
        ({
            let mark = if dtype@.nullability() == Nullability::Nullable {
                "?"@
            } else {
                ""@
            };
            text@ == match dtype {
                DType::Bool(_) => "bool"@ + mark,
                DType::Primitive(PType::U8, _) => "u8"@ + mark,
                DType::Primitive(PType::U16, _) => "u16"@ + mark,
                DType::Primitive(PType::U32, _) => "u32"@ + mark,
                DType::Primitive(PType::U64, _) => "u64"@ + mark,
                DType::Primitive(PType::I8, _) => "i8"@ + mark,
                DType::Primitive(PType::I16, _) => "i16"@ + mark,
                DType::Primitive(PType::I32, _) => "i32"@ + mark,
                DType::Primitive(PType::I64, _) => "i64"@ + mark,
                DType::Primitive(PType::F16, _) => "f16"@ + mark,
                DType::Primitive(PType::F32, _) => "f32"@ + mark,
                DType::Primitive(PType::F64, _) => "f64"@ + mark,
                DType::Utf8(_) => "utf8"@ + mark,
                DType::Binary(_) => "binary"@ + mark,
                DType::FixedSizeList(element, size, _) => "fixed_size_list("@ + element@.text()
                    + ")["@ + decimal(size as nat) + "]"@ + mark,
                DType::Extension(ExtDType::Point(_, _)) => "vortex.geo.point"@ + mark,
                DType::Extension(ExtDType::Polygon(_, _)) => "vortex.geo.polygon"@ + mark,
                DType::Extension(ExtDType::MultiPolygon(_, _)) => "vortex.geo.multipolygon"@ + mark,
                DType::Extension(ExtDType::Vector { element, dimensions, .. }) => {
                    "vortex.tensor.vector("@ + element.text() + ")["@ + decimal(dimensions as nat)
                        + "]"@ + mark
                },
                DType::Extension(ExtDType::FixedShapeTensor { element, .. }) => {
                    "vortex.tensor.fixed_shape_tensor("@ + element.text() + ")"@ + mark
                },
            }
        }),
{
}

/// The nullability of a type is the one that it was made with, whatever its kind, and not that of
/// the elements of a list.
pub proof fn types_say_the_nullability_they_were_made_with(dtype: DType, nullability: Nullability)
    requires
        call_ensures(DType::nullability, (&dtype,), nullability),
    ensures
        nullability == match dtype {
            DType::Bool(own) => own,
            DType::Primitive(_, own) => own,
            DType::Utf8(own) => own,
            DType::Binary(own) => own,
            DType::FixedSizeList(_, _, own) => own,
            DType::Extension(ExtDType::Point(_, own)) => own,
            DType::Extension(ExtDType::Polygon(_, own)) => own,
            DType::Extension(ExtDType::MultiPolygon(_, own)) => own,
            DType::Extension(ExtDType::Vector { nullability: own, .. }) => own,
            DType::Extension(ExtDType::FixedShapeTensor { nullability: own, .. }) => own,
        },
        nullability == dtype@.nullability(),
{
}

} // verus!
