//! The columnar form of fatty acids: one column of records over a struct
//! column of the tabular engine. The column is looked through once, when it
//! is adapted; after that its rows are read where they lie.

use crate::fatty_acid::canonical;
use crate::fatty_acid::is_canonical;
use crate::fatty_acid::lemma_canonical_unique;
use crate::fatty_acid::record_check;
use crate::fatty_acid::FattyAcid;
use crate::fatty_acid::StructuralError;
use crate::fatty_acid::Unsaturated;
use crate::series::unsaturated::bond_codes;
use crate::series::unsaturated::bond_fields_check;
use crate::series::unsaturated::decode;
use crate::series::unsaturated::encode;
use crate::series::unsaturated::field_views;
use crate::series::unsaturated::items_check;
use crate::series::unsaturated::u8_field;
use crate::series::unsaturated::BondCodes;
use crate::series::unsaturated::FieldType;
use crate::series::unsaturated::UnsaturatedSeries;
use polars::prelude::DataType;
use polars::prelude::PolarsError;
use polars::prelude::Series;
use vstd::prelude::*;

pub mod unsaturated;

verus! {

/// `Series` of the tabular engine: one column, of whatever type. Nothing of
/// its inside is known here; what is read from it goes by the names below.
#[verifier::external_type_specification]
#[verifier::external_body]
pub struct ExSeries(Series);

/// `PolarsError` of the tabular engine. Nothing of its inside is known here.
#[verifier::external_type_specification]
#[verifier::external_body]
pub struct ExPolarsError(PolarsError);

/// Number of rows of a column.
pub uninterp spec fn series_len(series: Series) -> nat;

/// The field called `name` of a struct column; `None` where the column is no
/// struct column or has no field of that name.
pub uninterp spec fn struct_field(series: Series, name: Seq<char>) -> Option<Series>;

/// The values of a column of unsigned 8-bit integers, a null as `None`;
/// `None` where the column has another type.
pub uninterp spec fn u8_values(series: Series) -> Option<Seq<Option<u8>>>;

/// The values of a column of signed 8-bit integers, a null as `None`; `None`
/// where the column has another type.
pub uninterp spec fn i8_values(series: Series) -> Option<Seq<Option<i8>>>;

/// The rows of a list column, each as a column of its own, a null as `None`;
/// `None` where the column is no list column.
pub uninterp spec fn list_rows(series: Series) -> Option<Seq<Option<Series>>>;

/// The fields of the struct type that the items of a list column have, each
/// by its name and its type, in the order of the type; `None` where the
/// column is no list column or its items are no structs.
pub uninterp spec fn item_fields(series: Series) -> Option<Seq<(Seq<char>, FieldType)>>;

/// `Series::len`: the number of rows.
#[verifier::external_body]
pub(crate) fn len_of(series: &Series) -> (len: usize)
    ensures
        len == series_len(*series),
{
    series.len()
}

/// `Series::struct_` and then `StructChunked::field_by_name`: the field of
/// that name, or the error of a column that is no struct column or has no
/// such field.
#[verifier::external_body]
pub(crate) fn field_of(series: &Series, name: &str) -> (r: Result<Series, PolarsError>)
    ensures
        match r {
            Ok(field) => struct_field(*series, name@) == Some(field),
            Err(_) => struct_field(*series, name@) is None,
        },
{
    series.struct_()?.field_by_name(name)
}

/// `Series::u8` and then `ChunkedArray::to_vec`: the values, or the error of
/// a column of another type.
#[verifier::external_body]
pub(crate) fn u8_values_of(series: &Series) -> (r: Result<Vec<Option<u8>>, PolarsError>)
    ensures
        match r {
            Ok(values) => u8_values(*series) == Some(values@),
            Err(_) => u8_values(*series) is None,
        },
{
    Ok(series.u8()?.to_vec())
}

/// `Series::i8` and then `ChunkedArray::to_vec`: the values, or the error of
/// a column of another type.
#[verifier::external_body]
pub(crate) fn i8_values_of(series: &Series) -> (r: Result<Vec<Option<i8>>, PolarsError>)
    ensures
        match r {
            Ok(values) => i8_values(*series) == Some(values@),
            Err(_) => i8_values(*series) is None,
        },
{
    Ok(series.i8()?.to_vec())
}

/// `Series::list`: whether the column is a list column. A list column has as
/// many rows as `Series::len` says.
#[verifier::external_body]
pub(crate) fn list_check(series: &Series) -> (r: Result<(), PolarsError>)
    ensures
        match r {
            Ok(_) => list_rows(*series) matches Some(rows) && rows.len() == series_len(*series),
            Err(_) => list_rows(*series) is None,
        },
{
    series.list()?;
    Ok(())
}

/// `Series::list` and then `ListChunked::inner_dtype`: the number of fields
/// of the struct type of the items. Only the type is read; no column is
/// built.
#[verifier::external_body]
pub(crate) fn item_field_count_of(series: &Series) -> (r: Option<usize>)
    ensures
        match r {
            Some(count) => item_fields(*series) matches Some(fields) && fields.len() == count,
            None => item_fields(*series) is None,
        },
{
    match series.list().ok()?.inner_dtype() {
        DataType::Struct(fields) => Some(fields.len()),
        _ => None,
    }
}

/// `Series::list` and then `ListChunked::inner_dtype`: the field at `index`
/// of the struct type of the items, by its name (`Field::name`) and its type
/// (`Field::dtype`); none where there is no such field. Only the type is
/// read; no column is built.
#[verifier::external_body]
pub(crate) fn item_field_of(series: &Series, index: usize) -> (r: Option<(String, FieldType)>)
    ensures
        match r {
            Some((name, kind)) => item_fields(*series) matches Some(fields) && index < fields.len()
                && fields[index as int] == (name@, kind),
            None => item_fields(*series) matches Some(fields) ==> index >= fields.len(),
        },
{
    match series.list().ok()?.inner_dtype() {
        DataType::Struct(fields) => {
            let field = fields.get(index)?;
            let kind = match field.dtype() {
                DataType::UInt8 => FieldType::UInt8,
                DataType::Int8 => FieldType::Int8,
                _ => FieldType::Other,
            };
            Some((field.name().to_string(), kind))
        },
        _ => None,
    }
}

/// `Series::list` and then `ListChunked::get_as_series`: the row at `index`
/// as a column of its own, `None` for a null, or the error of a column that
/// is no list column. It is asked only for a row that the column has, and
/// only of a column whose items are bonds, so that the row is a struct column
/// of 8-bit integers.
#[verifier::external_body]
pub(crate) fn list_row_of(series: &Series, index: usize) -> (r: Result<Option<Series>, PolarsError>)
    requires
        index < series_len(*series),
        items_check(item_fields(*series)) is Ok,
    ensures
        match r {
            Ok(row) => list_rows(*series) matches Some(rows) && rows.len() == series_len(*series)
                && rows[index as int] == row,
            Err(_) => list_rows(*series) is None,
        },
{
    Ok(series.list()?.get_as_series(index))
}

/// `Series::u8` and then `ChunkedArray::get`: the value at `index`, a null as
/// `None`, or the error of a column of another type. It is asked only for a
/// row that the column has.
#[verifier::external_body]
pub(crate) fn u8_at(series: &Series, index: usize) -> (r: Result<Option<u8>, PolarsError>)
    requires
        u8_values(*series) matches Some(values) ==> index < values.len(),
    ensures
        match r {
            Ok(value) => u8_values(*series) matches Some(values) && values[index as int] == value,
            Err(_) => u8_values(*series) is None,
        },
{
    Ok(series.u8()?.get(index))
}

/// `Series::clone`: the same column once more; the rows are shared, not
/// copied.
#[verifier::external_body]
pub(crate) fn copy_of(series: &Series) -> (copy: Series)
    ensures
        copy == *series,
{
    series.clone()
}

/// What is wrong with a column that is no fatty acid column.
#[derive(Clone, Copy, Debug, PartialEq, Eq, Structural)]
pub enum SchemaError {
    /// No field `Carbons` of unsigned 8-bit integers.
    Carbons,
    /// No field `Unsaturated` of lists of bonds: the field is missing, is no
    /// list, or its items are no structs of three fields.
    Unsaturated,
    /// Bonds without a field `Index` of unsigned 8-bit integers.
    Index,
    /// Bonds without a field `Isomerism` of signed 8-bit integers.
    Isomerism,
    /// Bonds without a field `Unsaturation` of unsigned 8-bit integers.
    Unsaturation,
    /// Parallel columns of different lengths.
    Length,
}

/// One row of a fatty acid column: the carbons and the bond list, each of
/// which may be null.
pub struct Row {
    pub carbons: Option<u8>,
    pub unsaturated: Option<Seq<BondCodes>>,
}

/// The bonds that a bond list of a column stands for, in the order of the
/// list; a null list holds no bond.
pub open spec fn decoded(unsaturated: Option<Seq<BondCodes>>) -> Seq<Unsaturated> {
    match unsaturated {
        None => Seq::empty(),
        Some(codes) => Seq::new(codes.len(), |k: int| decode(codes[k])),
    }
}

/// The record that a row stands for: none where the carbons are null, the
/// error of [`record_check`] where the row is no fatty acid, else the carbons
/// and the bonds in canonical order.
pub open spec fn materialized(row: Row) -> Result<Option<(u8, Seq<Unsaturated>)>, StructuralError> {
    match row.carbons {
        None => Ok(None),
        Some(carbons) => match record_check(carbons, decoded(row.unsaturated)) {
            Err(e) => Err(e),
            Ok(_) => Ok(Some((carbons, canonical(decoded(row.unsaturated))))),
        },
    }
}

/// The row that stands for a record, or for none.
pub open spec fn row_of(record: Option<(u8, Seq<Unsaturated>)>) -> Row {
    match record {
        None => Row { carbons: None, unsaturated: None },
        Some((carbons, bonds)) => Row {
            carbons: Some(carbons),
            unsaturated: Some(Seq::new(bonds.len(), |k: int| encode(bonds[k]))),
        },
    }
}

/// A record put into a row and read back is the record with its bonds in
/// canonical order, so a record whose bonds are in canonical order comes back
/// as it was; no record comes back as none.
pub proof fn lemma_round_trip(carbons: u8, bonds: Seq<Unsaturated>)
    requires
        record_check(carbons, bonds) is Ok,
    ensures
        materialized(row_of(Some((carbons, bonds)))) == Ok::<
            Option<(u8, Seq<Unsaturated>)>,
            StructuralError,
        >(Some((carbons, canonical(bonds)))),
        is_canonical(bonds) ==> materialized(row_of(Some((carbons, bonds)))) == Ok::<
            Option<(u8, Seq<Unsaturated>)>,
            StructuralError,
        >(Some((carbons, bonds))),
        materialized(row_of(None)) == Ok::<Option<(u8, Seq<Unsaturated>)>, StructuralError>(None),
{
    let row = row_of(Some((carbons, bonds)));
    assert(decoded(row.unsaturated) =~= bonds);
    if is_canonical(bonds) {
        lemma_canonical_unique(bonds, bonds);
    }
}

/// The rows of a column and of its bond lists put together, or the error of
/// the first bond list that is none.
pub open spec fn rows_adapted(carbons: Seq<Option<u8>>, lists: Seq<Option<Series>>) -> Result<
    Seq<Row>,
    SchemaError,
>
    decreases lists.len(),
{
    if lists.len() == 0 {
        Ok(Seq::empty())
    } else {
        match rows_adapted(carbons.drop_last(), lists.drop_last()) {
            Err(e) => Err(e),
            Ok(before) => match lists.last() {
                None => Ok(before.push(Row { carbons: carbons.last(), unsaturated: None })),
                Some(list) => match bond_codes(list) {
                    Err(e) => Err(e),
                    Ok(codes) => Ok(
                        before.push(Row { carbons: carbons.last(), unsaturated: Some(codes) }),
                    ),
                },
            },
        }
    }
}

/// The rows of a fatty acid column, or what is wrong with the column: the
/// fields are looked at first, then the type of the items of the bond
/// lists, whether or not a row holds a list, then the lists row by row.
pub open spec fn column_rows(series: Series) -> Result<Seq<Row>, SchemaError> {
    match u8_field(series, "Carbons"@) {
        None => Err(SchemaError::Carbons),
        Some(carbons) => match struct_field(series, "Unsaturated"@) {
            None => Err(SchemaError::Unsaturated),
            Some(field) => match list_rows(field) {
                None => Err(SchemaError::Unsaturated),
                Some(lists) => match items_check(item_fields(field)) {
                    Err(e) => Err(e),
                    Ok(_) => if carbons.len() != lists.len() {
                        Err(SchemaError::Length)
                    } else {
                        rows_adapted(carbons, lists)
                    },
                },
            },
        },
    }
}

/// Where the bond lists before `i` are adapted and the one at `i` is refused,
/// the column is refused with that error.
proof fn lemma_rows_failure(carbons: Seq<Option<u8>>, lists: Seq<Option<Series>>, i: int)
    requires
        0 <= i < lists.len(),
        carbons.len() == lists.len(),
        rows_adapted(carbons.take(i), lists.take(i)) is Ok,
        lists[i] matches Some(list) && bond_codes(list) is Err,
    ensures
        rows_adapted(carbons, lists) == Err::<Seq<Row>, SchemaError>(
            bond_codes(lists[i]->Some_0)->Err_0,
        ),
    decreases lists.len(),
{
    if i == lists.len() - 1 {
        assert(lists.drop_last() == lists.take(i));
        assert(carbons.drop_last() == carbons.take(i));
    } else {
        assert(lists.drop_last().take(i) == lists.take(i));
        assert(carbons.drop_last().take(i) == carbons.take(i));
        lemma_rows_failure(carbons.drop_last(), lists.drop_last(), i);
    }
}

/// What the rows of an adapted column are: as many as the column has, each
/// with the carbons of its row and the bond codes of its bond list.
pub proof fn lemma_rows_adapted(carbons: Seq<Option<u8>>, lists: Seq<Option<Series>>)
    requires
        carbons.len() == lists.len(),
        rows_adapted(carbons, lists) is Ok,
    ensures
        rows_adapted(carbons, lists)->Ok_0.len() == lists.len(),
        forall|i: int|
            0 <= i < lists.len() ==> (#[trigger] rows_adapted(carbons, lists)->Ok_0[i]) == (Row {
                carbons: carbons[i],
                unsaturated: match lists[i] {
                    None => None,
                    Some(list) => Some(bond_codes(list)->Ok_0),
                },
            }) && (lists[i] matches Some(list) ==> bond_codes(list) is Ok),
    decreases lists.len(),
{
    if lists.len() > 0 {
        lemma_rows_adapted(carbons.drop_last(), lists.drop_last());
        let before = rows_adapted(carbons.drop_last(), lists.drop_last())->Ok_0;
        let rows = rows_adapted(carbons, lists)->Ok_0;
        assert forall|i: int| 0 <= i < lists.len() implies (#[trigger] rows[i]) == (Row {
            carbons: carbons[i],
            unsaturated: match lists[i] {
                None => None,
                Some(list) => Some(bond_codes(list)->Ok_0),
            },
        }) && (lists[i] matches Some(list) ==> bond_codes(list) is Ok) by {
            if i < lists.len() - 1 {
                assert(rows[i] == before[i]);
                assert(lists.drop_last()[i] == lists[i]);
                assert(carbons.drop_last()[i] == carbons[i]);
            }
        }
    }
}

/// A column of fatty acids: the column of the carbons and the column of the
/// bond lists, as the tabular engine holds them. The rows stay where they
/// are; a record is read when it is asked for.
#[derive(Debug)]
pub struct FattyAcidSeries {
    carbons: Series,
    unsaturated: Series,
}

impl View for FattyAcidSeries {
    type V = Seq<Row>;

    closed spec fn view(&self) -> Seq<Row> {
        rows_adapted(u8_values(self.carbons)->Some_0, list_rows(self.unsaturated)->Some_0)->Ok_0
    }
}

impl Clone for FattyAcidSeries {
    fn clone(&self) -> (r: Self)
        ensures
            r@ == self@,
    {
        proof {
            use_type_invariant(self);
        }
        FattyAcidSeries { carbons: copy_of(&self.carbons), unsaturated: copy_of(&self.unsaturated) }
    }
}

impl FattyAcidSeries {
    #[verifier::type_invariant]
    spec fn well_formed(self) -> bool {
        &&& u8_values(self.carbons) matches Some(carbons)
        &&& list_rows(self.unsaturated) matches Some(lists)
        &&& carbons.len() == lists.len()
        &&& lists.len() == series_len(self.unsaturated)
        &&& items_check(item_fields(self.unsaturated)) is Ok
        &&& rows_adapted(carbons, lists) is Ok
    }

    /// Adapts a struct column with the fields `Carbons` and `Unsaturated`.
    /// Nothing is adapted in part: a column that misses a field, holds
    /// another type or has a bond list that is none is refused as a whole,
    /// and so is a column whose bond lists have items of another type than
    /// the struct of `Index`, `Isomerism` and `Unsaturation`, even where no
    /// row holds a list.
    pub fn new(series: &Series) -> (r: Result<Self, SchemaError>)
        ensures
            match r {
                Ok(column) => column_rows(*series) == Ok::<Seq<Row>, SchemaError>(column@),
                Err(e) => column_rows(*series) == Err::<Seq<Row>, SchemaError>(e),
            },
    {
        let carbons = match field_of(series, "Carbons") {
            Ok(carbons) => carbons,
            Err(_) => {
                return Err(SchemaError::Carbons);
            },
        };
        let values = match u8_values_of(&carbons) {
            Ok(values) => values,
            Err(_) => {
                return Err(SchemaError::Carbons);
            },
        };
        let field = match field_of(series, "Unsaturated") {
            Ok(field) => field,
            Err(_) => {
                return Err(SchemaError::Unsaturated);
            },
        };
        match list_check(&field) {
            Ok(_) => {},
            Err(_) => {
                return Err(SchemaError::Unsaturated);
            },
        }
        let count = match item_field_count_of(&field) {
            Some(count) => count,
            None => {
                return Err(SchemaError::Unsaturated);
            },
        };
        let ghost items = item_fields(field)->Some_0;
        let mut fields: Vec<(String, FieldType)> = Vec::new();
        let mut at: usize = 0;
        while at < count
            invariant
                at <= count,
                item_fields(field) == Some(items),
                items.len() == count,
                fields@.len() == at,
                forall|j: int|
                    0 <= j < at ==> (#[trigger] fields@[j]).0@ == items[j].0 && fields@[j].1
                        == items[j].1,
            decreases count - at,
        {
            match item_field_of(&field, at) {
                Some(item) => {
                    fields.push(item);
                },
                None => {
                    return Err(SchemaError::Unsaturated);
                },
            }
            at += 1;
        }
        assert(field_views(fields@) =~= items);
        match bond_fields_check(&fields) {
            Ok(_) => {},
            Err(e) => {
                return Err(e);
            },
        }
        let rows = len_of(&field);
        if values.len() != rows {
            return Err(SchemaError::Length);
        }
        let ghost lists = list_rows(field)->Some_0;
        let mut k: usize = 0;
        while k < rows
            invariant
                k <= rows,
                struct_field(*series, "Carbons"@) == Some(carbons),
                u8_values(carbons) == Some(values@),
                struct_field(*series, "Unsaturated"@) == Some(field),
                items_check(item_fields(field)) is Ok,
                rows == series_len(field),
                rows == values@.len(),
                list_rows(field) == Some(lists),
                lists.len() == rows,
                rows_adapted(values@.take(k as int), lists.take(k as int)) is Ok,
            decreases rows - k,
        {
            proof {
                assert(lists.take(k + 1).drop_last() == lists.take(k as int));
                assert(values@.take(k + 1).drop_last() == values@.take(k as int));
            }
            match list_row_of(&field, k) {
                Ok(Some(list)) => match UnsaturatedSeries::new(&list) {
                    Ok(_) => {},
                    Err(e) => {
                        proof {
                            lemma_rows_failure(values@, lists, k as int);
                        }
                        return Err(e);
                    },
                },
                Ok(None) => {},
                Err(_) => {
                    return Err(SchemaError::Unsaturated);
                },
            }
            k += 1;
        }
        proof {
            assert(lists.take(k as int) == lists);
            assert(values@.take(k as int) == values@);
        }
        Ok(FattyAcidSeries { carbons, unsaturated: field })
    }

    /// Number of rows.
    pub fn len(&self) -> (len: usize)
        ensures
            len == self@.len(),
    {
        proof {
            use_type_invariant(self);
            lemma_rows_adapted(
                u8_values(self.carbons)->Some_0,
                list_rows(self.unsaturated)->Some_0,
            );
        }
        len_of(&self.unsaturated)
    }

    /// The record of a row, its bonds in canonical order: none where the
    /// carbons are null, an error where the row is no fatty acid.
    pub fn get(&self, index: usize) -> (r: Result<Option<FattyAcid>, StructuralError>)
        requires
            index < self@.len(),
        ensures
            match r {
                Ok(Some(acid)) => materialized(self@[index as int]) == Ok::<
                    Option<(u8, Seq<Unsaturated>)>,
                    StructuralError,
                >(Some((acid.carbons, acid.unsaturated@))) && acid.valid(),
                Ok(None) => materialized(self@[index as int]) == Ok::<
                    Option<(u8, Seq<Unsaturated>)>,
                    StructuralError,
                >(None),
                Err(e) => materialized(self@[index as int]) == Err::<
                    Option<(u8, Seq<Unsaturated>)>,
                    StructuralError,
                >(e),
            },
    {
        proof {
            use_type_invariant(self);
            lemma_rows_adapted(
                u8_values(self.carbons)->Some_0,
                list_rows(self.unsaturated)->Some_0,
            );
        }
        let carbons = match u8_at(&self.carbons, index) {
            Ok(carbons) => carbons,
            Err(_) => None,
        };
        let bonds = self.unsaturated(index);
        Self::materialize(carbons, bonds.as_ref())
    }

    /// The bond list of a row, none where it is null.
    pub fn unsaturated(&self, index: usize) -> (r: Option<UnsaturatedSeries>)
        requires
            index < self@.len(),
        ensures
            match r {
                Some(list) => self@[index as int].unsaturated == Some(list@),
                None => self@[index as int].unsaturated is None,
            },
    {
        proof {
            use_type_invariant(self);
            lemma_rows_adapted(
                u8_values(self.carbons)->Some_0,
                list_rows(self.unsaturated)->Some_0,
            );
        }
        match list_row_of(&self.unsaturated, index) {
            Ok(Some(list)) => match UnsaturatedSeries::new(&list) {
                Ok(bonds) => Some(bonds),
                Err(_) => None,
            },
            _ => None,
        }
    }

    /// The record that the carbons and the bond list of one row stand for,
    /// its bonds in canonical order: none where the carbons are null, an
    /// error where the row is no fatty acid.
    pub fn materialize(carbons: Option<u8>, bonds: Option<&UnsaturatedSeries>) -> (r: Result<
        Option<FattyAcid>,
        StructuralError,
    >)
        ensures
            match r {
                Ok(Some(acid)) => materialized(row(carbons, bonds)) == Ok::<
                    Option<(u8, Seq<Unsaturated>)>,
                    StructuralError,
                >(Some((acid.carbons, acid.unsaturated@))) && acid.valid(),
                Ok(None) => materialized(row(carbons, bonds)) == Ok::<
                    Option<(u8, Seq<Unsaturated>)>,
                    StructuralError,
                >(None),
                Err(e) => materialized(row(carbons, bonds)) == Err::<
                    Option<(u8, Seq<Unsaturated>)>,
                    StructuralError,
                >(e),
            },
    {
        let carbons = match carbons {
            Some(carbons) => carbons,
            None => {
                return Ok(None);
            },
        };
        let mut unsaturated: Vec<Unsaturated> = Vec::new();
        match bonds {
            Some(list) => {
                let count = list.len();
                let mut k: usize = 0;
                while k < count
                    invariant
                        k <= count,
                        count == list@.len(),
                        unsaturated@.len() == k,
                        forall|j: int| 0 <= j < k ==> #[trigger] unsaturated@[j] == decode(list@[j]),
                    decreases count - k,
                {
                    unsaturated.push(list.get(k));
                    k += 1;
                }
                assert(unsaturated@ =~= decoded(Some(list@)));
            },
            None => {
                assert(unsaturated@ =~= decoded(None));
            },
        }
        match FattyAcid::from_bonds(carbons, unsaturated) {
            Ok(acid) => Ok(Some(acid)),
            Err(e) => Err(e),
        }
    }
}

/// The row that the carbons and the bond list of one row make.
pub open spec fn row(carbons: Option<u8>, bonds: Option<&UnsaturatedSeries>) -> Row {
    Row {
        carbons,
        unsaturated: match bonds {
            None => None,
            Some(list) => Some(list@),
        },
    }
}

} // verus!
