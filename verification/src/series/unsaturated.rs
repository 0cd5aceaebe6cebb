//! The bond list of one row of a fatty acid column: three parallel columns.

use crate::fatty_acid::Isomerism;
use crate::fatty_acid::Unsaturated;
use crate::fatty_acid::Unsaturation;
use crate::series::field_of;
use crate::series::i8_values;
use crate::series::i8_values_of;
use crate::series::struct_field;
use crate::series::u8_values;
use crate::series::u8_values_of;
use crate::series::SchemaError;
use polars::prelude::Series;
use vstd::prelude::*;
use vstd::string::StringExecFns;

verus! {

/// One bond as a column holds it: the position, the geometry code and the
/// code of the degrees of unsaturation, each of which may be null.
#[derive(Clone, Copy, Debug, PartialEq, Eq, Structural)]
pub struct BondCodes {
    pub index: Option<u8>,
    pub isomerism: Option<i8>,
    pub unsaturation: Option<u8>,
}

/// The geometry that a code stands for: positive is cis, negative trans, and
/// zero or null is unknown.
pub open spec fn decode_isomerism(code: Option<i8>) -> Option<Isomerism> {
    match code {
        Some(c) if c > 0 => Some(Isomerism::Cis),
        Some(c) if c < 0 => Some(Isomerism::Trans),
        _ => None,
    }
}

/// The kind that a code stands for: `1` is a double bond, `2` a triple bond,
/// and any other code or null is unknown.
pub open spec fn decode_unsaturation(code: Option<u8>) -> Option<Unsaturation> {
    match code {
        Some(c) if c == 1 => Some(Unsaturation::One),
        Some(c) if c == 2 => Some(Unsaturation::Two),
        _ => None,
    }
}

/// The bond that the codes of a column stand for.
pub open spec fn decode(codes: BondCodes) -> Unsaturated {
    Unsaturated {
        index: codes.index,
        isomerism: decode_isomerism(codes.isomerism),
        unsaturation: decode_unsaturation(codes.unsaturation),
    }
}

/// The codes that stand for a bond in a column.
pub open spec fn encode(bond: Unsaturated) -> BondCodes {
    BondCodes {
        index: bond.index,
        isomerism: match bond.isomerism {
            None => None,
            Some(Isomerism::Cis) => Some(1i8),
            Some(Isomerism::Trans) => Some(-1i8),
        },
        unsaturation: match bond.unsaturation {
            None => None,
            Some(Unsaturation::One) => Some(1u8),
            Some(Unsaturation::Two) => Some(2u8),
        },
    }
}

/// The values of the field called `name` of a struct column, where it is a
/// field of unsigned 8-bit integers.
pub open spec fn u8_field(series: Series, name: Seq<char>) -> Option<Seq<Option<u8>>> {
    match struct_field(series, name) {
        None => None,
        Some(field) => u8_values(field),
    }
}

/// The values of the field called `name` of a struct column, where it is a
/// field of signed 8-bit integers.
pub open spec fn i8_field(series: Series, name: Seq<char>) -> Option<Seq<Option<i8>>> {
    match struct_field(series, name) {
        None => None,
        Some(field) => i8_values(field),
    }
}

/// The values of the field called `name`, where `series` is a struct column
/// with such a field of unsigned 8-bit integers.
pub(crate) fn u8_field_of(series: &Series, name: &str) -> (r: Option<Vec<Option<u8>>>)
    ensures
        match r {
            Some(values) => u8_field(*series, name@) == Some(values@),
            None => u8_field(*series, name@) is None,
        },
{
    match field_of(series, name) {
        Ok(field) => match u8_values_of(&field) {
            Ok(values) => Some(values),
            Err(_) => None,
        },
        Err(_) => None,
    }
}

/// The values of the field called `name`, where `series` is a struct column
/// with such a field of signed 8-bit integers.
pub(crate) fn i8_field_of(series: &Series, name: &str) -> (r: Option<Vec<Option<i8>>>)
    ensures
        match r {
            Some(values) => i8_field(*series, name@) == Some(values@),
            None => i8_field(*series, name@) is None,
        },
{
    match field_of(series, name) {
        Ok(field) => match i8_values_of(&field) {
            Ok(values) => Some(values),
            Err(_) => None,
        },
        Err(_) => None,
    }
}

/// Three parallel columns as one list of bond codes; columns of different
/// lengths are refused.
pub open spec fn columns_zipped(
    index: Seq<Option<u8>>,
    isomerism: Seq<Option<i8>>,
    unsaturation: Seq<Option<u8>>,
) -> Result<Seq<BondCodes>, SchemaError> {
    if index.len() != isomerism.len() || index.len() != unsaturation.len() {
        Err(SchemaError::Length)
    } else {
        Ok(
            Seq::new(
                index.len(),
                |k: int|
                    BondCodes {
                        index: index[k],
                        isomerism: isomerism[k],
                        unsaturation: unsaturation[k],
                    },
            ),
        )
    }
}

/// The bond codes of a struct column with the fields `Index`, `Isomerism`
/// and `Unsaturation`, or what is wrong with the column.
pub open spec fn bond_codes(series: Series) -> Result<Seq<BondCodes>, SchemaError> {
    match u8_field(series, "Index"@) {
        None => Err(SchemaError::Index),
        Some(index) => match i8_field(series, "Isomerism"@) {
            None => Err(SchemaError::Isomerism),
            Some(isomerism) => match u8_field(series, "Unsaturation"@) {
                None => Err(SchemaError::Unsaturation),
                Some(unsaturation) => columns_zipped(index, isomerism, unsaturation),
            },
        },
    }
}

/// The type of a field of a struct column, as far as a bond list asks.
#[derive(Clone, Copy, Debug, PartialEq, Eq, Structural)]
pub enum FieldType {
    /// Unsigned 8-bit integers.
    UInt8,
    /// Signed 8-bit integers.
    Int8,
    /// Any other type.
    Other,
}

/// The fields of a struct type, each by the characters of its name and its
/// type.
pub open spec fn field_views(fields: Seq<(String, FieldType)>) -> Seq<(Seq<char>, FieldType)> {
    Seq::new(fields.len(), |k: int| (fields[k].0@, fields[k].1))
}

/// Whether a struct type has a field of the given name and type.
pub open spec fn has_field(fields: Seq<(Seq<char>, FieldType)>, name: Seq<char>, kind: FieldType) -> bool {
    exists|k: int| 0 <= k < fields.len() && #[trigger] fields[k] == (name, kind)
}

/// Whether the items of a list column are bonds: structs of exactly three
/// fields, `Index` of unsigned, `Isomerism` of signed and `Unsaturation` of
/// unsigned 8-bit integers, in whatever order. So no field is there twice
/// and none beside these three.
pub open spec fn items_check(fields: Option<Seq<(Seq<char>, FieldType)>>) -> Result<(), SchemaError> {
    match fields {
        None => Err(SchemaError::Unsaturated),
        Some(fields) => if !has_field(fields, "Index"@, FieldType::UInt8) {
            Err(SchemaError::Index)
        } else if !has_field(fields, "Isomerism"@, FieldType::Int8) {
            Err(SchemaError::Isomerism)
        } else if !has_field(fields, "Unsaturation"@, FieldType::UInt8) {
            Err(SchemaError::Unsaturation)
        } else if fields.len() != 3 {
            Err(SchemaError::Unsaturated)
        } else {
            Ok(())
        },
    }
}

/// Whether a struct type has a field of the given name and type.
fn names_field(fields: &Vec<(String, FieldType)>, name: &str, kind: FieldType) -> (r: bool)
    ensures
        r == has_field(field_views(fields@), name@, kind),
{
    let target = String::from_str(name);
    let mut k: usize = 0;
    while k < fields.len()
        invariant
            k <= fields.len(),
            target@ == name@,
            forall|j: int| 0 <= j < k ==> #[trigger] field_views(fields@)[j] != (name@, kind),
        decreases fields.len() - k,
    {
        if fields[k].0 == target && fields[k].1 == kind {
            assert(field_views(fields@)[k as int] == (name@, kind));
            return true;
        }
        k += 1;
    }
    false
}

/// Whether the fields of a struct type are those of a bond: exactly the
/// three fields `Index`, `Isomerism` and `Unsaturation`, each of its type.
pub fn bond_fields_check(fields: &Vec<(String, FieldType)>) -> (r: Result<(), SchemaError>)
    ensures
        r == items_check(Some(field_views(fields@))),
{
    if !names_field(fields, "Index", FieldType::UInt8) {
        Err(SchemaError::Index)
    } else if !names_field(fields, "Isomerism", FieldType::Int8) {
        Err(SchemaError::Isomerism)
    } else if !names_field(fields, "Unsaturation", FieldType::UInt8) {
        Err(SchemaError::Unsaturation)
    } else if fields.len() != 3 {
        Err(SchemaError::Unsaturated)
    } else {
        Ok(())
    }
}

/// The bonds of one fatty acid as three parallel columns.
#[derive(Debug)]
pub struct UnsaturatedSeries {
    index: Vec<Option<u8>>,
    isomerism: Vec<Option<i8>>,
    unsaturation: Vec<Option<u8>>,
}

impl View for UnsaturatedSeries {
    type V = Seq<BondCodes>;

    closed spec fn view(&self) -> Seq<BondCodes> {
        Seq::new(
            self.index@.len(),
            |k: int|
                BondCodes {
                    index: self.index@[k],
                    isomerism: self.isomerism@[k],
                    unsaturation: self.unsaturation@[k],
                },
        )
    }
}

/// A copy of a column of plain values.
pub(crate) fn copied<T: Copy>(values: &Vec<T>) -> (copy: Vec<T>)
    ensures
        copy@ == values@,
{
    let mut copy: Vec<T> = Vec::new();
    let mut k: usize = 0;
    while k < values.len()
        invariant
            k <= values.len(),
            copy@ == values@.take(k as int),
        decreases values.len() - k,
    {
        copy.push(values[k]);
        assert(values@.take(k + 1) == values@.take(k as int).push(values@[k as int]));
        k += 1;
    }
    assert(values@.take(k as int) == values@);
    copy
}

impl Clone for UnsaturatedSeries {
    fn clone(&self) -> (r: Self)
        ensures
            r@ == self@,
    {
        proof {
            use_type_invariant(self);
        }
        let copy = UnsaturatedSeries {
            index: copied(&self.index),
            isomerism: copied(&self.isomerism),
            unsaturation: copied(&self.unsaturation),
        };
        assert(copy@ =~= self@);
        copy
    }
}

impl UnsaturatedSeries {
    #[verifier::type_invariant]
    spec fn well_formed(self) -> bool {
        self.index@.len() == self.isomerism@.len() && self.index@.len() == self.unsaturation@.len()
    }

    /// Adapts a struct column with the fields `Index`, `Isomerism` and
    /// `Unsaturation`.
    pub fn new(series: &Series) -> (r: Result<Self, SchemaError>)
        ensures
            match r {
                Ok(list) => bond_codes(*series) == Ok::<Seq<BondCodes>, SchemaError>(list@),
                Err(e) => bond_codes(*series) == Err::<Seq<BondCodes>, SchemaError>(e),
            },
    {
        let index = match u8_field_of(series, "Index") {
            Some(index) => index,
            None => {
                return Err(SchemaError::Index);
            },
        };
        let isomerism = match i8_field_of(series, "Isomerism") {
            Some(isomerism) => isomerism,
            None => {
                return Err(SchemaError::Isomerism);
            },
        };
        let unsaturation = match u8_field_of(series, "Unsaturation") {
            Some(unsaturation) => unsaturation,
            None => {
                return Err(SchemaError::Unsaturation);
            },
        };
        Self::from_columns(index, isomerism, unsaturation)
    }

    /// A bond list from its three columns; columns of different lengths are
    /// refused.
    pub fn from_columns(
        index: Vec<Option<u8>>,
        isomerism: Vec<Option<i8>>,
        unsaturation: Vec<Option<u8>>,
    ) -> (r: Result<Self, SchemaError>)
        ensures
            match r {
                Ok(list) => columns_zipped(index@, isomerism@, unsaturation@) == Ok::<
                    Seq<BondCodes>,
                    SchemaError,
                >(list@),
                Err(e) => columns_zipped(index@, isomerism@, unsaturation@) == Err::<
                    Seq<BondCodes>,
                    SchemaError,
                >(e),
            },
    {
        if index.len() != isomerism.len() || index.len() != unsaturation.len() {
            return Err(SchemaError::Length);
        }
        let list = UnsaturatedSeries { index, isomerism, unsaturation };
        assert(list@ =~= columns_zipped(list.index@, list.isomerism@, list.unsaturation@)->Ok_0);
        Ok(list)
    }

    /// The columns that hold the given bonds, in their order.
    pub fn from_bonds(bonds: &Vec<Unsaturated>) -> (list: Self)
        ensures
            list@ == Seq::new(bonds@.len(), |k: int| encode(bonds@[k])),
    {
        let mut index: Vec<Option<u8>> = Vec::new();
        let mut isomerism: Vec<Option<i8>> = Vec::new();
        let mut unsaturation: Vec<Option<u8>> = Vec::new();
        let mut k: usize = 0;
        while k < bonds.len()
            invariant
                k <= bonds.len(),
                index@.len() == k,
                isomerism@.len() == k,
                unsaturation@.len() == k,
                forall|j: int|
                    0 <= j < k ==> encode(bonds@[j]) == (BondCodes {
                        index: #[trigger] index@[j],
                        isomerism: isomerism@[j],
                        unsaturation: unsaturation@[j],
                    }),
            decreases bonds.len() - k,
        {
            let bond = bonds[k];
            index.push(bond.index);
            isomerism.push(
                match bond.isomerism {
                    None => None,
                    Some(Isomerism::Cis) => Some(1),
                    Some(Isomerism::Trans) => Some(-1),
                },
            );
            unsaturation.push(
                match bond.unsaturation {
                    None => None,
                    Some(Unsaturation::One) => Some(1),
                    Some(Unsaturation::Two) => Some(2),
                },
            );
            k += 1;
        }
        let list = UnsaturatedSeries { index, isomerism, unsaturation };
        assert(list@ =~= Seq::new(bonds@.len(), |k: int| encode(bonds@[k])));
        list
    }

    /// Number of bonds.
    pub fn len(&self) -> (len: usize)
        ensures
            len == self@.len(),
    {
        self.index.len()
    }

    /// The bond at `index`.
    pub fn get(&self, index: usize) -> (bond: Unsaturated)
        requires
            index < self@.len(),
        ensures
            bond == decode(self@[index as int]),
    {
        proof {
            use_type_invariant(self);
        }
        let isomerism = match self.isomerism[index] {
            Some(code) => match Isomerism::try_from(code) {
                Ok(isomerism) => Some(isomerism),
                Err(_) => None,
            },
            None => None,
        };
        let unsaturation = match self.unsaturation[index] {
            Some(code) => match Unsaturation::try_from(code) {
                Ok(unsaturation) => Some(unsaturation),
                Err(_) => None,
            },
            None => None,
        };
        Unsaturated { index: self.index[index], isomerism, unsaturation }
    }
}

} // verus!
