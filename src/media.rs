//! The descriptor that a media plugin gives of its media type, the values its
//! extraction returns, and how those values are stored in the catalog.
use crate::ffi::{FfiBoxedSlice, FfiStr, FfiString, FfiTime};
use vstd::prelude::*;

verus! {

/// Data type of a metadata field.
#[derive(Debug, Clone, Copy, PartialEq, Eq, Structural)]
pub enum MetadataFieldType {
    /// 64-bit signed integer value.
    Integer,
    /// 64-bit floating point value.
    Real,
    /// Text value.
    Text,
    /// Binary data.
    Blob,
    /// Boolean value.
    Boolean,
    /// Calendar date.
    Date,
    /// Time of day.
    Time,
}

impl MetadataFieldType {
    /// Name of the catalog column type that stores values of this type.
    pub open spec fn sql_name(self) -> Seq<char> {
        match self {
            MetadataFieldType::Integer => "INTEGER"@,
            MetadataFieldType::Boolean => "INTEGER"@,
            MetadataFieldType::Real => "REAL"@,
            MetadataFieldType::Text => "TEXT"@,
            MetadataFieldType::Date => "TEXT"@,
            MetadataFieldType::Time => "TEXT"@,
            MetadataFieldType::Blob => "BLOB"@,
        }
    }

    /// Returns the associated SQL type.
    pub fn to_sql(&self) -> (r: &'static str)
        ensures
            r@ == self.sql_name(),
    {
        match self {
            MetadataFieldType::Integer | MetadataFieldType::Boolean => "INTEGER",
            MetadataFieldType::Real => "REAL",
            MetadataFieldType::Text | MetadataFieldType::Date | MetadataFieldType::Time => "TEXT",
            MetadataFieldType::Blob => "BLOB",
        }
    }
}

/// Description of a metadata field.
#[derive(Clone, Copy)]
pub struct MetadataField {
    /// Name of the field, for display purposes.
    pub name: FfiStr<'static>,
    /// Identifier of the field, used verbatim as a column name.
    pub ident: FfiStr<'static>,
    /// Data type of the field.
    pub field_type: MetadataFieldType,
    /// Whether the field holds a list of values.
    pub is_list: bool,
}

/// Description of the media type that a plugin provides.
pub struct Media {
    /// Name of the media, for display purposes.
    pub name: FfiStr<'static>,
    /// Identifier of the media, used in its table's name.
    pub ident: FfiStr<'static>,
    /// Metadata fields of the media, in column order.
    pub fields: FfiBoxedSlice<MetadataField>,
}

/// Whether no two fields share an identifier.
pub open spec fn idents_unique(fields: Seq<MetadataField>) -> bool {
    forall|i: int, j: int|
        0 <= i < j < fields.len() ==> #[trigger] fields[i].ident@ != #[trigger] fields[j].ident@
}

impl Media {
    /// Identifiers are unique within one descriptor.
    pub open spec fn wf(&self) -> bool {
        idents_unique(self.fields@)
    }

    /// Checks that no two fields share an identifier.
    pub fn has_unique_idents(&self) -> (r: bool)
        ensures
            r == self.wf(),
    {
        let fields = self.fields.to_slice();
        let n = fields.len();
        let mut i: usize = 0;
        while i < n
            invariant
                n == self.fields@.len(),
                fields@ == self.fields@,
                i <= n,
                forall|a: int, b: int|
                    0 <= a < i && a < b < n ==> #[trigger] self.fields@[a].ident@
                        != #[trigger] self.fields@[b].ident@,
            decreases n - i,
        {
            let mut j: usize = i + 1;
            while j < n
                invariant
                    n == self.fields@.len(),
                    fields@ == self.fields@,
                    i < n,
                    i < j <= n,
                    forall|a: int, b: int|
                        0 <= a < i && a < b < n ==> #[trigger] self.fields@[a].ident@
                            != #[trigger] self.fields@[b].ident@,
                    forall|b: int|
                        i < b < j ==> self.fields@[i as int].ident@
                            != #[trigger] self.fields@[b].ident@,
                decreases n - j,
            {
                if str_equal(fields[i].ident.to_str(), fields[j].ident.to_str()) {
                    return false;
                }
                j = j + 1;
            }
            i = i + 1;
        }
        true
    }
}

/// Compares two texts character by character.
pub fn str_equal(a: &str, b: &str) -> (r: bool)
    ensures
        r == (a@ == b@),
{
    let n = a.unicode_len();
    if n != b.unicode_len() {
        return false;
    }
    let mut i: usize = 0;
    while i < n
        invariant
            n == a@.len(),
            n == b@.len(),
            i <= n,
            forall|k: int| 0 <= k < i ==> a@[k] == b@[k],
        decreases n - i,
    {
        if a.get_char(i) != b.get_char(i) {
            return false;
        }
        i = i + 1;
    }
    assert(a@ =~= b@);
    true
}

/// A metadata value, as a plugin's extraction returns it.
pub enum MetadataFieldValue {
    /// 64-bit signed integer value.
    Integer(i64),
    /// 64-bit floating point value, as its IEEE 754 bit pattern.
    Real(u64),
    /// Text value.
    Text(FfiString),
    /// Binary data.
    Blob(FfiBoxedSlice<u8>),
    /// Boolean value.
    Boolean(bool),
    /// Calendar date, as its Julian day number.
    Date(i32),
    /// Time of day.
    Time(FfiTime),
    /// List of values.
    List(FfiBoxedSlice<MetadataFieldValue>),
}

/// A value as the catalog store holds it.
#[derive(Debug, Clone, PartialEq, Eq)]
pub enum SqlValue {
    /// No value.
    Null,
    /// An integer.
    Integer(i64),
    /// A floating point number, as its IEEE 754 bit pattern.
    Real(u64),
    /// A text.
    Text(String),
    /// Binary data.
    Blob(Vec<u8>),
}

/// Text of the calendar date with Julian day number `julian_day` in the
/// ISO 8601 date format.
pub uninterp spec fn iso_date_of(julian_day: int) -> Seq<char>;

/// Text of the time of day `hour:minute:second` in the ISO 8601 time format.
pub uninterp spec fn iso_time_of(hour: int, minute: int, second: int) -> Seq<char>;

/// Relies on `time::Date::from_julian_day`, which turns the day number into a
/// date, and on `time::Date::format` with `Iso8601::DATE`: the text depends on
/// the day number alone. Either call may fail, out of the supported range.
#[verifier::external_body]
fn iso8601_date(julian_day: i32) -> (r: Option<String>)
    ensures
        r matches Some(t) ==> t@ == iso_date_of(julian_day as int),
{
    time::Date::from_julian_day(julian_day).ok().and_then(
        |d| d.format(&time::format_description::well_known::Iso8601::DATE).ok(),
    )
}

/// Relies on `time::Time::from_hms`, which turns the three parts into a time,
/// and on `time::Time::format` with `Iso8601::TIME`: the text depends on the
/// parts alone.
#[verifier::external_body]
fn iso8601_time(hour: u8, minute: u8, second: u8) -> (r: Option<String>)
    ensures
        r matches Some(t) ==> t@ == iso_time_of(hour as int, minute as int, second as int),
{
    time::Time::from_hms(hour, minute, second).ok().and_then(
        |t| t.format(&time::format_description::well_known::Iso8601::TIME).ok(),
    )
}

impl MetadataFieldValue {
    /// The stored form of a value that is not a list, when it has one: an
    /// integer or a real as itself, a text or binary data copied, a boolean as
    /// 0 or 1, and a date or time as ISO 8601 text. A list is stored through
    /// its serialized form instead, so it has none here.
    pub fn to_sql_value(&self) -> (r: Option<SqlValue>)
        ensures
            match *self {
                MetadataFieldValue::Integer(v) => r == Some(SqlValue::Integer(v)),
                MetadataFieldValue::Real(v) => r == Some(SqlValue::Real(v)),
                MetadataFieldValue::Text(s) => r matches Some(SqlValue::Text(t)) && t@ == s@,
                MetadataFieldValue::Blob(b) => r matches Some(SqlValue::Blob(t)) && t@ == b@,
                MetadataFieldValue::Boolean(v) => r == Some(SqlValue::Integer(
                    if v {
                        1
                    } else {
                        0
                    },
                )),
                MetadataFieldValue::Date(d) => r matches Some(x) ==> x matches SqlValue::Text(t)
                    && t@ == iso_date_of(d as int),
                MetadataFieldValue::Time(t) => r matches Some(x) ==> x matches SqlValue::Text(u)
                    && u@ == iso_time_of(t@.0 as int, t@.1 as int, t@.2 as int),
                MetadataFieldValue::List(_) => r is None,
            },
    {
        match self {
            MetadataFieldValue::Integer(v) => Some(SqlValue::Integer(*v)),
            MetadataFieldValue::Real(v) => Some(SqlValue::Real(*v)),
            MetadataFieldValue::Text(s) => Some(SqlValue::Text(s.to_str().to_owned())),
            MetadataFieldValue::Blob(b) => Some(SqlValue::Blob(vstd::slice::slice_to_vec(b.to_slice()))),
            MetadataFieldValue::Boolean(v) => Some(SqlValue::Integer(
                if *v {
                    1
                } else {
                    0
                },
            )),
            MetadataFieldValue::Date(d) => match iso8601_date(*d) {
                Some(t) => Some(SqlValue::Text(t)),
                None => None,
            },
            MetadataFieldValue::Time(t) => {
                let (h, m, s) = t.as_hms();
                match iso8601_time(h, m, s) {
                    Some(u) => Some(SqlValue::Text(u)),
                    None => None,
                }
            },
            MetadataFieldValue::List(_) => None,
        }
    }
}

} // verus!
