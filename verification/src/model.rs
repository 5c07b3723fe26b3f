//! The Croissant data model: a metadata document describing a tabular
//! dataset, with one entry per file (`Distribution`) and one logical
//! table (`RecordSet`) of column descriptions (`Field`).
//!
//! Each executable type has a ghost view over `Seq<char>` so that the
//! validation rules can be stated mathematically.

use vstd::prelude::*;
use vstd::string::StringExecFns;

use crate::literals::is_bool_literal;
use crate::literals::is_f64_literal;
use crate::literals::is_i64_literal;
use crate::literals::spec_is_bool_literal;
use crate::literals::spec_is_f64_literal;
use crate::literals::spec_is_i64_literal;
use crate::text::spec_trim;
use crate::text::trim;

verus! {

/// A field in the Croissant metadata: one column of a record set.
#[derive(Debug, Clone, PartialEq)]
pub struct Field {
    pub id: String,
    pub type_: String,
    pub name: String,
    pub description: String,
    pub data_type: String,
    pub source: FieldSource,
}

/// Where a field's values come from: a column extracted from a file object.
#[derive(Debug, Clone, PartialEq)]
pub struct FieldSource {
    pub extract: Extract,
    pub file_object: FileObject,
}

/// The column a field source extracts.
#[derive(Debug, Clone, PartialEq)]
pub struct Extract {
    pub column: String,
}

/// A reference to a file object by its identifier.
#[derive(Debug, Clone, PartialEq)]
pub struct FileObject {
    pub id: String,
}

/// A file resource of the dataset, referenced by fields through its `id`.
#[derive(Debug, Clone, PartialEq)]
pub struct Distribution {
    pub id: String,
    pub type_: String,
    pub name: String,
    pub content_size: String,
    pub content_url: String,
    pub encoding_format: String,
    pub sha256: String,
}

/// A logical table of fields.
#[derive(Debug, Clone, PartialEq)]
pub struct RecordSet {
    pub id: String,
    pub type_: String,
    pub name: String,
    pub description: String,
    pub field: Vec<Field>,
}

/// The JSON-LD context of the metadata document.
#[derive(Debug, Clone, PartialEq)]
pub struct Context {
    pub language: String,
    pub vocab: String,
    pub cite_as: String,
    pub column: String,
    pub conforms_to: String,
    pub cr: String,
    pub dct: String,
    pub data: DataContext,
    pub data_type: DataTypeContext,
    pub extract: String,
    pub field: String,
    pub file_object: String,
    pub file_property: String,
    pub sc: String,
    pub source: String,
}

/// The `data` entry of the JSON-LD context.
#[derive(Debug, Clone, PartialEq)]
pub struct DataContext {
    pub id: String,
    pub type_: String,
}

/// The `dataType` entry of the JSON-LD context.
#[derive(Debug, Clone, PartialEq)]
pub struct DataTypeContext {
    pub id: String,
    pub type_: String,
}

/// The complete Croissant metadata document.
#[derive(Debug, Clone, PartialEq)]
pub struct Metadata {
    pub context: Context,
    pub type_: String,
    pub name: String,
    pub description: String,
    pub conforms_to: String,
    pub date_published: String,
    pub version: String,
    pub distribution: Vec<Distribution>,
    pub record_set: Vec<RecordSet>,
}

/// Mathematical view of a `Field`.
pub ghost struct FieldV {
    pub id: Seq<char>,
    pub type_: Seq<char>,
    pub name: Seq<char>,
    pub description: Seq<char>,
    pub data_type: Seq<char>,
    pub extract_column: Seq<char>,
    pub file_object_id: Seq<char>,
}

/// Mathematical view of a `Distribution`.
pub ghost struct DistributionV {
    pub id: Seq<char>,
    pub type_: Seq<char>,
    pub name: Seq<char>,
    pub content_size: Seq<char>,
    pub content_url: Seq<char>,
    pub encoding_format: Seq<char>,
    pub sha256: Seq<char>,
}

/// Mathematical view of a `RecordSet`.
pub ghost struct RecordSetV {
    pub id: Seq<char>,
    pub type_: Seq<char>,
    pub name: Seq<char>,
    pub description: Seq<char>,
    pub field: Seq<FieldV>,
}

/// Mathematical view of a `Metadata` document; the JSON-LD context is
/// carried by the executable type only, no validation rule reads it.
pub ghost struct MetadataV {
    pub type_: Seq<char>,
    pub name: Seq<char>,
    pub description: Seq<char>,
    pub conforms_to: Seq<char>,
    pub date_published: Seq<char>,
    pub version: Seq<char>,
    pub distribution: Seq<DistributionV>,
    pub record_set: Seq<RecordSetV>,
}

/// The data types inference can assign to a field.
#[derive(Debug, Clone, PartialEq, Eq, Structural)]
pub enum DataType {
    Integer,
    Float,
    Text,
    Date,
    Boolean,
}

/// The schema.org tag of an inferred data type.
pub open spec fn spec_to_schema_org(t: DataType) -> Seq<char> {
    match t {
        DataType::Integer => "sc:Integer"@,
        DataType::Float => "sc:Float"@,
        DataType::Text => "sc:Text"@,
        DataType::Date => "sc:Date"@,
        DataType::Boolean => "sc:Boolean"@,
    }
}

impl DataType {
    /// Convert to the schema.org data type tag.
    pub fn to_schema_org(&self) -> (r: &'static str)
        ensures
            r@ == spec_to_schema_org(*self),
    {
        match self {
            DataType::Integer => "sc:Integer",
            DataType::Float => "sc:Float",
            DataType::Text => "sc:Text",
            DataType::Date => "sc:Date",
            DataType::Boolean => "sc:Boolean",
        }
    }
}

/// Whether the value is a calendar date in the year-month-day form.
/// Whether it is depends on the characters of the value alone.
pub uninterp spec fn spec_is_ymd_date(s: Seq<char>) -> bool;

/// Whether the value is a date and time in the RFC 3339 form. Whether it
/// is depends on the characters of the value alone.
pub uninterp spec fn spec_is_rfc3339(s: Seq<char>) -> bool;

/// Relies on `chrono::NaiveDate::parse_from_str` with the year-month-day
/// format: whether parsing succeeds is a function of the input string.
#[verifier::external_body]
fn parses_as_ymd_date(s: &str) -> (r: bool)
    ensures
        r == spec_is_ymd_date(s@),
{
    chrono::NaiveDate::parse_from_str(s, "%Y-%m-%d").is_ok()
}

/// Relies on `chrono::DateTime::parse_from_rfc3339`: whether parsing
/// succeeds is a function of the input string.
#[verifier::external_body]
fn parses_as_rfc3339(s: &str) -> (r: bool)
    ensures
        r == spec_is_rfc3339(s@),
{
    chrono::DateTime::parse_from_rfc3339(s).is_ok()
}

/// The data type inferred from a sample value: the trimmed value is tried
/// as an integer, a float, a boolean and the two date forms, in that
/// order, and is text when none matches.
pub open spec fn spec_infer_data_type(value: Seq<char>) -> DataType {
    let t = spec_trim(value);
    if spec_is_i64_literal(t) {
        DataType::Integer
    } else if spec_is_f64_literal(t) {
        DataType::Float
    } else if spec_is_bool_literal(t) {
        DataType::Boolean
    } else if spec_is_ymd_date(t) {
        DataType::Date
    } else if spec_is_rfc3339(t) {
        DataType::Date
    } else {
        DataType::Text
    }
}

/// Infer the data type from a sample value string.
pub fn infer_data_type(value: &str) -> (t: DataType)
    ensures
        t == spec_infer_data_type(value@),
{
    let trimmed = trim(value);
    if is_i64_literal(trimmed) {
        DataType::Integer
    } else if is_f64_literal(trimmed) {
        DataType::Float
    } else if is_bool_literal(trimmed) {
        DataType::Boolean
    } else if parses_as_ymd_date(trimmed) {
        DataType::Date
    } else if parses_as_rfc3339(trimmed) {
        DataType::Date
    } else {
        DataType::Text
    }
}

/// Create the default JSON-LD context of a metadata document.
pub fn create_default_context() -> (r: Context)
    ensures
        r.language@ == "en"@,
        r.vocab@ == "https://schema.org/"@,
        r.cite_as@ == "cr:citeAs"@,
        r.column@ == "cr:column"@,
        r.conforms_to@ == "dct:conformsTo"@,
        r.cr@ == "http://mlcommons.org/croissant/"@,
        r.dct@ == "http://purl.org/dc/terms/"@,
        r.data.id@ == "cr:data"@,
        r.data.type_@ == "@json"@,
        r.data_type.id@ == "cr:dataType"@,
        r.data_type.type_@ == "@vocab"@,
        r.extract@ == "cr:extract"@,
        r.field@ == "cr:field"@,
        r.file_object@ == "cr:fileObject"@,
        r.file_property@ == "cr:fileProperty"@,
        r.sc@ == "https://schema.org/"@,
        r.source@ == "cr:source"@,
{
    Context {
        language: String::from_str("en"),
        vocab: String::from_str("https://schema.org/"),
        cite_as: String::from_str("cr:citeAs"),
        column: String::from_str("cr:column"),
        conforms_to: String::from_str("dct:conformsTo"),
        cr: String::from_str("http://mlcommons.org/croissant/"),
        dct: String::from_str("http://purl.org/dc/terms/"),
        data: DataContext {
            id: String::from_str("cr:data"),
            type_: String::from_str("@json"),
        },
        data_type: DataTypeContext {
            id: String::from_str("cr:dataType"),
            type_: String::from_str("@vocab"),
        },
        extract: String::from_str("cr:extract"),
        field: String::from_str("cr:field"),
        file_object: String::from_str("cr:fileObject"),
        file_property: String::from_str("cr:fileProperty"),
        sc: String::from_str("https://schema.org/"),
        source: String::from_str("cr:source"),
    }
}

impl View for Field {
    type V = FieldV;

    open spec fn view(&self) -> FieldV {
        FieldV {
            id: self.id@,
            type_: self.type_@,
            name: self.name@,
            description: self.description@,
            data_type: self.data_type@,
            extract_column: self.source.extract.column@,
            file_object_id: self.source.file_object.id@,
        }
    }
}

impl View for Distribution {
    type V = DistributionV;

    open spec fn view(&self) -> DistributionV {
        DistributionV {
            id: self.id@,
            type_: self.type_@,
            name: self.name@,
            content_size: self.content_size@,
            content_url: self.content_url@,
            encoding_format: self.encoding_format@,
            sha256: self.sha256@,
        }
    }
}

impl View for RecordSet {
    type V = RecordSetV;

    open spec fn view(&self) -> RecordSetV {
        RecordSetV {
            id: self.id@,
            type_: self.type_@,
            name: self.name@,
            description: self.description@,
            field: self.field@.map_values(|f: Field| f@),
        }
    }
}

impl View for Metadata {
    type V = MetadataV;

    open spec fn view(&self) -> MetadataV {
        MetadataV {
            type_: self.type_@,
            name: self.name@,
            description: self.description@,
            conforms_to: self.conforms_to@,
            date_published: self.date_published@,
            version: self.version@,
            distribution: self.distribution@.map_values(|d: Distribution| d@),
            record_set: self.record_set@.map_values(|r: RecordSet| r@),
        }
    }
}

} // verus!
