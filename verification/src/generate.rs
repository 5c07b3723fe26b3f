//! The generator: build a metadata document from what a CSV file shows —
//! its name, size and content hash, its headers, and an optional first
//! data row used for data-type inference.
//!
//! The document this produces is proved to pass the validation engine
//! with no errors whenever the file name and every header are non-empty.

use vstd::prelude::*;
use vstd::string::StrSliceExecFns;
use vstd::string::StringExecFns;

use crate::model::create_default_context;
use crate::model::infer_data_type;
use crate::model::spec_infer_data_type;
use crate::model::spec_to_schema_org;
use crate::model::DataType;
use crate::model::Distribution;
use crate::model::DistributionV;
use crate::model::Extract;
use crate::model::Field;
use crate::model::FieldSource;
use crate::model::FieldV;
use crate::model::FileObject;
use crate::model::Metadata;
use crate::model::MetadataV;
use crate::model::RecordSet;
use crate::model::RecordSetV;
use crate::issues::spec_error_count;
use crate::issues::IssueV;
use crate::text::spec_dec;
use crate::text::u64_to_string;
use crate::validation::lemma_fields_issues_empty;
use crate::validation::lemma_fields_reference_issues_empty;
use crate::validation::spec_distribution_issues;
use crate::validation::spec_distributions_issues;
use crate::validation::spec_field_issues;
use crate::validation::spec_field_reference_issues;
use crate::validation::spec_has_distribution_id;
use crate::validation::spec_is_standard_data_type;
use crate::validation::spec_record_set_issues;
use crate::validation::spec_record_sets_issues;
use crate::validation::spec_reference_issues_from;
use crate::validation::spec_valid_sha256;
use crate::validation::spec_validate;
use crate::validation::spec_validate_basic;

verus! {

/// The views of a list of header or row cells.
pub open spec fn spec_str_views(v: Seq<String>) -> Seq<Seq<char>> {
    v.map_values(|s: String| s@)
}

/// The views of an optional first data row.
pub open spec fn spec_row_views(row: Option<Vec<String>>) -> Option<Seq<Seq<char>>> {
    match row {
        Some(r) => Some(spec_str_views(r@)),
        None => None,
    }
}

/// The data type the generator assigns to the column at `i`: inferred
/// from the row's cell there, text when the row is absent or shorter.
pub open spec fn spec_column_data_type(row: Option<Seq<Seq<char>>>, i: int) -> Seq<char> {
    match row {
        Some(cells) => if 0 <= i < cells.len() {
            spec_to_schema_org(spec_infer_data_type(cells[i]))
        } else {
            "sc:Text"@
        },
        None => "sc:Text"@,
    }
}

/// The field the generator builds for the column at `i`.
pub open spec fn spec_build_field(
    file_name: Seq<char>,
    header: Seq<char>,
    row: Option<Seq<Seq<char>>>,
    i: int,
) -> FieldV {
    FieldV {
        id: "main/"@ + header,
        type_: "cr:Field"@,
        name: header,
        description: "Field for "@ + header,
        data_type: spec_column_data_type(row, i),
        extract_column: header,
        file_object_id: file_name,
    }
}

/// The document the generator builds: one distribution for the CSV file
/// and one record set with one field per column.
pub open spec fn spec_build_metadata(
    dataset_stem: Seq<char>,
    file_name: Seq<char>,
    file_size: u64,
    sha256: Seq<char>,
    date_published: Seq<char>,
    headers: Seq<Seq<char>>,
    row: Option<Seq<Seq<char>>>,
) -> MetadataV {
    MetadataV {
        type_: "sc:Dataset"@,
        name: dataset_stem + "_dataset"@,
        description: "Dataset created from "@ + file_name,
        conforms_to: "http://mlcommons.org/croissant/1.0"@,
        date_published: date_published,
        version: "1.0.0"@,
        distribution: seq![
            DistributionV {
                id: file_name,
                type_: "cr:FileObject"@,
                name: file_name,
                content_size: spec_dec(file_size as int) + " B"@,
                content_url: file_name,
                encoding_format: "text/csv"@,
                sha256: sha256,
            },
        ],
        record_set: seq![
            RecordSetV {
                id: "main"@,
                type_: "cr:RecordSet"@,
                name: "main"@,
                description: "Records from "@ + file_name,
                field: Seq::new(headers.len(), |i: int| spec_build_field(file_name, headers[i], row, i)),
            },
        ],
    }
}

/// Every tag the generator can assign is a recognized, non-empty data
/// type.
proof fn lemma_schema_org_tag_standard(t: DataType)
    ensures
        spec_to_schema_org(t).len() > 0,
        spec_is_standard_data_type(spec_to_schema_org(t)),
{
    reveal_strlit("sc:Integer");
    reveal_strlit("sc:Float");
    reveal_strlit("sc:Text");
    reveal_strlit("sc:Date");
    reveal_strlit("sc:Boolean");
}

/// Law: the document the generator builds passes validation with no
/// errors whenever the file name and every header are non-empty and the
/// hash is a well-formed SHA-256 value. (No warnings arise either: the
/// generator always fills the recommended properties and assigns
/// recognized data types.)
#[verifier::rlimit(100)]
pub proof fn lemma_generated_metadata_validates(
    dataset_stem: Seq<char>,
    file_name: Seq<char>,
    file_size: u64,
    sha256: Seq<char>,
    date_published: Seq<char>,
    headers: Seq<Seq<char>>,
    row: Option<Seq<Seq<char>>>,
)
    requires
        file_name.len() > 0,
        spec_valid_sha256(sha256),
        forall|i: int| 0 <= i < headers.len() ==> (#[trigger] headers[i]).len() > 0,
    ensures
        spec_error_count(
            spec_validate(
                spec_build_metadata(
                    dataset_stem,
                    file_name,
                    file_size,
                    sha256,
                    date_published,
                    headers,
                    row,
                ),
            ),
        ) == 0,
        spec_validate(
            spec_build_metadata(
                dataset_stem,
                file_name,
                file_size,
                sha256,
                date_published,
                headers,
                row,
            ),
        ).len() == 0,
{
    let m = spec_build_metadata(
        dataset_stem,
        file_name,
        file_size,
        sha256,
        date_published,
        headers,
        row,
    );
    reveal_strlit("_dataset");
    reveal_strlit("Dataset created from ");
    reveal_strlit("http://mlcommons.org/croissant/1.0");
    reveal_strlit("text/csv");
    reveal_strlit("main");
    reveal_strlit("Records from ");
    assert(m.name.len() > 0);
    assert(spec_validate_basic(m) =~= Seq::<IssueV>::empty());
    reveal_with_fuel(spec_distributions_issues, 2);
    reveal_with_fuel(spec_record_sets_issues, 2);
    reveal_with_fuel(spec_reference_issues_from, 2);
    let d = m.distribution[0];
    assert(spec_distribution_issues(m.name, d) =~= Seq::<IssueV>::empty());
    assert(m.distribution.drop_last() =~= Seq::<DistributionV>::empty());
    assert(m.distribution.last() == d);
    assert(spec_distributions_issues(m.name, m.distribution) =~= Seq::<IssueV>::empty());
    let rs = m.record_set[0];
    assert forall|k: int|
        0 <= k < rs.field.len() implies spec_field_issues(m.name, rs.name, #[trigger] rs.field[k])
        == Seq::<IssueV>::empty() by {
        let fld = rs.field[k];
        assert(fld == spec_build_field(file_name, headers[k], row, k));
        assert(fld.name.len() > 0);
        match row {
            Some(cells) => {
                if 0 <= k < cells.len() {
                    lemma_schema_org_tag_standard(spec_infer_data_type(cells[k]));
                } else {
                    lemma_schema_org_tag_standard(DataType::Text);
                }
            },
            None => {
                lemma_schema_org_tag_standard(DataType::Text);
            },
        }
        assert(fld.data_type.len() > 0);
        assert(spec_is_standard_data_type(fld.data_type));
        assert(spec_field_issues(m.name, rs.name, fld) =~= Seq::<IssueV>::empty());
    }
    lemma_fields_issues_empty(m.name, rs.name, rs.field);
    assert(spec_record_set_issues(m.name, rs) =~= Seq::<IssueV>::empty());
    assert(m.record_set.drop_last() =~= Seq::<RecordSetV>::empty());
    assert(m.record_set.last() == rs);
    assert(spec_record_sets_issues(m.name, m.record_set) =~= Seq::<IssueV>::empty());
    assert forall|k: int|
        0 <= k < rs.field.len() implies spec_field_reference_issues(
        m,
        rs.name,
        #[trigger] rs.field[k],
    ) == Seq::<IssueV>::empty() by {
        assert(m.distribution[0].id == file_name);
        assert(spec_has_distribution_id(m.distribution, rs.field[k].file_object_id));
        assert(spec_field_reference_issues(m, rs.name, rs.field[k]) =~= Seq::<IssueV>::empty());
    }
    lemma_fields_reference_issues_empty(m, rs.name, rs.field);
    assert(spec_reference_issues_from(m, m.record_set) =~= Seq::<IssueV>::empty());
    assert(spec_validate(m) =~= Seq::<IssueV>::empty());
    reveal(Seq::filter);
    assert(spec_error_count(spec_validate(m)) == 0);
}

/// Build one generated field.
fn build_field(file_name: &str, header: &str, row: &Option<Vec<String>>, i: usize) -> (r: Field)
    ensures
        r@ == spec_build_field(file_name@, header@, spec_row_views(*row), i as int),
{
    let data_type: DataType = match row {
        Some(cells) => if i < cells.len() {
            proof {
                assert(spec_str_views(cells@)[i as int] == cells@[i as int]@);
            }
            infer_data_type(cells[i].as_str())
        } else {
            DataType::Text
        },
        None => DataType::Text,
    };
    let mut id = String::from_str("main/");
    id.append(header);
    let mut description = String::from_str("Field for ");
    description.append(header);
    let r = Field {
        id,
        type_: String::from_str("cr:Field"),
        name: String::from_str(header),
        description,
        data_type: String::from_str(data_type.to_schema_org()),
        source: FieldSource {
            extract: Extract { column: String::from_str(header) },
            file_object: FileObject { id: String::from_str(file_name) },
        },
    };
    proof {
        assert(r@.id =~= "main/"@ + header@);
        assert(r@.description =~= "Field for "@ + header@);
    }
    r
}

/// Generate a metadata document from what a CSV file shows: its name
/// (and the stem naming the dataset), its size in bytes, its content
/// hash, a publication date, its headers and an optional first data row.
pub fn generate_metadata(
    dataset_stem: &str,
    file_name: &str,
    file_size: u64,
    sha256: &str,
    date_published: &str,
    headers: &Vec<String>,
    first_row: &Option<Vec<String>>,
) -> (r: Metadata)
    ensures
        r@ == spec_build_metadata(
            dataset_stem@,
            file_name@,
            file_size,
            sha256@,
            date_published@,
            spec_str_views(headers@),
            spec_row_views(*first_row),
        ),
{
    let ghost hs = spec_str_views(headers@);
    let ghost row = spec_row_views(*first_row);
    let mut fields: Vec<Field> = Vec::new();
    let mut i: usize = 0;
    while i < headers.len()
        invariant
            i <= headers.len(),
            hs == spec_str_views(headers@),
            row == spec_row_views(*first_row),
            hs.len() == headers@.len(),
            fields@.len() == i,
            forall|j: int|
                0 <= j < i ==> (#[trigger] fields@[j])@ == spec_build_field(
                    file_name@,
                    hs[j],
                    row,
                    j,
                ),
        decreases headers.len() - i,
    {
        proof {
            assert(hs[i as int] == headers@[i as int]@);
        }
        let field = build_field(file_name, headers[i].as_str(), first_row, i);
        fields.push(field);
        i += 1;
    }
    let mut name = String::from_str(dataset_stem);
    name.append("_dataset");
    let mut description = String::from_str("Dataset created from ");
    description.append(file_name);
    let mut content_size = u64_to_string(file_size);
    content_size.append(" B");
    let mut rs_description = String::from_str("Records from ");
    rs_description.append(file_name);
    let metadata = Metadata {
        context: create_default_context(),
        type_: String::from_str("sc:Dataset"),
        name,
        description,
        conforms_to: String::from_str("http://mlcommons.org/croissant/1.0"),
        date_published: String::from_str(date_published),
        version: String::from_str("1.0.0"),
        distribution: vec![
            Distribution {
                id: String::from_str(file_name),
                type_: String::from_str("cr:FileObject"),
                name: String::from_str(file_name),
                content_size,
                content_url: String::from_str(file_name),
                encoding_format: String::from_str("text/csv"),
                sha256: String::from_str(sha256),
            },
        ],
        record_set: vec![
            RecordSet {
                id: String::from_str("main"),
                type_: String::from_str("cr:RecordSet"),
                name: String::from_str("main"),
                description: rs_description,
                field: fields,
            },
        ],
    };
    proof {
        let built = spec_build_metadata(
            dataset_stem@,
            file_name@,
            file_size,
            sha256@,
            date_published@,
            hs,
            row,
        );
        assert(metadata@.distribution =~= built.distribution);
        assert(metadata@.record_set[0].field =~= built.record_set[0].field);
        assert(metadata@.record_set =~= built.record_set);
        assert(metadata@.name =~= built.name);
        assert(metadata@.description =~= built.description);
        assert(metadata@.record_set[0].description =~= built.record_set[0].description);
    }
    metadata
}

} // verus!
