//! The validation engine: a fixed pipeline of rule groups (document
//! checks, distribution checks, record-set and field checks, reference
//! integrity) over a metadata document, each group feeding the same
//! issue collector.
//!
//! Every rule is stated first as a spec function from the document's
//! view to the sequence of findings it contributes; the executable
//! functions are proved to produce exactly those findings, in order.

use vstd::prelude::*;
use vstd::string::StrSliceExecFns;
use vstd::string::StringExecFns;

use crate::issues::is_error;
use crate::issues::lemma_report_contains_error_message;
use crate::issues::spec_error_issue;
use crate::issues::spec_has_errors;
use crate::issues::spec_report;
use crate::issues::spec_warning_issue;
use crate::issues::IssueV;
use crate::issues::ValidationIssues;
use crate::model::Distribution;
use crate::model::DistributionV;
use crate::model::FieldV;
use crate::model::Metadata;
use crate::model::MetadataV;
use crate::model::RecordSet;
use crate::model::RecordSetV;
use crate::text::is_hex_digit;
use crate::text::spec_contains_seq;
use crate::text::spec_is_hex_digit;
use crate::text::spec_is_space;
use crate::text::str_eq;

verus! {

// ---------------------------------------------------------------------
// The recognized type tags and data types
// ---------------------------------------------------------------------
/// The type tag a metadata document must carry.
pub open spec fn tag_dataset() -> Seq<char> {
    "sc:Dataset"@
}

/// The first of the two recognized file-entity tags.
pub open spec fn tag_file_object() -> Seq<char> {
    "cr:FileObject"@
}

/// The second of the two recognized file-entity tags.
pub open spec fn tag_file_set() -> Seq<char> {
    "cr:FileSet"@
}

/// The type tag a record set must carry.
pub open spec fn tag_record_set() -> Seq<char> {
    "cr:RecordSet"@
}

/// The type tag a field must carry.
pub open spec fn tag_field() -> Seq<char> {
    "cr:Field"@
}

/// The recognized scalar data types of a field.
pub open spec fn spec_is_standard_data_type(dt: Seq<char>) -> bool {
    ||| dt == "sc:Text"@
    ||| dt == "sc:Integer"@
    ||| dt == "sc:Float"@
    ||| dt == "sc:Boolean"@
    ||| dt == "sc:Date"@
    ||| dt == "sc:DateTime"@
    ||| dt == "sc:Time"@
    ||| dt == "sc:URL"@
    ||| dt == "sc:Number"@
}

/// A well-formed SHA-256 value: exactly 64 hexadecimal characters.
pub open spec fn spec_valid_sha256(s: Seq<char>) -> bool {
    s.len() == 64 && forall|i: int| 0 <= i < s.len() ==> spec_is_hex_digit(#[trigger] s[i])
}

// ---------------------------------------------------------------------
// Messages and structural-path contexts
// ---------------------------------------------------------------------
/// Error for an absent mandatory `name`.
pub open spec fn msg_mandatory_name() -> Seq<char> {
    "Property \"https://schema.org/name\" is mandatory, but does not exist."@
}

/// Error for a document whose type is not the dataset tag.
pub open spec fn msg_not_dataset() -> Seq<char> {
    "The current JSON-LD doesn't extend https://schema.org/Dataset."@
}

/// Warning for an absent recommended `conformsTo`.
pub open spec fn msg_conforms_to_recommended() -> Seq<char> {
    "Property \"http://purl.org/dc/terms/conformsTo\" is recommended, but does not exist."@
}

/// Warning for an absent recommended `description`.
pub open spec fn msg_description_recommended() -> Seq<char> {
    "Property \"https://schema.org/description\" is recommended, but does not exist."@
}

/// Error for an absent mandatory `contentUrl`.
pub open spec fn msg_mandatory_content_url() -> Seq<char> {
    "Property \"https://schema.org/contentUrl\" is mandatory, but does not exist."@
}

/// Error for an absent mandatory `encodingFormat`.
pub open spec fn msg_mandatory_encoding_format() -> Seq<char> {
    "Property \"https://schema.org/encodingFormat\" is mandatory, but does not exist."@
}

/// Warning for an absent recommended `sha256`.
pub open spec fn msg_sha256_recommended() -> Seq<char> {
    "Property \"https://schema.org/sha256\" is recommended for file integrity verification."@
}

/// Error for a malformed `sha256` value.
pub open spec fn msg_invalid_sha256() -> Seq<char> {
    "Invalid SHA256 hash format. Expected 64 hexadecimal characters."@
}

/// Error for a distribution whose type is neither recognized file-entity
/// tag; cites the offending value.
pub open spec fn msg_dist_bad_type(name: Seq<char>, type_: Seq<char>) -> Seq<char> {
    "\""@ + name
        + "\" should have an attribute \"@type\": \"http://mlcommons.org/croissant/FileObject\" or \"@type\": \"http://mlcommons.org/croissant/FileSet\". Got "@
        + type_ + " instead."@
}

/// Error for a record set whose type is not the record-set tag; cites the
/// offending value.
pub open spec fn msg_record_set_bad_type(name: Seq<char>, type_: Seq<char>) -> Seq<char> {
    "\""@ + name
        + "\" should have an attribute \"@type\": \"http://mlcommons.org/croissant/RecordSet\". Got "@
        + type_ + " instead."@
}

/// Error for a field whose type is not the field tag; cites the offending
/// value.
pub open spec fn msg_field_bad_type(name: Seq<char>, type_: Seq<char>) -> Seq<char> {
    "\""@ + name
        + "\" should have an attribute \"@type\": \"http://mlcommons.org/croissant/Field\". Got "@
        + type_ + " instead."@
}

/// Error for a field without a data type; cites the (empty) value.
pub open spec fn msg_missing_data_type(dt: Seq<char>) -> Seq<char> {
    "The field does not specify a valid http://mlcommons.org/croissant/dataType, neither does any of its predecessor. Got: "@
        + dt
}

/// Warning for a data type outside the recognized scalar set.
pub open spec fn msg_unknown_data_type(dt: Seq<char>) -> Seq<char> {
    "Unknown data type: "@ + dt + ". Consider using a standard schema.org type."@
}

/// Error for a field without a complete source; cites the field's id.
pub open spec fn msg_missing_source(id: Seq<char>) -> Seq<char> {
    "Node \""@ + id
        + "\" is a field and has no source. Please, use http://mlcommons.org/croissant/source to specify the source."@
}

/// Error for a field reference that no distribution id resolves; cites
/// the unresolved id.
pub open spec fn msg_unresolved_reference(id: Seq<char>) -> Seq<char> {
    "Field references non-existent file object: "@ + id
}

/// Structural path of the document itself.
pub open spec fn ctx_dataset(name: Seq<char>) -> Seq<char> {
    "Dataset("@ + name + ")"@
}

/// Structural path of a distribution.
pub open spec fn ctx_distribution(doc_name: Seq<char>, dist_name: Seq<char>) -> Seq<char> {
    "Dataset("@ + doc_name + ") > FileObject("@ + dist_name + ")"@
}

/// Structural path of a record set.
pub open spec fn ctx_record_set(doc_name: Seq<char>, rs_name: Seq<char>) -> Seq<char> {
    "Dataset("@ + doc_name + ") > RecordSet("@ + rs_name + ")"@
}

/// Structural path of a field.
pub open spec fn ctx_field(doc_name: Seq<char>, rs_name: Seq<char>, field_name: Seq<char>) -> Seq<
    char,
> {
    "Dataset("@ + doc_name + ") > RecordSet("@ + rs_name + ") > Field("@ + field_name + ")"@
}

// ---------------------------------------------------------------------
// The rules, as functions from the document's view to its findings
// ---------------------------------------------------------------------
/// Document-level findings: mandatory name, dataset type, recommended
/// `conformsTo` and `description`.
pub open spec fn spec_validate_basic(m: MetadataV) -> Seq<IssueV> {
    let ctx = ctx_dataset(m.name);
    (if m.name.len() == 0 {
        seq![spec_error_issue(msg_mandatory_name(), ctx)]
    } else {
        Seq::empty()
    }) + (if m.type_ != tag_dataset() {
        seq![spec_error_issue(msg_not_dataset(), ctx)]
    } else {
        Seq::empty()
    }) + (if m.conforms_to.len() == 0 {
        seq![spec_warning_issue(msg_conforms_to_recommended(), ctx)]
    } else {
        Seq::empty()
    }) + (if m.description.len() == 0 {
        seq![spec_warning_issue(msg_description_recommended(), ctx)]
    } else {
        Seq::empty()
    })
}

/// Findings of one distribution: mandatory name, recognized file-entity
/// type, mandatory `contentUrl` and `encodingFormat`, and the `sha256`
/// rule (recommended when absent, checked when present).
pub open spec fn spec_distribution_issues(doc_name: Seq<char>, d: DistributionV) -> Seq<IssueV> {
    let ctx = ctx_distribution(doc_name, d.name);
    (if d.name.len() == 0 {
        seq![spec_error_issue(msg_mandatory_name(), ctx)]
    } else {
        Seq::empty()
    }) + (if d.type_ != tag_file_object() && d.type_ != tag_file_set() {
        seq![spec_error_issue(msg_dist_bad_type(d.name, d.type_), ctx)]
    } else {
        Seq::empty()
    }) + (if d.content_url.len() == 0 {
        seq![spec_error_issue(msg_mandatory_content_url(), ctx)]
    } else {
        Seq::empty()
    }) + (if d.encoding_format.len() == 0 {
        seq![spec_error_issue(msg_mandatory_encoding_format(), ctx)]
    } else {
        Seq::empty()
    }) + (if d.sha256.len() == 0 {
        seq![spec_warning_issue(msg_sha256_recommended(), ctx)]
    } else if !spec_valid_sha256(d.sha256) {
        seq![spec_error_issue(msg_invalid_sha256(), ctx)]
    } else {
        Seq::empty()
    })
}

/// Findings of all distributions, in declaration order.
pub open spec fn spec_distributions_issues(doc_name: Seq<char>, ds: Seq<DistributionV>) -> Seq<
    IssueV,
>
    decreases ds.len(),
{
    if ds.len() == 0 {
        Seq::empty()
    } else {
        spec_distributions_issues(doc_name, ds.drop_last()) + spec_distribution_issues(
            doc_name,
            ds.last(),
        )
    }
}

/// The finding of the data-type rule for a non-empty data type: a warning
/// when it is outside the recognized scalar set.
pub open spec fn spec_data_type_issues(dt: Seq<char>, ctx: Seq<char>) -> Seq<IssueV> {
    if !spec_is_standard_data_type(dt) {
        seq![spec_warning_issue(msg_unknown_data_type(dt), ctx)]
    } else {
        Seq::empty()
    }
}

/// Findings of one field: mandatory name, field type, data type
/// (mandatory, and recognized or warned about), and a complete source.
pub open spec fn spec_field_issues(doc_name: Seq<char>, rs_name: Seq<char>, f: FieldV) -> Seq<
    IssueV,
> {
    let ctx = ctx_field(doc_name, rs_name, f.name);
    (if f.name.len() == 0 {
        seq![spec_error_issue(msg_mandatory_name(), ctx)]
    } else {
        Seq::empty()
    }) + (if f.type_ != tag_field() {
        seq![spec_error_issue(msg_field_bad_type(f.name, f.type_), ctx)]
    } else {
        Seq::empty()
    }) + (if f.data_type.len() == 0 {
        seq![spec_error_issue(msg_missing_data_type(f.data_type), ctx)]
    } else {
        spec_data_type_issues(f.data_type, ctx)
    }) + (if f.extract_column.len() == 0 || f.file_object_id.len() == 0 {
        seq![spec_error_issue(msg_missing_source(f.id), ctx)]
    } else {
        Seq::empty()
    })
}

/// Findings of a record set's fields, in declaration order.
pub open spec fn spec_fields_issues(doc_name: Seq<char>, rs_name: Seq<char>, fs: Seq<FieldV>) -> Seq<
    IssueV,
>
    decreases fs.len(),
{
    if fs.len() == 0 {
        Seq::empty()
    } else {
        spec_fields_issues(doc_name, rs_name, fs.drop_last()) + spec_field_issues(
            doc_name,
            rs_name,
            fs.last(),
        )
    }
}

/// Findings of one record set: mandatory name, record-set type, then its
/// fields' findings.
pub open spec fn spec_record_set_issues(doc_name: Seq<char>, rs: RecordSetV) -> Seq<IssueV> {
    let ctx = ctx_record_set(doc_name, rs.name);
    (if rs.name.len() == 0 {
        seq![spec_error_issue(msg_mandatory_name(), ctx)]
    } else {
        Seq::empty()
    }) + (if rs.type_ != tag_record_set() {
        seq![spec_error_issue(msg_record_set_bad_type(rs.name, rs.type_), ctx)]
    } else {
        Seq::empty()
    }) + spec_fields_issues(doc_name, rs.name, rs.field)
}

/// Findings of all record sets, in declaration order.
pub open spec fn spec_record_sets_issues(doc_name: Seq<char>, rss: Seq<RecordSetV>) -> Seq<IssueV>
    decreases rss.len(),
{
    if rss.len() == 0 {
        Seq::empty()
    } else {
        spec_record_sets_issues(doc_name, rss.drop_last()) + spec_record_set_issues(
            doc_name,
            rss.last(),
        )
    }
}

/// Whether some distribution carries this id.
pub open spec fn spec_has_distribution_id(ds: Seq<DistributionV>, id: Seq<char>) -> bool {
    exists|i: int| 0 <= i < ds.len() && (#[trigger] ds[i]).id == id
}

/// The reference-integrity finding of one field: an error naming the
/// field's file-object id when it is non-empty and no distribution
/// carries it.
pub open spec fn spec_field_reference_issues(m: MetadataV, rs_name: Seq<char>, f: FieldV) -> Seq<
    IssueV,
> {
    if f.file_object_id.len() > 0 && !spec_has_distribution_id(m.distribution, f.file_object_id) {
        seq![
            spec_error_issue(
                msg_unresolved_reference(f.file_object_id),
                ctx_field(m.name, rs_name, f.name),
            ),
        ]
    } else {
        Seq::empty()
    }
}

/// Reference-integrity findings of a record set's fields, in order.
pub open spec fn spec_fields_reference_issues(m: MetadataV, rs_name: Seq<char>, fs: Seq<FieldV>) -> Seq<
    IssueV,
>
    decreases fs.len(),
{
    if fs.len() == 0 {
        Seq::empty()
    } else {
        spec_fields_reference_issues(m, rs_name, fs.drop_last()) + spec_field_reference_issues(
            m,
            rs_name,
            fs.last(),
        )
    }
}

/// Reference-integrity findings of the whole document, record set by
/// record set.
pub open spec fn spec_reference_issues_from(m: MetadataV, rss: Seq<RecordSetV>) -> Seq<IssueV>
    decreases rss.len(),
{
    if rss.len() == 0 {
        Seq::empty()
    } else {
        spec_reference_issues_from(m, rss.drop_last()) + spec_fields_reference_issues(
            m,
            rss.last().name,
            rss.last().field,
        )
    }
}

/// Reference-integrity findings of the whole document.
pub open spec fn spec_reference_issues(m: MetadataV) -> Seq<IssueV> {
    spec_reference_issues_from(m, m.record_set)
}

/// All findings of the validation pipeline, group by group.
pub open spec fn spec_validate(m: MetadataV) -> Seq<IssueV> {
    spec_validate_basic(m) + spec_distributions_issues(m.name, m.distribution)
        + spec_record_sets_issues(m.name, m.record_set) + spec_reference_issues(m)
}

// ---------------------------------------------------------------------
// The executable pipeline
// ---------------------------------------------------------------------
/// Whether a present `sha256` value is well-formed.
fn valid_sha256(s: &str) -> (r: bool)
    ensures
        r == spec_valid_sha256(s@),
{
    let len = s.unicode_len();
    if len != 64 {
        return false;
    }
    let mut i: usize = 0;
    while i < len
        invariant
            i <= len,
            len == s@.len(),
            forall|j: int| 0 <= j < i ==> spec_is_hex_digit(#[trigger] s@[j]),
        decreases len - i,
    {
        if !is_hex_digit(s.get_char(i)) {
            return false;
        }
        i += 1;
    }
    true
}

/// Whether some distribution carries this id.
fn has_distribution_id(ds: &Vec<Distribution>, id: &str) -> (r: bool)
    ensures
        r == spec_has_distribution_id(ds@.map_values(|d: Distribution| d@), id@),
{
    let ghost dv = ds@.map_values(|d: Distribution| d@);
    let mut i: usize = 0;
    while i < ds.len()
        invariant
            i <= ds.len(),
            dv == ds@.map_values(|d: Distribution| d@),
            dv.len() == ds@.len(),
            forall|j: int| 0 <= j < i ==> (#[trigger] dv[j]).id != id@,
        decreases ds.len() - i,
    {
        proof {
            assert(dv[i as int] == ds@[i as int]@);
        }
        if str_eq(ds[i].id.as_str(), id) {
            return true;
        }
        i += 1;
    }
    false
}

/// Build the structural path of the document.
fn dataset_context(name: &str) -> (r: String)
    ensures
        r@ == ctx_dataset(name@),
{
    let mut r = String::from_str("Dataset(");
    r.append(name);
    r.append(")");
    proof {
        assert(r@ =~= ctx_dataset(name@));
    }
    r
}

/// Build the structural path of a distribution.
fn distribution_context(doc_name: &str, dist_name: &str) -> (r: String)
    ensures
        r@ == ctx_distribution(doc_name@, dist_name@),
{
    let mut r = String::from_str("Dataset(");
    r.append(doc_name);
    r.append(") > FileObject(");
    r.append(dist_name);
    r.append(")");
    proof {
        assert(r@ =~= ctx_distribution(doc_name@, dist_name@));
    }
    r
}

/// Build the structural path of a record set.
fn record_set_context(doc_name: &str, rs_name: &str) -> (r: String)
    ensures
        r@ == ctx_record_set(doc_name@, rs_name@),
{
    let mut r = String::from_str("Dataset(");
    r.append(doc_name);
    r.append(") > RecordSet(");
    r.append(rs_name);
    r.append(")");
    proof {
        assert(r@ =~= ctx_record_set(doc_name@, rs_name@));
    }
    r
}

/// Build the structural path of a field.
fn field_context(doc_name: &str, rs_name: &str, field_name: &str) -> (r: String)
    ensures
        r@ == ctx_field(doc_name@, rs_name@, field_name@),
{
    let mut r = String::from_str("Dataset(");
    r.append(doc_name);
    r.append(") > RecordSet(");
    r.append(rs_name);
    r.append(") > Field(");
    r.append(field_name);
    r.append(")");
    proof {
        assert(r@ =~= ctx_field(doc_name@, rs_name@, field_name@));
    }
    r
}

/// Apply the document-level rules.
pub fn validate_metadata_basic(issues: &mut ValidationIssues, metadata: &Metadata)
    ensures
        final(issues)@ == old(issues)@ + spec_validate_basic(metadata@),
{
    let context = dataset_context(metadata.name.as_str());
    if metadata.name.as_str().is_empty() {
        issues.add_error_with_context(
            "Property \"https://schema.org/name\" is mandatory, but does not exist.",
            context.as_str(),
        );
    }
    if !str_eq(metadata.type_.as_str(), "sc:Dataset") {
        issues.add_error_with_context(
            "The current JSON-LD doesn't extend https://schema.org/Dataset.",
            context.as_str(),
        );
    }
    if metadata.conforms_to.as_str().is_empty() {
        issues.add_warning_with_context(
            "Property \"http://purl.org/dc/terms/conformsTo\" is recommended, but does not exist.",
            context.as_str(),
        );
    }
    if metadata.description.as_str().is_empty() {
        issues.add_warning_with_context(
            "Property \"https://schema.org/description\" is recommended, but does not exist.",
            context.as_str(),
        );
    }
    proof {
        assert(issues@ =~= old(issues)@ + spec_validate_basic(metadata@));
    }
}

/// Apply the distribution rules to every distribution, in order.
#[verifier::rlimit(100)]
pub fn validate_distributions(issues: &mut ValidationIssues, metadata: &Metadata)
    ensures
        final(issues)@ == old(issues)@ + spec_distributions_issues(
            metadata@.name,
            metadata@.distribution,
        ),
{
    let ghost ds = metadata@.distribution;
    proof {
        assert(ds.take(0) =~= Seq::<DistributionV>::empty());
    }
    let mut i: usize = 0;
    while i < metadata.distribution.len()
        invariant
            i <= metadata.distribution.len(),
            ds == metadata@.distribution,
            ds.len() == metadata.distribution@.len(),
            issues@ == old(issues)@ + spec_distributions_issues(metadata@.name, ds.take(i as int)),
        decreases metadata.distribution.len() - i,
    {
        proof {
            assert(ds[i as int] == metadata.distribution@[i as int]@);
            assert(ds.take(i + 1).drop_last() =~= ds.take(i as int));
            assert(ds.take(i + 1).last() == ds[i as int]);
        }
        let ghost base = issues@;
        let distribution = &metadata.distribution[i];
        let context = distribution_context(metadata.name.as_str(), distribution.name.as_str());
        if distribution.name.as_str().is_empty() {
            issues.add_error_with_context(
                "Property \"https://schema.org/name\" is mandatory, but does not exist.",
                context.as_str(),
            );
        }
        if !str_eq(distribution.type_.as_str(), "cr:FileObject") && !str_eq(
            distribution.type_.as_str(),
            "cr:FileSet",
        ) {
            let mut message = String::from_str("\"");
            message.append(distribution.name.as_str());
            message.append(
                "\" should have an attribute \"@type\": \"http://mlcommons.org/croissant/FileObject\" or \"@type\": \"http://mlcommons.org/croissant/FileSet\". Got ",
            );
            message.append(distribution.type_.as_str());
            message.append(" instead.");
            proof {
                assert(message@ =~= msg_dist_bad_type(ds[i as int].name, ds[i as int].type_));
            }
            issues.add_error_with_context(message.as_str(), context.as_str());
        }
        if distribution.content_url.as_str().is_empty() {
            issues.add_error_with_context(
                "Property \"https://schema.org/contentUrl\" is mandatory, but does not exist.",
                context.as_str(),
            );
        }
        if distribution.encoding_format.as_str().is_empty() {
            issues.add_error_with_context(
                "Property \"https://schema.org/encodingFormat\" is mandatory, but does not exist.",
                context.as_str(),
            );
        }
        if distribution.sha256.as_str().is_empty() {
            issues.add_warning_with_context(
                "Property \"https://schema.org/sha256\" is recommended for file integrity verification.",
                context.as_str(),
            );
        } else if !valid_sha256(distribution.sha256.as_str()) {
            issues.add_error_with_context(
                "Invalid SHA256 hash format. Expected 64 hexadecimal characters.",
                context.as_str(),
            );
        }
        proof {
            assert(issues@ =~= base + spec_distribution_issues(metadata@.name, ds[i as int]));
            assert(issues@ =~= old(issues)@ + spec_distributions_issues(
                metadata@.name,
                ds.take(i + 1),
            ));
        }
        i += 1;
    }
    proof {
        assert(ds.take(ds.len() as int) =~= ds);
    }
}

/// Apply the data-type rule to a non-empty data type.
pub fn validate_data_type(data_type: &str, issues: &mut ValidationIssues, context: &str)
    ensures
        final(issues)@ == old(issues)@ + spec_data_type_issues(data_type@, context@),
{
    let recognized = str_eq(data_type, "sc:Text") || str_eq(data_type, "sc:Integer") || str_eq(
        data_type,
        "sc:Float",
    ) || str_eq(data_type, "sc:Boolean") || str_eq(data_type, "sc:Date") || str_eq(
        data_type,
        "sc:DateTime",
    ) || str_eq(data_type, "sc:Time") || str_eq(data_type, "sc:URL") || str_eq(
        data_type,
        "sc:Number",
    );
    if !recognized {
        let mut message = String::from_str("Unknown data type: ");
        message.append(data_type);
        message.append(". Consider using a standard schema.org type.");
        proof {
            assert(message@ =~= msg_unknown_data_type(data_type@));
        }
        issues.add_warning_with_context(message.as_str(), context);
    }
    proof {
        assert(issues@ =~= old(issues)@ + spec_data_type_issues(data_type@, context@));
    }
}

/// Apply the field rules to every field of one record set, in order.
#[verifier::rlimit(60)]
pub fn validate_fields(issues: &mut ValidationIssues, metadata: &Metadata, record_set: &RecordSet)
    ensures
        final(issues)@ == old(issues)@ + spec_fields_issues(
            metadata@.name,
            record_set@.name,
            record_set@.field,
        ),
{
    let ghost fs = record_set@.field;
    proof {
        assert(fs.take(0) =~= Seq::<FieldV>::empty());
    }
    let mut i: usize = 0;
    while i < record_set.field.len()
        invariant
            i <= record_set.field.len(),
            fs == record_set@.field,
            fs.len() == record_set.field@.len(),
            issues@ == old(issues)@ + spec_fields_issues(
                metadata@.name,
                record_set@.name,
                fs.take(i as int),
            ),
        decreases record_set.field.len() - i,
    {
        proof {
            assert(fs[i as int] == record_set.field@[i as int]@);
            assert(fs.take(i + 1).drop_last() =~= fs.take(i as int));
            assert(fs.take(i + 1).last() == fs[i as int]);
        }
        let ghost base = issues@;
        let field = &record_set.field[i];
        let context = field_context(
            metadata.name.as_str(),
            record_set.name.as_str(),
            field.name.as_str(),
        );
        if field.name.as_str().is_empty() {
            issues.add_error_with_context(
                "Property \"https://schema.org/name\" is mandatory, but does not exist.",
                context.as_str(),
            );
        }
        if !str_eq(field.type_.as_str(), "cr:Field") {
            let mut message = String::from_str("\"");
            message.append(field.name.as_str());
            message.append(
                "\" should have an attribute \"@type\": \"http://mlcommons.org/croissant/Field\". Got ",
            );
            message.append(field.type_.as_str());
            message.append(" instead.");
            proof {
                assert(message@ =~= msg_field_bad_type(fs[i as int].name, fs[i as int].type_));
            }
            issues.add_error_with_context(message.as_str(), context.as_str());
        }
        if field.data_type.as_str().is_empty() {
            let mut message = String::from_str(
                "The field does not specify a valid http://mlcommons.org/croissant/dataType, neither does any of its predecessor. Got: ",
            );
            message.append(field.data_type.as_str());
            proof {
                assert(message@ =~= msg_missing_data_type(fs[i as int].data_type));
            }
            issues.add_error_with_context(message.as_str(), context.as_str());
        } else {
            validate_data_type(field.data_type.as_str(), issues, context.as_str());
        }
        if field.source.extract.column.as_str().is_empty()
            || field.source.file_object.id.as_str().is_empty() {
            let mut message = String::from_str("Node \"");
            message.append(field.id.as_str());
            message.append(
                "\" is a field and has no source. Please, use http://mlcommons.org/croissant/source to specify the source.",
            );
            proof {
                assert(message@ =~= msg_missing_source(fs[i as int].id));
            }
            issues.add_error_with_context(message.as_str(), context.as_str());
        }
        proof {
            assert(issues@ =~= base + spec_field_issues(
                metadata@.name,
                record_set@.name,
                fs[i as int],
            ));
            assert(issues@ =~= old(issues)@ + spec_fields_issues(
                metadata@.name,
                record_set@.name,
                fs.take(i + 1),
            ));
        }
        i += 1;
    }
    proof {
        assert(fs.take(fs.len() as int) =~= fs);
    }
}

/// Apply the record-set rules, then the field rules, to every record set
/// in order.
pub fn validate_record_sets(issues: &mut ValidationIssues, metadata: &Metadata)
    ensures
        final(issues)@ == old(issues)@ + spec_record_sets_issues(
            metadata@.name,
            metadata@.record_set,
        ),
{
    let ghost rss = metadata@.record_set;
    proof {
        assert(rss.take(0) =~= Seq::<RecordSetV>::empty());
    }
    let mut i: usize = 0;
    while i < metadata.record_set.len()
        invariant
            i <= metadata.record_set.len(),
            rss == metadata@.record_set,
            rss.len() == metadata.record_set@.len(),
            issues@ == old(issues)@ + spec_record_sets_issues(metadata@.name, rss.take(i as int)),
        decreases metadata.record_set.len() - i,
    {
        proof {
            assert(rss[i as int] == metadata.record_set@[i as int]@);
            assert(rss.take(i + 1).drop_last() =~= rss.take(i as int));
            assert(rss.take(i + 1).last() == rss[i as int]);
        }
        let ghost base = issues@;
        let record_set = &metadata.record_set[i];
        let context = record_set_context(metadata.name.as_str(), record_set.name.as_str());
        if record_set.name.as_str().is_empty() {
            issues.add_error_with_context(
                "Property \"https://schema.org/name\" is mandatory, but does not exist.",
                context.as_str(),
            );
        }
        if !str_eq(record_set.type_.as_str(), "cr:RecordSet") {
            let mut message = String::from_str("\"");
            message.append(record_set.name.as_str());
            message.append(
                "\" should have an attribute \"@type\": \"http://mlcommons.org/croissant/RecordSet\". Got ",
            );
            message.append(record_set.type_.as_str());
            message.append(" instead.");
            proof {
                assert(message@ =~= msg_record_set_bad_type(
                    rss[i as int].name,
                    rss[i as int].type_,
                ));
            }
            issues.add_error_with_context(message.as_str(), context.as_str());
        }
        validate_fields(issues, metadata, record_set);
        proof {
            assert(issues@ =~= base + spec_record_set_issues(metadata@.name, rss[i as int]));
            assert(issues@ =~= old(issues)@ + spec_record_sets_issues(
                metadata@.name,
                rss.take(i + 1),
            ));
        }
        i += 1;
    }
    proof {
        assert(rss.take(rss.len() as int) =~= rss);
    }
}

/// Apply the reference-integrity rule: every non-empty field reference
/// must name an existing distribution id.
pub fn validate_references(issues: &mut ValidationIssues, metadata: &Metadata)
    ensures
        final(issues)@ == old(issues)@ + spec_reference_issues(metadata@),
{
    let ghost rss = metadata@.record_set;
    proof {
        assert(rss.take(0) =~= Seq::<RecordSetV>::empty());
    }
    let mut i: usize = 0;
    while i < metadata.record_set.len()
        invariant
            i <= metadata.record_set.len(),
            rss == metadata@.record_set,
            rss.len() == metadata.record_set@.len(),
            issues@ == old(issues)@ + spec_reference_issues_from(metadata@, rss.take(i as int)),
        decreases metadata.record_set.len() - i,
    {
        proof {
            assert(rss[i as int] == metadata.record_set@[i as int]@);
            assert(rss.take(i + 1).drop_last() =~= rss.take(i as int));
            assert(rss.take(i + 1).last() == rss[i as int]);
        }
        let ghost outer_base = issues@;
        let record_set = &metadata.record_set[i];
        let ghost fs = rss[i as int].field;
        proof {
            assert(fs.take(0) =~= Seq::<FieldV>::empty());
        }
        let mut j: usize = 0;
        while j < record_set.field.len()
            invariant
                j <= record_set.field.len(),
                rss == metadata@.record_set,
                i < rss.len(),
                rss[i as int] == record_set@,
                fs == rss[i as int].field,
                fs.len() == record_set.field@.len(),
                issues@ == outer_base + spec_fields_reference_issues(
                    metadata@,
                    rss[i as int].name,
                    fs.take(j as int),
                ),
            decreases record_set.field.len() - j,
        {
            proof {
                assert(fs[j as int] == record_set.field@[j as int]@);
                assert(fs.take(j + 1).drop_last() =~= fs.take(j as int));
                assert(fs.take(j + 1).last() == fs[j as int]);
            }
            let ghost inner_base = issues@;
            let field = &record_set.field[j];
            let file_object_id = field.source.file_object.id.as_str();
            if !file_object_id.is_empty() {
                let found = has_distribution_id(&metadata.distribution, file_object_id);
                proof {
                    assert(metadata@.distribution =~= metadata.distribution@.map_values(
                        |d: Distribution| d@,
                    ));
                }
                if !found {
                    let context = field_context(
                        metadata.name.as_str(),
                        record_set.name.as_str(),
                        field.name.as_str(),
                    );
                    let mut message = String::from_str(
                        "Field references non-existent file object: ",
                    );
                    message.append(file_object_id);
                    proof {
                        assert(message@ =~= msg_unresolved_reference(fs[j as int].file_object_id));
                    }
                    issues.add_error_with_context(message.as_str(), context.as_str());
                }
            }
            proof {
                assert(issues@ =~= inner_base + spec_field_reference_issues(
                    metadata@,
                    rss[i as int].name,
                    fs[j as int],
                ));
                assert(issues@ =~= outer_base + spec_fields_reference_issues(
                    metadata@,
                    rss[i as int].name,
                    fs.take(j + 1),
                ));
            }
            j += 1;
        }
        proof {
            assert(fs.take(fs.len() as int) =~= fs);
            assert(issues@ =~= old(issues)@ + spec_reference_issues_from(
                metadata@,
                rss.take(i + 1),
            ));
        }
        i += 1;
    }
    proof {
        assert(rss.take(rss.len() as int) =~= rss);
    }
}

// ---------------------------------------------------------------------
// Laws of the pipeline
// ---------------------------------------------------------------------
/// An issue occurs among a list of findings.
pub open spec fn spec_contains_issue(s: Seq<IssueV>, issue: IssueV) -> bool {
    exists|k: int| 0 <= k < s.len() && #[trigger] s[k] == issue
}

/// What either part of a concatenation holds, the whole holds.
proof fn lemma_contains_issue_concat(a: Seq<IssueV>, b: Seq<IssueV>, issue: IssueV)
    requires
        spec_contains_issue(a, issue) || spec_contains_issue(b, issue),
    ensures
        spec_contains_issue(a + b, issue),
{
    if spec_contains_issue(a, issue) {
        let k = choose|k: int| 0 <= k < a.len() && #[trigger] a[k] == issue;
        assert((a + b)[k] == issue);
    } else {
        let k = choose|k: int| 0 <= k < b.len() && #[trigger] b[k] == issue;
        assert((a + b)[a.len() + k] == issue);
    }
}

/// What one field's reference finding holds, the record set's findings
/// hold.
proof fn lemma_fields_reference_contains(
    m: MetadataV,
    rs_name: Seq<char>,
    fs: Seq<FieldV>,
    j: int,
    issue: IssueV,
)
    requires
        0 <= j < fs.len(),
        spec_contains_issue(spec_field_reference_issues(m, rs_name, fs[j]), issue),
    ensures
        spec_contains_issue(spec_fields_reference_issues(m, rs_name, fs), issue),
    decreases fs.len(),
{
    if j == fs.len() - 1 {
        lemma_contains_issue_concat(
            spec_fields_reference_issues(m, rs_name, fs.drop_last()),
            spec_field_reference_issues(m, rs_name, fs.last()),
            issue,
        );
    } else {
        assert(fs.drop_last()[j] == fs[j]);
        lemma_fields_reference_contains(m, rs_name, fs.drop_last(), j, issue);
        lemma_contains_issue_concat(
            spec_fields_reference_issues(m, rs_name, fs.drop_last()),
            spec_field_reference_issues(m, rs_name, fs.last()),
            issue,
        );
    }
}

/// What one record set's reference findings hold, the document's hold.
proof fn lemma_reference_from_contains(m: MetadataV, rss: Seq<RecordSetV>, r: int, issue: IssueV)
    requires
        0 <= r < rss.len(),
        spec_contains_issue(spec_fields_reference_issues(m, rss[r].name, rss[r].field), issue),
    ensures
        spec_contains_issue(spec_reference_issues_from(m, rss), issue),
    decreases rss.len(),
{
    if r == rss.len() - 1 {
        lemma_contains_issue_concat(
            spec_reference_issues_from(m, rss.drop_last()),
            spec_fields_reference_issues(m, rss.last().name, rss.last().field),
            issue,
        );
    } else {
        assert(rss.drop_last()[r] == rss[r]);
        lemma_reference_from_contains(m, rss.drop_last(), r, issue);
        lemma_contains_issue_concat(
            spec_reference_issues_from(m, rss.drop_last()),
            spec_fields_reference_issues(m, rss.last().name, rss.last().field),
            issue,
        );
    }
}

/// Law: a document with an empty name has an error finding, and the
/// report holds the mandatory-name message.
pub proof fn lemma_empty_name_reported(m: MetadataV)
    requires
        m.name.len() == 0,
    ensures
        spec_has_errors(spec_validate(m)),
        spec_contains_seq(spec_report(spec_validate(m)), msg_mandatory_name()),
{
    let all = spec_validate(m);
    let first = spec_error_issue(msg_mandatory_name(), ctx_dataset(m.name));
    assert(spec_validate_basic(m)[0] == first);
    assert(all[0] == first);
    assert(is_error(#[trigger] all[0]));
    reveal_strlit("Property \"https://schema.org/name\" is mandatory, but does not exist.");
    assert(msg_mandatory_name().len() > 0);
    assert(!spec_is_space(msg_mandatory_name().last()));
    lemma_report_contains_error_message(all, 0);
}

/// The error findings that cite the wrong document type.
pub open spec fn spec_document_type_errors(s: Seq<IssueV>) -> Seq<IssueV> {
    s.filter(|i: IssueV| is_error(i) && i.message == msg_not_dataset())
}

/// The document-type errors of a single finding.
proof fn lemma_doc_type_filter_single(iv: IssueV)
    ensures
        spec_document_type_errors(seq![iv]).len() == (if is_error(iv) && iv.message
            == msg_not_dataset() {
            1int
        } else {
            0int
        }),
        spec_document_type_errors(Seq::<IssueV>::empty()).len() == 0,
{
    reveal_with_fuel(Seq::filter, 2);
    assert(seq![iv].drop_last() =~= Seq::<IssueV>::empty());
    assert(seq![iv].last() == iv);
}

/// Law: a document whose type is not the dataset tag gets exactly one
/// document-level type error.
pub proof fn lemma_wrong_type_reported_once(m: MetadataV)
    requires
        m.type_ != tag_dataset(),
    ensures
        spec_document_type_errors(spec_validate_basic(m)).len() == 1,
{
    broadcast use vstd::prelude::Seq::filter_distributes_over_add;

    reveal_strlit("Property \"https://schema.org/name\" is mandatory, but does not exist.");
    reveal_strlit("The current JSON-LD doesn't extend https://schema.org/Dataset.");
    let ctx = ctx_dataset(m.name);
    let p1: Seq<IssueV> = if m.name.len() == 0 {
        seq![spec_error_issue(msg_mandatory_name(), ctx)]
    } else {
        Seq::empty()
    };
    let p2: Seq<IssueV> = seq![spec_error_issue(msg_not_dataset(), ctx)];
    let p3: Seq<IssueV> = if m.conforms_to.len() == 0 {
        seq![spec_warning_issue(msg_conforms_to_recommended(), ctx)]
    } else {
        Seq::empty()
    };
    let p4: Seq<IssueV> = if m.description.len() == 0 {
        seq![spec_warning_issue(msg_description_recommended(), ctx)]
    } else {
        Seq::empty()
    };
    assert(spec_validate_basic(m) == p1 + p2 + p3 + p4);
    assert(msg_mandatory_name().len() != msg_not_dataset().len());
    lemma_doc_type_filter_single(spec_error_issue(msg_mandatory_name(), ctx));
    lemma_doc_type_filter_single(spec_error_issue(msg_not_dataset(), ctx));
    lemma_doc_type_filter_single(spec_warning_issue(msg_conforms_to_recommended(), ctx));
    lemma_doc_type_filter_single(spec_warning_issue(msg_description_recommended(), ctx));
    assert(spec_document_type_errors(p1).len() == 0);
    assert(spec_document_type_errors(p2).len() == 1);
    assert(spec_document_type_errors(p3).len() == 0);
    assert(spec_document_type_errors(p4).len() == 0);
    assert(spec_document_type_errors(p1 + p2) == spec_document_type_errors(p1)
        + spec_document_type_errors(p2));
    assert(spec_document_type_errors(p1 + p2 + p3) == spec_document_type_errors(p1 + p2)
        + spec_document_type_errors(p3));
    assert(spec_document_type_errors(p1 + p2 + p3 + p4) == spec_document_type_errors(p1 + p2 + p3)
        + spec_document_type_errors(p4));
}

/// Law: a field whose non-empty file reference resolves to no
/// distribution id gets a reference error naming that id, whatever other
/// findings the same field gets: nothing here depends on them.
pub proof fn lemma_unresolved_reference_reported(m: MetadataV, r: int, f: int)
    requires
        0 <= r < m.record_set.len(),
        0 <= f < m.record_set[r].field.len(),
        m.record_set[r].field[f].file_object_id.len() > 0,
        !spec_has_distribution_id(m.distribution, m.record_set[r].field[f].file_object_id),
    ensures
        spec_contains_issue(
            spec_validate(m),
            spec_error_issue(
                msg_unresolved_reference(m.record_set[r].field[f].file_object_id),
                ctx_field(m.name, m.record_set[r].name, m.record_set[r].field[f].name),
            ),
        ),
{
    let fld = m.record_set[r].field[f];
    let issue = spec_error_issue(
        msg_unresolved_reference(fld.file_object_id),
        ctx_field(m.name, m.record_set[r].name, fld.name),
    );
    assert(spec_field_reference_issues(m, m.record_set[r].name, fld)[0] == issue);
    lemma_fields_reference_contains(m, m.record_set[r].name, m.record_set[r].field, f, issue);
    lemma_reference_from_contains(m, m.record_set, r, issue);
    lemma_contains_issue_concat(
        spec_validate_basic(m) + spec_distributions_issues(m.name, m.distribution)
            + spec_record_sets_issues(m.name, m.record_set),
        spec_reference_issues(m),
        issue,
    );
}

/// A record set whose every field has no finding contributes none from
/// its fields.
pub proof fn lemma_fields_issues_empty(doc_name: Seq<char>, rs_name: Seq<char>, fs: Seq<FieldV>)
    requires
        forall|k: int|
            0 <= k < fs.len() ==> spec_field_issues(doc_name, rs_name, #[trigger] fs[k])
                == Seq::<IssueV>::empty(),
    ensures
        spec_fields_issues(doc_name, rs_name, fs) == Seq::<IssueV>::empty(),
    decreases fs.len(),
{
    if fs.len() == 0 {
        assert(spec_fields_issues(doc_name, rs_name, fs) =~= Seq::<IssueV>::empty());
    } else {
        assert(forall|k: int|
            0 <= k < fs.drop_last().len() ==> #[trigger] fs.drop_last()[k] == fs[k]);
        lemma_fields_issues_empty(doc_name, rs_name, fs.drop_last());
        assert(spec_fields_issues(doc_name, rs_name, fs) =~= Seq::<IssueV>::empty());
    }
}

/// A record set whose every field's reference resolves contributes no
/// reference finding.
pub proof fn lemma_fields_reference_issues_empty(m: MetadataV, rs_name: Seq<char>, fs: Seq<FieldV>)
    requires
        forall|k: int|
            0 <= k < fs.len() ==> spec_field_reference_issues(m, rs_name, #[trigger] fs[k])
                == Seq::<IssueV>::empty(),
    ensures
        spec_fields_reference_issues(m, rs_name, fs) == Seq::<IssueV>::empty(),
    decreases fs.len(),
{
    if fs.len() == 0 {
        assert(spec_fields_reference_issues(m, rs_name, fs) =~= Seq::<IssueV>::empty());
    } else {
        assert(forall|k: int|
            0 <= k < fs.drop_last().len() ==> #[trigger] fs.drop_last()[k] == fs[k]);
        lemma_fields_reference_issues_empty(m, rs_name, fs.drop_last());
        assert(spec_fields_reference_issues(m, rs_name, fs) =~= Seq::<IssueV>::empty());
    }
}

/// Run the whole validation pipeline over a metadata document.
pub fn validate_metadata(metadata: &Metadata) -> (r: ValidationIssues)
    ensures
        r@ == spec_validate(metadata@),
{
    let mut issues = ValidationIssues::new();
    validate_metadata_basic(&mut issues, metadata);
    validate_distributions(&mut issues, metadata);
    validate_record_sets(&mut issues, metadata);
    validate_references(&mut issues, metadata);
    proof {
        assert(issues@ =~= spec_validate(metadata@));
    }
    issues
}

} // verus!
