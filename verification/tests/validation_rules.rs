use rustcroissant::issues::IssueSeverity;
use rustcroissant::model::create_default_context;
use rustcroissant::model::Distribution;
use rustcroissant::model::Extract;
use rustcroissant::model::Field;
use rustcroissant::model::FieldSource;
use rustcroissant::model::FileObject;
use rustcroissant::model::Metadata;
use rustcroissant::model::RecordSet;
use rustcroissant::validation::validate_metadata;

fn sample_distribution() -> Distribution {
    Distribution {
        id: "data.csv".to_string(),
        type_: "cr:FileObject".to_string(),
        name: "data.csv".to_string(),
        content_size: "42 B".to_string(),
        content_url: "data.csv".to_string(),
        encoding_format: "text/csv".to_string(),
        sha256: "a".repeat(64),
    }
}

fn sample_field(name: &str) -> Field {
    Field {
        id: format!("main/{name}"),
        type_: "cr:Field".to_string(),
        name: name.to_string(),
        description: format!("Field for {name}"),
        data_type: "sc:Text".to_string(),
        source: FieldSource {
            extract: Extract { column: name.to_string() },
            file_object: FileObject { id: "data.csv".to_string() },
        },
    }
}

fn sample_metadata() -> Metadata {
    Metadata {
        context: create_default_context(),
        type_: "sc:Dataset".to_string(),
        name: "sample".to_string(),
        description: "A sample dataset".to_string(),
        conforms_to: "http://mlcommons.org/croissant/1.0".to_string(),
        date_published: "2024-01-01".to_string(),
        version: "1.0.0".to_string(),
        distribution: vec![sample_distribution()],
        record_set: vec![RecordSet {
            id: "main".to_string(),
            type_: "cr:RecordSet".to_string(),
            name: "main".to_string(),
            description: "Records".to_string(),
            field: vec![sample_field("id"), sample_field("age")],
        }],
    }
}

fn error_messages(metadata: &Metadata) -> Vec<String> {
    validate_metadata(metadata)
        .issues()
        .iter()
        .filter(|i| i.severity == IssueSeverity::Error)
        .map(|i| i.message.clone())
        .collect()
}

#[test]
fn valid_document_has_no_findings_at_all() {
    let issues = validate_metadata(&sample_metadata());
    assert!(!issues.has_errors());
    assert!(!issues.has_warnings());
    assert!(issues.is_empty());
}

#[test]
fn empty_name_is_an_error_and_appears_in_the_report() {
    let mut metadata = sample_metadata();
    metadata.name = String::new();
    let issues = validate_metadata(&metadata);
    assert!(issues.has_errors());
    let report = issues.report();
    assert!(report
        .contains("Property \"https://schema.org/name\" is mandatory, but does not exist."));
    assert!(report.contains("[Dataset()]"));
}

#[test]
fn wrong_document_type_yields_exactly_one_type_error() {
    let mut metadata = sample_metadata();
    metadata.type_ = "sc:Thing".to_string();
    let messages = error_messages(&metadata);
    let type_errors = messages
        .iter()
        .filter(|m| m.as_str() == "The current JSON-LD doesn't extend https://schema.org/Dataset.")
        .count();
    assert_eq!(type_errors, 1);
    assert_eq!(messages.len(), 1);
}

#[test]
fn missing_recommended_properties_are_warnings_not_errors() {
    let mut metadata = sample_metadata();
    metadata.conforms_to = String::new();
    metadata.description = String::new();
    let issues = validate_metadata(&metadata);
    assert!(!issues.has_errors());
    assert_eq!(issues.warning_count(), 2);
}

#[test]
fn unresolved_reference_is_an_error_naming_the_id() {
    let mut metadata = sample_metadata();
    metadata.record_set[0].field[1].source.file_object.id = "missing.csv".to_string();
    let messages = error_messages(&metadata);
    assert_eq!(messages, vec![
        "Field references non-existent file object: missing.csv".to_string(),
    ]);
}

#[test]
fn unresolved_reference_fires_beside_other_field_errors() {
    let mut metadata = sample_metadata();
    metadata.record_set[0].field[1].source.file_object.id = "missing.csv".to_string();
    metadata.record_set[0].field[1].type_ = "Oops".to_string();
    let messages = error_messages(&metadata);
    assert!(messages
        .iter()
        .any(|m| m == "Field references non-existent file object: missing.csv"));
    assert!(messages.iter().any(|m| m.contains("Got Oops instead.")));
    assert_eq!(messages.len(), 2);
}

#[test]
fn empty_reference_is_reported_as_missing_source_not_as_unresolved() {
    let mut metadata = sample_metadata();
    metadata.record_set[0].field[0].source.file_object.id = String::new();
    let messages = error_messages(&metadata);
    assert_eq!(messages, vec![
        "Node \"main/id\" is a field and has no source. Please, use http://mlcommons.org/croissant/source to specify the source.".to_string(),
    ]);
}

#[test]
fn sha256_of_63_hex_characters_is_exactly_one_format_error() {
    let mut metadata = sample_metadata();
    metadata.distribution[0].sha256 = "a".repeat(63);
    let messages = error_messages(&metadata);
    assert_eq!(messages, vec![
        "Invalid SHA256 hash format. Expected 64 hexadecimal characters.".to_string(),
    ]);
}

#[test]
fn sha256_with_a_non_hex_letter_is_the_same_format_error() {
    let mut metadata = sample_metadata();
    let mut sha = "a".repeat(63);
    sha.push('g');
    metadata.distribution[0].sha256 = sha;
    let messages = error_messages(&metadata);
    assert_eq!(messages, vec![
        "Invalid SHA256 hash format. Expected 64 hexadecimal characters.".to_string(),
    ]);
}

#[test]
fn missing_sha256_is_a_warning_only() {
    let mut metadata = sample_metadata();
    metadata.distribution[0].sha256 = String::new();
    let issues = validate_metadata(&metadata);
    assert!(!issues.has_errors());
    assert_eq!(issues.warning_count(), 1);
}

#[test]
fn record_set_type_foo_is_one_error_citing_foo_and_fields_still_checked() {
    let mut metadata = sample_metadata();
    metadata.record_set[0].type_ = "Foo".to_string();
    metadata.record_set[0].field[0].data_type = String::new();
    let messages = error_messages(&metadata);
    let rs_errors: Vec<&String> = messages.iter().filter(|m| m.contains("Got Foo instead.")).collect();
    assert_eq!(rs_errors.len(), 1);
    assert_eq!(
        rs_errors[0].as_str(),
        "\"main\" should have an attribute \"@type\": \"http://mlcommons.org/croissant/RecordSet\". Got Foo instead."
    );
    assert!(messages.iter().any(|m| m.contains("does not specify a valid")));
    assert_eq!(messages.len(), 2);
}

#[test]
fn distribution_type_error_cites_both_accepted_tags_and_the_value() {
    let mut metadata = sample_metadata();
    metadata.distribution[0].type_ = "Bar".to_string();
    let messages = error_messages(&metadata);
    assert_eq!(messages, vec![
        "\"data.csv\" should have an attribute \"@type\": \"http://mlcommons.org/croissant/FileObject\" or \"@type\": \"http://mlcommons.org/croissant/FileSet\". Got Bar instead.".to_string(),
    ]);
}

#[test]
fn file_set_is_an_accepted_distribution_type() {
    let mut metadata = sample_metadata();
    metadata.distribution[0].type_ = "cr:FileSet".to_string();
    assert!(!validate_metadata(&metadata).has_errors());
}

#[test]
fn empty_distribution_fields_each_yield_an_error() {
    let mut metadata = sample_metadata();
    metadata.distribution[0].name = String::new();
    metadata.distribution[0].content_url = String::new();
    metadata.distribution[0].encoding_format = String::new();
    let issues = validate_metadata(&metadata);
    assert_eq!(issues.error_count(), 3);
}

#[test]
fn unknown_data_type_is_a_warning_with_the_value() {
    let mut metadata = sample_metadata();
    metadata.record_set[0].field[0].data_type = "sc:Fancy".to_string();
    let issues = validate_metadata(&metadata);
    assert!(!issues.has_errors());
    assert_eq!(issues.warning_count(), 1);
    assert_eq!(
        issues.issues()[0].message,
        "Unknown data type: sc:Fancy. Consider using a standard schema.org type."
    );
}

#[test]
fn field_context_path_names_dataset_record_set_and_field() {
    let mut metadata = sample_metadata();
    metadata.record_set[0].field[0].name = String::new();
    let issues = validate_metadata(&metadata);
    assert_eq!(
        issues.issues()[0].context.as_deref(),
        Some("Dataset(sample) > RecordSet(main) > Field()")
    );
}
