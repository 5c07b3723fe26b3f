use rustcroissant::errors::Error;
use rustcroissant::generate::generate_metadata;
use rustcroissant::model::infer_data_type;
use rustcroissant::model::DataType;
use rustcroissant::utils::calculate_sha256;
use rustcroissant::utils::format_file_size;
use rustcroissant::utils::get_file_extension;
use rustcroissant::utils::validate_csv_format;
use rustcroissant::validation::validate_metadata;
use rustcroissant::version_info::get_version;

#[test]
fn data_type_inference_tries_the_forms_in_order() {
    assert_eq!(infer_data_type("1"), DataType::Integer);
    assert_eq!(infer_data_type("23"), DataType::Integer);
    assert_eq!(infer_data_type("-7"), DataType::Integer);
    assert_eq!(infer_data_type("007"), DataType::Integer);
    assert_eq!(infer_data_type(" 42 "), DataType::Integer);
    assert_eq!(infer_data_type("1.5"), DataType::Float);
    assert_eq!(infer_data_type("-0.25"), DataType::Float);
    assert_eq!(infer_data_type("1e5"), DataType::Float);
    assert_eq!(infer_data_type(".5"), DataType::Float);
    assert_eq!(infer_data_type("inf"), DataType::Float);
    assert_eq!(infer_data_type("NaN"), DataType::Float);
    assert_eq!(infer_data_type("true"), DataType::Boolean);
    assert_eq!(infer_data_type("FALSE"), DataType::Boolean);
    assert_eq!(infer_data_type("2024-01-02"), DataType::Date);
    assert_eq!(infer_data_type("2024-01-02T03:04:05Z"), DataType::Date);
    assert_eq!(infer_data_type("2024-13-45"), DataType::Text);
    assert_eq!(infer_data_type("hello"), DataType::Text);
    assert_eq!(infer_data_type(""), DataType::Text);
    assert_eq!(infer_data_type("+"), DataType::Text);
    assert_eq!(infer_data_type("."), DataType::Text);
    assert_eq!(infer_data_type("1.2.3"), DataType::Text);
}

#[test]
fn integers_too_large_for_sixty_four_bits_fall_through_to_float() {
    assert_eq!(infer_data_type("9223372036854775807"), DataType::Integer);
    assert_eq!(infer_data_type("9223372036854775808"), DataType::Float);
    assert_eq!(infer_data_type("-9223372036854775808"), DataType::Integer);
    assert_eq!(infer_data_type("-9223372036854775809"), DataType::Float);
}

#[test]
fn schema_org_tags_match_the_inferred_types() {
    assert_eq!(DataType::Integer.to_schema_org(), "sc:Integer");
    assert_eq!(DataType::Float.to_schema_org(), "sc:Float");
    assert_eq!(DataType::Text.to_schema_org(), "sc:Text");
    assert_eq!(DataType::Date.to_schema_org(), "sc:Date");
    assert_eq!(DataType::Boolean.to_schema_org(), "sc:Boolean");
}

fn sample_sha() -> String {
    calculate_sha256(b"id,age,active\n1,23,true\n")
}

#[test]
fn generated_document_from_id_age_active_infers_integer_integer_boolean() {
    let headers = vec!["id".to_string(), "age".to_string(), "active".to_string()];
    let row = Some(vec!["1".to_string(), "23".to_string(), "true".to_string()]);
    let metadata = generate_metadata(
        "people",
        "people.csv",
        24,
        &sample_sha(),
        "2024-01-01",
        &headers,
        &row,
    );
    let types: Vec<&str> = metadata.record_set[0]
        .field
        .iter()
        .map(|f| f.data_type.as_str())
        .collect();
    assert_eq!(types, vec!["sc:Integer", "sc:Integer", "sc:Boolean"]);
    let issues = validate_metadata(&metadata);
    assert_eq!(issues.error_count(), 0);
}

#[test]
fn generated_document_shape_follows_the_conventions() {
    let headers = vec!["id".to_string()];
    let metadata = generate_metadata(
        "people",
        "people.csv",
        1536,
        &sample_sha(),
        "2024-01-01",
        &headers,
        &None,
    );
    assert_eq!(metadata.name, "people_dataset");
    assert_eq!(metadata.type_, "sc:Dataset");
    assert_eq!(metadata.description, "Dataset created from people.csv");
    assert_eq!(metadata.conforms_to, "http://mlcommons.org/croissant/1.0");
    assert_eq!(metadata.version, "1.0.0");
    assert_eq!(metadata.distribution.len(), 1);
    assert_eq!(metadata.distribution[0].id, "people.csv");
    assert_eq!(metadata.distribution[0].type_, "cr:FileObject");
    assert_eq!(metadata.distribution[0].content_size, "1536 B");
    assert_eq!(metadata.distribution[0].encoding_format, "text/csv");
    assert_eq!(metadata.record_set[0].id, "main");
    assert_eq!(metadata.record_set[0].name, "main");
    assert_eq!(metadata.record_set[0].description, "Records from people.csv");
    let field = &metadata.record_set[0].field[0];
    assert_eq!(field.id, "main/id");
    assert_eq!(field.name, "id");
    assert_eq!(field.description, "Field for id");
    assert_eq!(field.data_type, "sc:Text");
    assert_eq!(field.source.extract.column, "id");
    assert_eq!(field.source.file_object.id, "people.csv");
}

#[test]
fn generated_document_without_a_row_validates_with_no_errors() {
    let headers = vec!["a".to_string(), "b".to_string()];
    let metadata =
        generate_metadata("x", "x.csv", 0, &sample_sha(), "2024-06-01", &headers, &None);
    let issues = validate_metadata(&metadata);
    assert_eq!(issues.error_count(), 0);
    assert_eq!(issues.warning_count(), 0);
}

#[test]
fn generated_document_with_short_row_defaults_the_rest_to_text() {
    let headers = vec!["a".to_string(), "b".to_string()];
    let row = Some(vec!["1".to_string()]);
    let metadata =
        generate_metadata("x", "x.csv", 0, &sample_sha(), "2024-06-01", &headers, &row);
    assert_eq!(metadata.record_set[0].field[0].data_type, "sc:Integer");
    assert_eq!(metadata.record_set[0].field[1].data_type, "sc:Text");
}

#[test]
fn sha256_matches_the_published_test_vectors() {
    assert_eq!(
        calculate_sha256(b"abc"),
        "ba7816bf8f01cfea414140de5dae2223b00361a396177a9cb410ff61f20015ad"
    );
    assert_eq!(
        calculate_sha256(b""),
        "e3b0c44298fc1c149afbf4c8996fb92427ae41e4649b934ca495991b7852b855"
    );
}

#[test]
fn file_sizes_are_scaled_and_rounded_to_one_decimal() {
    assert_eq!(format_file_size(0), "0 B");
    assert_eq!(format_file_size(1023), "1023 B");
    assert_eq!(format_file_size(1024), "1.0 KB");
    assert_eq!(format_file_size(1100), "1.1 KB");
    assert_eq!(format_file_size(1536), "1.5 KB");
    assert_eq!(format_file_size(1048576), "1.0 MB");
    assert_eq!(format_file_size(1073741824), "1.0 GB");
    assert_eq!(format_file_size(1099511627776), "1.0 TB");
    assert_eq!(format_file_size(2 * 1099511627776 + 1099511627776 / 2), "2.5 TB");
}

#[test]
fn file_extensions_are_lowercased_and_leading_dots_ignored() {
    assert_eq!(get_file_extension("data.csv"), Some("csv".to_string()));
    assert_eq!(get_file_extension("DATA.CSV"), Some("csv".to_string()));
    assert_eq!(get_file_extension("archive.tar.gz"), Some("gz".to_string()));
    assert_eq!(get_file_extension("noext"), None);
    assert_eq!(get_file_extension(".bashrc"), None);
}

#[test]
fn header_validation_accepts_unique_non_empty_headers() {
    let headers = vec!["id".to_string(), "age".to_string()];
    assert!(validate_csv_format(&headers).is_ok());
}

#[test]
fn header_validation_rejects_an_empty_list() {
    let headers: Vec<String> = Vec::new();
    match validate_csv_format(&headers) {
        Err(Error::InvalidFormat { message }) => assert_eq!(message, "CSV file has no headers"),
        other => panic!("unexpected result: {other:?}"),
    }
}

#[test]
fn header_validation_rejects_a_blank_header() {
    let headers = vec!["id".to_string(), "  ".to_string()];
    match validate_csv_format(&headers) {
        Err(Error::InvalidFormat { message }) => assert_eq!(message, "CSV file has empty header"),
        other => panic!("unexpected result: {other:?}"),
    }
}

#[test]
fn header_validation_rejects_duplicates_without_regard_to_case() {
    let headers = vec!["ID".to_string(), " id ".to_string()];
    match validate_csv_format(&headers) {
        Err(Error::InvalidFormat { message }) => {
            assert_eq!(message, "CSV file has duplicate header: id")
        },
        other => panic!("unexpected result: {other:?}"),
    }
}

#[test]
fn error_constructors_carry_their_payloads() {
    assert_eq!(Error::new("x"), Error::Generic("x".to_string()));
    assert_eq!(Error::file_not_found("a.csv"), Error::FileNotFound { path: "a.csv".to_string() });
    assert_eq!(
        Error::invalid_format("bad"),
        Error::InvalidFormat { message: "bad".to_string() }
    );
    assert_eq!(
        Error::invalid_output_path("out", "denied"),
        Error::InvalidOutputPath { path: "out".to_string(), reason: "denied".to_string() }
    );
    assert_eq!(Error::missing_field("name"), Error::MissingField { field: "name".to_string() });
    assert_eq!(
        Error::invalid_data_type("x", "sc:Integer"),
        Error::InvalidDataType { value: "x".to_string(), data_type: "sc:Integer".to_string() }
    );
}

#[test]
fn version_information_is_populated() {
    let v = get_version();
    assert_eq!(v.app_name, "rustcroissant");
    assert_eq!(v.version, "dev");
    assert_eq!(v.git_hash, "dev");
    assert_eq!(v.build_time, "now");
}
