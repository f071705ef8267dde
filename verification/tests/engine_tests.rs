use biblio_analyzer::facets::analyze_field_facets;
use biblio_analyzer::patterns::classify_value;
use biblio_analyzer::patterns::PatternType;
use biblio_analyzer::quality::analyze_quality;
use biblio_analyzer::value::get_value_type;
use biblio_analyzer::value::BiblioRecord;

fn obj(fields: Vec<(&str, BiblioRecord)>) -> BiblioRecord {
    BiblioRecord::Object(fields.into_iter().map(|(k, v)| (k.to_string(), v)).collect())
}

#[test]
fn classify_follows_rule_order() {
    assert_eq!(classify_value("1999"), PatternType::FourDigitYear);
    assert_eq!(classify_value("circa 1990"), PatternType::FuzzyDate);
    assert_eq!(classify_value("AB"), PatternType::VeryShort);
    assert_eq!(classify_value("abc123"), PatternType::MixedAlphanumeric);
    assert_eq!(classify_value(""), PatternType::Empty);
    assert_eq!(classify_value("eng"), PatternType::IsoLanguageCode);
    assert_eq!(classify_value("12345"), PatternType::PureNumeric);
    assert_eq!(classify_value("1800-1850"), PatternType::DateRange);
    assert_eq!(classify_value("2020-12-31"), PatternType::IsoDate);
    assert_eq!(classify_value("http://example.org"), PatternType::UrlLike);
    assert_eq!(classify_value("someone@example.org"), PatternType::EmailLike);
    assert_eq!(classify_value("[n.d.]"), PatternType::BracketedContent);
    assert_eq!(classify_value("18th century"), PatternType::CenturyNotation);
    assert_eq!(classify_value("1,000.50"), PatternType::NumericWithPunctuation);
    assert_eq!(classify_value("ABCD"), PatternType::AllCaps);
}

#[test]
fn value_typer_labels() {
    assert_eq!(get_value_type(&BiblioRecord::Null), "null");
    assert_eq!(get_value_type(&BiblioRecord::Bool(true)), "boolean");
    assert_eq!(get_value_type(&BiblioRecord::Number("3".to_string())), "number");
    assert_eq!(get_value_type(&BiblioRecord::Text("x".to_string())), "string");
    assert_eq!(get_value_type(&BiblioRecord::Array(vec![])), "array (empty)");
    assert_eq!(
        get_value_type(&BiblioRecord::Array(vec![BiblioRecord::Text("x".to_string())])),
        "array of string"
    );
    assert_eq!(get_value_type(&obj(vec![])), "object");
}

#[test]
fn facets_counts_and_percentages() {
    let records = vec![
        obj(vec![("year", BiblioRecord::Number("1995".to_string()))]),
        obj(vec![("year", BiblioRecord::Text("circa 1990".to_string()))]),
        obj(vec![("year", BiblioRecord::Null)]),
    ];
    let fa = analyze_field_facets(&records, "year");
    assert_eq!(fa.total_values, 3);
    assert_eq!(fa.null_count, 1);
    assert_eq!(fa.unique_values, 2);
    let mut values: Vec<(String, usize, usize)> = fa
        .values
        .iter()
        .map(|v| (v.value.clone(), v.count, v.percentage_bp))
        .collect();
    values.sort();
    assert_eq!(values[0], ("1995".to_string(), 1, 3333));
    assert_eq!(values[1], ("circa 1990".to_string(), 1, 3333));
}

#[test]
fn quality_flags_non_objects_and_caps_analysis() {
    let records = vec![
        obj(vec![]),
        BiblioRecord::Array(vec![]),
        obj(vec![]),
    ];
    let issues = analyze_quality(&records);
    assert_eq!(issues.len(), 1);
    assert_eq!(issues[0].record_index, 1);
    assert_eq!(issues[0].issue_type, "Invalid Structure");
    assert_eq!(issues[0].description, "Record is not a JSON object");

    let big: Vec<BiblioRecord> = (0..10_001).map(|_| obj(vec![])).collect();
    let issues = analyze_quality(&big);
    assert_eq!(issues.len(), 1);
    assert_eq!(issues[0].record_index, usize::MAX);
    assert_eq!(issues[0].issue_type, "Analysis Limited");
    assert_eq!(
        issues[0].description,
        "Dataset too large - only analyzed first 10000 of 10001 records"
    );
}

#[test]
fn non_object_records_do_not_reach_facets() {
    let records = vec![
        BiblioRecord::Array(vec![]),
        obj(vec![("id", BiblioRecord::Text("AB".to_string()))]),
    ];
    let fa = analyze_field_facets(&records, "id");
    assert_eq!(fa.total_values, 1);
    assert_eq!(fa.null_count, 0);
    assert_eq!(fa.unique_values, 1);
    assert_eq!(fa.values[0].value, "AB");
    assert_eq!(fa.values[0].count, 1);
    assert_eq!(fa.values[0].percentage_bp, 10000);
}
