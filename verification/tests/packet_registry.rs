use hematite::packet_registry::camel_case_to_snake_case;

fn check_conversions() {
    let input = "CamelCase";
    assert_eq!(camel_case_to_snake_case(input), Some("camel_case".into()));

    let input = "Upper";
    assert_eq!(camel_case_to_snake_case(input), Some("upper".into()));

    let input = "U";
    assert_eq!(camel_case_to_snake_case(input), Some("u".into()));

    let input = "UpperLongCamelCase";
    assert_eq!(
        camel_case_to_snake_case(input),
        Some("upper_long_camel_case".into())
    );

    let input = "HTML";
    assert_eq!(camel_case_to_snake_case(input), Some("h_t_m_l".into()));
}

fn check_failures() {
    let input = "camelCase";
    assert_eq!(camel_case_to_snake_case(input), None);

    let input = "snake_Case";
    assert_eq!(camel_case_to_snake_case(input), None);

    let input = "real_snake_case";
    assert_eq!(camel_case_to_snake_case(input), None);
}

#[test]
fn all_packets_test_camel_case_to_snake_case() {
    check_conversions();
}

#[test]
fn all_packets_test_camel_case_to_snake_case_fails() {
    check_failures();
}

#[test]
fn packet_id_test_camel_case_to_snake_case() {
    check_conversions();
}

#[test]
fn packet_id_test_camel_case_to_snake_case_fails() {
    check_failures();
}

#[test]
fn camel_case_empty_input_is_rejected() {
    assert_eq!(camel_case_to_snake_case(""), None);
}
