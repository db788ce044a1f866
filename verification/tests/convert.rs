use endpoint_validator::convert::{ConvertError, REF_DEPTH};
use endpoint_validator::json::JsonValue;
use endpoint_validator::schema::{EndpointSchema, EndpointsType, EnumData, EnumDef, Registry, Services};
use endpoint_validator::types::{EnumVariant, Field, Type};

fn s(x: &str) -> String {
    x.to_string()
}

fn reg() -> Registry {
    Registry::new()
}

fn render(r: Result<JsonValue, ConvertError>) -> String {
    match r {
        Ok(j) => j.render_compact(),
        Err(_) => panic!("conversion failed where it should succeed"),
    }
}

fn expect_err(r: Result<JsonValue, ConvertError>) -> ConvertError {
    match r {
        Ok(_) => panic!("conversion succeeded where it should fail"),
        Err(e) => e,
    }
}

#[test]
fn int_valid_round_trips() {
    let r = Type::Int.convert_value("42", &reg());
    let text = render(r);
    assert_eq!(text, "42");
    let again = render(Type::Int.convert_value(&text, &reg()));
    assert_eq!(again, "42");
}

#[test]
fn int_signs_and_leading_zeros() {
    assert_eq!(render(Type::Int.convert_value("+7", &reg())), "7");
    assert_eq!(render(Type::Int.convert_value("-2147483648", &reg())), "-2147483648");
    assert_eq!(render(Type::Int.convert_value("007", &reg())), "7");
}

#[test]
fn int_rejects_garbage_and_overflow() {
    assert!(Type::Int.convert_value("abc", &reg()).is_err());
    assert!(Type::Int.convert_value("", &reg()).is_err());
    assert!(Type::Int.convert_value("2147483648", &reg()).is_err());
    assert!(Type::Int.convert_value("1 2", &reg()).is_err());
}

#[test]
fn bigint_round_trips_and_covers_wider_range() {
    assert_eq!(render(Type::BigInt.convert_value("2147483648", &reg())), "2147483648");
    assert_eq!(
        render(Type::BigInt.convert_value("-9223372036854775808", &reg())),
        "-9223372036854775808"
    );
    assert!(Type::BigInt.convert_value("9223372036854775808", &reg()).is_err());
}

#[test]
fn timestamp_parses_as_integer() {
    assert_eq!(render(Type::TimeStampMs.convert_value("1700000000000", &reg())), "1700000000000");
    assert!(Type::TimeStampMs.convert_value("soon", &reg()).is_err());
}

#[test]
fn numeric_accepts_decimal_grammar() {
    assert_eq!(render(Type::Numeric.convert_value("3.14", &reg())), "3.14");
    assert_eq!(render(Type::Numeric.convert_value("-0.5", &reg())), "-0.5");
    assert_eq!(render(Type::Numeric.convert_value("1e5", &reg())), "1e5");
    assert_eq!(render(Type::Numeric.convert_value("2.5E-3", &reg())), "2.5E-3");
    assert_eq!(render(Type::Numeric.convert_value(".5", &reg())), ".5");
    assert_eq!(render(Type::Numeric.convert_value("1.", &reg())), "1.");
}

#[test]
fn numeric_rejects_non_numbers() {
    assert!(Type::Numeric.convert_value("abc", &reg()).is_err());
    assert!(Type::Numeric.convert_value("", &reg()).is_err());
    assert!(Type::Numeric.convert_value(".", &reg()).is_err());
    assert!(Type::Numeric.convert_value("1.2.3", &reg()).is_err());
    assert!(Type::Numeric.convert_value("1e", &reg()).is_err());
    assert!(Type::Numeric.convert_value("inf", &reg()).is_err());
}

#[test]
fn boolean_accepts_exactly_the_two_tokens() {
    assert_eq!(render(Type::Boolean.convert_value("true", &reg())), "true");
    assert_eq!(render(Type::Boolean.convert_value("false", &reg())), "false");
    assert!(Type::Boolean.convert_value("True", &reg()).is_err());
    assert!(Type::Boolean.convert_value("1", &reg()).is_err());
}

#[test]
fn text_scalars_pass_through_as_strings() {
    assert_eq!(render(Type::String.convert_value("hello", &reg())), "\"hello\"");
    assert_eq!(render(Type::Date.convert_value("2024-01-01", &reg())), "\"2024-01-01\"");
    assert_eq!(
        render(Type::UUID.convert_value("123e4567-e89b-12d3-a456-426614174000", &reg())),
        "\"123e4567-e89b-12d3-a456-426614174000\""
    );
    assert_eq!(render(Type::Inet.convert_value("10.0.0.1", &reg())), "\"10.0.0.1\"");
    assert_eq!(render(Type::BlockchainAddress.convert_value("0xabc", &reg())), "\"0xabc\"");
}

#[test]
fn string_escaping_round_trips_specials() {
    assert_eq!(render(Type::String.convert_value("a\"b", &reg())), "\"a\\\"b\"");
    assert_eq!(render(Type::String.convert_value("a\\b", &reg())), "\"a\\\\b\"");
    assert_eq!(render(Type::String.convert_value("a\nb", &reg())), "\"a\\nb\"");
    assert_eq!(render(Type::String.convert_value("a\u{1}b", &reg())), "\"a\\u0001b\"");
}

#[test]
fn optional_empty_is_null_and_nonempty_recurses() {
    let t = Type::optional(Type::Int);
    assert_eq!(render(t.convert_value("", &reg())), "null");
    let t = Type::optional(Type::Int);
    assert_eq!(render(t.convert_value("5", &reg())), "5");
    let t = Type::optional(Type::Int);
    assert!(t.convert_value("x", &reg()).is_err());
}

#[test]
fn sequence_of_ints_converts_elementwise() {
    let t = Type::vec(Type::Int);
    assert_eq!(render(t.convert_value("1,2,3", &reg())), "[1,2,3]");
}

#[test]
fn sequence_failure_names_the_offending_index() {
    let t = Type::vec(Type::Int);
    let err = expect_err(t.convert_value("1,x,3", &reg()));
    match err {
        ConvertError::AtIndex { index, inner } => {
            assert_eq!(index, 1);
            assert!(matches!(*inner, ConvertError::InvalidScalar { .. }));
        },
        other => panic!("expected an indexed error, got {:?}", describe(&other)),
    }
}

fn describe(e: &ConvertError) -> &'static str {
    match e {
        ConvertError::InvalidScalar { .. } => "InvalidScalar",
        ConvertError::UnknownVariant { .. } => "UnknownVariant",
        ConvertError::UnresolvedReference { .. } => "UnresolvedReference",
        ConvertError::AtIndex { .. } => "AtIndex",
    }
}

fn ab_struct() -> Type {
    Type::struct_(
        s("S"),
        vec![Field::new(s("a"), Type::Int), Field::new(s("b"), Type::String)],
    )
}

#[test]
fn struct_matches_fields_by_name() {
    let t = ab_struct();
    assert_eq!(render(t.convert_value("a:5,b:hello", &reg())), "{\"a\":5,\"b\":\"hello\"}");
}

#[test]
fn struct_omits_absent_fields_without_defaults() {
    let t = ab_struct();
    assert_eq!(render(t.convert_value("a:5", &reg())), "{\"a\":5}");
}

#[test]
fn struct_ignores_unknown_keys_and_keeps_colons_in_values() {
    let t = ab_struct();
    assert_eq!(render(t.convert_value("z:9,a:5,b:x:y", &reg())), "{\"a\":5,\"b\":\"x:y\"}");
}

#[test]
fn struct_last_duplicate_key_wins() {
    let t = ab_struct();
    assert_eq!(render(t.convert_value("a:1,a:2", &reg())), "{\"a\":2}");
}

#[test]
fn datatable_splits_rows_on_semicolons() {
    let t = Type::datatable(
        s("T"),
        vec![Field::new(s("a"), Type::Int), Field::new(s("b"), Type::String)],
    );
    assert_eq!(
        render(t.convert_value("a:1,b:x;a:2,b:y", &reg())),
        "[{\"a\":1,\"b\":\"x\"},{\"a\":2,\"b\":\"y\"}]"
    );
}

fn red_blue() -> Type {
    Type::enum_(
        s("Color"),
        vec![EnumVariant::new(s("RED"), 0), EnumVariant::new(s("BLUE"), 1)],
    )
}

#[test]
fn enum_accepts_exact_variant_names() {
    assert_eq!(render(red_blue().convert_value("RED", &reg())), "\"RED\"");
    assert_eq!(render(red_blue().convert_value("BLUE", &reg())), "\"BLUE\"");
}

#[test]
fn enum_rejects_unknown_variants_naming_them() {
    let err = expect_err(red_blue().convert_value("GREEN", &reg()));
    match err {
        ConvertError::UnknownVariant { enum_name, text } => {
            assert_eq!(enum_name, "Color");
            assert_eq!(text, "GREEN");
        },
        other => panic!("expected an unknown-variant error, got {:?}", describe(&other)),
    }
}

#[test]
fn enum_matching_is_case_sensitive() {
    assert!(red_blue().convert_value("red", &reg()).is_err());
}

fn registry_with_color() -> Registry {
    let services = Services {
        enums: vec![EnumData::new(EnumDef {
            name: s("Color"),
            variants: vec![EnumVariant::new(s("RED"), 0), EnumVariant::new(s("BLUE"), 1)],
        })],
        services: vec![],
    };
    Registry::from_services(&services)
}

#[test]
fn enum_ref_resolves_against_the_registry() {
    let t = Type::enum_ref(s("Color"));
    assert_eq!(render(t.convert_value("RED", &registry_with_color())), "\"RED\"");
    let t = Type::enum_ref(s("Color"));
    assert!(matches!(
        t.convert_value("GREEN", &registry_with_color()),
        Err(ConvertError::UnknownVariant { .. })
    ));
}

#[test]
fn unresolved_references_are_reported() {
    let t = Type::enum_ref(s("Missing"));
    match t.convert_value("RED", &reg()) {
        Err(ConvertError::UnresolvedReference { name }) => assert_eq!(name, "Missing"),
        _ => panic!("expected an unresolved-reference error"),
    }
    let t = Type::struct_ref(s("Missing"));
    assert!(matches!(
        t.convert_value("a:1", &reg()),
        Err(ConvertError::UnresolvedReference { .. })
    ));
}

#[test]
fn struct_ref_resolves_against_the_registry() {
    let mut r = Registry::new();
    r.add_struct(s("S"), vec![Field::new(s("a"), Type::Int)]);
    let t = Type::struct_ref(s("S"));
    assert_eq!(render(t.convert_value("a:5", &r)), "{\"a\":5}");
}

#[test]
fn object_keeps_valid_json_and_quotes_the_rest() {
    let t = Type::Object;
    assert_eq!(render(t.convert_value("{\"a\":1}", &reg())), "{\"a\":1}");
    let t = Type::Object;
    assert_eq!(render(t.convert_value("[1,2]", &reg())), "[1,2]");
    let t = Type::Object;
    assert_eq!(render(t.convert_value("{oops", &reg())), "\"{oops\"");
}

#[test]
fn unit_maps_any_input_to_null() {
    assert_eq!(render(Type::Unit.convert_value("whatever", &reg())), "null");
}

#[test]
fn nested_optional_sequence_struct() {
    let t = Type::vec(Type::optional(Type::Int));
    assert_eq!(render(t.convert_value("1,,3", &reg())), "[1,null,3]");
}

#[test]
fn reference_depth_is_bounded() {
    assert_eq!(REF_DEPTH, 64);
}

#[test]
fn inline_struct_definitions_resolve_references() {
    let services = Services {
        enums: vec![],
        services: vec![EndpointsType {
            endpoints: vec![EndpointSchema {
                name: s("Move"),
                code: 1,
                parameters: vec![Field::new(
                    s("from"),
                    Type::struct_(
                        s("Pos"),
                        vec![Field::new(s("x"), Type::Int), Field::new(s("y"), Type::Int)],
                    ),
                )],
                returns: vec![],
                stream_response: None,
                description: s(""),
                json_schema: JsonValue::Null,
            }],
            id: 1,
            name: s("Board"),
        }],
    };
    let reg = Registry::from_services(&services);
    let t = Type::struct_ref(s("Pos"));
    assert_eq!(render(t.convert_value("x:1,y:2", &reg)), "{\"x\":1,\"y\":2}");
    let t = Type::struct_ref(s("Elsewhere"));
    assert!(matches!(
        t.convert_value("x:1", &reg),
        Err(ConvertError::UnresolvedReference { .. })
    ));
}

#[test]
fn error_messages_name_the_cause() {
    let err = expect_err(Type::Int.convert_value("abc", &reg()));
    assert_eq!(err.message(), "Invalid value for integer: abc");
    let err = expect_err(red_blue().convert_value("GREEN", &reg()));
    assert_eq!(err.message(), "Invalid variant for enum Color: GREEN");
    let t = Type::vec(Type::Int);
    let err = expect_err(t.convert_value("1,x", &reg()));
    assert_eq!(err.message(), "At index 1: Invalid value for integer: x");
    let t = Type::enum_ref(s("Missing"));
    let err = expect_err(t.convert_value("RED", &reg()));
    assert_eq!(err.message(), "Unresolved reference: Missing");
}
