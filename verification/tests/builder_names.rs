use better_builder::fields::{FieldData, TypeExpr};
use better_builder::names::{convert_snake_case_to_upper_camel_case, u16_to_decimal, NameRegistry};

fn plain_ty(name: &str) -> TypeExpr {
    TypeExpr::Path {
        first_segment: String::from(name),
        text: String::from(name),
    }
}

#[test]
fn test_convert_snake_case_to_upper_camel_case() {
    let camel_case = convert_snake_case_to_upper_camel_case("my_field");
    assert_eq!(camel_case, "MyField");
}

#[test]
fn test_field_data_is_optional() {
    let ty = TypeExpr::Path {
        first_segment: String::from("Option"),
        text: String::from("Option<i32>"),
    };
    let field = FieldData::new(String::from("my_field"), ty);
    assert!(field.is_optional());

    let field = FieldData::new(String::from("my_field"), plain_ty("i32"));
    assert!(!field.is_optional());
}

#[test]
fn test_field_data_generate_builder_name() {
    let mut field = FieldData::new(String::from("my_field"), plain_ty("i32"));
    let mut field2 = FieldData::new(String::from("my_Field"), plain_ty("i32"));

    let parent_struct_name = String::from("MyStruct");

    let mut other_builders = NameRegistry::new();

    let builder_name = field.generate_builder_name(&parent_struct_name, &mut other_builders);
    assert_eq!(builder_name, "MyStructBuilderMissingMyField");

    let builder_name = field2.generate_builder_name(&parent_struct_name, &mut other_builders);
    assert_eq!(builder_name, "MyStructBuilderMissingMyField1");
}

#[test]
fn test_field_data_generate_builder_idempotent() {
    let mut field = FieldData::new(String::from("my_field"), plain_ty("i32"));

    let parent_struct_name = String::from("MyStruct");

    let mut other_builders = NameRegistry::new();

    let builder_name = field.generate_builder_name(&parent_struct_name, &mut other_builders);
    assert_eq!(builder_name, "MyStructBuilderMissingMyField");

    let builder_name = field.generate_builder_name(&parent_struct_name, &mut other_builders);
    assert_eq!(builder_name, "MyStructBuilderMissingMyField");
}

#[test]
fn camel_case_edge_cases() {
    assert_eq!(convert_snake_case_to_upper_camel_case(""), "");
    assert_eq!(convert_snake_case_to_upper_camel_case("_"), "");
    assert_eq!(convert_snake_case_to_upper_camel_case("a__b"), "AB");
    assert_eq!(convert_snake_case_to_upper_camel_case("my_Field"), "MyField");
    assert_eq!(convert_snake_case_to_upper_camel_case("num_wheels_"), "NumWheels");
    assert_eq!(convert_snake_case_to_upper_camel_case("_x"), "X");
    assert_eq!(convert_snake_case_to_upper_camel_case("ABC"), "ABC");
    assert_eq!(convert_snake_case_to_upper_camel_case("x9_y"), "X9Y");
}

#[test]
fn decimal_rendering_exact_values() {
    assert_eq!(u16_to_decimal(0), "0");
    assert_eq!(u16_to_decimal(7), "7");
    assert_eq!(u16_to_decimal(10), "10");
    assert_eq!(u16_to_decimal(12345), "12345");
    assert_eq!(u16_to_decimal(65535), "65535");
}

#[test]
fn registry_counts_per_base_name() {
    let mut reg = NameRegistry::new();
    let key = String::from("CartBuilderMissingNumWheels");
    assert_eq!(reg.get_count(&key), None);
    reg.set_count(&key, 1);
    assert_eq!(reg.get_count(&key), Some(1));
    reg.set_count(&key, 2);
    assert_eq!(reg.get_count(&key), Some(2));
    let other = String::from("CartBuilderMissingOwner");
    assert_eq!(reg.get_count(&other), None);
}

#[test]
fn memoized_name_ignores_later_registry_state() {
    // Once resolved, the name never re-triggers collision counting: a
    // second resolution of a colliding field leaves the first untouched.
    let mut field = FieldData::new(String::from("num_wheels"), plain_ty("u8"));
    let mut clash = FieldData::new(String::from("num_Wheels"), plain_ty("u32"));
    let parent = String::from("Cart");
    let mut reg = NameRegistry::new();
    let first = field.generate_builder_name(&parent, &mut reg);
    assert_eq!(first, "CartBuilderMissingNumWheels");
    let second = clash.generate_builder_name(&parent, &mut reg);
    assert_eq!(second, "CartBuilderMissingNumWheels1");
    let again = field.generate_builder_name(&parent, &mut reg);
    assert_eq!(again, "CartBuilderMissingNumWheels");
}
