use optdesc::argument::ArgumentType;
use optdesc::argument::ArgumentValue;
use optdesc::argument::OptionDescription;

#[allow(unused_variables)]
#[test]
fn it_works() {
    let desc = OptionDescription::new("option").long("hello");
}

#[allow(unused_variables)]
#[test]
fn it_works_complex() {
    let desc = OptionDescription::new("option").long("hello".to_owned().as_str());
}

#[test]
fn from_bool_yields_bool() {
    let v = ArgumentValue::from(true);
    assert!(matches!(v, ArgumentValue::Bool(true)));
    assert!(v == ArgumentValue::from(true));
    assert!(v != ArgumentValue::from(false));
}

#[test]
fn from_integer_yields_integer() {
    let v = ArgumentValue::from(7u64);
    assert!(matches!(v, ArgumentValue::Integer(7)));
    assert!(v == ArgumentValue::from(7u64));
    assert!(v != ArgumentValue::from(8u64));
}

#[test]
fn from_text_yields_string() {
    let v = ArgumentValue::from("hi");
    assert!(matches!(&v, ArgumentValue::String(s) if s == "hi"));
    assert!(v == ArgumentValue::from("hi".to_string()));
    assert!(v != ArgumentValue::from("ho"));
}

#[test]
fn float_equality_is_tolerance_based() {
    let zero = ArgumentValue::from_float_bits((0.0f64).to_bits());
    let close = ArgumentValue::from_float_bits((5e-7f64).to_bits());
    assert!(zero == close);
    assert!(close == zero);

    let same = ArgumentValue::from_float_bits((3.5f64).to_bits());
    let same_again = ArgumentValue::from_float_bits((3.5f64).to_bits());
    assert!(same == same_again);

    let nearby = ArgumentValue::from_float_bits((1.25f64 + 1e-9).to_bits());
    let base = ArgumentValue::from_float_bits((1.25f64).to_bits());
    assert!(base == nearby);
}

#[test]
fn float_equality_boundary_is_strict() {
    let zero = ArgumentValue::from_float_bits((0.0f64).to_bits());
    let at_tolerance = ArgumentValue::from_float_bits((1e-6f64).to_bits());
    assert!(zero != at_tolerance);

    let beyond = ArgumentValue::from_float_bits((2e-6f64).to_bits());
    assert!(zero != beyond);
}

#[test]
fn float_nan_is_unequal_to_itself() {
    let nan_a = ArgumentValue::from_float_bits(f64::NAN.to_bits());
    let nan_b = ArgumentValue::from_float_bits(f64::NAN.to_bits());
    assert!(nan_a != nan_b);
}

#[test]
fn different_variants_are_unequal() {
    let int_zero = ArgumentValue::from(0u64);
    let float_zero = ArgumentValue::from_float_bits((0.0f64).to_bits());
    assert!(int_zero != float_zero);
    assert!(float_zero != int_zero);

    assert!(ArgumentValue::NoValue != ArgumentValue::from(false));
    assert!(ArgumentValue::from(true) != ArgumentValue::from(1u64));
    assert!(ArgumentValue::from("1") != ArgumentValue::from(1u64));
    assert!(ArgumentValue::List(vec![]) != ArgumentValue::Mapping(vec![]));
    assert!(ArgumentValue::NoValue == ArgumentValue::NoValue);
}

#[test]
fn list_equality_ignores_order() {
    let one_two = ArgumentValue::List(vec![
        ArgumentValue::from(1u64),
        ArgumentValue::from(2u64),
    ]);
    let two_one = ArgumentValue::List(vec![
        ArgumentValue::from(2u64),
        ArgumentValue::from(1u64),
    ]);
    assert!(one_two == two_one);

    let just_one = ArgumentValue::List(vec![ArgumentValue::from(1u64)]);
    assert!(one_two != just_one);
    assert!(just_one != one_two);

    let empty_a = ArgumentValue::List(vec![]);
    let empty_b = ArgumentValue::List(vec![]);
    assert!(empty_a == empty_b);
}

#[test]
fn list_elements_compare_with_tolerance() {
    let base = ArgumentValue::List(vec![ArgumentValue::from_float_bits((1.25f64).to_bits())]);
    let nearby = ArgumentValue::List(vec![ArgumentValue::from_float_bits(
        (1.25f64 + 1e-9).to_bits(),
    )]);
    assert!(base == nearby);

    let far = ArgumentValue::List(vec![ArgumentValue::from_float_bits((1.26f64).to_bits())]);
    assert!(base != far);
}

#[test]
fn mapping_equality_ignores_entry_order() {
    let ab = ArgumentValue::Mapping(vec![
        ("a".to_string(), ArgumentValue::from(true)),
        ("b".to_string(), ArgumentValue::from(2u64)),
    ]);
    let ba = ArgumentValue::Mapping(vec![
        ("b".to_string(), ArgumentValue::from(2u64)),
        ("a".to_string(), ArgumentValue::from(true)),
    ]);
    assert!(ab == ba);

    let other_key = ArgumentValue::Mapping(vec![("c".to_string(), ArgumentValue::from(true))]);
    assert!(ab != other_key);

    let other_value = ArgumentValue::Mapping(vec![
        ("a".to_string(), ArgumentValue::from(false)),
        ("b".to_string(), ArgumentValue::from(2u64)),
    ]);
    assert!(ab != other_value);
}

#[test]
fn long_alias_insert_is_idempotent() {
    let desc = OptionDescription::new("opt").long("x").long("x");
    assert_eq!(desc.long_aliases().len(), 1);
    assert_eq!(desc.long_aliases()[0], "x");

    let desc = desc.long("y");
    assert_eq!(desc.long_aliases().len(), 2);
}

#[test]
fn short_alias_insert_is_idempotent() {
    let desc = OptionDescription::new("opt").short('v').short('v');
    assert_eq!(desc.short_aliases().len(), 1);
    assert_eq!(desc.short_aliases()[0], 'v');
}

#[test]
fn description_last_call_wins() {
    let desc = OptionDescription::new("opt").description("a").description("b");
    assert_eq!(desc.description_text(), "b");
}

#[test]
fn usage_and_markers_last_call_wins() {
    let desc = OptionDescription::new("opt")
        .usage("u1")
        .usage("u2")
        .disabled("gone")
        .deprecated("old")
        .deprecated("older");
    assert_eq!(desc.usage_text().as_deref(), Some("u2"));
    assert_eq!(desc.disabled_reason().as_deref(), Some("gone"));
    assert_eq!(desc.deprecated_reason().as_deref(), Some("older"));
}

#[test]
fn argtype_last_call_wins() {
    let desc = OptionDescription::new("opt")
        .argtype(ArgumentType::Integer)
        .argtype(ArgumentType::Float);
    assert_eq!(*desc.argument_type(), Some(ArgumentType::Float));
}

#[test]
fn new_description_starts_empty() {
    let desc = OptionDescription::new("opt");
    assert_eq!(desc.name(), "opt");
    assert!(desc.long_aliases().is_empty());
    assert!(desc.short_aliases().is_empty());
    assert_eq!(desc.description_text(), "");
    assert!(desc.usage_text().is_none());
    assert!(desc.disabled_reason().is_none());
    assert!(desc.deprecated_reason().is_none());
    assert!(desc.argument_type().is_none());
    assert!(desc.element_subtype().is_none());
    assert!(desc.positional_index().is_none());
    assert!(desc.default_values().is_none());
}

#[test]
fn default_description_is_blank() {
    let desc = OptionDescription::default();
    assert_eq!(desc.name(), "");
    assert!(desc.long_aliases().is_empty());
    assert!(desc.argument_type().is_none());
}

#[test]
fn description_equality_ignores_presentation() {
    let a = OptionDescription::new("opt")
        .long("l1")
        .short('a')
        .description("first")
        .usage("usage")
        .disabled("because");
    let b = OptionDescription::new("opt").disabled("another reason");
    assert!(a == b);

    let no_marker = OptionDescription::new("opt");
    assert!(a != no_marker);

    let other_name = OptionDescription::new("other").disabled("because");
    assert!(a != other_name);

    let other_type = OptionDescription::new("opt")
        .disabled("because")
        .argtype(ArgumentType::Bool);
    assert!(a != other_type);
}

#[test]
fn argument_type_tags_compare_structurally() {
    assert_eq!(ArgumentType::List, ArgumentType::List);
    assert_ne!(ArgumentType::List, ArgumentType::Mapping);
    assert_ne!(ArgumentType::NoValue, ArgumentType::Any);
}

#[test]
fn verbose_scenario_builds_and_compares_equal() {
    let first = OptionDescription::new("verbose")
        .short('v')
        .long("verbose")
        .argtype(ArgumentType::Bool);
    assert_eq!(first.name(), "verbose");
    assert_eq!(first.short_aliases().as_slice(), &['v']);
    assert_eq!(first.long_aliases().as_slice(), &["verbose".to_string()]);
    assert_eq!(*first.argument_type(), Some(ArgumentType::Bool));
    assert!(first.element_subtype().is_none());
    assert!(first.positional_index().is_none());

    let second = OptionDescription::new("verbose")
        .argtype(ArgumentType::Bool)
        .description("prints more detail");
    assert!(first == second);
}
