use std::collections::HashSet;

use structurray::arguments::{
    parse_arguments, parse_arguments_with, parse_count, type_nesting_weight, FauxArrayError,
};
use structurray::base62::encode;
use structurray::faux_array;
use structurray::fields::{describe_field, synthesize};
use structurray::render::{rename_attribute, render_declaration};
use structurray::skeleton::{derives_serialize_text, has_serialization, StructSkeleton};
use structurray::text::{is_blank_text, trim_text};

fn skeleton(attributes: &[&str], name: &str, generics: &str) -> StructSkeleton {
    StructSkeleton {
        attributes: attributes.iter().map(|a| a.to_string()).collect(),
        visibility: String::new(),
        name: name.to_string(),
        generics: generics.to_string(),
        fields: Vec::new(),
    }
}

#[test]
fn base62_base_cases() {
    assert_eq!(encode(0), "0");
    assert_eq!(encode(9), "9");
    assert_eq!(encode(10), "a");
    assert_eq!(encode(35), "z");
    assert_eq!(encode(36), "A");
    assert_eq!(encode(61), "Z");
    assert_eq!(encode(62), "10");
    assert_eq!(encode(63), "11");
}

#[test]
fn base62_larger_values() {
    assert_eq!(encode(52 * 62 * 62 + 9 * 62 + 35), "Q9z");
    assert_eq!(encode(62 * 62), "100");
    assert_eq!(encode(u32::MAX), "4GFfc3");
}

#[test]
fn base62_injective_on_sample() {
    let mut seen: HashSet<String> = HashSet::new();
    for n in 0u32..(1u32 << 20) {
        assert!(seen.insert(encode(n)), "numeral of {} repeats", n);
    }
    assert_eq!(seen.len(), 1 << 20);
}

#[test]
fn synthesize_cardinality() {
    for n in [0u32, 1, 3, 62, 63, 10000] {
        assert_eq!(synthesize("u8", n).len(), n as usize);
    }
}

#[test]
fn synthesize_deterministic() {
    let a = synthesize("Vec<u8>", 200);
    let b = synthesize("Vec<u8>", 200);
    assert_eq!(a, b);
}

#[test]
fn identifier_is_underscore_and_key() {
    for f in synthesize("u8", 5000) {
        assert_eq!(f.identifier, format!("_{}", f.external_key));
        assert_eq!(f.field_type, "u8");
    }
}

#[test]
fn synthesized_names_are_distinct() {
    let fields = synthesize("u8", 4000);
    let ids: HashSet<&String> = fields.iter().map(|f| &f.identifier).collect();
    let keys: HashSet<&String> = fields.iter().map(|f| &f.external_key).collect();
    assert_eq!(ids.len(), 4000);
    assert_eq!(keys.len(), 4000);
}

#[test]
fn large_count_names() {
    let fields = synthesize("u8", 62);
    assert_eq!(fields[61].identifier, "_Z");
    assert_eq!(fields[61].external_key, "Z");
    let fields = synthesize("u8", 63);
    assert_eq!(fields[61].identifier, "_Z");
    assert_eq!(fields[62].identifier, "_10");
    assert_eq!(fields[62].external_key, "10");
}

#[test]
fn describe_field_at_index() {
    let f = describe_field("String", 3843);
    assert_eq!(f.identifier, "_ZZ");
    assert_eq!(f.external_key, "ZZ");
    assert_eq!(f.field_type, "String");
}

#[test]
fn empty_arguments_miss_the_type() {
    assert_eq!(parse_arguments("").unwrap_err(), FauxArrayError::MissingTypeArgument);
    assert_eq!(parse_arguments("   ").unwrap_err(), FauxArrayError::MissingTypeArgument);
}

#[test]
fn one_argument_misses_the_count() {
    assert_eq!(parse_arguments("u8").unwrap_err(), FauxArrayError::MissingCountArgument);
    assert_eq!(
        parse_arguments("HashMap<K, V>").unwrap_err(),
        FauxArrayError::MissingCountArgument
    );
}

#[test]
fn invalid_type_argument() {
    assert_eq!(
        parse_arguments("NotAType!!, 3").unwrap_err(),
        FauxArrayError::InvalidTypeArgument("NotAType!!".to_string())
    );
    assert_eq!(
        parse_arguments(", 3").unwrap_err(),
        FauxArrayError::InvalidTypeArgument(String::new())
    );
    assert_eq!(
        parse_arguments_with(" , 3", true).unwrap_err(),
        FauxArrayError::InvalidTypeArgument(String::new())
    );
}

#[test]
fn invalid_count_argument() {
    assert_eq!(
        parse_arguments("u8, -1").unwrap_err(),
        FauxArrayError::InvalidCountArgument("-1".to_string())
    );
    assert_eq!(
        parse_arguments("u8, 4294967296").unwrap_err(),
        FauxArrayError::InvalidCountArgument("4294967296".to_string())
    );
    assert_eq!(
        parse_arguments("u8, three").unwrap_err(),
        FauxArrayError::InvalidCountArgument("three".to_string())
    );
    assert_eq!(
        parse_arguments("u8,").unwrap_err(),
        FauxArrayError::InvalidCountArgument(String::new())
    );
}

#[test]
fn valid_arguments() {
    let a = parse_arguments("u8, 3").unwrap();
    assert_eq!(a.field_type, "u8");
    assert_eq!(a.field_count, 3);
    let a = parse_arguments(" T ,1000 ").unwrap();
    assert_eq!(a.field_type, "T");
    assert_eq!(a.field_count, 1000);
    let a = parse_arguments("u8, 4294967295").unwrap();
    assert_eq!(a.field_count, u32::MAX);
}

#[test]
fn nested_commas_stay_in_the_type() {
    let a = parse_arguments("HashMap<K, V>, 4").unwrap();
    assert_eq!(a.field_type, "HashMap<K, V>");
    assert_eq!(a.field_count, 4);
    let a = parse_arguments("(u8, u16), 2").unwrap();
    assert_eq!(a.field_type, "(u8, u16)");
    let a = parse_arguments("Box<dyn Fn(u8, u8) -> u8>, 5").unwrap();
    assert_eq!(a.field_type, "Box<dyn Fn(u8, u8) -> u8>");
    assert_eq!(a.field_count, 5);
}

#[test]
fn arguments_beyond_the_second_are_ignored() {
    let a = parse_arguments("u8, 3, extra").unwrap();
    assert_eq!(a.field_count, 3);
}

#[test]
fn type_check_outcome_decides() {
    assert_eq!(
        parse_arguments_with("u8, 3", false).unwrap_err(),
        FauxArrayError::InvalidTypeArgument("u8".to_string())
    );
    let a = parse_arguments_with("whatever, 7", true).unwrap();
    assert_eq!(a.field_type, "whatever");
    assert_eq!(a.field_count, 7);
    assert_eq!(parse_arguments_with("u8", false).unwrap_err(), FauxArrayError::MissingCountArgument);
}

#[test]
fn count_parsing() {
    assert_eq!(parse_count("0"), Some(0));
    assert_eq!(parse_count("007"), Some(7));
    assert_eq!(parse_count("4294967295"), Some(u32::MAX));
    assert_eq!(parse_count("4294967296"), None);
    assert_eq!(parse_count(""), None);
    assert_eq!(parse_count("+3"), Some(3));
    assert_eq!(parse_count("+"), None);
    assert_eq!(parse_count("++3"), None);
    assert_eq!(parse_count("-3"), None);
    assert_eq!(parse_count("1 2"), None);
}

#[test]
fn text_helpers() {
    assert_eq!(trim_text("  a b \n"), "a b");
    assert_eq!(trim_text("   "), "");
    assert!(is_blank_text(""));
    assert!(!is_blank_text(" x "));
}

#[test]
fn derive_of_serialize_is_recognised() {
    assert!(derives_serialize_text("#[derive(Serialize)]"));
    assert!(derives_serialize_text("# [derive (Debug , serde :: Serialize)]"));
    assert!(derives_serialize_text("#[derive(Serialize, Deserialize)]"));
    assert!(!derives_serialize_text("#[doc = \"derive Serialize\"]"));
    assert!(!derives_serialize_text("#[derive(SerializeDisplay)]"));
    assert!(!derives_serialize_text("#[derive(Deserialize)]"));
    assert!(!derives_serialize_text("#[derive(MySerialize)]"));
    assert!(!derives_serialize_text("#[serde(Serialize)]"));
    assert!(!derives_serialize_text(""));
}

#[test]
fn serialization_detection() {
    assert!(has_serialization(&vec!["# [derive (Serialize)]".to_string()]));
    assert!(has_serialization(&vec![
        "# [doc = \"x\"]".to_string(),
        "#[derive(Debug, serde::Serialize)]".to_string(),
    ]));
    assert!(!has_serialization(&vec!["# [derive (Debug)]".to_string()]));
    assert!(!has_serialization(&Vec::new()));
}

#[test]
fn missing_serialization_capability() {
    let s = skeleton(&["#[derive(Debug)]"], "Plain", "");
    assert_eq!(
        faux_array("u8, 3", s).unwrap_err(),
        FauxArrayError::SerializationCapabilityMissing
    );
}

#[test]
fn argument_errors_come_first() {
    let s = skeleton(&[], "Plain", "");
    assert_eq!(faux_array("u8", s).unwrap_err(), FauxArrayError::MissingCountArgument);
}

#[test]
fn lazyrray_end_to_end() {
    let s = skeleton(&["#[derive(Serialize)]"], "Lazyrray", "<T>");
    let d = faux_array("T, 3", s).unwrap();
    assert_eq!(d.name, "Lazyrray");
    assert_eq!(d.generics, "<T>");
    assert_eq!(d.attributes, vec!["#[derive(Serialize)]".to_string()]);
    let ids: Vec<&str> = d.fields.iter().map(|f| f.identifier.as_str()).collect();
    let keys: Vec<&str> = d.fields.iter().map(|f| f.external_key.as_str()).collect();
    assert_eq!(ids, vec!["_0", "_1", "_2"]);
    assert_eq!(keys, vec!["0", "1", "2"]);
    assert!(d.fields.iter().all(|f| f.field_type == "T"));
    assert_eq!(
        render_declaration(&d),
        "#[derive(Serialize)]\nstruct Lazyrray<T> {\n    #[serde(rename = \"0\")]\n    _0: T,\n    #[serde(rename = \"1\")]\n    _1: T,\n    #[serde(rename = \"2\")]\n    _2: T,\n}\n"
    );
}

#[test]
fn existing_fields_are_refused() {
    let mut s = skeleton(&["#[derive(Serialize)]"], "Old", "");
    s.fields.push(describe_field("bool", 9));
    assert_eq!(faux_array("u16, 1", s).unwrap_err(), FauxArrayError::FieldsAlreadyDeclared);
}

#[test]
fn public_visibility_is_rendered() {
    let mut s = skeleton(&["#[derive(Serialize)]"], "Old", "");
    s.visibility = "pub".to_string();
    let d = faux_array("u16, 1", s).unwrap();
    assert_eq!(d.fields, vec![describe_field("u16", 0)]);
    assert_eq!(
        render_declaration(&d),
        "#[derive(Serialize)]\npub struct Old {\n    #[serde(rename = \"0\")]\n    _0: u16,\n}\n"
    );
}

#[test]
fn angle_operators_inside_brackets_are_not_nesting() {
    let a = parse_arguments("[u8; 1 << 2], 3").unwrap();
    assert_eq!(a.field_type, "[u8; 1 << 2]");
    assert_eq!(a.field_count, 3);
    let a = parse_arguments("[u8;1<<2], 3").unwrap();
    assert_eq!(a.field_type, "[u8;1<<2]");
    let a = parse_arguments("[u8; 8 >> 1], 2").unwrap();
    assert_eq!(a.field_count, 2);
    let s = skeleton(&["#[derive(Serialize)]"], "Shifted", "");
    let d = faux_array("[u8;1<<2], 3", s).unwrap();
    assert_eq!(d.fields.len(), 3);
    assert_eq!(d.fields[2].field_type, "[u8;1<<2]");
}

#[test]
fn char_literal_in_const_argument() {
    let a = parse_arguments("Foo<{'<'}>, 4").unwrap();
    assert_eq!(a.field_type, "Foo<{'<'}>");
    assert_eq!(a.field_count, 4);
}

#[test]
fn heavy_type_text_is_refused() {
    let heavy = format!("{}u8", "&".repeat(65));
    assert_eq!(type_nesting_weight(&heavy), 65);
    assert_eq!(
        parse_arguments(&format!("{}, 3", heavy)).unwrap_err(),
        FauxArrayError::InvalidTypeArgument(heavy.clone())
    );
    assert_eq!(
        parse_arguments_with(&format!("{}, 3", heavy), true).unwrap_err(),
        FauxArrayError::InvalidTypeArgument(heavy)
    );
    let deep = format!("{}u8", "&".repeat(10_000));
    assert!(matches!(
        parse_arguments(&format!("{}, 3", deep)),
        Err(FauxArrayError::InvalidTypeArgument(_))
    ));
    let returns = format!("[u8; {}1]", "return ".repeat(2_000));
    assert!(matches!(
        parse_arguments(&format!("{}, 3", returns)),
        Err(FauxArrayError::InvalidTypeArgument(_))
    ));
}

#[test]
fn long_shallow_type_text_is_accepted() {
    let map = "std :: collections :: HashMap < String , Vec < Option < u64 > > >";
    assert!(map.len() > 64);
    let a = parse_arguments(&format!("{} , 3", map)).unwrap();
    assert_eq!(a.field_type, map);
    assert_eq!(a.field_count, 3);
    let long_path = format!("{}Leaf", "segment_with_a_long_name::".repeat(20));
    assert!(long_path.len() > 500);
    assert_eq!(parse_arguments(&format!("{}, 1", long_path)).unwrap().field_type, long_path);
}

#[test]
fn nesting_weight_counts() {
    assert_eq!(type_nesting_weight("u8"), 0);
    assert_eq!(type_nesting_weight("Vec < u8 >"), 2);
    assert_eq!(type_nesting_weight("[u8; N]"), 5);
    assert_eq!(type_nesting_weight("[u8; return return 1]"), 7);
    assert_eq!(type_nesting_weight("[u8; return1]"), 5);
}

/// The heaviest text of the shape `shape` that is still handed to the parser.
fn heaviest(shape: fn(usize) -> String) -> String {
    let mut k: usize = 1;
    while type_nesting_weight(&shape(k + 1)) <= 64 {
        k += 1;
    }
    shape(k)
}

#[test]
fn heaviest_references_reach_the_parser() {
    let t = heaviest(|k| "&".repeat(k) + "u8");
    let r = parse_arguments(&format!("{}, 2", t));
    assert!(matches!(r, Ok(_) | Err(FauxArrayError::InvalidTypeArgument(_))));
}

#[test]
fn heaviest_pointers_reach_the_parser() {
    let t = heaviest(|k| "*const ".repeat(k) + "u8");
    let r = parse_arguments(&format!("{}, 2", t));
    assert!(matches!(r, Ok(_) | Err(FauxArrayError::InvalidTypeArgument(_))));
}

#[test]
fn heaviest_parentheses_reach_the_parser() {
    let t = heaviest(|k| "(".repeat(k) + "u8" + &")".repeat(k));
    let r = parse_arguments(&format!("{}, 2", t));
    assert!(matches!(r, Ok(_) | Err(FauxArrayError::InvalidTypeArgument(_))));
}

#[test]
fn heaviest_slices_reach_the_parser() {
    let t = heaviest(|k| "[".repeat(k) + "u8" + &"]".repeat(k));
    let r = parse_arguments(&format!("{}, 2", t));
    assert!(matches!(r, Ok(_) | Err(FauxArrayError::InvalidTypeArgument(_))));
}

#[test]
fn heaviest_arrays_reach_the_parser() {
    let t = heaviest(|k| "[".repeat(k) + "u8" + &"; 1]".repeat(k));
    let r = parse_arguments(&format!("{}, 2", t));
    assert!(matches!(r, Ok(_) | Err(FauxArrayError::InvalidTypeArgument(_))));
}

#[test]
fn heaviest_generics_reach_the_parser() {
    let t = heaviest(|k| "Option<".repeat(k) + "u8" + &">".repeat(k));
    let r = parse_arguments(&format!("{}, 2", t));
    assert!(matches!(r, Ok(_) | Err(FauxArrayError::InvalidTypeArgument(_))));
}

#[test]
fn heaviest_fn_pointers_reach_the_parser() {
    let t = heaviest(|k| "fn() -> ".repeat(k) + "u8");
    let r = parse_arguments(&format!("{}, 2", t));
    assert!(matches!(r, Ok(_) | Err(FauxArrayError::InvalidTypeArgument(_))));
}

#[test]
fn heaviest_returns_in_length_reach_the_parser() {
    let t = heaviest(|k| "[u8; ".to_string() + &"return ".repeat(k) + "1]");
    let r = parse_arguments(&format!("{}, 2", t));
    assert!(matches!(r, Ok(_) | Err(FauxArrayError::InvalidTypeArgument(_))));
}

#[test]
fn heaviest_negations_in_length_reach_the_parser() {
    let t = heaviest(|k| "[u8; ".to_string() + &"-".repeat(k) + "1]");
    let r = parse_arguments(&format!("{}, 2", t));
    assert!(matches!(r, Ok(_) | Err(FauxArrayError::InvalidTypeArgument(_))));
}

#[test]
fn heaviest_blocks_in_length_reach_the_parser() {
    let t = heaviest(|k| "[u8; ".to_string() + &"{".repeat(k) + "1" + &"}".repeat(k) + "]");
    let r = parse_arguments(&format!("{}, 2", t));
    assert!(matches!(r, Ok(_) | Err(FauxArrayError::InvalidTypeArgument(_))));
}

#[test]
fn heaviest_closures_in_length_reach_the_parser() {
    let t = heaviest(|k| "[u8; ".to_string() + &"|| ".repeat(k) + "1]");
    let r = parse_arguments(&format!("{}, 2", t));
    assert!(matches!(r, Ok(_) | Err(FauxArrayError::InvalidTypeArgument(_))));
}

#[test]
fn heaviest_const_generic_blocks_reach_the_parser() {
    let t = heaviest(|k| "Foo<".to_string() + &"{".repeat(k) + "1" + &"}".repeat(k) + ">");
    let r = parse_arguments(&format!("{}, 2", t));
    assert!(matches!(r, Ok(_) | Err(FauxArrayError::InvalidTypeArgument(_))));
}

#[test]
fn unicode_whitespace_is_trimmed() {
    assert_eq!(trim_text("\u{3000}\x0Cu8\u{A0}"), "u8");
    let a = parse_arguments("u8,\x0C 5\u{2003}").unwrap();
    assert_eq!(a.field_count, 5);
    assert!(is_blank_text("\u{2028}\x0B"));
}

#[test]
fn rename_annotation_text() {
    assert_eq!(rename_attribute("Z"), "#[serde(rename = \"Z\")]");
}

#[test]
fn error_messages() {
    assert_eq!(
        FauxArrayError::InvalidCountArgument("-1".to_string()).message(),
        "the faux_array attribute takes two arguments: a type, then an integer; the second argument, `-1`, is not an integer that fits in a u32"
    );
    assert_eq!(
        FauxArrayError::MissingTypeArgument.message(),
        "the faux_array attribute takes two arguments: a type, then an integer; no arguments were found"
    );
    assert_eq!(
        FauxArrayError::NotAStruct.message(),
        "the faux_array attribute can only be attached to struct definitions"
    );
    assert_eq!(
        FauxArrayError::FieldsAlreadyDeclared.message(),
        "the faux_array attribute needs a struct that declares no fields"
    );
}
