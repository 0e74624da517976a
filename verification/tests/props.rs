use lore::props::map::Props;
use lore::props::{
    decode_blob, encode_blob, lowercase_matches, props_context, props_key, search_matches,
    validate_prop, PropsBlob, MAX_PROPS_PER_NODE, MAX_PROP_KEY_LEN, MAX_PROP_VALUE_LEN,
    PROPS_BLOB_VERSION,
};

fn props(entries: &[(&str, &str)]) -> Props {
    let mut props = Props::new();
    for (key, value) in entries {
        props.insert(key.to_string(), value.to_string());
    }
    props
}

/// The blob that bytes are, if they are one.
fn parse(bytes: &[u8]) -> Option<PropsBlob> {
    let value: serde_json::Value = serde_json::from_slice(bytes).ok()?;
    let mut props = Props::new();
    for (key, entry) in value.get("props")?.as_object()? {
        props.insert(key.clone(), entry.as_str()?.to_string());
    }
    Some(PropsBlob {
        v: u32::try_from(value.get("v")?.as_u64()?).ok()?,
        node_id: u32::try_from(value.get("node_id")?.as_u64()?).ok()?,
        props,
    })
}

#[test]
fn key_derivation_is_stable_and_distinct() {
    // The same node id always derives the same key.
    assert_eq!(props_key(7), props_key(7));
    assert_eq!(props_context(7), props_context(7));
    // Distinctness across node ids.
    assert_ne!(props_key(7), props_key(8));
    assert_ne!(props_context(7), props_context(8));
    // Never the null hash, which would delete a mutable key.
    assert!(!props_key(0).is_default());
    // The context is the first half of the key.
    assert_eq!(props_context(3).data[..], props_key(3).data[..16]);
}

#[test]
fn keys_are_hashes_of_the_prefix_and_the_node_id() {
    let mut preimage = b"lore-drive:props:v1:".to_vec();
    preimage.extend_from_slice(&0x01020304u32.to_le_bytes());
    assert_eq!(
        props_key(0x01020304).data,
        *blake3::hash(&preimage).as_bytes()
    );
}

#[test]
fn blob_roundtrip() {
    let given = props(&[("owner", "nsauzede"), ("review", "pending")]);
    let bytes = encode_blob(42, &given);
    assert_eq!(decode_blob(42, parse(&bytes)), Some(given.clone()));
    // Same map, same bytes.
    assert_eq!(bytes, encode_blob(42, &given));
}

#[test]
fn blob_provenance_is_enforced() {
    let given = props(&[("k", "v")]);
    let bytes = encode_blob(42, &given);
    // Wrong node id: treated as absent.
    assert_eq!(decode_blob(43, parse(&bytes)), None);
    // Future version: treated as absent.
    let mut blob = parse(&bytes).unwrap();
    blob.v = PROPS_BLOB_VERSION + 1;
    assert_eq!(decode_blob(42, Some(blob)), None);
    // Garbage: treated as absent.
    assert_eq!(decode_blob(42, parse(b"not json")), None);
}

#[test]
fn blobs_have_an_exact_form() {
    let bytes = encode_blob(42, &props(&[("b", "2"), ("a", "q\"\\\n")]));
    assert_eq!(
        String::from_utf8(bytes).unwrap(),
        "{\"v\":1,\"node_id\":42,\"props\":{\"a\":\"q\\\"\\\\\\n\",\"b\":\"2\"}}"
    );
    assert_eq!(
        encode_blob(u32::MAX, &Props::new()),
        b"{\"v\":1,\"node_id\":4294967295,\"props\":{}}"
    );
}

#[test]
fn equal_properties_make_equal_bytes() {
    let one = props(&[("x", "1"), ("é", "2"), ("", "3"), ("xa", "4")]);
    let two = props(&[("xa", "4"), ("", "3"), ("x", "0"), ("é", "2"), ("x", "1")]);
    assert_eq!(one, two);
    assert_eq!(encode_blob(1, &one), encode_blob(1, &two));
    let keys: Vec<&str> = one.entries().iter().map(|entry| entry.key.as_str()).collect();
    assert_eq!(keys, ["", "x", "xa", "é"]);
}

#[test]
fn properties_are_found_under_their_keys() {
    let mut given = props(&[("b", "2"), ("a", "1")]);
    assert_eq!(given.len(), 2);
    assert_eq!(given.get("a").map(String::as_str), Some("1"));
    assert!(given.contains_key("b"));
    assert!(!given.contains_key("c"));
    given.insert("b".to_string(), "3".to_string());
    assert_eq!(given.len(), 2);
    assert_eq!(given.get("b").map(String::as_str), Some("3"));
    assert_eq!(given.get("c"), None);
}

#[test]
fn a_blob_is_cloned_whole() {
    let blob = PropsBlob { v: 1, node_id: 7, props: props(&[("b", "2"), ("a", "1")]) };
    assert_eq!(blob.clone(), blob);
}

#[test]
fn validation_rules() {
    let empty = Props::new();
    assert!(validate_prop("k", "v", &empty).is_ok());
    assert!(validate_prop("", "v", &empty).is_err());
    assert!(validate_prop(&"k".repeat(MAX_PROP_KEY_LEN + 1), "v", &empty).is_err());
    assert!(validate_prop("k", &"v".repeat(MAX_PROP_VALUE_LEN + 1), &empty).is_err());
    assert!(validate_prop("k\n", "v", &empty).is_err());
    assert!(validate_prop("k", "v\t", &empty).is_err());
    // Replacing an existing key is always allowed; adding a new one past the cap is not.
    let mut full = Props::new();
    for i in 0..MAX_PROPS_PER_NODE {
        full.insert(format!("k{i}"), "v".to_owned());
    }
    assert!(validate_prop("k0", "updated", &full).is_ok());
    assert!(validate_prop("brand-new", "v", &full).is_err());
}

#[test]
fn refused_properties_are_told_why() {
    let empty = Props::new();
    let reason = |key: &str, value: &str| validate_prop(key, value, &empty).unwrap_err();
    assert_eq!(reason("", "v"), "property key must not be empty");
    assert_eq!(reason(&"é".repeat(129), "v"), "property key exceeds 256 bytes");
    assert_eq!(
        reason("k", &"v".repeat(4097)),
        "property value exceeds 4096 bytes"
    );
    assert_eq!(
        reason("k", "\u{9f}"),
        "property keys and values must not contain control characters"
    );
    assert!(validate_prop(&"é".repeat(128), "\u{a0}", &empty).is_ok());
    let mut full = Props::new();
    for i in 0..MAX_PROPS_PER_NODE {
        full.insert(format!("k{i}"), "v".to_owned());
    }
    assert_eq!(
        validate_prop("new", "v", &full).unwrap_err(),
        "a node holds at most 256 properties"
    );
}

#[test]
fn search_matching() {
    assert!(search_matches("Quarterly Report.PDF", "report"));
    assert!(search_matches("owner", "owner"));
    assert!(!search_matches("owner", "renwo"));
    // An empty query matches nothing.
    assert!(!search_matches("anything", ""));
}

#[test]
fn searching_folds_letters_outside_ascii() {
    assert!(search_matches("GRÖSSE", "größe") == "grösse".contains("größe"));
    assert!(search_matches("ÉTÉ", "été"));
    assert!(!lowercase_matches("ÉTÉ", "été"));
    assert!(lowercase_matches("abc", "bc"));
    assert!(!lowercase_matches("abc", "bcd"));
}

#[test]
fn searching_ascii_texts_ignores_case_and_what_stands_around() {
    let haystack = "Quarterly Report.PDF";
    for needle in ["report", "pdf", "", "y r", "Report"] {
        let found = search_matches(haystack, needle);
        assert_eq!(search_matches(&haystack.to_ascii_uppercase(), needle), found);
        assert_eq!(search_matches(&haystack.to_ascii_lowercase(), needle), found);
        if found {
            assert!(search_matches(&format!("Old {haystack} (2)"), needle));
        }
    }
    assert!(search_matches("STRASSE \u{c4}RGER", "\u{e4}rger"));
}
