use lore::command::{get_lore_command_impl, CommandInput, CommandVariant};
use lore::profile::{profile_dir, profile_name, PathPart};
use lore::text::{
    ascii_lowercase, characters, contains_text, decimal, decimal_signed, has_line, join_texts,
    parse_number, same_text, stands_at, starts_with, text_of, trim,
};
use lore::types::{hex, Address, BranchId, ContentHash, Context, RepositoryId};

#[test]
fn numbers_are_written_and_read_in_decimal() {
    for value in [0, 7, 10, 99, 100, 1234567890, u64::MAX] {
        assert_eq!(decimal(value), value.to_string());
        assert_eq!(parse_number(&decimal(value)), Some(value));
    }
    for value in [0, -1, 12, i32::MIN, i32::MAX] {
        assert_eq!(decimal_signed(value), value.to_string());
    }
    let long = "9".repeat(40);
    for text in ["", "+", "++1", "-0", "1 ", "0x1", "1_0", "18446744073709551616", &long] {
        assert_eq!(parse_number(text), text.parse::<u64>().ok(), "{text}");
        assert_eq!(parse_number(text), None, "{text}");
    }
    assert_eq!(parse_number("+18446744073709551615"), Some(u64::MAX));
    assert_eq!(parse_number("000"), Some(0));
}

#[test]
fn texts_are_taken_apart_and_joined() {
    let list = characters("aé\u{1f600}b");
    assert_eq!(list, ['a', 'é', '\u{1f600}', 'b']);
    assert_eq!(text_of(&list, 1, 3), "é\u{1f600}");
    assert_eq!(text_of(&list, 2, 2), "");
    let joined = |list: &[&str]| {
        join_texts(&list.iter().map(|text| text.to_string()).collect(), "; ")
    };
    assert_eq!(joined(&[]), "");
    assert_eq!(joined(&["a"]), "a");
    assert_eq!(joined(&["a", "", "b"]), "a; ; b");
}

#[test]
fn texts_are_searched() {
    assert!(contains_text("abc", ""));
    assert!(contains_text("", ""));
    assert!(contains_text("aab", "ab"));
    assert!(!contains_text("ab", "abc"));
    assert!(!contains_text("abab", "ba "));
    assert!(starts_with("abc", "ab") && !starts_with("cab", "ab"));
    assert!(same_text("é", "é") && !same_text("a", "ab") && !same_text("a", "b"));
    assert!(stands_at(&['a', 'b'], &['b'], 1) && !stands_at(&['a', 'b'], &['b'], 2));
}

#[test]
fn lines_are_found_whole() {
    for (text, found) in [
        ("x", true),
        ("x\n", true),
        ("a\nx\r\nb", true),
        ("a\r\nx", true),
        ("a\nx\r", false),
        ("a\nx b", false),
        ("ax", false),
        ("", false),
    ] {
        assert_eq!(has_line(text, "x"), found, "{text:?}");
        assert_eq!(text.lines().any(|line| line == "x"), found, "{text:?}");
    }
}

#[test]
fn white_space_is_trimmed_at_both_ends() {
    for text in ["", " ", "a", " a b\t\n", "\u{a0}\u{2003}é\u{3000}", "\u{200b}a"] {
        assert_eq!(trim(text), text.trim(), "{text:?}");
    }
}

#[test]
fn white_space_is_what_the_property_says() {
    for character in '\0'..=char::MAX {
        let white = matches!(
            character,
            '\t'..='\r' | ' ' | '\u{85}' | '\u{a0}' | '\u{1680}' | '\u{2000}'..='\u{200a}'
                | '\u{2028}' | '\u{2029}' | '\u{202f}' | '\u{205f}' | '\u{3000}'
        );
        assert_eq!(trim(character.encode_utf8(&mut [0; 4])).is_empty(), white, "{character:?}");
    }
}

#[test]
fn only_ascii_capitals_are_lowered() {
    assert_eq!(ascii_lowercase("AbZ[@éÉ"), "abz[@éÉ");
}

#[test]
fn identities_are_written_in_hexadecimal() {
    assert_eq!(hex(&[0, 0x0f, 0xa0, 0xff]), "000fa0ff");
    assert_eq!(hex(&[]), "");
    let address = Address {
        hash: ContentHash { data: [0x12; 32] },
        context: Context { data: [0xfe; 16] },
    };
    assert_eq!(
        address.to_text(),
        format!("{}-{}", "12".repeat(32), "fe".repeat(16))
    );
    assert_eq!(RepositoryId { data: [1; 16] }.to_text(), "01".repeat(16));
    assert_eq!(BranchId { data: [2; 16] }.to_text(), "02".repeat(16));
    assert!(ContentHash::default().is_default());
    let mut almost = ContentHash::default();
    almost.data[31] = 1;
    assert!(!almost.is_default());
    assert_ne!(almost, ContentHash::default());
    assert_eq!(Address::default().hash, ContentHash::default());
    assert_eq!(Address::default().context, Context::default());
    assert_eq!(RepositoryId::default().data, [0; 16]);
    assert_eq!(BranchId::default().data, [0; 16]);
}

fn variant(ident: &str, args_type: Option<&str>) -> CommandVariant {
    CommandVariant {
        ident: ident.to_string(),
        args_type: args_type.map(str::to_string),
    }
}

#[test]
fn commands_are_run_and_converted_to() {
    let input = CommandInput {
        name: "LoreCommand".to_string(),
        variants: Some(vec![
            variant("Add", Some("AddArgs")),
            variant("Log", Some("args::Log<'static>")),
        ]),
    };
    assert_eq!(
        get_lore_command_impl(&input).unwrap(),
        "impl LoreCommand { pub async fn invoke_local(self, \
         globals: crate::interface::LoreGlobalArgs, \
         callback: crate::interface::LoreEventCallback) -> i32 { match self {\n\
         LoreCommand::Add(args) => { crate::args::invoke_args(args, globals, callback).await }\n\
         LoreCommand::Log(args) => { crate::args::invoke_args(args, globals, callback).await }\n\
         } } }\n\
         impl From<AddArgs> for LoreCommand { fn from(args: AddArgs) -> Self \
         { LoreCommand::Add(args) } }\n\
         impl From<args::Log<'static>> for LoreCommand { fn from(args: args::Log<'static>) -> Self \
         { LoreCommand::Log(args) } }\n"
    );
    let items = syn::parse_file(&get_lore_command_impl(&input).unwrap()).unwrap().items;
    assert_eq!(items.len(), 3);
}

#[test]
fn only_enums_with_one_arguments_type_each_are_commands() {
    let input = CommandInput { name: "X".to_string(), variants: None };
    assert_eq!(
        get_lore_command_impl(&input).unwrap_err(),
        "LoreCommand should only be used on the LoreCommand enum"
    );
    let input = CommandInput {
        name: "X".to_string(),
        variants: Some(vec![
            variant("A", Some("a")),
            variant("B", None),
            variant("C", None),
        ]),
    };
    assert_eq!(
        get_lore_command_impl(&input).unwrap_err(),
        "LoreCommand variant B must hold exactly one arguments type"
    );
}

fn parts(path: &str) -> Vec<PathPart> {
    path.split('/')
        .map(|part| match part {
            "" | ".." => PathPart::Other,
            name => PathPart::Name(name.to_string()),
        })
        .collect()
}

#[test]
fn a_profile_is_named_by_its_directory() {
    let path = parts("/w/build/release/build/lore-1/out");
    assert_eq!(profile_dir(&path), Some(4));
    assert_eq!(profile_name(&path).as_deref(), Some("release"));
    for (path, count) in [
        ("/w/target/out", None),
        ("/w/build/../out", None),
        ("/build/x", Some(1)),
        ("build/x", Some(0)),
        ("../build", Some(1)),
    ] {
        assert_eq!(profile_dir(&parts(path)), count, "{path}");
        assert_eq!(profile_name(&parts(path)), None, "{path}");
    }
    assert_eq!(profile_dir(&vec![]), None);
}
