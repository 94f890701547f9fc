use il2cpp_dump::error::{Error, IoError};
use il2cpp_dump::io::{checked_array_len, BinaryStream};
use il2cpp_dump::names::{NameMap, NameSet, NameStyle, Sanitizer};
use il2cpp_dump::numeral::{
    dec_int_string, dec_string, hex_lower_string, hex_padded_string, hex_string, numeral_string,
};
use il2cpp_dump::sorted::in_order;
use il2cpp_dump::text::{
    before_char, contains_text, ends_with_text, from_chars, insert_in_order, join, less_text,
    replace_char, replace_text, same_text, split_char, split_lines, starts_with_text, to_chars,
    trim, trim_end_of, trim_start,
};
use std::collections::BTreeSet;

const HINT: &str = "Common causes: encrypted/obfuscated global-metadata.dat, truncated extract, \
or wrong Unity layout. Valid files start with magic AF 1B B1 FA. Protected games often need a \
runtime memory dump of decrypted metadata before dumping.";

fn stream(bytes: Vec<u8>, is_32bit: bool) -> BinaryStream {
    BinaryStream { bytes, version: 2450, is_32bit, image_base: 0, max_array_elems: 1000 }
}

#[test]
fn numerals_in_every_base() {
    assert_eq!(dec_string(0), "0");
    assert_eq!(dec_string(u64::MAX), format!("{}", u64::MAX));
    assert_eq!(dec_int_string(-42), "-42");
    assert_eq!(dec_int_string(i64::MIN), format!("{}", i64::MIN));
    assert_eq!(hex_string(0xDEADBEEF), "DEADBEEF");
    assert_eq!(hex_string(0), "0");
    assert_eq!(hex_lower_string(0xDEADBEEF), "deadbeef");
    assert_eq!(hex_padded_string(0x1F, 4), "001F");
    assert_eq!(hex_padded_string(0x12345, 4), "12345");
    assert_eq!(numeral_string(35, 36, true), "Z");
    assert_eq!(numeral_string(36, 36, true), "10");
}

#[test]
fn texts_are_taken_apart_and_put_together() {
    assert_eq!(from_chars(&to_chars("aéb"), 1, 3), "éb");
    assert!(same_text("a", "a") && !same_text("a", "b"));
    assert!(contains_text("abcabd", "abd") && contains_text("x", "") && !contains_text("ab", "abc"));
    assert!(starts_with_text("il2cpp_init", "il2cpp_") && !starts_with_text("il", "il2"));
    assert!(ends_with_text("x_array", "_array") && !ends_with_text("array", "_array"));
    assert_eq!(before_char("List`1", '`'), "List");
    assert_eq!(before_char("Plain", '`'), "Plain");
    assert_eq!(split_char("a..b", '.'), vec!["a", "", "b"]);
    assert_eq!(split_char("", '.'), vec![""]);
    assert_eq!(split_lines("a\r\nb\n\nc"), "a\r\nb\n\nc".lines().collect::<Vec<_>>());
    assert_eq!(split_lines("a\n"), vec!["a"]);
    assert_eq!(join(&vec!["a".to_string(), "b".to_string()], ", "), "a, b");
    assert_eq!(trim_start("  \tx "), "x ");
    assert_eq!(trim(" \t x y \n"), "x y");
    assert_eq!(trim_end_of("Game.dll.dll", ".dll"), "Game");
    assert_eq!(replace_char("a.b.c", '.', '/'), "a/b/c");
    assert_eq!(replace_text("aXbXc", "X", "--"), "a--b--c");
    assert_eq!(replace_text("aaa", "aa", "b"), "ba");
    assert!(less_text("Apple", "apple") && less_text("a", "ab") && !less_text("b", "a"));
}

#[test]
fn an_ordered_list_holds_each_text_once() {
    let mut list: Vec<String> = Vec::new();
    for name in ["pear", "apple", "pear", "fig"] {
        insert_in_order(&mut list, name.to_string());
    }
    assert_eq!(list, vec!["apple", "fig", "pear"]);
}

#[test]
fn a_sorted_set_is_listed_in_order() {
    let set: BTreeSet<u64> = [9, 1, 4].into_iter().collect();
    assert_eq!(in_order(&set), vec![1, 4, 9]);
}

#[test]
fn names_keep_their_order_and_their_last_value() {
    let mut map: NameMap<u64> = NameMap::new();
    map.insert("b".to_string(), 1);
    map.insert("a".to_string(), 2);
    map.insert("b".to_string(), 3);
    assert_eq!(map.len(), 2);
    assert_eq!((map.key_at(0), *map.value_at(0)), ("b", 3));
    assert_eq!((map.key_at(1), *map.value_at(1)), ("a", 2));
    assert_eq!(map.get("b"), Some(&3));
    assert_eq!(map.get("c"), None);
    assert!(map.contains_key("a"));
    let mut set = NameSet::new();
    assert!(set.insert("x".to_string()));
    assert!(!set.insert("x".to_string()));
    assert!(set.contains("x") && !set.contains("y"));
    assert_eq!(set.bound(), 1);
}

#[test]
fn a_sanitizer_is_asked_for_its_style() {
    let sanitizer = Sanitizer::new(|name: &str, style: NameStyle| match style {
        NameStyle::Cpp => name.replace('.', "_"),
        NameStyle::CppDollar => name.replace('.', "$"),
        NameStyle::Mangled => name.replace('.', ""),
    });
    assert_eq!(sanitizer.fix_name("a.b"), "a_b");
    assert_eq!(sanitizer.fix_name_scaffold("a.b"), "a$b");
    assert_eq!(sanitizer.spell("a.b", NameStyle::Mangled), "ab");
}

#[test]
fn error_texts() {
    assert_eq!(Error::InvalidMetadata("x".into()).to_string(), "Invalid metadata file: x");
    assert_eq!(Error::UnsupportedVersion(-3).to_string(), "Unsupported metadata version: -3");
    assert_eq!(Error::AddressNotMapped(0xAB).to_string(), "Address 0xab not in any segment");
    assert_eq!(Error::InvalidFormat("x".into()).to_string(), "Invalid binary format: x");
    assert_eq!(
        Error::OutOfBounds { offset: 0x1F, size: 8 }.to_string(),
        "Read out of bounds: offset 0x1f, size 8 (truncated file, bad offsets, or encrypted/corrupted data)"
    );
    assert_eq!(
        Error::InvalidArraySize { count: 7, elem_size: 4, context: "t".into() }.to_string(),
        "Invalid array size: count=7, element_size=4 (t)"
    );
    let io = Error::Io(IoError { unexpected_eof: false, message: "denied".into() });
    assert_eq!(io.to_string(), "IO error: denied");
    assert_eq!(Error::CyclicDependency("A".into()).to_string(), "Cyclic value-type dependency: A");
    assert_eq!(Error::Other("plain".into()).to_string(), "plain");
}

#[test]
fn user_messages() {
    assert_eq!(Error::InvalidMetadata("x".into()).user_message(), "Metadata error: x");
    assert_eq!(
        Error::UnsupportedVersion(99).user_message(),
        "Metadata error: unsupported metadata version 99. Update the dumper or check for a corrupted/encrypted file."
    );
    assert_eq!(
        Error::OutOfBounds { offset: 0x1F, size: 8 }.user_message(),
        "Metadata error: read past end of file (offset 0x1F, size 8). File may be truncated or encrypted."
    );
    assert_eq!(
        Error::InvalidArraySize { count: 7, elem_size: 4, context: "t".into() }.user_message(),
        "Metadata error: invalid table size (t). File may be encrypted or corrupted."
    );
    let ended = Error::Io(IoError { unexpected_eof: true, message: "x".into() });
    assert_eq!(
        ended.user_message(),
        "Metadata error: unexpected end of file while reading metadata (often encrypted, truncated, or wrong file)."
    );
    assert_eq!(Error::InvalidFormat("x".into()).user_message(), "Invalid binary format: x");
}

#[test]
fn read_failures_become_errors_of_the_metadata() {
    let e = Error::OutOfBounds { offset: 0x1F, size: 8 }.with_metadata_context(100);
    assert_eq!(
        e.to_string(),
        format!(
            "Invalid metadata file: Read past end of metadata while parsing tables (offset 0x1F, need 8 bytes, file size 100). {HINT}"
        )
    );
    let e = Error::Io(IoError { unexpected_eof: false, message: "failed to fill whole buffer".into() });
    assert_eq!(
        e.with_metadata_context(7).to_string(),
        format!(
            "Invalid metadata file: Unexpected end of metadata file while parsing tables (file size 7). {HINT}"
        )
    );
    let e = Error::InvalidArraySize { count: 7, elem_size: 4, context: "t".into() };
    assert_eq!(
        e.with_metadata_context(9).to_string(),
        format!(
            "Invalid metadata file: Implausible metadata table size in 't' (count=7, element_size=4, file size 9). Header fields look corrupted — often encryption or a truncated file. {HINT}"
        )
    );
}

#[test]
fn other_errors_keep_their_form_in_the_context_of_the_metadata() {
    let e = Error::Io(IoError { unexpected_eof: false, message: "denied".into() });
    assert_eq!(e.with_metadata_context(7).to_string(), "IO error: denied");
    let once = Error::OutOfBounds { offset: 1, size: 2 }.with_metadata_context(3).to_string();
    let twice = Error::OutOfBounds { offset: 1, size: 2 }
        .with_metadata_context(3)
        .with_metadata_context(4)
        .to_string();
    assert_eq!(once, twice);
}

#[test]
fn words_are_read_little_endian() {
    let s = stream(vec![1, 2, 3, 4, 5, 6, 7, 0x88, 0xFF, 0xFF, 0xFF, 0xFF], false);
    assert_eq!(s.peek_u32_at(0).ok(), Some(0x04030201));
    assert_eq!(s.peek_u64_at(0).ok(), Some(0x8807060504030201));
    assert_eq!(s.peek_i32_at(8).ok(), Some(-1));
    assert_eq!(s.peek_ptr_at(0).ok(), Some(0x8807060504030201));
    assert_eq!(s.pointer_size(), 8);
    assert_eq!((s.len(), s.remaining_from(10), s.remaining_from(99)), (12, 2, 0));
    let narrow = stream(s.bytes, true);
    assert_eq!(narrow.peek_ptr_at(4).ok(), Some(0x88070605));
    assert_eq!(narrow.pointer_size(), 4);
}

#[test]
fn reading_past_the_end_is_out_of_bounds() {
    let s = stream(vec![1, 2, 3], false);
    assert_eq!(
        s.peek_u32_at(0).map_err(|e| e.to_string()),
        Err(Error::OutOfBounds { offset: 0, size: 4 }.to_string())
    );
    assert!(s.peek_u64_at(u64::MAX).is_err());
}

#[test]
fn arrays_must_be_plausible() {
    assert_eq!(checked_array_len(4, 8, 32, "t", 10).ok(), Some(4));
    for (count, left, limit) in [(5, 32, 10), (4, 32, 3), (u64::MAX, u64::MAX, 10)] {
        assert!(matches!(
            checked_array_len(count, 8, left, "t", limit),
            Err(Error::InvalidArraySize { elem_size: 8, .. })
        ));
    }
    let s = stream(vec![1, 0, 0, 0, 2, 0, 0, 0, 3], true);
    assert_eq!(s.read_ptr_array(0, 2, "t").ok(), Some(vec![1, 2]));
    assert!(s.read_ptr_array(4, 2, "t").is_err());
}
