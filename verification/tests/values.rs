//! Values and the functions on them.

use std::cmp::Ordering;

use fyaml::document::{Document, InputOwnership};
use fyaml::emitter::{events_of, set_bit, set_field, EmitMode, Emitter, Toggle};
use fyaml::error::{first_error_or, Error, ParseError};
use fyaml::node::{NodeStyle, NodeType};
use fyaml::path::{parse_index, split_path};
use fyaml::set_yaml::resolve_index;
use fyaml::sort::comparator_code;
use fyaml::text::{append_decimal, display_text, emitted_text, text_of, text_of_lossy};
use fyaml::write_type::WriteType;

#[test]
fn paths_split_at_the_last_slash() {
    assert_eq!(split_path("/foo/bar"), ("/foo", "bar"));
    assert_eq!(split_path("/key"), ("", "key"));
    assert_eq!(split_path("key"), ("", "key"));
    assert_eq!(split_path("a/b/c"), ("a/b", "c"));
    assert_eq!(split_path("/a/"), ("/a", ""));
    assert_eq!(split_path("/"), ("", ""));
    assert_eq!(split_path(""), ("", ""));
    assert_eq!(split_path("/ключ/値"), ("/ключ", "値"));
    for path in ["/foo/bar", "/key", "a/b/c", "/a/", "//", "/ключ/値"] {
        let (parent, key) = split_path(path);
        assert_eq!(format!("{parent}/{key}"), path);
    }
}

#[test]
fn indices_are_read_as_integers_are() {
    for key in [
        "0", "7", "-1", "+3", "-0", "007", "2147483647", "-2147483648", "2147483648",
        "-2147483649", "99999999999999999999", "", "-", "+", "1x", "x1", " 1", "1 ", "--1", "1.0",
        "١",
    ] {
        assert_eq!(parse_index(key), key.parse::<i32>().ok(), "{key:?}");
    }
}

#[test]
fn indices_resolve_from_either_end() {
    assert_eq!(resolve_index(0, 3), Some(0));
    assert_eq!(resolve_index(2, 3), Some(2));
    assert_eq!(resolve_index(3, 3), None);
    assert_eq!(resolve_index(-1, 3), Some(2));
    assert_eq!(resolve_index(-3, 3), Some(0));
    assert_eq!(resolve_index(-4, 3), None);
    assert_eq!(resolve_index(0, 0), None);
    assert_eq!(resolve_index(0, -1), None);
    assert_eq!(resolve_index(i32::MIN, -1), None);
    assert_eq!(resolve_index(i32::MAX, i32::MAX), None);
}

#[test]
fn node_types_and_styles_follow_their_numbers() {
    assert_eq!(NodeType::from(0), NodeType::Scalar);
    assert_eq!(NodeType::from(1), NodeType::Sequence);
    assert_eq!(NodeType::from(2), NodeType::Mapping);
    assert_eq!(NodeType::from(9), NodeType::Scalar);
    for (raw, style) in [
        (-1, NodeStyle::Any),
        (0, NodeStyle::Flow),
        (1, NodeStyle::Block),
        (2, NodeStyle::Plain),
        (3, NodeStyle::SingleQuoted),
        (4, NodeStyle::DoubleQuoted),
        (5, NodeStyle::Literal),
        (6, NodeStyle::Folded),
        (7, NodeStyle::Alias),
    ] {
        assert_eq!(style.raw(), raw);
        assert_eq!(NodeStyle::from(raw), style);
    }
    assert_eq!(NodeStyle::from(42), NodeStyle::Any);
}

#[test]
fn write_types_have_names() {
    assert_eq!(WriteType::from(0).label(), "document indicator");
    assert_eq!(WriteType::from(3), WriteType::Indent);
    assert_eq!(WriteType::from(7).label(), "single-quoted scalar");
    assert_eq!(WriteType::from(13).label(), "linebreak");
    assert_eq!(WriteType::from(16), WriteType::PlainScalarKey);
    assert_eq!(WriteType::from(22).label(), "'-' indicator");
    assert_eq!(WriteType::from(30).label(), "opening '\\'' indicator");
    assert_eq!(WriteType::from(33).label(), "closing '\"' indicator");
    assert_eq!(WriteType::from(34), WriteType::IndicatorAmpersand);
    assert_eq!(WriteType::from(37), WriteType::IndicatorExplicitIndent);
    assert_eq!(WriteType::from(38), WriteType::Other(38));
    assert_eq!(WriteType::from(4_294_967_295).label(), "unknown write type (4294967295)");
    for a in 0..60u32 {
        for b in 0..60u32 {
            assert_eq!(WriteType::from(a) == WriteType::from(b), a == b);
            assert_eq!(WriteType::from(a).label() == WriteType::from(b).label(), a == b);
        }
    }
}

#[test]
fn numbers_in_decimal() {
    for n in [0u32, 9, 10, 99, 100, 4_294_967_295] {
        let mut out = String::from("<");
        append_decimal(&mut out, n);
        assert_eq!(out, format!("<{n}"));
    }
}

#[test]
fn text_needs_valid_bytes() {
    assert_eq!(text_of("naïve".as_bytes()).unwrap(), "naïve");
    assert!(matches!(text_of(&[0x66, 0xff]), Err(Error::Utf8)));
    assert_eq!(text_of_lossy("naïve".as_bytes()), "naïve");
    assert_eq!(text_of_lossy(&[0x66, 0xff, 0x6f]), "f\u{fffd}o");
    assert_eq!(emitted_text(Ok(vec![0x61, 0x62])).unwrap(), "ab");
    assert!(matches!(emitted_text(Err(Error::Utf8)), Err(Error::Utf8)));
    assert_eq!(display_text(Ok("a: 1".to_string()), "<none>"), "a: 1");
    assert_eq!(display_text(Err(Error::Utf8), "<none>"), "<none>");
}

#[test]
fn the_first_diagnostic_wins() {
    let first = ParseError { message: "bad".to_string(), line: 3, column: 7 };
    match first_error_or(Some(first), "fallback") {
        Error::ParseError(e) => {
            assert_eq!((e.message.as_str(), e.line, e.column), ("bad", 3, 7))
        }
        _ => unreachable!(),
    }
    assert!(matches!(first_error_or(None, "fallback"), Error::Parse("fallback")));
}

#[test]
fn orderings_become_comparator_codes() {
    assert_eq!(comparator_code(Ordering::Less), -1);
    assert_eq!(comparator_code(Ordering::Equal), 0);
    assert_eq!(comparator_code(Ordering::Greater), 1);
}

#[test]
fn emitter_settings_land_in_their_bits() {
    let doc = Document::from_raw_ptr(16, InputOwnership::NoInput);
    let base = doc.emitter();
    assert_eq!(base.flags, 2);
    assert_eq!(base.mode(EmitMode::JsonCompact).flags, 2 | 11 << 20);
    assert_eq!(base.mode(EmitMode::JsonCompact).mode(EmitMode::Block).flags, 2 | 1 << 20);
    assert_eq!(base.indent(4).flags, 2 | 4 << 8);
    assert_eq!(base.indent(200).flags, 2 | 9 << 8);
    assert_eq!(base.width(120).flags, 2 | 120 << 12);
    assert_eq!(base.width_infinite().flags, 2 | 255 << 12);
    assert_eq!(base.width(0).flags, 2);
    assert_eq!(base.doc_start_mark(Toggle::On).flags, 2 | 2 << 24);
    assert_eq!(base.doc_end_mark(Toggle::Off).flags, 2 | 1 << 26);
    assert_eq!(base.version_directive(Toggle::On).flags, 2 | 2 << 28);
    assert_eq!(base.tag_directive(Toggle::On).flags, 2 | 2u32 << 30);
    assert_eq!(base.tag_directive(Toggle::On).tag_directive(Toggle::Auto).flags, 2);
    assert_eq!(base.output_comments(false).flags, 0);
    let all = base
        .sort_keys(true)
        .strip_labels(true)
        .strip_tags(true)
        .strip_doc(true)
        .no_ending_newline(true)
        .strip_empty_kv(true);
    assert_eq!(all.flags, 127);
    let extended = all.indented_seq_in_map(true).preserve_flow_layout(true);
    assert_eq!(extended.flags, 127);
    assert!(extended.extended.indented_seq_in_map && extended.extended.preserve_flow_layout);
    assert_eq!(all.strip_doc(false).flags, 127 - 16);
    assert_eq!(Emitter::new(&doc).flags, base.flags);
}

#[test]
fn fields_and_bits_are_set_in_place() {
    assert_eq!(set_field(0xffff_ffff, 0, 0xf, 8), 0xffff_f0ff);
    assert_eq!(set_field(0, 0x1ff, 0xff, 12), 0xf_f000);
    assert_eq!(set_field(set_field(1, 5, 0xf, 4), 2, 0xf, 4), 0x21);
    assert_eq!(
        set_field(set_field(0, 3, 0x3, 30), 7, 0xf, 20),
        set_field(set_field(0, 7, 0xf, 20), 3, 0x3, 30)
    );
    assert_eq!(set_bit(0b1010, 0b0100, true), 0b1110);
    assert_eq!(set_bit(0b1010, 0b1000, false), 0b0010);
    assert_eq!(set_bit(set_bit(7, 0x8000_0000, true), 0x8000_0000, false), 7);
}

#[test]
fn emitter_settings_are_independent() {
    let doc = Document::from_raw_ptr(16, InputOwnership::NoInput);
    let base = doc.emitter();
    let one = base.mode(EmitMode::Flow).indent(3).width(80).doc_end_mark(Toggle::On).strip_tags(true);
    let other = base.strip_tags(true).doc_end_mark(Toggle::On).width(80).indent(3).mode(EmitMode::Flow);
    assert_eq!(one.flags, 2 | 2 << 20 | 3 << 8 | 80 << 12 | 2 << 26 | 8);
    assert_eq!(one.flags, other.flags);
    assert_eq!(one.indent(5).indent(3).flags, one.flags);
    assert_eq!(one.strip_tags(false).strip_tags(true).flags, one.flags);
    assert_eq!(one.width(0).flags, one.flags & !(80 << 12));
}

#[test]
fn pieces_become_events_in_order() {
    let pieces = vec![(16u32, b"key".to_vec()), (21, b":".to_vec()), (99, vec![0xff])];
    let events = events_of(&pieces);
    assert_eq!(events.len(), 3);
    assert_eq!(events[0].write_type, WriteType::PlainScalarKey);
    assert_eq!(events[0].content, "key");
    assert_eq!(events[1].write_type, WriteType::IndicatorColon);
    assert_eq!(events[2].write_type, WriteType::Other(99));
    assert_eq!(events[2].content, "\u{fffd}");
}
