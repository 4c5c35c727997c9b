//! The numbers and names that libfyaml and C go by.

use std::cmp::Ordering;

use vstd::prelude::*;

use crate::call::{Call, Reply, Step};
use crate::document::Document;
use crate::emitter::{
    set_bit, set_field, settings, with_bit, with_field, EmitEvents, EmitMode, Emitter, Extended,
    Settings, Toggle,
};
use crate::error::{first_error_or, Error, ParseError};
use crate::handle::RawNodeHandle;
use crate::node::{NodeStyle, NodeType};
use crate::sort::comparator_code;
use crate::text::decimal;
use crate::write_type::{write_type, WriteType};

verus! {

/// Each write type is the one that its libfyaml number names, and a number above the last one is kept.
pub proof fn law_write_type_numbers(raw: u32)
    ensures
        match write_type(raw) {
            WriteType::DocumentIndicator => raw == 0,
            WriteType::TagDirective => raw == 1,
            WriteType::VersionDirective => raw == 2,
            WriteType::Indent => raw == 3,
            WriteType::Indicator => raw == 4,
            WriteType::Whitespace => raw == 5,
            WriteType::PlainScalar => raw == 6,
            WriteType::SingleQuotedScalar => raw == 7,
            WriteType::DoubleQuotedScalar => raw == 8,
            WriteType::LiteralScalar => raw == 9,
            WriteType::FoldedScalar => raw == 10,
            WriteType::Anchor => raw == 11,
            WriteType::Tag => raw == 12,
            WriteType::Linebreak => raw == 13,
            WriteType::Alias => raw == 14,
            WriteType::TerminatingZero => raw == 15,
            WriteType::PlainScalarKey => raw == 16,
            WriteType::SingleQuotedScalarKey => raw == 17,
            WriteType::DoubleQuotedScalarKey => raw == 18,
            WriteType::Comment => raw == 19,
            WriteType::IndicatorQuestionMark => raw == 20,
            WriteType::IndicatorColon => raw == 21,
            WriteType::IndicatorDash => raw == 22,
            WriteType::IndicatorLeftBracket => raw == 23,
            WriteType::IndicatorRightBracket => raw == 24,
            WriteType::IndicatorLeftBrace => raw == 25,
            WriteType::IndicatorRightBrace => raw == 26,
            WriteType::IndicatorComma => raw == 27,
            WriteType::IndicatorBar => raw == 28,
            WriteType::IndicatorGreater => raw == 29,
            WriteType::IndicatorSingleQuoteStart => raw == 30,
            WriteType::IndicatorSingleQuoteEnd => raw == 31,
            WriteType::IndicatorDoubleQuoteStart => raw == 32,
            WriteType::IndicatorDoubleQuoteEnd => raw == 33,
            WriteType::IndicatorAmpersand => raw == 34,
            WriteType::IndicatorStar => raw == 35,
            WriteType::IndicatorChomp => raw == 36,
            WriteType::IndicatorExplicitIndent => raw == 37,
            WriteType::Other(n) => n == raw && raw > 37,
        },
{
}

/// The conversion goes by the numbers that [`law_write_type_numbers`] lists.
pub proof fn law_write_type_from(raw: u32, r: WriteType)
    requires
        call_ensures(<WriteType as From<u32>>::from, (raw,), r),
    ensures
        r == write_type(raw),
{
}

/// Each write type is called by its name, and an unknown one by its number.
pub proof fn law_write_type_labels(w: WriteType, r: String)
    requires
        call_ensures(WriteType::label, (w,), r),
    ensures
        r@ == match w {
            WriteType::DocumentIndicator => "document indicator"@,
            WriteType::TagDirective => "tag directive"@,
            WriteType::VersionDirective => "version directive"@,
            WriteType::Indent => "indent"@,
            WriteType::Indicator => "indicator"@,
            WriteType::Whitespace => "whitespace"@,
            WriteType::PlainScalar => "plain scalar"@,
            WriteType::SingleQuotedScalar => "single-quoted scalar"@,
            WriteType::DoubleQuotedScalar => "double-quoted scalar"@,
            WriteType::LiteralScalar => "literal scalar"@,
            WriteType::FoldedScalar => "folded scalar"@,
            WriteType::Anchor => "anchor"@,
            WriteType::Tag => "tag"@,
            WriteType::Linebreak => "linebreak"@,
            WriteType::Alias => "alias"@,
            WriteType::TerminatingZero => "terminating zero"@,
            WriteType::PlainScalarKey => "plain scalar key"@,
            WriteType::SingleQuotedScalarKey => "single-quoted scalar key"@,
            WriteType::DoubleQuotedScalarKey => "double-quoted scalar key"@,
            WriteType::Comment => "comment"@,
            WriteType::IndicatorQuestionMark => "'?' indicator"@,
            WriteType::IndicatorColon => "':' indicator"@,
            WriteType::IndicatorDash => "'-' indicator"@,
            WriteType::IndicatorLeftBracket => "'[' indicator"@,
            WriteType::IndicatorRightBracket => "']' indicator"@,
            WriteType::IndicatorLeftBrace => "'{' indicator"@,
            WriteType::IndicatorRightBrace => "'}' indicator"@,
            WriteType::IndicatorComma => "',' indicator"@,
            WriteType::IndicatorBar => "'|' indicator"@,
            WriteType::IndicatorGreater => "'>' indicator"@,
            WriteType::IndicatorSingleQuoteStart => "opening '\\'' indicator"@,
            WriteType::IndicatorSingleQuoteEnd => "closing '\\'' indicator"@,
            WriteType::IndicatorDoubleQuoteStart => "opening '\"' indicator"@,
            WriteType::IndicatorDoubleQuoteEnd => "closing '\"' indicator"@,
            WriteType::IndicatorAmpersand => "'&' indicator"@,
            WriteType::IndicatorStar => "'*' indicator"@,
            WriteType::IndicatorChomp => "chomp indicator"@,
            WriteType::IndicatorExplicitIndent => "explicit indent indicator"@,
            WriteType::Other(n) => "unknown write type ("@ + decimal(n as nat) + ")"@,
        },
{
}

/// The types of nodes go by their libfyaml numbers, and what has no type of its own counts as a scalar.
pub proof fn law_node_type_numbers(raw: u32, r: NodeType)
    requires
        call_ensures(<NodeType as From<u32>>::from, (raw,), r),
    ensures
        r is Sequence <==> raw == 1,
        r is Mapping <==> raw == 2,
        r is Scalar <==> raw != 1 && raw != 2,
{
}

/// The styles of nodes go by their libfyaml numbers; any other number leaves the style open.
pub proof fn law_node_style_numbers(raw: i32, r: NodeStyle)
    requires
        call_ensures(<NodeStyle as From<i32>>::from, (raw,), r),
    ensures
        match r {
            NodeStyle::Any => raw < 0 || raw > 7,
            NodeStyle::Flow => raw == 0,
            NodeStyle::Block => raw == 1,
            NodeStyle::Plain => raw == 2,
            NodeStyle::SingleQuoted => raw == 3,
            NodeStyle::DoubleQuoted => raw == 4,
            NodeStyle::Literal => raw == 5,
            NodeStyle::Folded => raw == 6,
            NodeStyle::Alias => raw == 7,
        },
{
}

/// A style is handed to libfyaml by its number.
pub proof fn law_style_raw(style: NodeStyle, r: i32)
    requires
        call_ensures(NodeStyle::raw, (style,), r),
    ensures
        r == match style {
            NodeStyle::Any => -1i32,
            NodeStyle::Flow => 0,
            NodeStyle::Block => 1,
            NodeStyle::Plain => 2,
            NodeStyle::SingleQuoted => 3,
            NodeStyle::DoubleQuoted => 4,
            NodeStyle::Literal => 5,
            NodeStyle::Folded => 6,
            NodeStyle::Alias => 7,
        },
{
}

/// A comparator reports less by minus one, equal by zero and greater by one.
pub proof fn law_comparator_signs(order: Ordering, r: i32)
    requires
        call_ensures(comparator_code, (order,), r),
    ensures
        r == -1 <==> order is Less,
        r == 0 <==> order is Equal,
        r == 1 <==> order is Greater,
{
}

/// What stands at a place in a word of flags: `at` is the lowest bit of the place, as a power of two,
/// and `size` how many values fit there.
pub open spec fn slot(flags: u32, at: u32, size: u32) -> u32 {
    (flags / at) % size
}

proof fn lemma_slots(flags: u32)
    by (bit_vector)
    ensures
        (flags >> 20u32) & 0xfu32 == (flags / 0x10_0000u32) % 16u32,
        (flags >> 8u32) & 0xfu32 == (flags / 0x100u32) % 16u32,
        (flags >> 12u32) & 0xffu32 == (flags / 0x1000u32) % 256u32,
        (flags >> 24u32) & 0x3u32 == (flags / 0x100_0000u32) % 4u32,
        (flags >> 26u32) & 0x3u32 == (flags / 0x400_0000u32) % 4u32,
        (flags >> 28u32) & 0x3u32 == (flags / 0x1000_0000u32) % 4u32,
        (flags >> 30u32) & 0x3u32 == (flags / 0x4000_0000u32) % 4u32,
        flags & 1u32 != 0 <==> (flags / 1u32) % 2u32 == 1,
        flags & 2u32 != 0 <==> (flags / 2u32) % 2u32 == 1,
        flags & 4u32 != 0 <==> (flags / 4u32) % 2u32 == 1,
        flags & 8u32 != 0 <==> (flags / 8u32) % 2u32 == 1,
        flags & 16u32 != 0 <==> (flags / 16u32) % 2u32 == 1,
        flags & 32u32 != 0 <==> (flags / 32u32) % 2u32 == 1,
        flags & 64u32 != 0 <==> (flags / 64u32) % 2u32 == 1,
{
}

/// Where the settings of an emitter stand in its flags.
pub proof fn law_settings_layout(flags: u32, extended: Extended)
    ensures
        settings(flags, extended) == (Settings {
            mode: slot(flags, 0x10_0000, 16),
            indent: slot(flags, 0x100, 16),
            width: slot(flags, 0x1000, 256),
            doc_start_mark: slot(flags, 0x100_0000, 4),
            doc_end_mark: slot(flags, 0x400_0000, 4),
            version_directive: slot(flags, 0x1000_0000, 4),
            tag_directive: slot(flags, 0x4000_0000, 4),
            sort_keys: slot(flags, 1, 2) == 1,
            output_comments: slot(flags, 2, 2) == 1,
            strip_labels: slot(flags, 4, 2) == 1,
            strip_tags: slot(flags, 8, 2) == 1,
            strip_doc: slot(flags, 16, 2) == 1,
            no_ending_newline: slot(flags, 32, 2) == 1,
            strip_empty_kv: slot(flags, 64, 2) == 1,
            indented_seq_in_map: extended.indented_seq_in_map,
            preserve_flow_layout: extended.preserve_flow_layout,
        }),
{
    lemma_slots(flags);
}

/// Whether `r` is an emitter for the same document as `e`, set to `s` and not marked otherwise.
pub open spec fn set_to(e: Emitter, r: Emitter, s: Settings) -> bool {
    r.doc == e.doc && r@ == s && slot(r.flags, 128, 2) == slot(e.flags, 128, 2)
}

proof fn lemma_mark_kept(flags: u32, value: u32, on: bool)
    by (bit_vector)
    ensures
        (with_field(flags, value, 0xf, 20) / 128u32) % 2u32 == (flags / 128u32) % 2u32,
        (with_field(flags, value, 0xf, 8) / 128u32) % 2u32 == (flags / 128u32) % 2u32,
        (with_field(flags, value, 0xff, 12) / 128u32) % 2u32 == (flags / 128u32) % 2u32,
        (with_field(flags, value, 0x3, 24) / 128u32) % 2u32 == (flags / 128u32) % 2u32,
        (with_field(flags, value, 0x3, 26) / 128u32) % 2u32 == (flags / 128u32) % 2u32,
        (with_field(flags, value, 0x3, 28) / 128u32) % 2u32 == (flags / 128u32) % 2u32,
        (with_field(flags, value, 0x3, 30) / 128u32) % 2u32 == (flags / 128u32) % 2u32,
        (with_bit(flags, 1, on) / 128u32) % 2u32 == (flags / 128u32) % 2u32,
        (with_bit(flags, 2, on) / 128u32) % 2u32 == (flags / 128u32) % 2u32,
        (with_bit(flags, 4, on) / 128u32) % 2u32 == (flags / 128u32) % 2u32,
        (with_bit(flags, 8, on) / 128u32) % 2u32 == (flags / 128u32) % 2u32,
        (with_bit(flags, 16, on) / 128u32) % 2u32 == (flags / 128u32) % 2u32,
        (with_bit(flags, 32, on) / 128u32) % 2u32 == (flags / 128u32) % 2u32,
        (with_bit(flags, 64, on) / 128u32) % 2u32 == (flags / 128u32) % 2u32,
{
}

/// The mode that a builder sets is the one that libfyaml gives that number.
pub proof fn law_emitter_mode<'doc>(e: Emitter<'doc>, mode: EmitMode, r: Emitter<'doc>)
    requires
        call_ensures(Emitter::<'doc>::mode, (e, mode), r),
    ensures
        set_to(
            e,
            r,
            Settings {
                mode: match mode {
                    EmitMode::Original => 0,
                    EmitMode::Block => 1,
                    EmitMode::Flow => 2,
                    EmitMode::FlowOneline => 3,
                    EmitMode::Json => 4,
                    EmitMode::JsonTyped => 5,
                    EmitMode::JsonOneline => 6,
                    EmitMode::Dejson => 7,
                    EmitMode::Pretty => 8,
                    EmitMode::Manual => 9,
                    EmitMode::FlowCompact => 10,
                    EmitMode::JsonCompact => 11,
                },
                ..e@
            },
        ),
        slot(r.flags, 0x10_0000, 16) == r@.mode,
{
    lemma_mark_kept(e.flags, r@.mode, true);
    lemma_slots(r.flags);
}

/// The numbers of modes and choices, as they are asked for.
pub proof fn law_mode_numbers(mode: EmitMode, r: u32, toggle: Toggle, t: u32)
    requires
        call_ensures(EmitMode::number, (mode,), r),
        call_ensures(Toggle::number, (toggle,), t),
    ensures
        match mode {
            EmitMode::Original => r == 0,
            EmitMode::Block => r == 1,
            EmitMode::Flow => r == 2,
            EmitMode::FlowOneline => r == 3,
            EmitMode::Json => r == 4,
            EmitMode::JsonTyped => r == 5,
            EmitMode::JsonOneline => r == 6,
            EmitMode::Dejson => r == 7,
            EmitMode::Pretty => r == 8,
            EmitMode::Manual => r == 9,
            EmitMode::FlowCompact => r == 10,
            EmitMode::JsonCompact => r == 11,
        },
        match toggle {
            Toggle::Auto => t == 0,
            Toggle::Off => t == 1,
            Toggle::On => t == 2,
        },
{
}

/// The indentation that a builder sets is the level it is given, nine at most.
pub proof fn law_emitter_indent<'doc>(e: Emitter<'doc>, n: u8, r: Emitter<'doc>)
    requires
        call_ensures(Emitter::<'doc>::indent, (e, n), r),
    ensures
        n <= 9 ==> set_to(e, r, Settings { indent: n as u32, ..e@ }),
        n > 9 ==> set_to(e, r, Settings { indent: 9, ..e@ }),
{
    lemma_mark_kept(e.flags, r@.indent, true);
}

/// The width that a builder sets is the one it is given; the largest stands for no limit.
pub proof fn law_emitter_width<'doc>(e: Emitter<'doc>, w: u8, r: Emitter<'doc>, free: Emitter<'doc>)
    requires
        call_ensures(Emitter::<'doc>::width, (e, w), r),
        call_ensures(Emitter::<'doc>::width_infinite, (e,), free),
    ensures
        set_to(e, r, Settings { width: w as u32, ..e@ }),
        set_to(e, free, Settings { width: 255, ..e@ }),
{
    lemma_mark_kept(e.flags, w as u32, true);
    lemma_mark_kept(e.flags, 255, true);
}

/// Sorted keys: the builder switches that setting as it is told, and no other.
pub proof fn law_emitter_sort_keys<'doc>(e: Emitter<'doc>, on: bool, r: Emitter<'doc>)
    requires
        call_ensures(Emitter::<'doc>::sort_keys, (e, on), r),
    ensures
        set_to(e, r, Settings { sort_keys: on, ..e@ }),
{
    lemma_mark_kept(e.flags, 0, on);
}

/// Comments: the builder switches that setting as it is told, and no other.
pub proof fn law_emitter_output_comments<'doc>(e: Emitter<'doc>, on: bool, r: Emitter<'doc>)
    requires
        call_ensures(Emitter::<'doc>::output_comments, (e, on), r),
    ensures
        set_to(e, r, Settings { output_comments: on, ..e@ }),
{
    lemma_mark_kept(e.flags, 0, on);
}

/// Anchors left out: the builder switches that setting as it is told, and no other.
pub proof fn law_emitter_strip_labels<'doc>(e: Emitter<'doc>, on: bool, r: Emitter<'doc>)
    requires
        call_ensures(Emitter::<'doc>::strip_labels, (e, on), r),
    ensures
        set_to(e, r, Settings { strip_labels: on, ..e@ }),
{
    lemma_mark_kept(e.flags, 0, on);
}

/// Tags left out: the builder switches that setting as it is told, and no other.
pub proof fn law_emitter_strip_tags<'doc>(e: Emitter<'doc>, on: bool, r: Emitter<'doc>)
    requires
        call_ensures(Emitter::<'doc>::strip_tags, (e, on), r),
    ensures
        set_to(e, r, Settings { strip_tags: on, ..e@ }),
{
    lemma_mark_kept(e.flags, 0, on);
}

/// Document markers left out: the builder switches that setting as it is told, and no other.
pub proof fn law_emitter_strip_doc<'doc>(e: Emitter<'doc>, on: bool, r: Emitter<'doc>)
    requires
        call_ensures(Emitter::<'doc>::strip_doc, (e, on), r),
    ensures
        set_to(e, r, Settings { strip_doc: on, ..e@ }),
{
    lemma_mark_kept(e.flags, 0, on);
}

/// No newline at the end: the builder switches that setting as it is told, and no other.
pub proof fn law_emitter_no_ending_newline<'doc>(e: Emitter<'doc>, on: bool, r: Emitter<'doc>)
    requires
        call_ensures(Emitter::<'doc>::no_ending_newline, (e, on), r),
    ensures
        set_to(e, r, Settings { no_ending_newline: on, ..e@ }),
{
    lemma_mark_kept(e.flags, 0, on);
}

/// Pairs with an empty value left out: the builder switches that setting as it is told, and no other.
pub proof fn law_emitter_strip_empty_kv<'doc>(e: Emitter<'doc>, on: bool, r: Emitter<'doc>)
    requires
        call_ensures(Emitter::<'doc>::strip_empty_kv, (e, on), r),
    ensures
        set_to(e, r, Settings { strip_empty_kv: on, ..e@ }),
{
    lemma_mark_kept(e.flags, 0, on);
}

/// Indented sequences: the builder switches that setting as it is told, and no other.
pub proof fn law_emitter_indented_seq_in_map<'doc>(e: Emitter<'doc>, on: bool, r: Emitter<'doc>)
    requires
        call_ensures(Emitter::<'doc>::indented_seq_in_map, (e, on), r),
    ensures
        set_to(e, r, Settings { indented_seq_in_map: on, ..e@ }),
{
    lemma_mark_kept(e.flags, 0, on);
}

/// Kept flow layouts: the builder switches that setting as it is told, and no other.
pub proof fn law_emitter_preserve_flow_layout<'doc>(e: Emitter<'doc>, on: bool, r: Emitter<'doc>)
    requires
        call_ensures(Emitter::<'doc>::preserve_flow_layout, (e, on), r),
    ensures
        set_to(e, r, Settings { preserve_flow_layout: on, ..e@ }),
{
    lemma_mark_kept(e.flags, 0, on);
}

/// The document start marker: left to libfyaml, never or always, by the number of the choice.
pub proof fn law_emitter_doc_start_mark<'doc>(e: Emitter<'doc>, toggle: Toggle, r: Emitter<'doc>)
    requires
        call_ensures(Emitter::<'doc>::doc_start_mark, (e, toggle), r),
    ensures
        toggle is Auto ==> set_to(e, r, Settings { doc_start_mark: 0, ..e@ }),
        toggle is Off ==> set_to(e, r, Settings { doc_start_mark: 1, ..e@ }),
        toggle is On ==> set_to(e, r, Settings { doc_start_mark: 2, ..e@ }),
{
    lemma_mark_kept(e.flags, r@.doc_start_mark, true);
}

/// The document end marker: left to libfyaml, never or always, by the number of the choice.
pub proof fn law_emitter_doc_end_mark<'doc>(e: Emitter<'doc>, toggle: Toggle, r: Emitter<'doc>)
    requires
        call_ensures(Emitter::<'doc>::doc_end_mark, (e, toggle), r),
    ensures
        toggle is Auto ==> set_to(e, r, Settings { doc_end_mark: 0, ..e@ }),
        toggle is Off ==> set_to(e, r, Settings { doc_end_mark: 1, ..e@ }),
        toggle is On ==> set_to(e, r, Settings { doc_end_mark: 2, ..e@ }),
{
    lemma_mark_kept(e.flags, r@.doc_end_mark, true);
}

/// The version directive: left to libfyaml, never or always, by the number of the choice.
pub proof fn law_emitter_version_directive<'doc>(e: Emitter<'doc>, toggle: Toggle, r: Emitter<'doc>)
    requires
        call_ensures(Emitter::<'doc>::version_directive, (e, toggle), r),
    ensures
        toggle is Auto ==> set_to(e, r, Settings { version_directive: 0, ..e@ }),
        toggle is Off ==> set_to(e, r, Settings { version_directive: 1, ..e@ }),
        toggle is On ==> set_to(e, r, Settings { version_directive: 2, ..e@ }),
{
    lemma_mark_kept(e.flags, r@.version_directive, true);
}

/// Tag directives: left to libfyaml, never or always, by the number of the choice.
pub proof fn law_emitter_tag_directive<'doc>(e: Emitter<'doc>, toggle: Toggle, r: Emitter<'doc>)
    requires
        call_ensures(Emitter::<'doc>::tag_directive, (e, toggle), r),
    ensures
        toggle is Auto ==> set_to(e, r, Settings { tag_directive: 0, ..e@ }),
        toggle is Off ==> set_to(e, r, Settings { tag_directive: 1, ..e@ }),
        toggle is On ==> set_to(e, r, Settings { tag_directive: 2, ..e@ }),
{
    lemma_mark_kept(e.flags, r@.tag_directive, true);
}

/// A new emitter writes comments, and has no other setting.
pub proof fn law_new_emitter<'doc>(doc: &'doc Document, r: Emitter<'doc>, q: Emitter<'doc>)
    requires
        call_ensures(Emitter::<'doc>::new, (doc,), r),
        call_ensures(Document::emitter, (doc,), q),
    ensures
        r.doc == doc && q.doc == doc,
        r.flags == 2 && q.flags == 2,
        !r@.indented_seq_in_map && !r@.preserve_flow_layout,
        !q@.indented_seq_in_map && !q@.preserve_flow_layout,
{
}

proof fn lemma_marked(flags: u32)
    by (bit_vector)
    ensures
        (flags / 128u32) % 2u32 == 0 ==> (flags | 128u32) == flags + 128u32,
        (flags / 128u32) % 2u32 == 1 ==> (flags | 128u32) == flags,
        (flags / 128u32) % 2u32 == 0 ==> flags <= 0xffff_ff7fu32,
        (flags / 128u32) % 2u32 == 0 || (flags / 128u32) % 2u32 == 1,
{
}

/// An emission is asked for with the flags of the emitter. If an extended setting is on, both extended
/// settings go along, and the flags are marked to say so; otherwise neither.
pub proof fn law_emission_settings<'a, 'doc>(
    e: Emitter<'doc>,
    step: Step<'a, EmitEvents, Result<Vec<(u32, Vec<u8>)>, Error>>,
)
    requires
        call_ensures(Emitter::<'doc>::emit_events, (&e,), step),
    ensures
        step matches Step::Ask(EmitEvents::Creating { doc }, Call::EmitterCreate { flags, extended })
            && {
            &&& doc == e.doc.ptr
            &&& !e.extended.indented_seq_in_map && !e.extended.preserve_flow_layout ==> extended
                is None && flags == e.flags
            &&& e.extended.indented_seq_in_map || e.extended.preserve_flow_layout ==> extended
                == Some(e.extended) && flags == e.flags + (if slot(e.flags, 128, 2) == 0 {
                128int
            } else {
                0int
            })
        },
{
    lemma_marked(e.flags);
}

/// A field that was set holds the value, and the bits around it stay as they were.
pub proof fn law_set_field(flags: u32, value: u32, mask: u32, shift: u32, r: u32)
    requires
        shift < 32,
        call_ensures(set_field, (flags, value, mask, shift), r),
    ensures
        (mask << shift) >> shift == mask ==> (r >> shift) & mask == value & mask,
        r & !(mask << shift) == flags & !(mask << shift),
{
}

/// A bit that was set is on or off as it was asked for, and the others stay as they were.
pub proof fn law_set_bit(flags: u32, bit: u32, on: bool, r: u32)
    requires
        call_ensures(set_bit, (flags, bit, on), r),
    ensures
        on ==> r & bit == bit,
        !on ==> r & bit == 0,
        r & !bit == flags & !bit,
{
}

/// A reply is taken as what the call returned; one that holds nothing of the kind counts as null, as a
/// failure or as nothing.
pub proof fn law_reply_pointer(reply: Reply, p: usize)
    requires
        call_ensures(Reply::pointer, (&reply,), p),
    ensures
        reply matches Reply::Pointer(q) ==> p == q,
        !(reply is Pointer) ==> p == 0,
{
}

/// The `int` that a call returned is taken as it is.
pub proof fn law_reply_status(reply: Reply, s: i32)
    requires
        call_ensures(Reply::status, (&reply,), s),
    ensures
        reply matches Reply::Status(t) ==> s == t,
        !(reply is Status) ==> s == -1,
{
}

/// The type number that a call returned is taken as it is.
pub proof fn law_reply_word(reply: Reply, w: u32)
    requires
        call_ensures(Reply::word, (&reply,), w),
    ensures
        reply matches Reply::Word(v) ==> w == v,
        !(reply is Word) ==> w == 0,
{
}

/// The boolean that a call returned is taken as it is.
pub proof fn law_reply_flag(reply: Reply, b: bool)
    requires
        call_ensures(Reply::flag, (&reply,), b),
    ensures
        reply matches Reply::Flag(c) ==> b == c,
        !(reply is Flag) ==> !b,
{
}

/// The error that a collector recorded is taken as it is.
pub proof fn law_reply_first(reply: Reply, e: Option<ParseError>)
    requires
        call_ensures(Reply::first, (reply,), e),
    ensures
        reply matches Reply::First(f) ==> e == f,
        !(reply is First) ==> e is None,
{
}

/// The bytes of a C string are taken as they are.
pub proof fn law_reply_text(reply: Reply, t: Option<Vec<u8>>)
    requires
        call_ensures(Reply::text, (reply,), t),
    ensures
        reply matches Reply::Text(u) ==> t == u,
        !(reply is Text) ==> t is None,
{
}

/// The pieces of an emission count exactly when it succeeded.
pub proof fn law_reply_emitted(reply: Reply, r: Option<Vec<(u32, Vec<u8>)>>)
    requires
        call_ensures(Reply::emitted, (reply,), r),
    ensures
        r is Some <==> (reply matches Reply::Emitted { status, .. } && status == 0),
        r matches Some(pieces) ==> reply->pieces == pieces,
{
}

/// The place and number of bytes are taken as they are.
pub proof fn law_reply_slice(reply: Reply, r: (usize, usize))
    requires
        call_ensures(Reply::slice, (&reply,), r),
    ensures
        reply matches Reply::Slice { address, len } ==> r == (address, len),
        !(reply is Slice) ==> r == (0usize, 0usize),
{
}

/// A buffer is there exactly when the address is not null; a call that could not be made says why.
pub proof fn law_reply_buffer(reply: Reply, r: Result<usize, Error>)
    requires
        call_ensures(Reply::buffer, (reply,), r),
    ensures
        r is Ok <==> (reply matches Reply::Pointer(p) && p != 0),
        r matches Ok(p) ==> reply == Reply::Pointer(p),
        reply matches Reply::Fault(e) ==> r == Err::<usize, Error>(e),
        !(reply is Fault) ==> (r matches Err(e) ==> e == Error::Ffi("malloc failed")),
{
}

/// A parse that failed is reported by the first diagnostic, with its place; without one, by the
/// message.
pub proof fn law_first_error(first: Option<ParseError>, fallback: &'static str, e: Error)
    requires
        call_ensures(first_error_or, (first, fallback), e),
    ensures
        first matches Some(d) ==> e == Error::ParseError(d),
        first is None ==> e == Error::Parse(fallback),
{
}

/// A handle is made of any address but null, and starts out detached; null is an error.
pub proof fn law_handle_made(node: usize, err: &'static str, r: Result<RawNodeHandle, Error>)
    requires
        call_ensures(RawNodeHandle::try_from_ptr, (node, err), r),
    ensures
        r is Ok <==> node != 0,
        r matches Ok(h) ==> h.node == node && !h.inserted,
        r matches Err(e) ==> e == Error::Ffi(err),
{
}

/// A handle that is given up has its node freed, exactly when the tree does not own it.
pub proof fn law_handle_released<'a>(handle: RawNodeHandle, r: Option<Call<'a>>)
    requires
        call_ensures(RawNodeHandle::release, (&handle,), r),
    ensures
        handle.inserted ==> r is None,
        !handle.inserted ==> r == Some(Call::NodeFree { node: handle.node }),
{
}

/// Once the tree owns the node, a handle says so.
pub proof fn law_handle_inserted(handle: &mut RawNodeHandle)
    requires
        call_ensures(RawNodeHandle::mark_inserted, (handle,), ()),
    ensures
        final(handle).node == old(handle).node,
        final(handle).inserted,
{
}

} // verus!
