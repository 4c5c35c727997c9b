//! Emitting a document piece by piece, with control over the format.

use vstd::prelude::*;
use vstd::utf8::{decode_utf8, valid_utf8};

use crate::call::{Call, Reply, Session, Step};
use crate::document::Document;
use crate::error::Error;
use crate::text::{lossy_text, text_of_lossy};
use crate::write_type::{write_type, WriteType};

verus! {

/// A piece of emitted output.
#[derive(Debug, Clone, PartialEq, Eq)]
pub struct EmitEvent {
    pub write_type: WriteType,
    pub content: String,
}

/// How the output is laid out.
#[derive(Debug, Clone, Copy, PartialEq, Eq, Structural)]
pub enum EmitMode {
    /// The way the input was written.
    Original,
    /// Block style.
    Block,
    /// Flow style.
    Flow,
    /// Flow style on a single line.
    FlowOneline,
    /// JSON that does not preserve types.
    Json,
    /// JSON that preserves types.
    JsonTyped,
    /// JSON on a single line.
    JsonOneline,
    /// JSON input pretty-printed as YAML.
    Dejson,
    /// Pretty YAML.
    Pretty,
    /// As the styles set on the nodes say.
    Manual,
    /// Compact flow style.
    FlowCompact,
    /// Compact JSON.
    JsonCompact,
}

/// Whether an optional marker or directive is written.
#[derive(Debug, Clone, Copy, PartialEq, Eq, Structural)]
pub enum Toggle {
    /// When it is required.
    Auto,
    /// Never.
    Off,
    /// Always.
    On,
}

impl EmitMode {
    /// The libfyaml number of this mode.
    pub open spec fn number_spec(self) -> u32 {
        match self {
            EmitMode::Original => 0,
            EmitMode::Block => 1,
            EmitMode::Flow => 2,
            EmitMode::FlowOneline => 3,
            EmitMode::Json => 4,
            EmitMode::JsonTyped => 5,
            EmitMode::JsonOneline => 6,
            EmitMode::Dejson => 7,
            EmitMode::Pretty => 8,
            EmitMode::Manual => 9,
            EmitMode::FlowCompact => 10,
            EmitMode::JsonCompact => 11,
        }
    }

    /// The libfyaml number of this mode.
    pub fn number(self) -> (r: u32)
        ensures
            r == self.number_spec(),
    {
        match self {
            EmitMode::Original => 0,
            EmitMode::Block => 1,
            EmitMode::Flow => 2,
            EmitMode::FlowOneline => 3,
            EmitMode::Json => 4,
            EmitMode::JsonTyped => 5,
            EmitMode::JsonOneline => 6,
            EmitMode::Dejson => 7,
            EmitMode::Pretty => 8,
            EmitMode::Manual => 9,
            EmitMode::FlowCompact => 10,
            EmitMode::JsonCompact => 11,
        }
    }
}

impl Toggle {
    /// The libfyaml number of this choice.
    pub open spec fn number_spec(self) -> u32 {
        match self {
            Toggle::Auto => 0,
            Toggle::Off => 1,
            Toggle::On => 2,
        }
    }

    /// The libfyaml number of this choice.
    pub fn number(self) -> (r: u32)
        ensures
            r == self.number_spec(),
    {
        match self {
            Toggle::Auto => 0,
            Toggle::Off => 1,
            Toggle::On => 2,
        }
    }
}

pub const MODE_SHIFT: u32 = 20;
pub const MODE_MASK: u32 = 0xf;
pub const INDENT_SHIFT: u32 = 8;
pub const INDENT_MASK: u32 = 0xf;
pub const WIDTH_SHIFT: u32 = 12;
pub const WIDTH_MASK: u32 = 0xff;
pub const DOC_START_MARK_SHIFT: u32 = 24;
pub const DOC_START_MARK_MASK: u32 = 0x3;
pub const DOC_END_MARK_SHIFT: u32 = 26;
pub const DOC_END_MARK_MASK: u32 = 0x3;
pub const VERSION_DIR_SHIFT: u32 = 28;
pub const VERSION_DIR_MASK: u32 = 0x3;
pub const TAG_DIR_SHIFT: u32 = 30;
pub const TAG_DIR_MASK: u32 = 0x3;

pub const FYECF_SORT_KEYS: u32 = 1;
pub const FYECF_OUTPUT_COMMENTS: u32 = 2;
pub const FYECF_STRIP_LABELS: u32 = 4;
pub const FYECF_STRIP_TAGS: u32 = 8;
pub const FYECF_STRIP_DOC: u32 = 16;
pub const FYECF_NO_ENDING_NEWLINE: u32 = 32;
pub const FYECF_STRIP_EMPTY_KV: u32 = 64;
pub const FYECF_EXTENDED_CFG: u32 = 128;

/// The flags that an emitter starts with: the original layout, with comments.
pub const DEFAULT_EMIT_FLAGS: u32 = FYECF_OUTPUT_COMMENTS;

/// The flags with `value` in the field of the width of `mask` that starts at bit `shift`.
pub open spec fn with_field(flags: u32, value: u32, mask: u32, shift: u32) -> u32 {
    (flags & !(mask << shift)) | ((value & mask) << shift)
}

/// What the field of the width of `mask` that starts at bit `shift` holds.
pub open spec fn field(flags: u32, mask: u32, shift: u32) -> u32 {
    (flags >> shift) & mask
}

/// The flags with one bit set or cleared.
pub open spec fn with_bit(flags: u32, bit: u32, on: bool) -> u32 {
    if on {
        flags | bit
    } else {
        flags & !bit
    }
}

/// Sets a field of the flags: the value is read back as far as it fits the field, and the bits around
/// it stay as they were.
pub fn set_field(flags: u32, value: u32, mask: u32, shift: u32) -> (r: u32)
    requires
        shift < 32,
    ensures
        r == with_field(flags, value, mask, shift),
        (mask << shift) >> shift == mask ==> field(r, mask, shift) == value & mask,
        r & !(mask << shift) == flags & !(mask << shift),
{
    proof {
        lemma_field_kept(flags, value, mask, shift);
        if (mask << shift) >> shift == mask {
            law_field_set(flags, value, value, mask, shift);
        }
    }
    (flags & !(mask << shift)) | ((value & mask) << shift)
}

/// Sets or clears a single bit of the flags, and leaves the others as they were.
pub fn set_bit(flags: u32, bit: u32, on: bool) -> (r: u32)
    ensures
        r == with_bit(flags, bit, on),
        r & bit == if on {
            bit
        } else {
            0
        },
        r & !bit == flags & !bit,
{
    proof {
        law_bit_set(flags, bit, on, on, bit, on);
    }
    if on {
        flags | bit
    } else {
        flags & !bit
    }
}

/// Settings of the extended configuration.
#[derive(Debug, Clone, Copy, PartialEq, Eq, Structural)]
pub struct Extended {
    /// Block sequences that are mapping values are indented.
    pub indented_seq_in_map: bool,
    /// Flow collections written on one line stay on one line.
    pub preserve_flow_layout: bool,
}

impl Extended {
    /// Whether anything is switched on.
    pub open spec fn any_spec(self) -> bool {
        self.indented_seq_in_map || self.preserve_flow_layout
    }

    /// Whether anything is switched on.
    pub fn any(self) -> (r: bool)
        ensures
            r == self.any_spec(),
    {
        self.indented_seq_in_map || self.preserve_flow_layout
    }
}

/// An emitter for a document, with its settings.
#[derive(Clone, Copy)]
pub struct Emitter<'doc> {
    pub doc: &'doc Document,
    pub flags: u32,
    pub extended: Extended,
}

/// What the flags of an emitter say.
pub struct Settings {
    pub mode: u32,
    pub indent: u32,
    pub width: u32,
    pub doc_start_mark: u32,
    pub doc_end_mark: u32,
    pub version_directive: u32,
    pub tag_directive: u32,
    pub sort_keys: bool,
    pub output_comments: bool,
    pub strip_labels: bool,
    pub strip_tags: bool,
    pub strip_doc: bool,
    pub no_ending_newline: bool,
    pub strip_empty_kv: bool,
    pub indented_seq_in_map: bool,
    pub preserve_flow_layout: bool,
}

/// What a word of flags and the extended settings say.
pub open spec fn settings(flags: u32, extended: Extended) -> Settings {
    Settings {
        mode: field(flags, 0xf, 20),
        indent: field(flags, 0xf, 8),
        width: field(flags, 0xff, 12),
        doc_start_mark: field(flags, 0x3, 24),
        doc_end_mark: field(flags, 0x3, 26),
        version_directive: field(flags, 0x3, 28),
        tag_directive: field(flags, 0x3, 30),
        sort_keys: flags & 1 != 0,
        output_comments: flags & 2 != 0,
        strip_labels: flags & 4 != 0,
        strip_tags: flags & 8 != 0,
        strip_doc: flags & 16 != 0,
        no_ending_newline: flags & 32 != 0,
        strip_empty_kv: flags & 64 != 0,
        indented_seq_in_map: extended.indented_seq_in_map,
        preserve_flow_layout: extended.preserve_flow_layout,
    }
}

/// Setting a field keeps the bits around it.
proof fn lemma_field_kept(flags: u32, value: u32, mask: u32, shift: u32)
    by (bit_vector)
    requires
        shift < 32,
    ensures
        with_field(flags, value, mask, shift) & !(mask << shift) == flags & !(mask << shift),
{
}

/// A field that was set holds what fits into it of the value, the bits around it stay as they were,
/// and only the last value counts.
pub proof fn law_field_set(flags: u32, value: u32, later: u32, mask: u32, shift: u32)
    by (bit_vector)
    requires
        shift < 32,
        (mask << shift) >> shift == mask,
    ensures
        field(with_field(flags, value, mask, shift), mask, shift) == value & mask,
        with_field(flags, value, mask, shift) & !(mask << shift) == flags & !(mask << shift),
        with_field(with_field(flags, value, mask, shift), later, mask, shift) == with_field(
            flags,
            later,
            mask,
            shift,
        ),
{
}

/// Fields that do not overlap are set independently: neither setting changes what the other field
/// holds, and their order does not matter.
pub proof fn law_fields_apart(
    flags: u32,
    value: u32,
    mask: u32,
    shift: u32,
    other_value: u32,
    other_mask: u32,
    other_shift: u32,
)
    by (bit_vector)
    requires
        shift < 32,
        other_shift < 32,
        (mask << shift) & (other_mask << other_shift) == 0,
    ensures
        field(with_field(flags, value, mask, shift), other_mask, other_shift) == field(
            flags,
            other_mask,
            other_shift,
        ),
        with_field(
            with_field(flags, value, mask, shift),
            other_value,
            other_mask,
            other_shift,
        ) == with_field(
            with_field(flags, other_value, other_mask, other_shift),
            value,
            mask,
            shift,
        ),
{
}

/// A bit that was set or cleared is as it was asked for, the others stay as they were, and only the
/// last setting counts. Settings of different bits may come in any order.
pub proof fn law_bit_set(flags: u32, bit: u32, on: bool, later: bool, other: u32, other_on: bool)
    by (bit_vector)
    ensures
        with_bit(flags, bit, on) & bit == if on {
            bit
        } else {
            0
        },
        with_bit(flags, bit, on) & !bit == flags & !bit,
        with_bit(with_bit(flags, bit, on), bit, later) == with_bit(flags, bit, later),
        bit & other == 0 ==> with_bit(with_bit(flags, bit, on), other, other_on) == with_bit(
            with_bit(flags, other, other_on),
            bit,
            on,
        ),
{
}

/// Whether `area` is the part of the flags that one setting takes up.
spec fn is_area(area: u32) -> bool {
    ||| area == 0x00f0_0000
    ||| area == 0x0000_0f00
    ||| area == 0x000f_f000
    ||| area == 0x0300_0000
    ||| area == 0x0c00_0000
    ||| area == 0x3000_0000
    ||| area == 0xc000_0000
    ||| area == 1
    ||| area == 2
    ||| area == 4
    ||| area == 8
    ||| area == 16
    ||| area == 32
    ||| area == 64
}

/// Whether two words of flags hold the same settings, save the one that takes up `area`.
spec fn only_area(before: u32, after: u32, area: u32) -> bool {
    &&& area != 0x00f0_0000 ==> field(after, 0xf, 20) == field(before, 0xf, 20)
    &&& area != 0x0000_0f00 ==> field(after, 0xf, 8) == field(before, 0xf, 8)
    &&& area != 0x000f_f000 ==> field(after, 0xff, 12) == field(before, 0xff, 12)
    &&& area != 0x0300_0000 ==> field(after, 0x3, 24) == field(before, 0x3, 24)
    &&& area != 0x0c00_0000 ==> field(after, 0x3, 26) == field(before, 0x3, 26)
    &&& area != 0x3000_0000 ==> field(after, 0x3, 28) == field(before, 0x3, 28)
    &&& area != 0xc000_0000 ==> field(after, 0x3, 30) == field(before, 0x3, 30)
    &&& area != 1 ==> after & 1 == before & 1
    &&& area != 2 ==> after & 2 == before & 2
    &&& area != 4 ==> after & 4 == before & 4
    &&& area != 8 ==> after & 8 == before & 8
    &&& area != 16 ==> after & 16 == before & 16
    &&& area != 32 ==> after & 32 == before & 32
    &&& area != 64 ==> after & 64 == before & 64
}

/// The parts that the settings take up do not overlap: where only one of them changed, the other
/// settings are as they were.
proof fn lemma_other_settings(before: u32, after: u32, area: u32)
    by (bit_vector)
    requires
        is_area(area),
        after & !area == before & !area,
    ensures
        only_area(before, after, area),
{
}

/// Where the fields are.
proof fn lemma_layout()
    by (bit_vector)
    ensures
        0xfu32 << 20u32 == 0x00f0_0000u32,
        0xfu32 << 8u32 == 0x0000_0f00u32,
        0xffu32 << 12u32 == 0x000f_f000u32,
        0x3u32 << 24u32 == 0x0300_0000u32,
        0x3u32 << 26u32 == 0x0c00_0000u32,
        0x3u32 << 28u32 == 0x3000_0000u32,
        0x3u32 << 30u32 == 0xc000_0000u32,
        (0xfu32 << 20u32) >> 20u32 == 0xfu32,
        (0xfu32 << 8u32) >> 8u32 == 0xfu32,
        (0xffu32 << 12u32) >> 12u32 == 0xffu32,
        (0x3u32 << 24u32) >> 24u32 == 0x3u32,
        (0x3u32 << 26u32) >> 26u32 == 0x3u32,
        (0x3u32 << 28u32) >> 28u32 == 0x3u32,
        (0x3u32 << 30u32) >> 30u32 == 0x3u32,
{
}

/// A value that is small enough fits into its field.
proof fn lemma_fits(value: u32)
    by (bit_vector)
    ensures
        value <= 0x3 ==> value & 0x3u32 == value,
        value <= 0xf ==> value & 0xfu32 == value,
        value <= 0xff ==> value & 0xffu32 == value,
{
}

/// Setting a field changes that setting and no other.
proof fn lemma_field(flags: u32, value: u32, mask: u32, shift: u32)
    requires
        shift < 32,
        value <= mask,
        mask == 0x3 || mask == 0xf || mask == 0xff,
        (mask << shift) >> shift == mask,
        is_area(mask << shift),
    ensures
        field(with_field(flags, value, mask, shift), mask, shift) == value,
        only_area(flags, with_field(flags, value, mask, shift), mask << shift),
{
    law_field_set(flags, value, value, mask, shift);
    lemma_fits(value);
    lemma_other_settings(flags, with_field(flags, value, mask, shift), mask << shift);
}

/// Setting a bit changes that setting and no other.
proof fn lemma_bit(flags: u32, bit: u32, on: bool)
    requires
        bit != 0,
        is_area(bit),
    ensures
        with_bit(flags, bit, on) & bit != 0 <==> on,
        only_area(flags, with_bit(flags, bit, on), bit),
{
    law_bit_set(flags, bit, on, on, bit, on);
    lemma_other_settings(flags, with_bit(flags, bit, on), bit);
}

impl<'doc> Emitter<'doc> {
    /// What the emitter is set to.
    pub open spec fn view(&self) -> Settings {
        settings(self.flags, self.extended)
    }

    /// An emitter with the default settings.
    pub fn new(doc: &'doc Document) -> (r: Self)
        ensures
            r.doc == doc,
            r.flags == DEFAULT_EMIT_FLAGS,
            !r.extended.any_spec(),
    {
        Emitter {
            doc,
            flags: DEFAULT_EMIT_FLAGS,
            extended: Extended { indented_seq_in_map: false, preserve_flow_layout: false },
        }
    }

    /// Sets the output mode.
    pub fn mode(self, mode: EmitMode) -> (r: Self)
        ensures
            r.doc == self.doc,
            r.extended == self.extended,
            r.flags == with_field(self.flags, mode.number_spec(), MODE_MASK, MODE_SHIFT),
            r@ == (Settings { mode: mode.number_spec(), ..self@ }),
    {
        let value = mode.number();
        proof {
            lemma_layout();
            lemma_field(self.flags, value, MODE_MASK, MODE_SHIFT);
        }
        Emitter { flags: set_field(self.flags, value, MODE_MASK, MODE_SHIFT), ..self }
    }

    /// Sets the indentation level; levels above nine count as nine.
    pub fn indent(self, n: u8) -> (r: Self)
        ensures
            r.doc == self.doc,
            r.extended == self.extended,
            r.flags == with_field(
                self.flags,
                if n < 9 {
                    n as u32
                } else {
                    9
                },
                INDENT_MASK,
                INDENT_SHIFT,
            ),
            r@ == (Settings {
                indent: if n < 9 {
                    n as u32
                } else {
                    9
                },
                ..self@
            }),
    {
        let value: u32 = if n < 9 {
            n as u32
        } else {
            9
        };
        proof {
            lemma_layout();
            lemma_field(self.flags, value, INDENT_MASK, INDENT_SHIFT);
        }
        Emitter { flags: set_field(self.flags, value, INDENT_MASK, INDENT_SHIFT), ..self }
    }

    /// Sets the line width.
    pub fn width(self, w: u8) -> (r: Self)
        ensures
            r.doc == self.doc,
            r.extended == self.extended,
            r.flags == with_field(self.flags, w as u32, WIDTH_MASK, WIDTH_SHIFT),
            r@ == (Settings { width: w as u32, ..self@ }),
    {
        proof {
            lemma_layout();
            lemma_field(self.flags, w as u32, WIDTH_MASK, WIDTH_SHIFT);
        }
        Emitter { flags: set_field(self.flags, w as u32, WIDTH_MASK, WIDTH_SHIFT), ..self }
    }

    /// Lifts the limit on the line width.
    pub fn width_infinite(self) -> (r: Self)
        ensures
            r.doc == self.doc,
            r.extended == self.extended,
            r.flags == with_field(self.flags, 255, WIDTH_MASK, WIDTH_SHIFT),
            r@ == (Settings { width: 255, ..self@ }),
    {
        proof {
            lemma_layout();
            lemma_field(self.flags, 255, WIDTH_MASK, WIDTH_SHIFT);
        }
        Emitter { flags: set_field(self.flags, 255, WIDTH_MASK, WIDTH_SHIFT), ..self }
    }

    /// Has mapping keys sorted.
    pub fn sort_keys(self, on: bool) -> (r: Self)
        ensures
            r.doc == self.doc,
            r.extended == self.extended,
            r.flags == with_bit(self.flags, FYECF_SORT_KEYS, on),
            r@ == (Settings { sort_keys: on, ..self@ }),
    {
        proof {
            lemma_bit(self.flags, FYECF_SORT_KEYS, on);
        }
        Emitter { flags: set_bit(self.flags, FYECF_SORT_KEYS, on), ..self }
    }

    /// Has comments written.
    pub fn output_comments(self, on: bool) -> (r: Self)
        ensures
            r.doc == self.doc,
            r.extended == self.extended,
            r.flags == with_bit(self.flags, FYECF_OUTPUT_COMMENTS, on),
            r@ == (Settings { output_comments: on, ..self@ }),
    {
        proof {
            lemma_bit(self.flags, FYECF_OUTPUT_COMMENTS, on);
        }
        Emitter { flags: set_bit(self.flags, FYECF_OUTPUT_COMMENTS, on), ..self }
    }

    /// Has anchors left out.
    pub fn strip_labels(self, on: bool) -> (r: Self)
        ensures
            r.doc == self.doc,
            r.extended == self.extended,
            r.flags == with_bit(self.flags, FYECF_STRIP_LABELS, on),
            r@ == (Settings { strip_labels: on, ..self@ }),
    {
        proof {
            lemma_bit(self.flags, FYECF_STRIP_LABELS, on);
        }
        Emitter { flags: set_bit(self.flags, FYECF_STRIP_LABELS, on), ..self }
    }

    /// Has tags left out.
    pub fn strip_tags(self, on: bool) -> (r: Self)
        ensures
            r.doc == self.doc,
            r.extended == self.extended,
            r.flags == with_bit(self.flags, FYECF_STRIP_TAGS, on),
            r@ == (Settings { strip_tags: on, ..self@ }),
    {
        proof {
            lemma_bit(self.flags, FYECF_STRIP_TAGS, on);
        }
        Emitter { flags: set_bit(self.flags, FYECF_STRIP_TAGS, on), ..self }
    }

    /// Has document markers and directives left out.
    pub fn strip_doc(self, on: bool) -> (r: Self)
        ensures
            r.doc == self.doc,
            r.extended == self.extended,
            r.flags == with_bit(self.flags, FYECF_STRIP_DOC, on),
            r@ == (Settings { strip_doc: on, ..self@ }),
    {
        proof {
            lemma_bit(self.flags, FYECF_STRIP_DOC, on);
        }
        Emitter { flags: set_bit(self.flags, FYECF_STRIP_DOC, on), ..self }
    }

    /// Has the newline at the end left out.
    pub fn no_ending_newline(self, on: bool) -> (r: Self)
        ensures
            r.doc == self.doc,
            r.extended == self.extended,
            r.flags == with_bit(self.flags, FYECF_NO_ENDING_NEWLINE, on),
            r@ == (Settings { no_ending_newline: on, ..self@ }),
    {
        proof {
            lemma_bit(self.flags, FYECF_NO_ENDING_NEWLINE, on);
        }
        Emitter { flags: set_bit(self.flags, FYECF_NO_ENDING_NEWLINE, on), ..self }
    }

    /// Has pairs with an empty value left out.
    pub fn strip_empty_kv(self, on: bool) -> (r: Self)
        ensures
            r.doc == self.doc,
            r.extended == self.extended,
            r.flags == with_bit(self.flags, FYECF_STRIP_EMPTY_KV, on),
            r@ == (Settings { strip_empty_kv: on, ..self@ }),
    {
        proof {
            lemma_bit(self.flags, FYECF_STRIP_EMPTY_KV, on);
        }
        Emitter { flags: set_bit(self.flags, FYECF_STRIP_EMPTY_KV, on), ..self }
    }

    /// Has block sequences that are mapping values indented.
    pub fn indented_seq_in_map(self, on: bool) -> (r: Self)
        ensures
            r.doc == self.doc,
            r.flags == self.flags,
            r@ == (Settings { indented_seq_in_map: on, ..self@ }),
    {
        Emitter { extended: Extended { indented_seq_in_map: on, ..self.extended }, ..self }
    }

    /// Has flow collections that were written on one line kept there.
    pub fn preserve_flow_layout(self, on: bool) -> (r: Self)
        ensures
            r.doc == self.doc,
            r.flags == self.flags,
            r@ == (Settings { preserve_flow_layout: on, ..self@ }),
    {
        Emitter { extended: Extended { preserve_flow_layout: on, ..self.extended }, ..self }
    }

    /// Whether the document start marker is written.
    pub fn doc_start_mark(self, toggle: Toggle) -> (r: Self)
        ensures
            r.doc == self.doc,
            r.extended == self.extended,
            r.flags == with_field(self.flags, toggle.number_spec(), DOC_START_MARK_MASK, DOC_START_MARK_SHIFT),
            r@ == (Settings { doc_start_mark: toggle.number_spec(), ..self@ }),
    {
        let value = toggle.number();
        proof {
            lemma_layout();
            lemma_field(self.flags, value, DOC_START_MARK_MASK, DOC_START_MARK_SHIFT);
        }
        Emitter { flags: set_field(self.flags, value, DOC_START_MARK_MASK, DOC_START_MARK_SHIFT), ..self }
    }

    /// Whether the document end marker is written.
    pub fn doc_end_mark(self, toggle: Toggle) -> (r: Self)
        ensures
            r.doc == self.doc,
            r.extended == self.extended,
            r.flags == with_field(self.flags, toggle.number_spec(), DOC_END_MARK_MASK, DOC_END_MARK_SHIFT),
            r@ == (Settings { doc_end_mark: toggle.number_spec(), ..self@ }),
    {
        let value = toggle.number();
        proof {
            lemma_layout();
            lemma_field(self.flags, value, DOC_END_MARK_MASK, DOC_END_MARK_SHIFT);
        }
        Emitter { flags: set_field(self.flags, value, DOC_END_MARK_MASK, DOC_END_MARK_SHIFT), ..self }
    }

    /// Whether the version directive is written.
    pub fn version_directive(self, toggle: Toggle) -> (r: Self)
        ensures
            r.doc == self.doc,
            r.extended == self.extended,
            r.flags == with_field(self.flags, toggle.number_spec(), VERSION_DIR_MASK, VERSION_DIR_SHIFT),
            r@ == (Settings { version_directive: toggle.number_spec(), ..self@ }),
    {
        let value = toggle.number();
        proof {
            lemma_layout();
            lemma_field(self.flags, value, VERSION_DIR_MASK, VERSION_DIR_SHIFT);
        }
        Emitter { flags: set_field(self.flags, value, VERSION_DIR_MASK, VERSION_DIR_SHIFT), ..self }
    }

    /// Whether tag directives are written.
    pub fn tag_directive(self, toggle: Toggle) -> (r: Self)
        ensures
            r.doc == self.doc,
            r.extended == self.extended,
            r.flags == with_field(self.flags, toggle.number_spec(), TAG_DIR_MASK, TAG_DIR_SHIFT),
            r@ == (Settings { tag_directive: toggle.number_spec(), ..self@ }),
    {
        let value = toggle.number();
        proof {
            lemma_layout();
            lemma_field(self.flags, value, TAG_DIR_MASK, TAG_DIR_SHIFT);
        }
        Emitter { flags: set_field(self.flags, value, TAG_DIR_MASK, TAG_DIR_SHIFT), ..self }
    }

    /// The first call of an emission: the extended configuration is used only when something in
    /// it is switched on.
    pub open spec fn emission<'a>(self) -> Step<'a, EmitEvents, Result<Vec<(u32, Vec<u8>)>, Error>> {
        Step::Ask(
            EmitEvents::Creating { doc: self.doc.ptr },
            if self.extended.any_spec() {
                Call::EmitterCreate {
                    flags: self.flags | FYECF_EXTENDED_CFG,
                    extended: Some(self.extended),
                }
            } else {
                Call::EmitterCreate { flags: self.flags, extended: None }
            },
        )
    }

    /// Emits the document piece by piece; [`events_of`] turns the pieces into events.
    pub fn emit_events<'a>(&self) -> (r: Step<'a, EmitEvents, Result<Vec<(u32, Vec<u8>)>, Error>>)
        ensures
            r == self.emission(),
    {
        let state = EmitEvents::Creating { doc: self.doc.ptr };
        if self.extended.any() {
            Step::Ask(
                state,
                Call::EmitterCreate {
                    flags: self.flags | FYECF_EXTENDED_CFG,
                    extended: Some(self.extended),
                },
            )
        } else {
            Step::Ask(state, Call::EmitterCreate { flags: self.flags, extended: None })
        }
    }
}

/// An emission. The emitter is destroyed however the emission went.
pub enum EmitEvents {
    Creating { doc: usize },
    Emitting { emitter: usize },
    Destroying { outcome: Result<Vec<(u32, Vec<u8>)>, Error> },
}

impl<'a> Session<'a> for EmitEvents {
    type Output = Result<Vec<(u32, Vec<u8>)>, Error>;

    open spec fn resumed(self, reply: Reply) -> Step<'a, Self, Self::Output> {
        match self {
            EmitEvents::Creating { doc } => {
                let emitter = reply.pointer_spec();
                if emitter == 0 {
                    Step::Done(Err(Error::Ffi("fy_emitter_create returned null")))
                } else {
                    Step::Ask(
                        EmitEvents::Emitting { emitter },
                        Call::EmitDocument { emitter, doc },
                    )
                }
            },
            EmitEvents::Emitting { emitter } => Step::Ask(
                EmitEvents::Destroying {
                    outcome: match reply.emitted_spec() {
                        Some(pieces) => Ok(pieces),
                        None => Err(Error::Ffi("fy_emit_document failed")),
                    },
                },
                Call::EmitterDestroy { emitter },
            ),
            EmitEvents::Destroying { outcome } => Step::Done(outcome),
        }
    }

    fn resume(self, reply: Reply) -> (next: Step<'a, Self, Self::Output>) {
        match self {
            EmitEvents::Creating { doc } => {
                let emitter = reply.pointer();
                if emitter == 0 {
                    Step::Done(Err(Error::Ffi("fy_emitter_create returned null")))
                } else {
                    Step::Ask(
                        EmitEvents::Emitting { emitter },
                        Call::EmitDocument { emitter, doc },
                    )
                }
            },
            EmitEvents::Emitting { emitter } => {
                let outcome = match reply.emitted() {
                    Some(pieces) => Ok(pieces),
                    None => Err(Error::Ffi("fy_emit_document failed")),
                };
                Step::Ask(EmitEvents::Destroying { outcome }, Call::EmitterDestroy { emitter })
            },
            EmitEvents::Destroying { outcome } => Step::Done(outcome),
        }
    }
}

/// Whether `event` stands for the piece that was written as `(raw, content)`.
pub open spec fn is_event_of(piece: (u32, Vec<u8>), event: EmitEvent) -> bool {
    &&& event.write_type == write_type(piece.0)
    &&& event.content@ == lossy_text(piece.1@)
    &&& valid_utf8(piece.1@) ==> event.content@ == decode_utf8(piece.1@)
}

/// Whether events stand for pieces, one for each and in the same order.
pub open spec fn are_events_of(pieces: Seq<(u32, Vec<u8>)>, events: Seq<EmitEvent>) -> bool {
    &&& events.len() == pieces.len()
    &&& forall|i: int| 0 <= i < pieces.len() ==> is_event_of(pieces[i], #[trigger] events[i])
}

/// Turns the pieces of an emission into events, one for each and in the same order.
pub fn events_of(pieces: &Vec<(u32, Vec<u8>)>) -> (events: Vec<EmitEvent>)
    ensures
        are_events_of(pieces@, events@),
{
    let mut events: Vec<EmitEvent> = Vec::new();
    let mut i: usize = 0;
    while i < pieces.len()
        invariant
            i <= pieces@.len(),
            events@.len() == i,
            forall|j: int| 0 <= j < i ==> is_event_of(pieces@[j], #[trigger] events@[j]),
        decreases pieces@.len() - i,
    {
        let piece = &pieces[i];
        let event = EmitEvent {
            write_type: WriteType::from(piece.0),
            content: text_of_lossy(piece.1.as_slice()),
        };
        events.push(event);
        i += 1;
    }
    events
}

/// A new emitter lays the document out as it was written, comments and all, with every marker and
/// directive left to libfyaml.
pub proof fn law_default_settings()
    ensures
        settings(DEFAULT_EMIT_FLAGS, Extended { indented_seq_in_map: false, preserve_flow_layout: false })
            == (Settings {
            mode: EmitMode::Original.number_spec(),
            indent: 0,
            width: 0,
            doc_start_mark: Toggle::Auto.number_spec(),
            doc_end_mark: Toggle::Auto.number_spec(),
            version_directive: Toggle::Auto.number_spec(),
            tag_directive: Toggle::Auto.number_spec(),
            sort_keys: false,
            output_comments: true,
            strip_labels: false,
            strip_tags: false,
            strip_doc: false,
            no_ending_newline: false,
            strip_empty_kv: false,
            indented_seq_in_map: false,
            preserve_flow_layout: false,
        }),
{
    let flags = DEFAULT_EMIT_FLAGS;
    assert({
        &&& (2u32 >> 20u32) & 0xfu32 == 0
        &&& (2u32 >> 8u32) & 0xfu32 == 0
        &&& (2u32 >> 12u32) & 0xffu32 == 0
        &&& (2u32 >> 24u32) & 0x3u32 == 0
        &&& (2u32 >> 26u32) & 0x3u32 == 0
        &&& (2u32 >> 28u32) & 0x3u32 == 0
        &&& (2u32 >> 30u32) & 0x3u32 == 0
        &&& 2u32 & 1u32 == 0
        &&& 2u32 & 2u32 != 0
        &&& 2u32 & 4u32 == 0
        &&& 2u32 & 8u32 == 0
        &&& 2u32 & 16u32 == 0
        &&& 2u32 & 32u32 == 0
        &&& 2u32 & 64u32 == 0
    }) by (bit_vector);
}

} // verus!
