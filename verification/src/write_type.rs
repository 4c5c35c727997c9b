//! What a piece of emitted output is.

use vstd::prelude::*;

use crate::text::{append_decimal, decimal, law_decimal_value};

verus! {

pub const FYEWT_DOCUMENT_INDICATOR: u32 = 0;
pub const FYEWT_TAG_DIRECTIVE: u32 = 1;
pub const FYEWT_VERSION_DIRECTIVE: u32 = 2;
pub const FYEWT_INDENT: u32 = 3;
pub const FYEWT_INDICATOR: u32 = 4;
pub const FYEWT_WHITESPACE: u32 = 5;
pub const FYEWT_PLAIN_SCALAR: u32 = 6;
pub const FYEWT_SINGLE_QUOTED_SCALAR: u32 = 7;
pub const FYEWT_DOUBLE_QUOTED_SCALAR: u32 = 8;
pub const FYEWT_LITERAL_SCALAR: u32 = 9;
pub const FYEWT_FOLDED_SCALAR: u32 = 10;
pub const FYEWT_ANCHOR: u32 = 11;
pub const FYEWT_TAG: u32 = 12;
pub const FYEWT_LINEBREAK: u32 = 13;
pub const FYEWT_ALIAS: u32 = 14;
pub const FYEWT_TERMINATING_ZERO: u32 = 15;
pub const FYEWT_PLAIN_SCALAR_KEY: u32 = 16;
pub const FYEWT_SINGLE_QUOTED_SCALAR_KEY: u32 = 17;
pub const FYEWT_DOUBLE_QUOTED_SCALAR_KEY: u32 = 18;
pub const FYEWT_COMMENT: u32 = 19;
pub const FYEWT_INDICATOR_QUESTION_MARK: u32 = 20;
pub const FYEWT_INDICATOR_COLON: u32 = 21;
pub const FYEWT_INDICATOR_DASH: u32 = 22;
pub const FYEWT_INDICATOR_LEFT_BRACKET: u32 = 23;
pub const FYEWT_INDICATOR_RIGHT_BRACKET: u32 = 24;
pub const FYEWT_INDICATOR_LEFT_BRACE: u32 = 25;
pub const FYEWT_INDICATOR_RIGHT_BRACE: u32 = 26;
pub const FYEWT_INDICATOR_COMMA: u32 = 27;
pub const FYEWT_INDICATOR_BAR: u32 = 28;
pub const FYEWT_INDICATOR_GREATER: u32 = 29;
pub const FYEWT_INDICATOR_SINGLE_QUOTE_START: u32 = 30;
pub const FYEWT_INDICATOR_SINGLE_QUOTE_END: u32 = 31;
pub const FYEWT_INDICATOR_DOUBLE_QUOTE_START: u32 = 32;
pub const FYEWT_INDICATOR_DOUBLE_QUOTE_END: u32 = 33;
pub const FYEWT_INDICATOR_AMPERSAND: u32 = 34;
pub const FYEWT_INDICATOR_STAR: u32 = 35;
pub const FYEWT_INDICATOR_CHOMP: u32 = 36;
pub const FYEWT_INDICATOR_EXPLICIT_INDENT: u32 = 37;

/// What a piece of emitted output is. A number that stands for nothing known is kept as it is.
#[derive(Debug, Clone, Copy, PartialEq, Eq, Structural)]
pub enum WriteType {
    /// A document indicator (`---` or `...`).
    DocumentIndicator,
    /// A `%TAG` directive.
    TagDirective,
    /// A `%YAML` version directive.
    VersionDirective,
    /// Indentation whitespace.
    Indent,
    /// A generic indicator character.
    Indicator,
    /// Whitespace other than indentation.
    Whitespace,
    /// A plain scalar value.
    PlainScalar,
    /// A single-quoted scalar value.
    SingleQuotedScalar,
    /// A double-quoted scalar value.
    DoubleQuotedScalar,
    /// Content of a literal block scalar.
    LiteralScalar,
    /// Content of a folded block scalar.
    FoldedScalar,
    /// An anchor.
    Anchor,
    /// A tag.
    Tag,
    /// A newline.
    Linebreak,
    /// An alias.
    Alias,
    /// A terminating null byte.
    TerminatingZero,
    /// A plain scalar used as a mapping key.
    PlainScalarKey,
    /// A single-quoted scalar used as a mapping key.
    SingleQuotedScalarKey,
    /// A double-quoted scalar used as a mapping key.
    DoubleQuotedScalarKey,
    /// A comment.
    Comment,
    /// The `?` of an explicit mapping key.
    IndicatorQuestionMark,
    /// The `:` before a mapping value.
    IndicatorColon,
    /// The `-` of a sequence item.
    IndicatorDash,
    /// The `[` that opens a flow sequence.
    IndicatorLeftBracket,
    /// The `]` that closes a flow sequence.
    IndicatorRightBracket,
    /// The `{` that opens a flow mapping.
    IndicatorLeftBrace,
    /// The `}` that closes a flow mapping.
    IndicatorRightBrace,
    /// The `,` between flow items.
    IndicatorComma,
    /// The `|` of a literal block scalar.
    IndicatorBar,
    /// The `>` of a folded block scalar.
    IndicatorGreater,
    /// The opening `'` of a single-quoted scalar.
    IndicatorSingleQuoteStart,
    /// The closing `'` of a single-quoted scalar.
    IndicatorSingleQuoteEnd,
    /// The opening `"` of a double-quoted scalar.
    IndicatorDoubleQuoteStart,
    /// The closing `"` of a double-quoted scalar.
    IndicatorDoubleQuoteEnd,
    /// The `&` before an anchor.
    IndicatorAmpersand,
    /// The `*` before an alias.
    IndicatorStar,
    /// The chomp indicator of a block scalar.
    IndicatorChomp,
    /// The indentation indicator of a block scalar.
    IndicatorExplicitIndent,
    /// Anything else.
    Other(u32),
}

/// The write type that a libfyaml number stands for.
pub open spec fn write_type(raw: u32) -> WriteType {
    if raw == FYEWT_DOCUMENT_INDICATOR {
        WriteType::DocumentIndicator
    } else if raw == FYEWT_TAG_DIRECTIVE {
        WriteType::TagDirective
    } else if raw == FYEWT_VERSION_DIRECTIVE {
        WriteType::VersionDirective
    } else if raw == FYEWT_INDENT {
        WriteType::Indent
    } else if raw == FYEWT_INDICATOR {
        WriteType::Indicator
    } else if raw == FYEWT_WHITESPACE {
        WriteType::Whitespace
    } else if raw == FYEWT_PLAIN_SCALAR {
        WriteType::PlainScalar
    } else if raw == FYEWT_SINGLE_QUOTED_SCALAR {
        WriteType::SingleQuotedScalar
    } else if raw == FYEWT_DOUBLE_QUOTED_SCALAR {
        WriteType::DoubleQuotedScalar
    } else if raw == FYEWT_LITERAL_SCALAR {
        WriteType::LiteralScalar
    } else if raw == FYEWT_FOLDED_SCALAR {
        WriteType::FoldedScalar
    } else if raw == FYEWT_ANCHOR {
        WriteType::Anchor
    } else if raw == FYEWT_TAG {
        WriteType::Tag
    } else if raw == FYEWT_LINEBREAK {
        WriteType::Linebreak
    } else if raw == FYEWT_ALIAS {
        WriteType::Alias
    } else if raw == FYEWT_TERMINATING_ZERO {
        WriteType::TerminatingZero
    } else if raw == FYEWT_PLAIN_SCALAR_KEY {
        WriteType::PlainScalarKey
    } else if raw == FYEWT_SINGLE_QUOTED_SCALAR_KEY {
        WriteType::SingleQuotedScalarKey
    } else if raw == FYEWT_DOUBLE_QUOTED_SCALAR_KEY {
        WriteType::DoubleQuotedScalarKey
    } else if raw == FYEWT_COMMENT {
        WriteType::Comment
    } else if raw == FYEWT_INDICATOR_QUESTION_MARK {
        WriteType::IndicatorQuestionMark
    } else if raw == FYEWT_INDICATOR_COLON {
        WriteType::IndicatorColon
    } else if raw == FYEWT_INDICATOR_DASH {
        WriteType::IndicatorDash
    } else if raw == FYEWT_INDICATOR_LEFT_BRACKET {
        WriteType::IndicatorLeftBracket
    } else if raw == FYEWT_INDICATOR_RIGHT_BRACKET {
        WriteType::IndicatorRightBracket
    } else if raw == FYEWT_INDICATOR_LEFT_BRACE {
        WriteType::IndicatorLeftBrace
    } else if raw == FYEWT_INDICATOR_RIGHT_BRACE {
        WriteType::IndicatorRightBrace
    } else if raw == FYEWT_INDICATOR_COMMA {
        WriteType::IndicatorComma
    } else if raw == FYEWT_INDICATOR_BAR {
        WriteType::IndicatorBar
    } else if raw == FYEWT_INDICATOR_GREATER {
        WriteType::IndicatorGreater
    } else if raw == FYEWT_INDICATOR_SINGLE_QUOTE_START {
        WriteType::IndicatorSingleQuoteStart
    } else if raw == FYEWT_INDICATOR_SINGLE_QUOTE_END {
        WriteType::IndicatorSingleQuoteEnd
    } else if raw == FYEWT_INDICATOR_DOUBLE_QUOTE_START {
        WriteType::IndicatorDoubleQuoteStart
    } else if raw == FYEWT_INDICATOR_DOUBLE_QUOTE_END {
        WriteType::IndicatorDoubleQuoteEnd
    } else if raw == FYEWT_INDICATOR_AMPERSAND {
        WriteType::IndicatorAmpersand
    } else if raw == FYEWT_INDICATOR_STAR {
        WriteType::IndicatorStar
    } else if raw == FYEWT_INDICATOR_CHOMP {
        WriteType::IndicatorChomp
    } else if raw == FYEWT_INDICATOR_EXPLICIT_INDENT {
        WriteType::IndicatorExplicitIndent
    } else {
        WriteType::Other(raw)
    }
}

impl From<u32> for WriteType {
    fn from(raw: u32) -> (r: Self) {
        if raw == FYEWT_DOCUMENT_INDICATOR {
            WriteType::DocumentIndicator
        } else if raw == FYEWT_TAG_DIRECTIVE {
            WriteType::TagDirective
        } else if raw == FYEWT_VERSION_DIRECTIVE {
            WriteType::VersionDirective
        } else if raw == FYEWT_INDENT {
            WriteType::Indent
        } else if raw == FYEWT_INDICATOR {
            WriteType::Indicator
        } else if raw == FYEWT_WHITESPACE {
            WriteType::Whitespace
        } else if raw == FYEWT_PLAIN_SCALAR {
            WriteType::PlainScalar
        } else if raw == FYEWT_SINGLE_QUOTED_SCALAR {
            WriteType::SingleQuotedScalar
        } else if raw == FYEWT_DOUBLE_QUOTED_SCALAR {
            WriteType::DoubleQuotedScalar
        } else if raw == FYEWT_LITERAL_SCALAR {
            WriteType::LiteralScalar
        } else if raw == FYEWT_FOLDED_SCALAR {
            WriteType::FoldedScalar
        } else if raw == FYEWT_ANCHOR {
            WriteType::Anchor
        } else if raw == FYEWT_TAG {
            WriteType::Tag
        } else if raw == FYEWT_LINEBREAK {
            WriteType::Linebreak
        } else if raw == FYEWT_ALIAS {
            WriteType::Alias
        } else if raw == FYEWT_TERMINATING_ZERO {
            WriteType::TerminatingZero
        } else if raw == FYEWT_PLAIN_SCALAR_KEY {
            WriteType::PlainScalarKey
        } else if raw == FYEWT_SINGLE_QUOTED_SCALAR_KEY {
            WriteType::SingleQuotedScalarKey
        } else if raw == FYEWT_DOUBLE_QUOTED_SCALAR_KEY {
            WriteType::DoubleQuotedScalarKey
        } else if raw == FYEWT_COMMENT {
            WriteType::Comment
        } else if raw == FYEWT_INDICATOR_QUESTION_MARK {
            WriteType::IndicatorQuestionMark
        } else if raw == FYEWT_INDICATOR_COLON {
            WriteType::IndicatorColon
        } else if raw == FYEWT_INDICATOR_DASH {
            WriteType::IndicatorDash
        } else if raw == FYEWT_INDICATOR_LEFT_BRACKET {
            WriteType::IndicatorLeftBracket
        } else if raw == FYEWT_INDICATOR_RIGHT_BRACKET {
            WriteType::IndicatorRightBracket
        } else if raw == FYEWT_INDICATOR_LEFT_BRACE {
            WriteType::IndicatorLeftBrace
        } else if raw == FYEWT_INDICATOR_RIGHT_BRACE {
            WriteType::IndicatorRightBrace
        } else if raw == FYEWT_INDICATOR_COMMA {
            WriteType::IndicatorComma
        } else if raw == FYEWT_INDICATOR_BAR {
            WriteType::IndicatorBar
        } else if raw == FYEWT_INDICATOR_GREATER {
            WriteType::IndicatorGreater
        } else if raw == FYEWT_INDICATOR_SINGLE_QUOTE_START {
            WriteType::IndicatorSingleQuoteStart
        } else if raw == FYEWT_INDICATOR_SINGLE_QUOTE_END {
            WriteType::IndicatorSingleQuoteEnd
        } else if raw == FYEWT_INDICATOR_DOUBLE_QUOTE_START {
            WriteType::IndicatorDoubleQuoteStart
        } else if raw == FYEWT_INDICATOR_DOUBLE_QUOTE_END {
            WriteType::IndicatorDoubleQuoteEnd
        } else if raw == FYEWT_INDICATOR_AMPERSAND {
            WriteType::IndicatorAmpersand
        } else if raw == FYEWT_INDICATOR_STAR {
            WriteType::IndicatorStar
        } else if raw == FYEWT_INDICATOR_CHOMP {
            WriteType::IndicatorChomp
        } else if raw == FYEWT_INDICATOR_EXPLICIT_INDENT {
            WriteType::IndicatorExplicitIndent
        } else {
            WriteType::Other(raw)
        }
    }
}

impl vstd::std_specs::convert::FromSpecImpl<u32> for WriteType {
    open spec fn obeys_from_spec() -> bool {
        true
    }

    open spec fn from_spec(raw: u32) -> Self {
        write_type(raw)
    }
}

impl WriteType {
    /// The fixed name of a known write type.
    pub open spec fn name_spec(self) -> &'static str {
        match self {
            WriteType::DocumentIndicator => "document indicator",
            WriteType::TagDirective => "tag directive",
            WriteType::VersionDirective => "version directive",
            WriteType::Indent => "indent",
            WriteType::Indicator => "indicator",
            WriteType::Whitespace => "whitespace",
            WriteType::PlainScalar => "plain scalar",
            WriteType::SingleQuotedScalar => "single-quoted scalar",
            WriteType::DoubleQuotedScalar => "double-quoted scalar",
            WriteType::LiteralScalar => "literal scalar",
            WriteType::FoldedScalar => "folded scalar",
            WriteType::Anchor => "anchor",
            WriteType::Tag => "tag",
            WriteType::Linebreak => "linebreak",
            WriteType::Alias => "alias",
            WriteType::TerminatingZero => "terminating zero",
            WriteType::PlainScalarKey => "plain scalar key",
            WriteType::SingleQuotedScalarKey => "single-quoted scalar key",
            WriteType::DoubleQuotedScalarKey => "double-quoted scalar key",
            WriteType::Comment => "comment",
            WriteType::IndicatorQuestionMark => "'?' indicator",
            WriteType::IndicatorColon => "':' indicator",
            WriteType::IndicatorDash => "'-' indicator",
            WriteType::IndicatorLeftBracket => "'[' indicator",
            WriteType::IndicatorRightBracket => "']' indicator",
            WriteType::IndicatorLeftBrace => "'{' indicator",
            WriteType::IndicatorRightBrace => "'}' indicator",
            WriteType::IndicatorComma => "',' indicator",
            WriteType::IndicatorBar => "'|' indicator",
            WriteType::IndicatorGreater => "'>' indicator",
            WriteType::IndicatorSingleQuoteStart => "opening '\\'' indicator",
            WriteType::IndicatorSingleQuoteEnd => "closing '\\'' indicator",
            WriteType::IndicatorDoubleQuoteStart => "opening '\"' indicator",
            WriteType::IndicatorDoubleQuoteEnd => "closing '\"' indicator",
            WriteType::IndicatorAmpersand => "'&' indicator",
            WriteType::IndicatorStar => "'*' indicator",
            WriteType::IndicatorChomp => "chomp indicator",
            WriteType::IndicatorExplicitIndent => "explicit indent indicator",
            WriteType::Other(_) => "unknown write type (",
        }
    }

    /// The fixed name of a known write type.
    fn name(self) -> (r: &'static str)
        ensures
            r == self.name_spec(),
    {
        match self {
            WriteType::DocumentIndicator => "document indicator",
            WriteType::TagDirective => "tag directive",
            WriteType::VersionDirective => "version directive",
            WriteType::Indent => "indent",
            WriteType::Indicator => "indicator",
            WriteType::Whitespace => "whitespace",
            WriteType::PlainScalar => "plain scalar",
            WriteType::SingleQuotedScalar => "single-quoted scalar",
            WriteType::DoubleQuotedScalar => "double-quoted scalar",
            WriteType::LiteralScalar => "literal scalar",
            WriteType::FoldedScalar => "folded scalar",
            WriteType::Anchor => "anchor",
            WriteType::Tag => "tag",
            WriteType::Linebreak => "linebreak",
            WriteType::Alias => "alias",
            WriteType::TerminatingZero => "terminating zero",
            WriteType::PlainScalarKey => "plain scalar key",
            WriteType::SingleQuotedScalarKey => "single-quoted scalar key",
            WriteType::DoubleQuotedScalarKey => "double-quoted scalar key",
            WriteType::Comment => "comment",
            WriteType::IndicatorQuestionMark => "'?' indicator",
            WriteType::IndicatorColon => "':' indicator",
            WriteType::IndicatorDash => "'-' indicator",
            WriteType::IndicatorLeftBracket => "'[' indicator",
            WriteType::IndicatorRightBracket => "']' indicator",
            WriteType::IndicatorLeftBrace => "'{' indicator",
            WriteType::IndicatorRightBrace => "'}' indicator",
            WriteType::IndicatorComma => "',' indicator",
            WriteType::IndicatorBar => "'|' indicator",
            WriteType::IndicatorGreater => "'>' indicator",
            WriteType::IndicatorSingleQuoteStart => "opening '\\'' indicator",
            WriteType::IndicatorSingleQuoteEnd => "closing '\\'' indicator",
            WriteType::IndicatorDoubleQuoteStart => "opening '\"' indicator",
            WriteType::IndicatorDoubleQuoteEnd => "closing '\"' indicator",
            WriteType::IndicatorAmpersand => "'&' indicator",
            WriteType::IndicatorStar => "'*' indicator",
            WriteType::IndicatorChomp => "chomp indicator",
            WriteType::IndicatorExplicitIndent => "explicit indent indicator",
            WriteType::Other(_) => "unknown write type (",
        }
    }

    /// What a write type is called.
    pub open spec fn label_spec(self) -> Seq<char> {
        match self {
            WriteType::Other(v) => self.name_spec()@ + decimal(v as nat) + ")"@,
            _ => self.name_spec()@,
        }
    }

    /// What a write type is called; an unknown one by its number.
    pub fn label(self) -> (r: String)
        ensures
            r@ == self.label_spec(),
    {
        let mut out = String::from_str(self.name());
        if let WriteType::Other(v) = self {
            append_decimal(&mut out, v);
            out.append(")");
        }
        out
    }
}

/// Different numbers stand for different write types.
pub proof fn law_write_types_distinct(a: u32, b: u32)
    requires
        write_type(a) == write_type(b),
    ensures
        a == b,
{
}

/// How long the name of a known write type is, and how it begins.
spec fn beginning(w: WriteType) -> (nat, char, char) {
    match w {
        WriteType::DocumentIndicator => (18, 'd', 'o'),
        WriteType::TagDirective => (13, 't', 'a'),
        WriteType::VersionDirective => (17, 'v', 'e'),
        WriteType::Indent => (6, 'i', 'n'),
        WriteType::Indicator => (9, 'i', 'n'),
        WriteType::Whitespace => (10, 'w', 'h'),
        WriteType::PlainScalar => (12, 'p', 'l'),
        WriteType::SingleQuotedScalar => (20, 's', 'i'),
        WriteType::DoubleQuotedScalar => (20, 'd', 'o'),
        WriteType::LiteralScalar => (14, 'l', 'i'),
        WriteType::FoldedScalar => (13, 'f', 'o'),
        WriteType::Anchor => (6, 'a', 'n'),
        WriteType::Tag => (3, 't', 'a'),
        WriteType::Linebreak => (9, 'l', 'i'),
        WriteType::Alias => (5, 'a', 'l'),
        WriteType::TerminatingZero => (16, 't', 'e'),
        WriteType::PlainScalarKey => (16, 'p', 'l'),
        WriteType::SingleQuotedScalarKey => (24, 's', 'i'),
        WriteType::DoubleQuotedScalarKey => (24, 'd', 'o'),
        WriteType::Comment => (7, 'c', 'o'),
        WriteType::IndicatorQuestionMark => (13, '\'', '?'),
        WriteType::IndicatorColon => (13, '\'', ':'),
        WriteType::IndicatorDash => (13, '\'', '-'),
        WriteType::IndicatorLeftBracket => (13, '\'', '['),
        WriteType::IndicatorRightBracket => (13, '\'', ']'),
        WriteType::IndicatorLeftBrace => (13, '\'', '{'),
        WriteType::IndicatorRightBrace => (13, '\'', '}'),
        WriteType::IndicatorComma => (13, '\'', ','),
        WriteType::IndicatorBar => (13, '\'', '|'),
        WriteType::IndicatorGreater => (13, '\'', '>'),
        WriteType::IndicatorSingleQuoteStart => (22, 'o', 'p'),
        WriteType::IndicatorSingleQuoteEnd => (22, 'c', 'l'),
        WriteType::IndicatorDoubleQuoteStart => (21, 'o', 'p'),
        WriteType::IndicatorDoubleQuoteEnd => (21, 'c', 'l'),
        WriteType::IndicatorAmpersand => (13, '\'', '&'),
        WriteType::IndicatorStar => (13, '\'', '*'),
        WriteType::IndicatorChomp => (15, 'c', 'h'),
        WriteType::IndicatorExplicitIndent => (25, 'e', 'x'),
        WriteType::Other(_) => (0, 'u', 'n'),
    }
}

proof fn lemma_beginning(w: WriteType)
    requires
        !(w is Other),
    ensures
        w.label_spec().len() == beginning(w).0,
        w.label_spec().len() > 1,
        w.label_spec()[0] == beginning(w).1,
        w.label_spec()[1] == beginning(w).2,
{
    match w {
        WriteType::DocumentIndicator => {
            reveal_strlit("document indicator");
        },
        WriteType::TagDirective => {
            reveal_strlit("tag directive");
        },
        WriteType::VersionDirective => {
            reveal_strlit("version directive");
        },
        WriteType::Indent => {
            reveal_strlit("indent");
        },
        WriteType::Indicator => {
            reveal_strlit("indicator");
        },
        WriteType::Whitespace => {
            reveal_strlit("whitespace");
        },
        WriteType::PlainScalar => {
            reveal_strlit("plain scalar");
        },
        WriteType::SingleQuotedScalar => {
            reveal_strlit("single-quoted scalar");
        },
        WriteType::DoubleQuotedScalar => {
            reveal_strlit("double-quoted scalar");
        },
        WriteType::LiteralScalar => {
            reveal_strlit("literal scalar");
        },
        WriteType::FoldedScalar => {
            reveal_strlit("folded scalar");
        },
        WriteType::Anchor => {
            reveal_strlit("anchor");
        },
        WriteType::Tag => {
            reveal_strlit("tag");
        },
        WriteType::Linebreak => {
            reveal_strlit("linebreak");
        },
        WriteType::Alias => {
            reveal_strlit("alias");
        },
        WriteType::TerminatingZero => {
            reveal_strlit("terminating zero");
        },
        WriteType::PlainScalarKey => {
            reveal_strlit("plain scalar key");
        },
        WriteType::SingleQuotedScalarKey => {
            reveal_strlit("single-quoted scalar key");
        },
        WriteType::DoubleQuotedScalarKey => {
            reveal_strlit("double-quoted scalar key");
        },
        WriteType::Comment => {
            reveal_strlit("comment");
        },
        WriteType::IndicatorQuestionMark => {
            reveal_strlit("'?' indicator");
        },
        WriteType::IndicatorColon => {
            reveal_strlit("':' indicator");
        },
        WriteType::IndicatorDash => {
            reveal_strlit("'-' indicator");
        },
        WriteType::IndicatorLeftBracket => {
            reveal_strlit("'[' indicator");
        },
        WriteType::IndicatorRightBracket => {
            reveal_strlit("']' indicator");
        },
        WriteType::IndicatorLeftBrace => {
            reveal_strlit("'{' indicator");
        },
        WriteType::IndicatorRightBrace => {
            reveal_strlit("'}' indicator");
        },
        WriteType::IndicatorComma => {
            reveal_strlit("',' indicator");
        },
        WriteType::IndicatorBar => {
            reveal_strlit("'|' indicator");
        },
        WriteType::IndicatorGreater => {
            reveal_strlit("'>' indicator");
        },
        WriteType::IndicatorSingleQuoteStart => {
            reveal_strlit("opening '\\'' indicator");
        },
        WriteType::IndicatorSingleQuoteEnd => {
            reveal_strlit("closing '\\'' indicator");
        },
        WriteType::IndicatorDoubleQuoteStart => {
            reveal_strlit("opening '\"' indicator");
        },
        WriteType::IndicatorDoubleQuoteEnd => {
            reveal_strlit("closing '\"' indicator");
        },
        WriteType::IndicatorAmpersand => {
            reveal_strlit("'&' indicator");
        },
        WriteType::IndicatorStar => {
            reveal_strlit("'*' indicator");
        },
        WriteType::IndicatorChomp => {
            reveal_strlit("chomp indicator");
        },
        WriteType::IndicatorExplicitIndent => {
            reveal_strlit("explicit indent indicator");
        },
        WriteType::Other(_) => {},
    }
}

/// Different write types are called differently.
pub proof fn law_labels_distinct(a: WriteType, b: WriteType)
    requires
        a.label_spec() == b.label_spec(),
    ensures
        a == b,
{
    reveal_strlit("unknown write type (");
    reveal_strlit(")");
    match (a, b) {
        (WriteType::Other(x), WriteType::Other(y)) => {
            let n = "unknown write type ("@.len() as int;
            let label = a.label_spec();
            let middle = label.subrange(n, label.len() - 1);
            assert(middle =~= decimal(x as nat));
            assert(middle =~= decimal(y as nat));
            law_decimal_value(x as nat);
            law_decimal_value(y as nat);
        },
        (WriteType::Other(_), _) => {
            lemma_beginning(b);
        },
        (_, WriteType::Other(_)) => {
            lemma_beginning(a);
        },
        _ => {
            lemma_beginning(a);
            lemma_beginning(b);
        },
    }
}

} // verus!
