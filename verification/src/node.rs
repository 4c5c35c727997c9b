//! Node types and styles, and the numbers libfyaml gives them.

use vstd::prelude::*;

verus! {

pub const FYNT_SCALAR: u32 = 0;
pub const FYNT_SEQUENCE: u32 = 1;
pub const FYNT_MAPPING: u32 = 2;

pub const FYNS_ANY: i32 = -1;
pub const FYNS_FLOW: i32 = 0;
pub const FYNS_BLOCK: i32 = 1;
pub const FYNS_PLAIN: i32 = 2;
pub const FYNS_SINGLE_QUOTED: i32 = 3;
pub const FYNS_DOUBLE_QUOTED: i32 = 4;
pub const FYNS_LITERAL: i32 = 5;
pub const FYNS_FOLDED: i32 = 6;
pub const FYNS_ALIAS: i32 = 7;

/// The type of a node.
#[derive(Debug, Clone, Copy, PartialEq, Eq, Structural)]
pub enum NodeType {
    Scalar,
    Sequence,
    Mapping,
}

/// The node type that a libfyaml type number stands for. A number that is neither a sequence nor
/// a mapping is treated as a scalar, as libfyaml does for a missing node.
pub open spec fn node_type(raw: u32) -> NodeType {
    if raw == FYNT_SEQUENCE {
        NodeType::Sequence
    } else if raw == FYNT_MAPPING {
        NodeType::Mapping
    } else {
        NodeType::Scalar
    }
}

impl From<u32> for NodeType {
    fn from(raw: u32) -> (r: Self) {
        if raw == FYNT_SEQUENCE {
            NodeType::Sequence
        } else if raw == FYNT_MAPPING {
            NodeType::Mapping
        } else {
            NodeType::Scalar
        }
    }
}

impl vstd::std_specs::convert::FromSpecImpl<u32> for NodeType {
    open spec fn obeys_from_spec() -> bool {
        true
    }

    open spec fn from_spec(raw: u32) -> Self {
        node_type(raw)
    }
}

/// The style a node was written in, or should be written in.
#[derive(Debug, Clone, Copy, PartialEq, Eq, Structural)]
pub enum NodeStyle {
    Any,
    Flow,
    Block,
    Plain,
    SingleQuoted,
    DoubleQuoted,
    Literal,
    Folded,
    Alias,
}

/// The node style that a libfyaml style number stands for; a number without a style of its own
/// leaves the choice to the emitter.
pub open spec fn node_style(raw: i32) -> NodeStyle {
    if raw == FYNS_FLOW {
        NodeStyle::Flow
    } else if raw == FYNS_BLOCK {
        NodeStyle::Block
    } else if raw == FYNS_PLAIN {
        NodeStyle::Plain
    } else if raw == FYNS_SINGLE_QUOTED {
        NodeStyle::SingleQuoted
    } else if raw == FYNS_DOUBLE_QUOTED {
        NodeStyle::DoubleQuoted
    } else if raw == FYNS_LITERAL {
        NodeStyle::Literal
    } else if raw == FYNS_FOLDED {
        NodeStyle::Folded
    } else if raw == FYNS_ALIAS {
        NodeStyle::Alias
    } else {
        NodeStyle::Any
    }
}

impl From<i32> for NodeStyle {
    fn from(raw: i32) -> (r: Self) {
        if raw == FYNS_FLOW {
            NodeStyle::Flow
        } else if raw == FYNS_BLOCK {
            NodeStyle::Block
        } else if raw == FYNS_PLAIN {
            NodeStyle::Plain
        } else if raw == FYNS_SINGLE_QUOTED {
            NodeStyle::SingleQuoted
        } else if raw == FYNS_DOUBLE_QUOTED {
            NodeStyle::DoubleQuoted
        } else if raw == FYNS_LITERAL {
            NodeStyle::Literal
        } else if raw == FYNS_FOLDED {
            NodeStyle::Folded
        } else if raw == FYNS_ALIAS {
            NodeStyle::Alias
        } else {
            NodeStyle::Any
        }
    }
}

impl vstd::std_specs::convert::FromSpecImpl<i32> for NodeStyle {
    open spec fn obeys_from_spec() -> bool {
        true
    }

    open spec fn from_spec(raw: i32) -> Self {
        node_style(raw)
    }
}

impl NodeStyle {
    /// The libfyaml number of this style.
    pub open spec fn raw_spec(self) -> i32 {
        match self {
            NodeStyle::Any => FYNS_ANY,
            NodeStyle::Flow => FYNS_FLOW,
            NodeStyle::Block => FYNS_BLOCK,
            NodeStyle::Plain => FYNS_PLAIN,
            NodeStyle::SingleQuoted => FYNS_SINGLE_QUOTED,
            NodeStyle::DoubleQuoted => FYNS_DOUBLE_QUOTED,
            NodeStyle::Literal => FYNS_LITERAL,
            NodeStyle::Folded => FYNS_FOLDED,
            NodeStyle::Alias => FYNS_ALIAS,
        }
    }

    /// The libfyaml number of this style.
    pub fn raw(self) -> (r: i32)
        ensures
            r == self.raw_spec(),
    {
        match self {
            NodeStyle::Any => FYNS_ANY,
            NodeStyle::Flow => FYNS_FLOW,
            NodeStyle::Block => FYNS_BLOCK,
            NodeStyle::Plain => FYNS_PLAIN,
            NodeStyle::SingleQuoted => FYNS_SINGLE_QUOTED,
            NodeStyle::DoubleQuoted => FYNS_DOUBLE_QUOTED,
            NodeStyle::Literal => FYNS_LITERAL,
            NodeStyle::Folded => FYNS_FOLDED,
            NodeStyle::Alias => FYNS_ALIAS,
        }
    }

    /// Whether a scalar in this style is quoted.
    pub open spec fn quoted_spec(self) -> bool {
        self is SingleQuoted || self is DoubleQuoted
    }

    /// Whether a scalar in this style must be taken as a string, whatever its text looks like.
    pub open spec fn non_plain_spec(self) -> bool {
        self.quoted_spec() || self is Literal || self is Folded
    }
}

/// Every style survives the trip through its libfyaml number.
pub proof fn law_style_round_trip(style: NodeStyle)
    ensures
        node_style(style.raw_spec()) == style,
{
}

} // verus!
