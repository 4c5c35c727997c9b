//! Reading nodes.

use vstd::prelude::*;

use crate::call::{Call, Reply, Session, Step};
use crate::document::Document;
use crate::emitter::DEFAULT_EMIT_FLAGS;
use crate::error::Error;
use crate::node::{node_style, node_type, NodeStyle, NodeType};
use crate::text::{display_text, is_text_of, text_of};

verus! {

/// A node of a document, borrowed from it.
#[derive(Clone, Copy)]
pub struct NodeRef<'doc> {
    pub doc: &'doc Document,
    /// Address of the node; never null.
    pub node: usize,
}

/// A node of a document, to be read as a typed value.
#[derive(Clone, Copy)]
pub struct ValueRef<'doc> {
    pub node: NodeRef<'doc>,
}

/// Bytes that libfyaml keeps: where they are and how many.
#[derive(Debug, Clone, Copy, PartialEq, Eq, Structural)]
pub struct Span {
    pub address: usize,
    pub len: usize,
}

/// The node at an address, unless the address is null.
pub open spec fn node_at<'doc>(doc: &'doc Document, address: usize) -> Option<NodeRef<'doc>> {
    if address == 0 {
        None
    } else {
        Some(NodeRef { doc, node: address })
    }
}

/// Refers to the node at an address, unless the address is null.
fn refer<'doc>(doc: &'doc Document, address: usize) -> (r: Option<NodeRef<'doc>>)
    ensures
        r == node_at(doc, address),
{
    if address == 0 {
        None
    } else {
        Some(NodeRef { doc, node: address })
    }
}

/// Asks for a node by a single call.
pub struct Lookup<'doc> {
    pub doc: &'doc Document,
}

impl<'a, 'doc> Session<'a> for Lookup<'doc> {
    type Output = Option<NodeRef<'doc>>;

    open spec fn resumed(self, reply: Reply) -> Step<'a, Self, Self::Output> {
        Step::Done(node_at(self.doc, reply.pointer_spec()))
    }

    fn resume(self, reply: Reply) -> (next: Step<'a, Self, Self::Output>) {
        Step::Done(refer(self.doc, reply.pointer()))
    }
}

/// Asks for a node by a single call, to read it as a typed value.
pub struct LookupValue<'doc> {
    pub doc: &'doc Document,
}

impl<'a, 'doc> Session<'a> for LookupValue<'doc> {
    type Output = Option<ValueRef<'doc>>;

    open spec fn resumed(self, reply: Reply) -> Step<'a, Self, Self::Output> {
        Step::Done(
            match node_at(self.doc, reply.pointer_spec()) {
                Some(node) => Some(ValueRef { node }),
                None => None,
            },
        )
    }

    fn resume(self, reply: Reply) -> (next: Step<'a, Self, Self::Output>) {
        match refer(self.doc, reply.pointer()) {
            Some(node) => Step::Done(Some(ValueRef { node })),
            None => Step::Done(None),
        }
    }
}

/// Follows a path from the root of a document.
pub enum LookupAt<'doc, 'a> {
    Rooting { doc: &'doc Document, path: &'a str },
    Walking { doc: &'doc Document },
}

impl<'a, 'doc> Session<'a> for LookupAt<'doc, 'a> {
    type Output = Option<NodeRef<'doc>>;

    open spec fn resumed(self, reply: Reply) -> Step<'a, Self, Self::Output> {
        let node = reply.pointer_spec();
        match self {
            LookupAt::Rooting { doc, path } => if node == 0 {
                Step::Done(None)
            } else {
                Step::Ask(LookupAt::Walking { doc }, Call::NodeByPath { node, path })
            },
            LookupAt::Walking { doc } => Step::Done(node_at(doc, node)),
        }
    }

    fn resume(self, reply: Reply) -> (next: Step<'a, Self, Self::Output>) {
        let node = reply.pointer();
        match self {
            LookupAt::Rooting { doc, path } => if node == 0 {
                Step::Done(None)
            } else {
                Step::Ask(LookupAt::Walking { doc }, Call::NodeByPath { node, path })
            },
            LookupAt::Walking { doc } => Step::Done(refer(doc, node)),
        }
    }
}

/// What is wanted of a container.
pub enum Child<'a> {
    /// The item at an index of a sequence.
    Item(i32),
    /// The value of a key of a mapping.
    Value(&'a str),
}

/// Asks a container for one of the nodes inside it. A node that is not that kind of container has
/// none.
pub enum GetChild<'doc, 'a> {
    Typing { node: NodeRef<'doc>, child: Child<'a> },
    Getting { doc: &'doc Document },
}

impl<'a, 'doc> Session<'a> for GetChild<'doc, 'a> {
    type Output = Option<NodeRef<'doc>>;

    open spec fn resumed(self, reply: Reply) -> Step<'a, Self, Self::Output> {
        match self {
            GetChild::Typing { node, child } => {
                let kind = node_type(reply.word_spec());
                match child {
                    Child::Item(index) => if kind == NodeType::Sequence {
                        Step::Ask(
                            GetChild::Getting { doc: node.doc },
                            Call::SequenceGetByIndex { seq: node.node, index },
                        )
                    } else {
                        Step::Done(None)
                    },
                    Child::Value(name) => if kind == NodeType::Mapping {
                        Step::Ask(
                            GetChild::Getting { doc: node.doc },
                            Call::MappingLookupByString { map: node.node, name },
                        )
                    } else {
                        Step::Done(None)
                    },
                }
            },
            GetChild::Getting { doc } => Step::Done(node_at(doc, reply.pointer_spec())),
        }
    }

    fn resume(self, reply: Reply) -> (next: Step<'a, Self, Self::Output>) {
        match self {
            GetChild::Typing { node, child } => {
                let kind = NodeType::from(reply.word());
                match child {
                    Child::Item(index) => if kind == NodeType::Sequence {
                        Step::Ask(
                            GetChild::Getting { doc: node.doc },
                            Call::SequenceGetByIndex { seq: node.node, index },
                        )
                    } else {
                        Step::Done(None)
                    },
                    Child::Value(name) => if kind == NodeType::Mapping {
                        Step::Ask(
                            GetChild::Getting { doc: node.doc },
                            Call::MappingLookupByString { map: node.node, name },
                        )
                    } else {
                        Step::Done(None)
                    },
                }
            },
            GetChild::Getting { doc } => Step::Done(refer(doc, reply.pointer())),
        }
    }
}

/// Asks for the type of a node.
pub struct AskKind;

impl<'a> Session<'a> for AskKind {
    type Output = NodeType;

    open spec fn resumed(self, reply: Reply) -> Step<'a, Self, Self::Output> {
        Step::Done(node_type(reply.word_spec()))
    }

    fn resume(self, reply: Reply) -> (next: Step<'a, Self, Self::Output>) {
        Step::Done(NodeType::from(reply.word()))
    }
}

/// Asks whether a node is of a type.
pub struct TestKind {
    pub kind: NodeType,
}

impl<'a> Session<'a> for TestKind {
    type Output = bool;

    open spec fn resumed(self, reply: Reply) -> Step<'a, Self, Self::Output> {
        Step::Done(node_type(reply.word_spec()) == self.kind)
    }

    fn resume(self, reply: Reply) -> (next: Step<'a, Self, Self::Output>) {
        Step::Done(NodeType::from(reply.word()) == self.kind)
    }
}

/// Asks for the style of a node.
pub struct AskStyle;

impl<'a> Session<'a> for AskStyle {
    type Output = NodeStyle;

    open spec fn resumed(self, reply: Reply) -> Step<'a, Self, Self::Output> {
        Step::Done(node_style(reply.status_spec()))
    }

    fn resume(self, reply: Reply) -> (next: Step<'a, Self, Self::Output>) {
        Step::Done(NodeStyle::from(reply.status()))
    }
}

/// Asks about the style of a node.
pub enum TestStyle {
    /// Whether it is quoted.
    Quoted,
    /// Whether it is not plain.
    NonPlain,
}

impl<'a> Session<'a> for TestStyle {
    type Output = bool;

    open spec fn resumed(self, reply: Reply) -> Step<'a, Self, Self::Output> {
        let style = node_style(reply.status_spec());
        Step::Done(
            match self {
                TestStyle::Quoted => style.quoted_spec(),
                TestStyle::NonPlain => style.non_plain_spec(),
            },
        )
    }

    fn resume(self, reply: Reply) -> (next: Step<'a, Self, Self::Output>) {
        let style = NodeStyle::from(reply.status());
        let quoted = style == NodeStyle::SingleQuoted || style == NodeStyle::DoubleQuoted;
        match self {
            TestStyle::Quoted => Step::Done(quoted),
            TestStyle::NonPlain => Step::Done(
                quoted || style == NodeStyle::Literal || style == NodeStyle::Folded,
            ),
        }
    }
}

/// The bytes that a reply points at, unless there are more than a slice can hold.
pub open spec fn span_of(address: usize, len: usize) -> Result<Span, Error> {
    if len > isize::MAX {
        Err(Error::ScalarTooLarge(len))
    } else {
        Ok(Span { address, len })
    }
}

/// Notes where bytes are, unless there are more than a slice can hold.
fn span(address: usize, len: usize) -> (r: Result<Span, Error>)
    ensures
        r == span_of(address, len),
{
    if len > isize::MAX as usize {
        Err(Error::ScalarTooLarge(len))
    } else {
        Ok(Span { address, len })
    }
}

/// Asks for the bytes of a scalar.
pub struct AskScalar;

impl<'a> Session<'a> for AskScalar {
    type Output = Result<Span, Error>;

    open spec fn resumed(self, reply: Reply) -> Step<'a, Self, Self::Output> {
        let (address, len) = reply.slice_spec();
        Step::Done(
            if address == 0 {
                Err(Error::TypeMismatch { expected: "scalar", got: "non-scalar or null" })
            } else {
                span_of(address, len)
            },
        )
    }

    fn resume(self, reply: Reply) -> (next: Step<'a, Self, Self::Output>) {
        let (address, len) = reply.slice();
        if address == 0 {
            Step::Done(Err(Error::TypeMismatch { expected: "scalar", got: "non-scalar or null" }))
        } else {
            Step::Done(span(address, len))
        }
    }
}

/// Asks for the bytes of a tag; a node may have none.
pub struct AskTag;

impl<'a> Session<'a> for AskTag {
    type Output = Result<Option<Span>, Error>;

    open spec fn resumed(self, reply: Reply) -> Step<'a, Self, Self::Output> {
        let (address, len) = reply.slice_spec();
        Step::Done(
            if address == 0 {
                Ok(None)
            } else {
                match span_of(address, len) {
                    Ok(span) => Ok(Some(span)),
                    Err(e) => Err(e),
                }
            },
        )
    }

    fn resume(self, reply: Reply) -> (next: Step<'a, Self, Self::Output>) {
        let (address, len) = reply.slice();
        if address == 0 {
            Step::Done(Ok(None))
        } else {
            match span(address, len) {
                Ok(span) => Step::Done(Ok(Some(span))),
                Err(e) => Step::Done(Err(e)),
            }
        }
    }
}

/// Asks how many things a container holds. A negative count means that the node is not that kind of
/// container.
pub struct AskCount {
    pub expected: &'static str,
    pub got: &'static str,
}

impl<'a> Session<'a> for AskCount {
    type Output = Result<usize, Error>;

    open spec fn resumed(self, reply: Reply) -> Step<'a, Self, Self::Output> {
        Step::Done(
            if reply.status_spec() < 0 {
                Err(Error::TypeMismatch { expected: self.expected, got: self.got })
            } else {
                Ok(reply.status_spec() as usize)
            },
        )
    }

    fn resume(self, reply: Reply) -> (next: Step<'a, Self, Self::Output>) {
        let count: i32 = reply.status();
        if count < 0 {
            Step::Done(Err(Error::TypeMismatch { expected: self.expected, got: self.got }))
        } else {
            Step::Done(Ok(count as usize))
        }
    }
}

/// Asks for the bytes of a C string; `message` is what a null answer is reported as.
pub struct AskText {
    pub message: &'static str,
}

impl<'a> Session<'a> for AskText {
    type Output = Result<Vec<u8>, Error>;

    open spec fn resumed(self, reply: Reply) -> Step<'a, Self, Self::Output> {
        Step::Done(
            match reply.text_spec() {
                Some(bytes) => Ok(bytes),
                None => Err(Error::Ffi(self.message)),
            },
        )
    }

    fn resume(self, reply: Reply) -> (next: Step<'a, Self, Self::Output>) {
        match reply.text() {
            Some(bytes) => Step::Done(Ok(bytes)),
            None => Step::Done(Err(Error::Ffi(self.message))),
        }
    }
}

/// The items of a sequence, one after the other.
#[derive(Clone, Copy)]
pub struct SeqIter<'doc> {
    pub seq: NodeRef<'doc>,
    /// The item that was handed out last; null before the first.
    pub last: usize,
}

/// Asks for the next item. Once there is none, the iterator stands at the start again.
pub struct NextItem<'doc> {
    pub seq: NodeRef<'doc>,
}

impl<'doc> SeqIter<'doc> {
    /// Iterates from the first item.
    pub fn new(seq: NodeRef<'doc>) -> (r: Self)
        ensures
            r == (SeqIter { seq, last: 0 }),
    {
        SeqIter { seq, last: 0 }
    }

    /// Asks for the item after the last one.
    pub fn next<'a>(self) -> (r: Step<'a, NextItem<'doc>, (Self, Option<NodeRef<'doc>>)>)
        ensures
            r == Step::<'a, NextItem<'doc>, (Self, Option<NodeRef<'doc>>)>::Ask(
                NextItem { seq: self.seq },
                Call::SequenceIterate { seq: self.seq.node, last: self.last },
            ),
    {
        Step::Ask(
            NextItem { seq: self.seq },
            Call::SequenceIterate { seq: self.seq.node, last: self.last },
        )
    }
}

impl<'a, 'doc> Session<'a> for NextItem<'doc> {
    type Output = (SeqIter<'doc>, Option<NodeRef<'doc>>);

    open spec fn resumed(self, reply: Reply) -> Step<'a, Self, Self::Output> {
        Step::Done(
            (
                SeqIter { seq: self.seq, last: reply.pointer_spec() },
                node_at(self.seq.doc, reply.pointer_spec()),
            ),
        )
    }

    fn resume(self, reply: Reply) -> (next: Step<'a, Self, Self::Output>) {
        let item = reply.pointer();
        Step::Done((SeqIter { seq: self.seq, last: item }, refer(self.seq.doc, item)))
    }
}

/// The pairs of a mapping, one after the other.
#[derive(Clone, Copy)]
pub struct MapIter<'doc> {
    pub map: NodeRef<'doc>,
    /// The pair that was handed out last; null before the first.
    pub last: usize,
}

/// Asks for the next pair, its key and its value. A pair that lacks either is passed over.
pub enum NextPair<'doc> {
    Stepping { map: NodeRef<'doc> },
    Keying { map: NodeRef<'doc>, pair: usize },
    Valuing { map: NodeRef<'doc>, pair: usize, key: usize },
}

impl<'doc> MapIter<'doc> {
    /// Iterates from the first pair.
    pub fn new(map: NodeRef<'doc>) -> (r: Self)
        ensures
            r == (MapIter { map, last: 0 }),
    {
        MapIter { map, last: 0 }
    }

    /// The call for the pair after the last one.
    pub open spec fn stepping<'a>(self) -> Step<
        'a,
        NextPair<'doc>,
        (Self, Option<(NodeRef<'doc>, NodeRef<'doc>)>),
    > {
        Step::Ask(
            NextPair::Stepping { map: self.map },
            Call::MappingIterate { map: self.map.node, last: self.last },
        )
    }

    /// Asks for the pair after the last one.
    pub fn next<'a>(self) -> (r: Step<
        'a,
        NextPair<'doc>,
        (Self, Option<(NodeRef<'doc>, NodeRef<'doc>)>),
    >)
        ensures
            r == self.stepping(),
    {
        Step::Ask(
            NextPair::Stepping { map: self.map },
            Call::MappingIterate { map: self.map.node, last: self.last },
        )
    }
}

impl<'a, 'doc> Session<'a> for NextPair<'doc> {
    type Output = (MapIter<'doc>, Option<(NodeRef<'doc>, NodeRef<'doc>)>);

    open spec fn resumed(self, reply: Reply) -> Step<'a, Self, Self::Output> {
        let p = reply.pointer_spec();
        match self {
            NextPair::Stepping { map } => if p == 0 {
                Step::Done((MapIter { map, last: 0 }, None))
            } else {
                Step::Ask(NextPair::Keying { map, pair: p }, Call::PairKey { pair: p })
            },
            NextPair::Keying { map, pair } => if p == 0 {
                MapIter { map, last: pair }.stepping()
            } else {
                Step::Ask(NextPair::Valuing { map, pair, key: p }, Call::PairValue { pair })
            },
            NextPair::Valuing { map, pair, key } => if p == 0 {
                MapIter { map, last: pair }.stepping()
            } else {
                Step::Done(
                    (
                        MapIter { map, last: pair },
                        Some(
                            (
                                NodeRef { doc: map.doc, node: key },
                                NodeRef { doc: map.doc, node: p },
                            ),
                        ),
                    ),
                )
            },
        }
    }

    fn resume(self, reply: Reply) -> (next: Step<'a, Self, Self::Output>) {
        let p = reply.pointer();
        match self {
            NextPair::Stepping { map } => if p == 0 {
                Step::Done((MapIter { map, last: 0 }, None))
            } else {
                Step::Ask(NextPair::Keying { map, pair: p }, Call::PairKey { pair: p })
            },
            NextPair::Keying { map, pair } => if p == 0 {
                MapIter { map, last: pair }.next()
            } else {
                Step::Ask(NextPair::Valuing { map, pair, key: p }, Call::PairValue { pair })
            },
            NextPair::Valuing { map, pair, key } => if p == 0 {
                MapIter { map, last: pair }.next()
            } else {
                Step::Done(
                    (
                        MapIter { map, last: pair },
                        Some(
                            (
                                NodeRef { doc: map.doc, node: key },
                                NodeRef { doc: map.doc, node: p },
                            ),
                        ),
                    ),
                )
            },
        }
    }
}

impl<'doc> NodeRef<'doc> {
    /// A reference points at a node.
    pub open spec fn valid(self) -> bool {
        self.node != 0
    }

    /// Refers to a node of a document.
    pub fn new(node: usize, doc: &'doc Document) -> (r: Self)
        ensures
            r == (NodeRef { doc, node }),
    {
        NodeRef { doc, node }
    }

    /// The document that the node belongs to.
    pub fn document(&self) -> (r: &'doc Document)
        ensures
            r == self.doc,
    {
        self.doc
    }

    /// Asks for the type of the node.
    pub fn kind<'a>(&self) -> (r: Step<'a, AskKind, NodeType>)
        ensures
            r == Step::<'a, AskKind, NodeType>::Ask(AskKind, Call::NodeGetType { node: self.node }),
    {
        Step::Ask(AskKind, Call::NodeGetType { node: self.node })
    }

    /// Asks whether the node is a scalar.
    pub fn is_scalar<'a>(&self) -> (r: Step<'a, TestKind, bool>)
        ensures
            r == Step::<'a, TestKind, bool>::Ask(
                TestKind { kind: NodeType::Scalar },
                Call::NodeGetType { node: self.node },
            ),
    {
        Step::Ask(TestKind { kind: NodeType::Scalar }, Call::NodeGetType { node: self.node })
    }

    /// Asks whether the node is a mapping.
    pub fn is_mapping<'a>(&self) -> (r: Step<'a, TestKind, bool>)
        ensures
            r == Step::<'a, TestKind, bool>::Ask(
                TestKind { kind: NodeType::Mapping },
                Call::NodeGetType { node: self.node },
            ),
    {
        Step::Ask(TestKind { kind: NodeType::Mapping }, Call::NodeGetType { node: self.node })
    }

    /// Asks whether the node is a sequence.
    pub fn is_sequence<'a>(&self) -> (r: Step<'a, TestKind, bool>)
        ensures
            r == Step::<'a, TestKind, bool>::Ask(
                TestKind { kind: NodeType::Sequence },
                Call::NodeGetType { node: self.node },
            ),
    {
        Step::Ask(TestKind { kind: NodeType::Sequence }, Call::NodeGetType { node: self.node })
    }

    /// Asks for the style of the node.
    pub fn style<'a>(&self) -> (r: Step<'a, AskStyle, NodeStyle>)
        ensures
            r == Step::<'a, AskStyle, NodeStyle>::Ask(
                AskStyle,
                Call::NodeGetStyle { node: self.node },
            ),
    {
        Step::Ask(AskStyle, Call::NodeGetStyle { node: self.node })
    }

    /// Asks whether the node is quoted.
    pub fn is_quoted<'a>(&self) -> (r: Step<'a, TestStyle, bool>)
        ensures
            r == Step::<'a, TestStyle, bool>::Ask(
                TestStyle::Quoted,
                Call::NodeGetStyle { node: self.node },
            ),
    {
        Step::Ask(TestStyle::Quoted, Call::NodeGetStyle { node: self.node })
    }

    /// Asks whether the node is in a style that rules out reading it as anything but a string.
    pub fn is_non_plain<'a>(&self) -> (r: Step<'a, TestStyle, bool>)
        ensures
            r == Step::<'a, TestStyle, bool>::Ask(
                TestStyle::NonPlain,
                Call::NodeGetStyle { node: self.node },
            ),
    {
        Step::Ask(TestStyle::NonPlain, Call::NodeGetStyle { node: self.node })
    }

    /// Asks for the bytes of the scalar.
    pub fn scalar_bytes<'a>(&self) -> (r: Step<'a, AskScalar, Result<Span, Error>>)
        ensures
            r == Step::<'a, AskScalar, Result<Span, Error>>::Ask(
                AskScalar,
                Call::NodeGetScalar { node: self.node },
            ),
    {
        Step::Ask(AskScalar, Call::NodeGetScalar { node: self.node })
    }

    /// Takes the bytes of the scalar as text.
    pub fn scalar_str(&self, bytes: Result<&'doc [u8], Error>) -> (r: Result<&'doc str, Error>)
        ensures
            match bytes {
                Ok(b) => is_text_of(b@, r),
                Err(e) => r == Err::<&'doc str, Error>(e),
            },
    {
        match bytes {
            Ok(b) => text_of(b),
            Err(e) => Err(e),
        }
    }

    /// Asks for the bytes of the tag.
    pub fn tag_bytes<'a>(&self) -> (r: Step<'a, AskTag, Result<Option<Span>, Error>>)
        ensures
            r == Step::<'a, AskTag, Result<Option<Span>, Error>>::Ask(
                AskTag,
                Call::NodeGetTag { node: self.node },
            ),
    {
        Step::Ask(AskTag, Call::NodeGetTag { node: self.node })
    }

    /// Takes the bytes of the tag as text; a node without a tag has none.
    pub fn tag_str(&self, bytes: Result<Option<&'doc [u8]>, Error>) -> (r: Result<
        Option<&'doc str>,
        Error,
    >)
        ensures
            match bytes {
                Ok(Some(b)) => match r {
                    Ok(Some(s)) => is_text_of(b@, Ok(s)),
                    Ok(None) => false,
                    Err(e) => is_text_of(b@, Err(e)),
                },
                Ok(None) => r == Ok::<Option<&'doc str>, Error>(None),
                Err(e) => r == Err::<Option<&'doc str>, Error>(e),
            },
    {
        match bytes {
            Ok(Some(b)) => match text_of(b) {
                Ok(s) => Ok(Some(s)),
                Err(e) => Err(e),
            },
            Ok(None) => Ok(None),
            Err(e) => Err(e),
        }
    }

    /// Follows a path from the node.
    pub fn at_path<'a>(&self, path: &'a str) -> (r: Step<'a, Lookup<'doc>, Option<NodeRef<'doc>>>)
        ensures
            r == Step::<'a, Lookup<'doc>, Option<NodeRef<'doc>>>::Ask(
                Lookup { doc: self.doc },
                Call::NodeByPath { node: self.node, path },
            ),
    {
        Step::Ask(Lookup { doc: self.doc }, Call::NodeByPath { node: self.node, path })
    }

    /// Asks how many items the sequence has.
    pub fn seq_len<'a>(&self) -> (r: Step<'a, AskCount, Result<usize, Error>>)
        ensures
            r == Step::<'a, AskCount, Result<usize, Error>>::Ask(
                AskCount { expected: "sequence", got: "non-sequence" },
                Call::SequenceItemCount { seq: self.node },
            ),
    {
        Step::Ask(
            AskCount { expected: "sequence", got: "non-sequence" },
            Call::SequenceItemCount { seq: self.node },
        )
    }

    /// Asks how many pairs the mapping has.
    pub fn map_len<'a>(&self) -> (r: Step<'a, AskCount, Result<usize, Error>>)
        ensures
            r == Step::<'a, AskCount, Result<usize, Error>>::Ask(
                AskCount { expected: "mapping", got: "non-mapping" },
                Call::MappingItemCount { map: self.node },
            ),
    {
        Step::Ask(
            AskCount { expected: "mapping", got: "non-mapping" },
            Call::MappingItemCount { map: self.node },
        )
    }

    /// Asks for the item at an index, counted from the end when negative.
    pub fn seq_get<'a>(&self, index: i32) -> (r: Step<
        'a,
        GetChild<'doc, 'a>,
        Option<NodeRef<'doc>>,
    >)
        ensures
            r == Step::<'a, GetChild<'doc, 'a>, Option<NodeRef<'doc>>>::Ask(
                GetChild::Typing { node: *self, child: Child::Item(index) },
                Call::NodeGetType { node: self.node },
            ),
    {
        Step::Ask(
            GetChild::Typing { node: *self, child: Child::Item(index) },
            Call::NodeGetType { node: self.node },
        )
    }

    /// The items of the sequence, one after the other.
    pub fn seq_iter(&self) -> (r: SeqIter<'doc>)
        ensures
            r == (SeqIter { seq: *self, last: 0 }),
    {
        SeqIter::new(*self)
    }

    /// Asks for the value of a key.
    pub fn map_get<'a>(&self, key: &'a str) -> (r: Step<
        'a,
        GetChild<'doc, 'a>,
        Option<NodeRef<'doc>>,
    >)
        ensures
            r == Step::<'a, GetChild<'doc, 'a>, Option<NodeRef<'doc>>>::Ask(
                GetChild::Typing { node: *self, child: Child::Value(key) },
                Call::NodeGetType { node: self.node },
            ),
    {
        Step::Ask(
            GetChild::Typing { node: *self, child: Child::Value(key) },
            Call::NodeGetType { node: self.node },
        )
    }

    /// The pairs of the mapping, one after the other.
    pub fn map_iter(&self) -> (r: MapIter<'doc>)
        ensures
            r == (MapIter { map: *self, last: 0 }),
    {
        MapIter::new(*self)
    }

    /// Asks for the node as YAML.
    pub fn emit<'a>(&self) -> (r: Step<'a, AskText, Result<Vec<u8>, Error>>)
        ensures
            r == Step::<'a, AskText, Result<Vec<u8>, Error>>::Ask(
                AskText { message: "fy_emit_node_to_string returned null" },
                Call::EmitNodeToString { node: self.node, flags: DEFAULT_EMIT_FLAGS },
            ),
    {
        Step::Ask(
            AskText { message: "fy_emit_node_to_string returned null" },
            Call::EmitNodeToString { node: self.node, flags: DEFAULT_EMIT_FLAGS },
        )
    }

    /// What is shown of a node: its YAML, or a fixed text when it could not be emitted.
    pub fn display(emitted: Result<String, Error>) -> (r: String)
        ensures
            r@ == match emitted {
                Ok(s) => s@,
                Err(_) => "<NodeRef emit error>"@,
            },
    {
        display_text(emitted, "<NodeRef emit error>")
    }
}

} // verus!
