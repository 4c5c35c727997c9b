//! Editing documents.

use vstd::prelude::*;

use crate::assemble::{Attach, MapInsert, SeqAppendAt};
use crate::call::{Call, Step};
use crate::delete::DeleteAt;
use crate::document::Document;
use crate::error::Error;
use crate::handle::RawNodeHandle;
use crate::make::{MakeNode, SetStyle, SetTag};
use crate::node::NodeStyle;
use crate::node_ref::{Lookup, LookupAt, NodeRef};
use crate::set_yaml::{SetYamlAt, Target};
use crate::snippet::BuildFromYaml;
use crate::sort::{SortAt, SortKind};

verus! {

/// Exclusive access to a document. While it lasts no node of the document can be referred to from
/// before.
pub struct Editor<'doc> {
    pub doc: &'doc mut Document,
}

impl<'doc> Editor<'doc> {
    /// The document as it stands.
    pub open spec fn doc_spec(self) -> Document {
        *self.doc
    }

    /// Address of the document.
    pub open spec fn doc_ptr_spec(self) -> usize {
        self.doc_spec().ptr
    }

    /// Borrows a document for editing.
    pub fn new(doc: &'doc mut Document) -> (r: Self)
        ensures
            r.doc_spec() == *old(doc),
            *final(r.doc) == *final(doc),
    {
        Editor { doc }
    }

    /// Address of the document.
    pub fn doc_ptr(&self) -> (r: usize)
        ensures
            r == self.doc_ptr_spec(),
    {
        self.doc.ptr
    }

    /// Asks for the root, to read it while editing.
    pub fn root<'a, 's>(&'s self) -> (r: Step<'a, Lookup<'s>, Option<NodeRef<'s>>>)
        ensures
            r == Step::<'a, Lookup<'s>, Option<NodeRef<'s>>>::Ask(
                Lookup { doc: &self.doc_spec() },
                Call::DocumentRoot { doc: self.doc_ptr_spec() },
            ),
    {
        Step::Ask(Lookup { doc: &*self.doc }, Call::DocumentRoot { doc: self.doc.ptr })
    }

    /// Follows a path from the root, to read a node while editing.
    pub fn at_path<'a, 's>(&'s self, path: &'a str) -> (r: Step<
        'a,
        LookupAt<'s, 'a>,
        Option<NodeRef<'s>>,
    >)
        ensures
            r == Step::<'a, LookupAt<'s, 'a>, Option<NodeRef<'s>>>::Ask(
                LookupAt::Rooting { doc: &self.doc_spec(), path },
                Call::DocumentRoot { doc: self.doc_ptr_spec() },
            ),
    {
        Step::Ask(
            LookupAt::Rooting { doc: &*self.doc, path },
            Call::DocumentRoot { doc: self.doc.ptr },
        )
    }

    /// Sets the value at a path from a YAML snippet: the root, the value of a key, which is added if
    /// need be, or the item at an index.
    pub fn set_yaml_at<'a>(&mut self, path: &'a str, yaml: &'a str) -> (r: Step<
        'a,
        SetYamlAt<'a>,
        Result<(), Error>,
    >)
        ensures
            exists|target: Target<'a>| #[trigger]
                target.denotes(path@) && r == SetYamlAt::started(old(self).doc_ptr_spec(), target, yaml),
            *final(self) == *old(self),
    {
        SetYamlAt::start(self.doc_ptr(), path, yaml)
    }

    /// Deletes the pair or item at a path; the result says whether there was one.
    pub fn delete_at<'a>(&mut self, path: &'a str) -> (r: Step<
        'a,
        DeleteAt<'a>,
        Result<bool, Error>,
    >)
        ensures
            exists|target: Target<'a>| #[trigger]
                target.denotes(path@) && r == DeleteAt::started(old(self).doc_ptr_spec(), target),
            *final(self) == *old(self),
    {
        DeleteAt::start(self.doc_ptr(), path)
    }

    /// Builds a detached node from a YAML snippet.
    pub fn build_from_yaml<'a>(&mut self, yaml: &'a str) -> (r: Step<
        'a,
        BuildFromYaml<'a>,
        Result<RawNodeHandle, Error>,
    >)
        ensures
            r == BuildFromYaml::started(old(self).doc_ptr_spec(), yaml),
            *final(self) == *old(self),
    {
        BuildFromYaml::start(self.doc_ptr(), yaml)
    }

    /// Builds a detached scalar; libfyaml picks the style.
    pub fn build_scalar<'a>(&mut self, value: &'a str) -> (r: Step<
        'a,
        MakeNode,
        Result<RawNodeHandle, Error>,
    >)
        ensures
            r == Step::<'a, MakeNode, Result<RawNodeHandle, Error>>::Ask(
                MakeNode { message: "fy_node_create_scalar_copy failed" },
                Call::NodeCreateScalarCopy { doc: old(self).doc_ptr_spec(), text: value },
            ),
            *final(self) == *old(self),
    {
        Step::Ask(
            MakeNode { message: "fy_node_create_scalar_copy failed" },
            Call::NodeCreateScalarCopy { doc: self.doc_ptr(), text: value },
        )
    }

    /// Builds a detached sequence without items.
    pub fn build_sequence<'a>(&mut self) -> (r: Step<'a, MakeNode, Result<RawNodeHandle, Error>>)
        ensures
            r == Step::<'a, MakeNode, Result<RawNodeHandle, Error>>::Ask(
                MakeNode { message: "fy_node_create_sequence failed" },
                Call::NodeCreateSequence { doc: old(self).doc_ptr_spec() },
            ),
            *final(self) == *old(self),
    {
        Step::Ask(
            MakeNode { message: "fy_node_create_sequence failed" },
            Call::NodeCreateSequence { doc: self.doc_ptr() },
        )
    }

    /// Builds a detached mapping without pairs.
    pub fn build_mapping<'a>(&mut self) -> (r: Step<'a, MakeNode, Result<RawNodeHandle, Error>>)
        ensures
            r == Step::<'a, MakeNode, Result<RawNodeHandle, Error>>::Ask(
                MakeNode { message: "fy_node_create_mapping failed" },
                Call::NodeCreateMapping { doc: old(self).doc_ptr_spec() },
            ),
            *final(self) == *old(self),
    {
        Step::Ask(
            MakeNode { message: "fy_node_create_mapping failed" },
            Call::NodeCreateMapping { doc: self.doc_ptr() },
        )
    }

    /// Makes a detached node the root. The tree that was there is freed.
    pub fn set_root<'a>(&mut self, node: RawNodeHandle) -> (r: Step<'a, Attach, Result<(), Error>>)
        ensures
            r == Attach::rooting(old(self).doc_ptr_spec(), node),
            *final(self) == *old(self),
    {
        Attach::root(self.doc_ptr(), node)
    }

    /// Copies a node, of this document or another.
    pub fn copy_node<'a>(&mut self, source: NodeRef<'_>) -> (r: Step<
        'a,
        MakeNode,
        Result<RawNodeHandle, Error>,
    >)
        ensures
            r == Step::<'a, MakeNode, Result<RawNodeHandle, Error>>::Ask(
                MakeNode { message: "fy_node_copy failed" },
                Call::NodeCopy { doc: old(self).doc_ptr_spec(), source: source.node },
            ),
            *final(self) == *old(self),
    {
        Step::Ask(
            MakeNode { message: "fy_node_copy failed" },
            Call::NodeCopy { doc: self.doc_ptr(), source: source.node },
        )
    }

    /// Appends a detached node to a detached sequence.
    pub fn seq_append<'a>(&mut self, seq: &RawNodeHandle, item: RawNodeHandle) -> (r: Step<
        'a,
        Attach,
        Result<(), Error>,
    >)
        ensures
            r == Attach::appending(seq.node, item),
            *final(self) == *old(self),
    {
        Attach::append(seq.node, item)
    }

    /// Puts a detached key and value into a detached mapping. A key that the mapping has already is
    /// refused.
    pub fn map_insert<'a>(
        &mut self,
        map: &RawNodeHandle,
        key: RawNodeHandle,
        value: RawNodeHandle,
    ) -> (r: Step<
        'a,
        MapInsert,
        Result<(), Error>,
    >)
        ensures
            r == MapInsert::started(map.node, key, value),
            *final(self) == *old(self),
    {
        MapInsert::start(map.node, key, value)
    }

    /// Asks for a style for a detached node; the result is the style that libfyaml settled on.
    pub fn set_style<'a>(&mut self, node: &RawNodeHandle, style: NodeStyle) -> (r: Step<
        'a,
        SetStyle,
        NodeStyle,
    >)
        ensures
            r == Step::<'a, SetStyle, NodeStyle>::Ask(
                SetStyle,
                Call::NodeSetStyle { node: node.node, style: style.raw_spec() },
            ),
            *final(self) == *old(self),
    {
        Step::Ask(SetStyle, Call::NodeSetStyle { node: node.node, style: style.raw() })
    }

    /// Sets the tag of a detached node. libfyaml does not copy the tag: its text has to stay where it
    /// is as long as the node is in use.
    pub fn set_tag<'a>(&mut self, node: &RawNodeHandle, tag: &'a str) -> (r: Step<
        'a,
        SetTag,
        Result<(), Error>,
    >)
        ensures
            r == Step::<'a, SetTag, Result<(), Error>>::Ask(
                SetTag,
                Call::NodeSetTag { node: node.node, tag },
            ),
            *final(self) == *old(self),
    {
        Step::Ask(SetTag, Call::NodeSetTag { node: node.node, tag })
    }

    /// Builds a detached null scalar. It goes through the parser, which alone marks a scalar as null.
    pub fn build_null<'a>(&mut self) -> (r: Step<
        'a,
        BuildFromYaml<'a>,
        Result<RawNodeHandle, Error>,
    >)
        ensures
            r == BuildFromYaml::started(old(self).doc_ptr_spec(), "null"),
            *final(self) == *old(self),
    {
        BuildFromYaml::start(self.doc_ptr(), "null")
    }

    /// Appends a detached node to the sequence at a path.
    pub fn seq_append_at<'a>(&mut self, path: &'a str, item: RawNodeHandle) -> (r: Step<
        'a,
        SeqAppendAt<'a>,
        Result<(), Error>,
    >)
        ensures
            r == SeqAppendAt::started(old(self).doc_ptr_spec(), path, item),
            *final(self) == *old(self),
    {
        SeqAppendAt::start(self.doc_ptr(), path, item)
    }

    /// Sorts the pairs of the mapping at a path. The comparator is the caller's; libfyaml calls
    /// it.
    pub fn sort_mapping_at<'a>(&mut self, path: &'a str) -> (r: Step<
        'a,
        SortAt<'a>,
        Result<(), Error>,
    >)
        ensures
            r == SortAt::started(old(self).doc_ptr_spec(), path, SortKind::Mapping),
            *final(self) == *old(self),
    {
        SortAt::start(self.doc_ptr(), path, SortKind::Mapping)
    }

    /// Sorts the pairs of every mapping under the node at a path. The comparator is the caller's; libfyaml calls
    /// it.
    pub fn sort_at<'a>(&mut self, path: &'a str) -> (r: Step<'a, SortAt<'a>, Result<(), Error>>)
        ensures
            r == SortAt::started(old(self).doc_ptr_spec(), path, SortKind::Tree),
            *final(self) == *old(self),
    {
        SortAt::start(self.doc_ptr(), path, SortKind::Tree)
    }

    /// Sorts the items of the sequence at a path. The comparator is the caller's; libfyaml calls
    /// it.
    pub fn sort_sequence_at<'a>(&mut self, path: &'a str) -> (r: Step<
        'a,
        SortAt<'a>,
        Result<(), Error>,
    >)
        ensures
            r == SortAt::started(old(self).doc_ptr_spec(), path, SortKind::Sequence),
            *final(self) == *old(self),
    {
        SortAt::start(self.doc_ptr(), path, SortKind::Sequence)
    }
}

} // verus!
