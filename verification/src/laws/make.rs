//! What making and dressing detached nodes achieves.

use vstd::prelude::*;

use crate::call::{Call, Reply, Session, Step};
use crate::error::Error;
use crate::handle::RawNodeHandle;
use crate::make::{MakeNode, SetStyle, SetTag};
use crate::model::heap::{is_local_tag, look_alike, segments, Body, Heap};
use crate::model::world::{lemma_runs, runs, World};
use crate::node::{node_style, NodeStyle};

verus! {

/// Whether a call makes a node.
pub open spec fn makes_node(call: Call) -> bool {
    call is NodeCreateScalarCopy || call is NodeCreateSequence || call is NodeCreateMapping
        || call is NodeCopy
}

/// Whether the node at `n` is what a call that makes one was asked for.
pub open spec fn node_made(call: Call, h0: Heap, n: usize, h: Heap) -> bool {
    match call {
        Call::NodeCreateScalarCopy { text, .. } => h.body(n) == Body::Scalar(text@),
        Call::NodeCreateSequence { .. } => h.body(n) == Body::Sequence(Seq::empty()),
        Call::NodeCreateMapping { .. } => h.body(n) == Body::Mapping(Seq::empty()),
        Call::NodeCopy { source, .. } => look_alike(
            h0.nodes_around(source),
            source,
            h.nodes,
            n,
        ),
        _ => false,
    }
}

/// What a session that makes a node leaves behind: the node, detached, and all of the document as it
/// was; or just the document as it was.
pub open spec fn node_added(h0: Heap, outcome: Result<RawNodeHandle, Error>, h: Heap) -> bool {
    match outcome {
        Ok(node) => !node.inserted && h0.grown(node.node, h),
        Err(_) => h == h0,
    }
}

/// Making a node adds one detached tree and changes nothing else: a scalar with the given text, an
/// empty sequence, an empty mapping, or a tree that looks like the one it is a copy of. When it fails
/// nothing changes. Unless memory runs out, making a scalar or an empty container cannot fail.
pub proof fn law_make_node<'a>(
    message: &'static str,
    call: Call<'a>,
    h0: Heap,
    trace: Seq<(Reply, Heap)>,
    result: Result<RawNodeHandle, Error>,
    end: Heap,
)
    requires
        makes_node(call),
        h0.covers(call),
        runs(Step::Ask(MakeNode { message }, call), h0, trace, result, end),
    ensures
        node_added(h0, result, end),
        result matches Ok(node) ==> node_made(call, h0, node.node, end),
        result is Err ==> h0.scarce || call is NodeCopy,
        result matches Err(e) ==> e == Error::Ffi(message),
        trace.len() == 1,
        result is Ok <==> trace[0].0.pointer_spec() != 0,
        result matches Ok(node) ==> node.node == trace[0].0.pointer_spec(),
{
    let inv = |step: Step<'a, MakeNode, Result<RawNodeHandle, Error>>, h: Heap|
        match step {
            Step::Ask(m, c) => c == call && h == h0,
            Step::Done(r) => {
                &&& node_added(h0, r, h)
                &&& r matches Ok(node) ==> node_made(call, h0, node.node, h)
                &&& r is Err ==> h0.scarce || call is NodeCopy
            },
        };
    let start = Step::<'a, MakeNode, Result<RawNodeHandle, Error>>::Ask(
        MakeNode { message },
        call,
    );
    lemma_runs(inv, start, h0, trace, result, end);
    lemma_one_call(start, h0, trace, result, end);
}

/// Making a node takes one call, and its reply decides.
proof fn lemma_one_call<'a>(
    step: Step<'a, MakeNode, Result<RawNodeHandle, Error>>,
    h0: Heap,
    trace: Seq<(Reply, Heap)>,
    result: Result<RawNodeHandle, Error>,
    end: Heap,
)
    requires
        step is Ask,
        runs(step, h0, trace, result, end),
    ensures
        trace.len() == 1,
        step matches Step::Ask(s, _) && Session::<'a>::resumed(s, trace[0].0) == Step::<
            'a,
            MakeNode,
            Result<RawNodeHandle, Error>,
        >::Done(result),
{
    reveal_with_fuel(runs, 2);
}

/// A copy reads like what it was copied from: every path leads to things that look alike, or nowhere
/// in both, whether its steps are plain or libfyaml goes its own way.
pub proof fn law_copy_reads<'a>(
    doc: usize,
    message: &'static str,
    source: usize,
    origin: Heap,
    h0: Heap,
    trace: Seq<(Reply, Heap)>,
    node: RawNodeHandle,
    end: Heap,
    path: Seq<char>,
)
    requires
        h0.well_formed(),
        origin.well_formed(),
        origin.has(source),
        origin.same_rules(h0),
        h0.has(source) ==> origin == h0,
        !h0.has(source) ==> h0.foreign == origin.nodes,
        runs(
            Step::<'a, MakeNode, Result<RawNodeHandle, Error>>::Ask(
                MakeNode { message },
                Call::NodeCopy { doc, source },
            ),
            h0,
            trace,
            Ok(node),
            end,
        ),
    ensures
        origin.twins(
            origin.walk(source, segments(path)),
            end,
            end.walk(node.node, segments(path)),
        ),
        origin.decides(source, segments(path)) == end.decides(node.node, segments(path)),
        origin.twins(origin.lead(source, path), end, end.lead(node.node, path)),
{
    law_make_node(message, Call::NodeCopy { doc, source }, h0, trace, Ok(node), end);
    origin.lemma_walk_alike(source, end, node.node, segments(path));
    origin.lemma_lead_alike(source, end, node.node, path);
}

/// Setting a style reports the style that the node has afterwards: the one that was asked for if
/// libfyaml grants it, or the one it had. Nothing else changes.
pub proof fn law_set_style<'a>(
    node: usize,
    style: NodeStyle,
    h0: Heap,
    trace: Seq<(Reply, Heap)>,
    result: NodeStyle,
    end: Heap,
)
    requires
        h0.has(node),
        runs(
            Step::<'a, SetStyle, NodeStyle>::Ask(
                SetStyle,
                Call::NodeSetStyle { node, style: style.raw_spec() },
            ),
            h0,
            trace,
            result,
            end,
        ),
    ensures
        end == h0.with_style(node, h0.settled_style(node, style.raw_spec())),
        result == node_style(end.nodes[node].style),
        result == if (h0.grants)(h0.nodes[node], style.raw_spec()) {
            style
        } else {
            node_style(h0.nodes[node].style)
        },
{
    let start = Step::<'a, SetStyle, NodeStyle>::Ask(
        SetStyle,
        Call::NodeSetStyle { node, style: style.raw_spec() },
    );
    let inv = |step: Step<'a, SetStyle, NodeStyle>, h: Heap|
        match step {
            Step::Ask(_, _) => step == start && h == h0,
            Step::Done(r) => {
                &&& h == h0.with_style(node, h0.settled_style(node, style.raw_spec()))
                &&& r == node_style(h.nodes[node].style)
                &&& r == if (h0.grants)(h0.nodes[node], style.raw_spec()) {
                    style
                } else {
                    node_style(h0.nodes[node].style)
                }
            },
        };
    lemma_runs(inv, start, h0, trace, result, end);
}

/// What setting a tag leaves behind: the node with a tag, and nothing else changed; or, on an error,
/// everything as it was. A local tag is taken, unless memory runs out; it reads as it was
/// written but for its mark, which is replaced by what it stands for.
pub open spec fn tagged(
    h0: Heap,
    node: usize,
    tag: Seq<char>,
    result: Result<(), Error>,
    h: Heap,
) -> bool {
    match result {
        Ok(_) => {
            &&& h.nodes[node].tag is Some
            &&& h == h0.with_tag(node, h.nodes[node].tag->0)
            &&& is_local_tag(tag) ==> h.nodes[node].tag == Some(h0.local + tag.skip(1))
        },
        Err(e) => h == h0 && (is_local_tag(tag) ==> h0.scarce) && e == Error::Ffi(
            "fy_node_set_tag failed",
        ),
    }
}

/// Setting a tag changes the tag and nothing else, or nothing at all. Where the mark of a local tag
/// stands for itself, the node has the very tag that was set.
pub proof fn law_set_tag<'a>(
    node: usize,
    tag: &'a str,
    h0: Heap,
    trace: Seq<(Reply, Heap)>,
    result: Result<(), Error>,
    end: Heap,
)
    requires
        h0.has(node),
        runs(Step::Ask(SetTag, Call::NodeSetTag { node, tag }), h0, trace, result, end),
    ensures
        tagged(h0, node, tag@, result, end),
        result is Ok && is_local_tag(tag@) && h0.local == seq!['!'] ==> end.nodes[node].tag == Some(
            tag@,
        ),
{
    let start = Step::Ask(SetTag, Call::NodeSetTag { node, tag });
    let inv = |step: Step<'a, SetTag, Result<(), Error>>, h: Heap|
        match step {
            Step::Ask(_, _) => step == start && h == h0,
            Step::Done(r) => tagged(h0, node, tag@, r, h),
        };
    lemma_runs(inv, start, h0, trace, result, end);
    if is_local_tag(tag@) {
        assert(seq!['!'] + tag@.skip(1) =~= tag@);
    }
}

} // verus!
