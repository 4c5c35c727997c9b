//! What building a node from a snippet achieves.

use vstd::prelude::*;
use vstd::utf8::encode_utf8;

use crate::call::{Call, Reply, Session, Step};
use crate::error::Error;
use crate::handle::RawNodeHandle;
use crate::model::heap::{whole_look, Heap};
use crate::snippet::BuildFromYaml;
use crate::model::world::{lemma_runs, runs, World};

verus! {

/// What building a node from `bytes` leaves behind: the node, detached, with all that libfyaml makes
/// of the bytes, and all of the document as it was; or just the document as it was, where libfyaml
/// does not accept the bytes or memory ran out. The error is the one that libfyaml records for the
/// bytes; if it records none, it says what failed.
pub open spec fn node_built(
    h0: Heap,
    bytes: Seq<u8>,
    outcome: Result<RawNodeHandle, Error>,
    h: Heap,
) -> bool {
    match outcome {
        Ok(node) => {
            &&& !node.inserted
            &&& h0.grown(node.node, h)
            &&& (h0.snippets)(bytes) == Some(whole_look(h.nodes, node.node))
        },
        Err(e) => {
            &&& h == h0
            &&& h0.scarce || (h0.snippets)(bytes) is None
            &&& !h0.scarce ==> is_fault(h0, bytes, e)
        },
    }
}

/// Whether `e` is the error for a snippet that libfyaml does not accept.
pub open spec fn is_fault(h0: Heap, bytes: Seq<u8>, e: Error) -> bool {
    match (h0.faults)(bytes) {
        Some(first) => e == Error::ParseError(first),
        None => e == Error::Parse("fy_node_build_from_malloc_string failed"),
    }
}

/// Whether `h` is the heap from before with the snippet copied to a buffer.
spec fn copied(h0: Heap, yaml: &str, buffer: usize, h: Heap) -> bool {
    !h0.buffers.contains_key(buffer) && h == h0.with_buffer(buffer, encode_utf8(yaml@))
}

/// Whether `h` is `h1` with one more collector, if there is one; `at` is the one that the document
/// reports to.
spec fn collecting(h1: Heap, diag: usize, at: usize, h: Heap) -> bool {
    if diag == 0 {
        h1.scarce && h == (Heap { diag: at, ..h1 })
    } else {
        !h1.diags.contains_key(diag) && h == (Heap { diag: at, ..h1.with_diag(diag, None) })
    }
}

/// Whether the snippet has been copied, and a collector made for it.
spec fn prepared(h0: Heap, yaml: &str, buffer: usize, diag: usize, at: usize, h: Heap) -> bool {
    &&& !h0.buffers.contains_key(buffer)
    &&& collecting(h0.with_buffer(buffer, encode_utf8(yaml@)), diag, at, h)
}

/// Whether the build is asked for of just the snippet that was copied.
spec fn handed_over<'a>(h0: Heap, yaml: &str, diag: usize, call: Call<'a>, h: Heap) -> bool {
    &&& call matches Call::NodeBuildFromMallocString { buffer, len, .. }
    &&& len == encode_utf8(yaml@).len()
    &&& prepared(
        h0,
        yaml,
        buffer,
        diag,
        if diag == 0 {
            h0.diag
        } else {
            diag
        },
        h,
    )
}

/// Whether `h` is `h1` with a collector that is still there, or without one.
spec fn collected(h1: Heap, diag: usize, h: Heap) -> bool {
    if diag == 0 {
        h == h1
    } else {
        !h1.diags.contains_key(diag) && h == h1.with_diag(diag, h.diags[diag])
    }
}

/// The heap without what the build needed meanwhile.
spec fn settled(h0: Heap, h: Heap) -> Heap {
    Heap { diag: h0.diag, diags: h0.diags, ..h }
}

/// How far a session that builds a node from a snippet has got.
spec fn building<'a>(
    h0: Heap,
    text: &'a str,
    step: Step<'a, BuildFromYaml<'a>, Result<RawNodeHandle, Error>>,
    h: Heap,
) -> bool {
    let bytes = encode_utf8(text@);
    match step {
        Step::Done(outcome) => node_built(h0, bytes, outcome, h),
        Step::Ask(s, call) => match s {
            BuildFromYaml::Copying { yaml, .. } => call == (Call::MallocCopy { text: yaml })
                && yaml@ == text@ && h == h0,
            BuildFromYaml::MakingDiag { yaml, buffer, .. } => call is DiagCreate && yaml@ == text@
                && copied(h0, text, buffer, h),
            BuildFromYaml::ReadingDiag { yaml, buffer, diag, .. } => call is DocumentGetDiag
                && yaml@ == text@ && prepared(h0, text, buffer, diag, h0.diag, h),
            BuildFromYaml::SettingDiag { yaml, buffer, diag, original, .. } => {
                &&& call matches Call::DocumentSetDiag { diag: d, .. }
                &&& d == diag
                &&& diag != 0
                &&& yaml@ == text@
                &&& prepared(h0, text, buffer, diag, h0.diag, h)
                &&& original == h0.diag
            },
            BuildFromYaml::Building { diag, original, .. } => original == h0.diag && handed_over(
                h0,
                text,
                diag,
                call,
                h,
            ),
            BuildFromYaml::Diagnosing { original, .. } => {
                &&& call matches Call::DiagTakeFirst { diag }
                &&& original == h0.diag
                &&& diag != 0
                &&& !h0.diags.contains_key(diag)
                &&& h == (Heap { diag, ..h0.with_diag(diag, h.diags[diag]) })
                &&& !h0.scarce ==> h.diags[diag] == (h0.faults)(bytes)
                &&& h0.scarce || (h0.snippets)(bytes) is None
            },
            BuildFromYaml::Restoring { diag, outcome } => {
                &&& call matches Call::DocumentSetDiag { diag: d, .. }
                &&& d == h0.diag
                &&& node_built(h0, bytes, outcome, settled(h0, h))
                &&& collected(settled(h0, h), diag, Heap { diag: h0.diag, ..h })
            },
            BuildFromYaml::Dropping { outcome } => {
                &&& call matches Call::DiagDestroy { diag }
                &&& diag != 0
                &&& node_built(h0, bytes, outcome, settled(h0, h))
                &&& collected(settled(h0, h), diag, h)
            },
        },
    }
}

proof fn lemma_building<'a>(
    h0: Heap,
    text: &'a str,
    s: BuildFromYaml<'a>,
    call: Call<'a>,
    h: Heap,
    reply: Reply,
    after: Heap,
)
    requires
        encode_utf8(text@).len() <= usize::MAX,
        building(h0, text, Step::Ask(s, call), h),
        h.performs(call, reply, after),
    ensures
        building(h0, text, s.resumed(reply), after),
{
    let bytes = encode_utf8(text@);
    match s {
        BuildFromYaml::Building { diag, .. } => {
            if let Call::NodeBuildFromMallocString { .. } = call {
                lemma_built(h0, text, s, diag, call, h, reply, after);
            }
        },
        BuildFromYaml::Diagnosing { .. } => {
            if let Call::DiagTakeFirst { diag } = call {
                assert(h0.diags.insert(diag, h.diags[diag]).remove(diag) =~= h0.diags);
                assert(settled(h0, after) == h0);
            }
        },
        BuildFromYaml::Restoring { diag, .. } => {
            assert(after == (Heap { diag: h0.diag, ..h }));
            assert(settled(h0, after) == settled(h0, h));
            if diag == 0 {
                assert(after == settled(h0, after));
            }
        },
        BuildFromYaml::Dropping { .. } => {
            if let Call::DiagDestroy { diag } = call {
                assert(h0.diags.insert(diag, h.diags[diag]).remove(diag) =~= h0.diags);
                assert(after == settled(h0, h));
            }
        },
        _ => {},
    }
}

proof fn lemma_built<'a>(
    h0: Heap,
    text: &'a str,
    s: BuildFromYaml<'a>,
    diag: usize,
    call: Call<'a>,
    h: Heap,
    reply: Reply,
    after: Heap,
)
    requires
        encode_utf8(text@).len() <= usize::MAX,
        s matches BuildFromYaml::Building { diag: d, .. } && d == diag,
        building(h0, text, Step::Ask(s, call), h),
        h.performs(call, reply, after),
    ensures
        building(h0, text, s.resumed(reply), after),
{
    let bytes = encode_utf8(text@);
    let node = reply.pointer_spec();
    if let Call::NodeBuildFromMallocString { buffer, len, .. } = call {
        let rest = h.without_buffer(buffer);
        assert(h.buffers[buffer].take(len as int) =~= bytes);
        assert(rest.buffers =~= h0.buffers);
        assert(settled(h0, rest) == h0);
        if node != 0 {
            let restored = settled(h0, after);
            assert(rest.grown(node, after));
            after.lemma_same_trees(restored);
            rest.lemma_same_trees(h0);
            assert forall|m: usize| #[trigger] h0.has(m) implies restored.has(m)
                && restored.nodes[m] == h0.nodes[m] by {
                assert(rest.has(m));
            }
            assert forall|m: usize| #[trigger] restored.has(m) implies h0.has(m) || restored.below(
                node,
                m,
            ) by {
                assert(after.has(m));
                assert(rest.has(m) || after.below(node, m));
            }
            assert(!rest.has(node));
            assert(h0.grown(node, restored));
        } else if diag == 0 {
            assert(settled(h0, after) == h0);
        } else {
            assert(after.diags =~= h0.diags.insert(diag, after.diags[diag]));
        }
    }
}

/// Building a node adds one detached tree and changes nothing else, and the tree looks as libfyaml
/// reads the snippet. A snippet that cannot be built leaves no trace. Unless memory runs out, a node
/// comes of exactly the snippets that libfyaml accepts, and for any other the error is the one that it
/// records. Either way the document reports to its own collector again.
pub proof fn law_build_from_yaml<'a>(
    doc: usize,
    yaml: &'a str,
    h0: Heap,
    trace: Seq<(Reply, Heap)>,
    result: Result<RawNodeHandle, Error>,
    end: Heap,
)
    requires
        encode_utf8(yaml@).len() <= usize::MAX,
        runs(BuildFromYaml::started(doc, yaml), h0, trace, result, end),
    ensures
        node_built(h0, encode_utf8(yaml@), result, end),
        result is Ok ==> (h0.snippets)(encode_utf8(yaml@)) is Some,
        !h0.scarce ==> (result is Ok <==> (h0.snippets)(encode_utf8(yaml@)) is Some),
        !h0.scarce ==> (result matches Err(e) ==> match (h0.faults)(encode_utf8(yaml@)) {
            Some(first) => e == Error::ParseError(first),
            None => e == Error::Parse("fy_node_build_from_malloc_string failed"),
        }),
        end.diag == h0.diag,
{
    let inv = |step: Step<'a, BuildFromYaml<'a>, Result<RawNodeHandle, Error>>, h: Heap|
        building(h0, yaml, step, h);
    assert forall|
        s: BuildFromYaml<'a>,
        call: Call<'a>,
        before: Heap,
        reply: Reply,
        after: Heap,
    |
        inv(Step::Ask(s, call), before) && #[trigger] before.performs(call, reply, after) implies inv(
        #[trigger] s.resumed(reply),
        after,
    ) by {
        lemma_building(h0, yaml, s, call, before, reply, after);
    }
    lemma_runs(inv, BuildFromYaml::started(doc, yaml), h0, trace, result, end);
}

} // verus!
