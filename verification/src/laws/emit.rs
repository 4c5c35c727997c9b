//! What emitting a document achieves.

use vstd::prelude::*;
use vstd::utf8::{decode_utf8, pop_first_scalar, valid_utf8, valid_utf8_concat};

use crate::call::{Call, Reply, Session, Step};
use crate::document::Document;
use crate::emitter::{
    are_events_of, is_event_of, EmitEvent, EmitEvents, Emitter, Extended, DEFAULT_EMIT_FLAGS,
    FYECF_EXTENDED_CFG,
};
use crate::error::Error;
use crate::model::press::{before_zero, is_text, joined, lemma_before_zero, seen, Press};
use crate::model::world::{lemma_runs, runs, World};
use crate::node_ref::AskText;
use crate::text::is_emitted_text;

verus! {

/// Bytes that are valid one after the other decode to one text after the other.
proof fn lemma_decode_joined(a: Seq<u8>, b: Seq<u8>)
    requires
        valid_utf8(a),
        valid_utf8(b),
    ensures
        valid_utf8(a + b),
        decode_utf8(a + b) == decode_utf8(a) + decode_utf8(b),
    decreases a.len(),
{
    valid_utf8_concat(a, b);
    if a.len() == 0 {
        assert(a + b =~= b);
    } else {
        lemma_decode_joined(pop_first_scalar(a), b);
        assert(pop_first_scalar(a + b) =~= pop_first_scalar(a) + b);
    }
}

/// The contents of events, one after the other.
pub open spec fn contents(events: Seq<EmitEvent>) -> Seq<char>
    decreases events.len(),
{
    if events.len() == 0 {
        Seq::empty()
    } else {
        events[0].content@ + contents(events.drop_first())
    }
}

/// The events of an emission make up the text that was written, provided that every piece is valid
/// UTF-8.
pub proof fn law_events_join(pieces: Seq<(u32, Vec<u8>)>, events: Seq<EmitEvent>)
    requires
        forall|i: int| 0 <= i < pieces.len() ==> valid_utf8((#[trigger] seen(pieces)[i]).1),
        are_events_of(pieces, events),
    ensures
        valid_utf8(joined(seen(pieces))),
        contents(events) == decode_utf8(joined(seen(pieces))),
    decreases pieces.len(),
{
    if pieces.len() > 0 {
        let rest = pieces.drop_first();
        assert(seen(pieces).drop_first() =~= seen(rest));
        assert forall|i: int| 0 <= i < seen(rest).len() implies valid_utf8(
            (#[trigger] seen(rest)[i]).1,
        ) by {
            assert(seen(rest)[i] == seen(pieces)[i + 1]);
        }
        law_events_join(rest, events.drop_first());
        assert(valid_utf8(seen(pieces)[0].1));
        assert(is_event_of(pieces[0], events[0]));
        lemma_decode_joined(pieces[0].1@, joined(seen(rest)));
    }
}

/// What libfyaml writes for the document of an emitter under its settings.
pub open spec fn written(w: Press, emitter: Emitter) -> Option<Seq<(u32, Seq<u8>)>> {
    if emitter.extended.indented_seq_in_map || emitter.extended.preserve_flow_layout {
        (w.prints)(emitter.doc.ptr, emitter.flags | 128, Some(emitter.extended))
    } else {
        (w.prints)(emitter.doc.ptr, emitter.flags, None)
    }
}

/// An emission hands out the pieces that libfyaml writes under the settings of the emitter, and
/// fails only where libfyaml cannot emit the document. The pieces of a document that holds nothing
/// but text are text. No emitter is left over.
pub proof fn law_emit_events<'a, 'doc>(
    emitter: Emitter<'doc>,
    w: Press,
    trace: Seq<(Reply, Press)>,
    result: Result<Vec<(u32, Vec<u8>)>, Error>,
    end: Press,
)
    requires
        !w.scarce,
        runs(emitter.emission::<'a>(), w, trace, result, end),
    ensures
        end == w,
        match result {
            Ok(pieces) => written(w, emitter) == Some(seen(pieces@)) && ((w.textual)(
                emitter.doc.ptr,
            ) ==> is_text(seen(pieces@))),
            Err(e) => written(w, emitter) is None && e == Error::Ffi("fy_emit_document failed"),
        },
{
    let setup = if emitter.extended.any_spec() {
        (emitter.flags | FYECF_EXTENDED_CFG, Some(emitter.extended))
    } else {
        (emitter.flags, None::<Extended>)
    };
    let with = |e: usize| Press { emitters: w.emitters.insert(e, setup), ..w };
    let fits = |r: Result<Vec<(u32, Vec<u8>)>, Error>|
        match r {
            Ok(pieces) => written(w, emitter) == Some(seen(pieces@)) && ((w.textual)(
                emitter.doc.ptr,
            ) ==> is_text(seen(pieces@))),
            Err(e) => written(w, emitter) is None && e == Error::Ffi("fy_emit_document failed"),
        };
    let inv = |step: Step<'a, EmitEvents, Result<Vec<(u32, Vec<u8>)>, Error>>, v: Press|
        match step {
            Step::Ask(EmitEvents::Creating { doc }, call) => v == w && step
                == emitter.emission::<'a>(),
            Step::Ask(EmitEvents::Emitting { emitter: e }, call) => v == with(e)
                && !w.emitters.contains_key(e) && call == Call::EmitDocument {
                emitter: e,
                doc: emitter.doc.ptr,
            },
            Step::Ask(EmitEvents::Destroying { outcome }, call) => fits(outcome) && (
            call matches Call::EmitterDestroy { emitter: e } && v == with(e)
                && !w.emitters.contains_key(e)),
            Step::Done(r) => v == w && fits(r),
        };
    assert forall|s: EmitEvents, call: Call<'a>, before: Press, reply: Reply, after: Press|
        inv(Step::Ask(s, call), before) && #[trigger] before.performs(call, reply, after) implies inv(
        #[trigger] s.resumed(reply),
        after,
    ) by {
        if let Call::EmitterDestroy { emitter: e } = call {
            assert(with(e).emitters.remove(e) =~= w.emitters);
        }
    }
    lemma_runs(inv, emitter.emission::<'a>(), w, trace, result, end);
}

/// The first step of emitting the document at `doc` to a string.
pub open spec fn emitting<'a>(doc: usize, message: &'static str) -> Step<
    'a,
    AskText,
    Result<Vec<u8>, Error>,
> {
    Step::Ask(
        AskText { message },
        Call::EmitDocumentToString { doc, flags: DEFAULT_EMIT_FLAGS },
    )
}

/// Emitting a document to a string gives what libfyaml writes under the default settings, up to the
/// first zero byte, which a document that holds nothing but text has none of. It fails only where
/// libfyaml cannot emit the document.
pub proof fn law_emit<'a>(
    doc: Document,
    message: &'static str,
    w: Press,
    trace: Seq<(Reply, Press)>,
    result: Result<Vec<u8>, Error>,
    end: Press,
)
    requires
        !w.scarce,
        runs(emitting::<'a>(doc.ptr, message), w, trace, result, end),
    ensures
        end == w,
        match (w.prints)(doc.ptr, 2, None) {
            Some(pieces) => result matches Ok(bytes) && bytes@ == before_zero(joined(pieces)) && ((
            w.textual)(doc.ptr) ==> is_text(pieces) && bytes@ == joined(pieces)),
            None => result == Err::<Vec<u8>, Error>(Error::Ffi(message)),
        },
{
    let start = emitting::<'a>(doc.ptr, message);
    let inv = |step: Step<'a, AskText, Result<Vec<u8>, Error>>, v: Press|
        v == w && match step {
            Step::Ask(_, _) => step == start,
            Step::Done(r) => match (w.prints)(doc.ptr, 2, None) {
                Some(pieces) => r matches Ok(bytes) && bytes@ == before_zero(joined(pieces)) && ((
                w.textual)(doc.ptr) ==> is_text(pieces)),
                None => r == Err::<Vec<u8>, Error>(Error::Ffi(message)),
            },
        };
    lemma_runs(inv, start, w, trace, result, end);
    if let Some(pieces) = (w.prints)(doc.ptr, 2, None) {
        if (w.textual)(doc.ptr) {
            lemma_before_zero(joined(pieces));
        }
    }
}

/// What a default emitter and an emission to a string make of a document that holds nothing but text:
/// both succeed or both fail, the contents of the events make up the text, and emitting the document
/// piece by piece once more, or to a string, gives the same again. Nothing changes on the way.
pub proof fn law_events_make_up_text<'a, 'doc>(
    emitter: Emitter<'doc>,
    message: &'static str,
    worlds: (Press, Press, Press, Press, Press),
    traces: (
        Seq<(Reply, Press)>,
        Seq<(Reply, Press)>,
        Seq<(Reply, Press)>,
        Seq<(Reply, Press)>,
    ),
    before: (Result<Vec<u8>, Error>, Result<String, Error>),
    first: Result<Vec<(u32, Vec<u8>)>, Error>,
    second: Result<Vec<(u32, Vec<u8>)>, Error>,
    after: (Result<Vec<u8>, Error>, Result<String, Error>),
)
    requires
        !worlds.0.scarce,
        (worlds.0.textual)(emitter.doc.ptr),
        emitter.flags == DEFAULT_EMIT_FLAGS,
        !emitter.extended.any_spec(),
        runs(emitting::<'a>(emitter.doc.ptr, message), worlds.0, traces.0, before.0, worlds.1),
        is_emitted_text(before.0, before.1),
        runs(emitter.emission::<'a>(), worlds.1, traces.1, first, worlds.2),
        runs(emitter.emission::<'a>(), worlds.2, traces.2, second, worlds.3),
        runs(emitting::<'a>(emitter.doc.ptr, message), worlds.3, traces.3, after.0, worlds.4),
        is_emitted_text(after.0, after.1),
    ensures
        first is Ok <==> before.1 is Ok,
        second is Ok <==> first is Ok,
        after.1 is Ok <==> first is Ok,
        first matches Ok(pieces) ==> {
            &&& second matches Ok(same) && seen(same@) == seen(pieces@)
            &&& forall|events: Seq<EmitEvent>| #[trigger]
                are_events_of(pieces@, events) ==> (before.1 matches Ok(text) && text@ == contents(
                    events,
                )) && (after.1 matches Ok(text) && text@ == contents(events))
        },
        worlds.4 == worlds.0,
{
    law_emit(*emitter.doc, message, worlds.0, traces.0, before.0, worlds.1);
    law_emit_events(emitter, worlds.1, traces.1, first, worlds.2);
    law_emit_events(emitter, worlds.2, traces.2, second, worlds.3);
    law_emit(*emitter.doc, message, worlds.3, traces.3, after.0, worlds.4);
    if let Ok(pieces) = first {
        assert forall|events: Seq<EmitEvent>| #[trigger] are_events_of(pieces@, events) implies (
        before.1 matches Ok(text) && text@ == contents(events)) && (after.1 matches Ok(text)
            && text@ == contents(events)) by {
            law_events_join(pieces@, events);
        }
    }
}

} // verus!
