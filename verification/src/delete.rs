//! Deleting the node at a path.

use vstd::prelude::*;

use crate::call::{Call, Reply, Session, Step};
use crate::error::Error;
use crate::find::{FindNode, PARENT_NOT_FOUND};
use crate::node::{FYNT_MAPPING, FYNT_SEQUENCE};
use crate::path::{is_index, parse_index, signed_value};
use crate::set_yaml::Target;

verus! {

/// Deletes the node at a path. The result says whether there was one: a parent that cannot be found,
/// a scalar for a parent, a key that is no index in a sequence, and a parent without such a key or
/// index all mean that there was nothing to delete. Only the root is refused.
pub enum DeleteAt<'a> {
    Finding { key: &'a str, find: FindNode<'a> },
    Typing { key: &'a str, parent: usize },
    Looking { parent: usize },
    Keying { parent: usize },
    Getting { parent: usize },
    Removing,
    Freeing,
}

impl<'a> DeleteAt<'a> {
    /// The first step of the session: the root cannot be deleted, anything else is looked for.
    pub open spec fn started(doc: usize, target: Target<'a>) -> Step<
        'a,
        Self,
        Result<bool, Error>,
    > {
        match target {
            Target::Root => Step::Done(Err(Error::Ffi("cannot delete root via delete_at"))),
            Target::Child { parent, key } => Step::Ask(
                DeleteAt::Finding {
                    key,
                    find: FindNode::Rooting { path: parent, missing: PARENT_NOT_FOUND },
                },
                Call::DocumentRoot { doc },
            ),
        }
    }

    /// Starts the session.
    pub fn start(doc: usize, path: &'a str) -> (r: Step<'a, Self, Result<bool, Error>>)
        ensures
            exists|target: Target<'a>| #[trigger]
                target.denotes(path@) && r == Self::started(doc, target),
    {
        let target = Target::of(path);
        assert(target.denotes(path@));
        match target {
            Target::Root => Step::Done(Err(Error::Ffi("cannot delete root via delete_at"))),
            Target::Child { parent, key } => Step::Ask(
                DeleteAt::Finding {
                    key,
                    find: FindNode::Rooting { path: parent, missing: PARENT_NOT_FOUND },
                },
                Call::DocumentRoot { doc },
            ),
        }
    }
}

impl<'a> Session<'a> for DeleteAt<'a> {
    type Output = Result<bool, Error>;

    open spec fn resumed(self, reply: Reply) -> Step<'a, Self, Self::Output> {
        let p = reply.pointer_spec();
        match self {
            DeleteAt::Finding { key, find } => match find.resumed(reply) {
                Step::Ask(find, call) => Step::Ask(DeleteAt::Finding { key, find }, call),
                Step::Done(Ok(parent)) => Step::Ask(
                    DeleteAt::Typing { key, parent },
                    Call::NodeGetType { node: parent },
                ),
                Step::Done(Err(_)) => Step::Done(Ok(false)),
            },
            DeleteAt::Typing { key, parent } => if reply.word_spec() == FYNT_MAPPING {
                Step::Ask(
                    DeleteAt::Looking { parent },
                    Call::MappingLookupPairByString { map: parent, name: key },
                )
            } else if reply.word_spec() == FYNT_SEQUENCE {
                if is_index(key@) {
                    Step::Ask(
                        DeleteAt::Getting { parent },
                        Call::SequenceGetByIndex { seq: parent, index: signed_value(key@) as i32 },
                    )
                } else {
                    Step::Done(Ok(false))
                }
            } else {
                Step::Done(Ok(false))
            },
            DeleteAt::Looking { parent } => if p == 0 {
                Step::Done(Ok(false))
            } else {
                Step::Ask(DeleteAt::Keying { parent }, Call::PairKey { pair: p })
            },
            DeleteAt::Keying { parent } => if p == 0 {
                Step::Done(Ok(false))
            } else {
                Step::Ask(DeleteAt::Removing, Call::MappingRemoveByKey { map: parent, key: p })
            },
            DeleteAt::Getting { parent } => if p == 0 {
                Step::Done(Ok(false))
            } else {
                Step::Ask(DeleteAt::Removing, Call::SequenceRemove { seq: parent, item: p })
            },
            DeleteAt::Removing => if p == 0 {
                Step::Done(Ok(false))
            } else {
                Step::Ask(DeleteAt::Freeing, Call::NodeFree { node: p })
            },
            DeleteAt::Freeing => Step::Done(Ok(true)),
        }
    }

    fn resume(self, reply: Reply) -> (next: Step<'a, Self, Self::Output>) {
        let p = reply.pointer();
        match self {
            DeleteAt::Finding { key, find } => match find.resume(reply) {
                Step::Ask(find, call) => Step::Ask(DeleteAt::Finding { key, find }, call),
                Step::Done(Ok(parent)) => Step::Ask(
                    DeleteAt::Typing { key, parent },
                    Call::NodeGetType { node: parent },
                ),
                Step::Done(Err(_)) => Step::Done(Ok(false)),
            },
            DeleteAt::Typing { key, parent } => {
                let kind = reply.word();
                if kind == FYNT_MAPPING {
                    Step::Ask(
                        DeleteAt::Looking { parent },
                        Call::MappingLookupPairByString { map: parent, name: key },
                    )
                } else if kind == FYNT_SEQUENCE {
                    match parse_index(key) {
                        Some(index) => Step::Ask(
                            DeleteAt::Getting { parent },
                            Call::SequenceGetByIndex { seq: parent, index },
                        ),
                        None => Step::Done(Ok(false)),
                    }
                } else {
                    Step::Done(Ok(false))
                }
            },
            DeleteAt::Looking { parent } => if p == 0 {
                Step::Done(Ok(false))
            } else {
                Step::Ask(DeleteAt::Keying { parent }, Call::PairKey { pair: p })
            },
            DeleteAt::Keying { parent } => if p == 0 {
                Step::Done(Ok(false))
            } else {
                Step::Ask(DeleteAt::Removing, Call::MappingRemoveByKey { map: parent, key: p })
            },
            DeleteAt::Getting { parent } => if p == 0 {
                Step::Done(Ok(false))
            } else {
                Step::Ask(DeleteAt::Removing, Call::SequenceRemove { seq: parent, item: p })
            },
            DeleteAt::Removing => if p == 0 {
                Step::Done(Ok(false))
            } else {
                Step::Ask(DeleteAt::Freeing, Call::NodeFree { node: p })
            },
            DeleteAt::Freeing => Step::Done(Ok(true)),
        }
    }
}

} // verus!
