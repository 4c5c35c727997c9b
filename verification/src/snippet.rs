//! Building a node from a YAML snippet.

use vstd::prelude::*;

use crate::call::{Call, Reply, Session, Step};
use crate::error::{diagnosis, first_error_or, Error};
use crate::handle::RawNodeHandle;

verus! {

/// Parses a YAML snippet into a node that is not in the tree yet.
///
/// While the snippet is parsed the document reports to a collector made for the purpose. The
/// document's own collector is put back before the session ends, however it ends. The buffer that
/// the snippet was copied to is never freed here: libfyaml owns it from the moment the build is
/// asked for, whether or not the snippet parses.
pub enum BuildFromYaml<'a> {
    Copying { doc: usize, yaml: &'a str },
    MakingDiag { doc: usize, yaml: &'a str, buffer: usize },
    ReadingDiag { doc: usize, yaml: &'a str, buffer: usize, diag: usize },
    SettingDiag { doc: usize, yaml: &'a str, buffer: usize, diag: usize, original: usize },
    Building { doc: usize, diag: usize, original: usize },
    Diagnosing { doc: usize, original: usize },
    Restoring { diag: usize, outcome: Result<RawNodeHandle, Error> },
    Dropping { outcome: Result<RawNodeHandle, Error> },
}

impl<'a> BuildFromYaml<'a> {
    /// The first call of the session.
    pub open spec fn started(doc: usize, yaml: &'a str) -> Step<
        'a,
        Self,
        Result<RawNodeHandle, Error>,
    > {
        Step::Ask(BuildFromYaml::Copying { doc, yaml }, Call::MallocCopy { text: yaml })
    }

    /// Starts the session.
    pub fn start(doc: usize, yaml: &'a str) -> (r: Step<'a, Self, Result<RawNodeHandle, Error>>)
        ensures
            r == Self::started(doc, yaml),
    {
        Step::Ask(BuildFromYaml::Copying { doc, yaml }, Call::MallocCopy { text: yaml })
    }
}

impl<'a> Session<'a> for BuildFromYaml<'a> {
    type Output = Result<RawNodeHandle, Error>;

    open spec fn resumed(self, reply: Reply) -> Step<'a, Self, Self::Output> {
        match self {
            BuildFromYaml::Copying { doc, yaml } => match reply.buffer_spec() {
                Ok(buffer) => Step::Ask(
                    BuildFromYaml::MakingDiag { doc, yaml, buffer },
                    Call::DiagCreate,
                ),
                Err(e) => Step::Done(Err(e)),
            },
            BuildFromYaml::MakingDiag { doc, yaml, buffer } => Step::Ask(
                BuildFromYaml::ReadingDiag { doc, yaml, buffer, diag: reply.pointer_spec() },
                Call::DocumentGetDiag { doc },
            ),
            BuildFromYaml::ReadingDiag { doc, yaml, buffer, diag } => {
                let original = reply.pointer_spec();
                if diag != 0 {
                    Step::Ask(
                        BuildFromYaml::SettingDiag { doc, yaml, buffer, diag, original },
                        Call::DocumentSetDiag { doc, diag },
                    )
                } else {
                    Step::Ask(
                        BuildFromYaml::Building { doc, diag, original },
                        Call::NodeBuildFromMallocString { doc, buffer, len: yaml.len() },
                    )
                }
            },
            BuildFromYaml::SettingDiag { doc, yaml, buffer, diag, original } => Step::Ask(
                BuildFromYaml::Building { doc, diag, original },
                Call::NodeBuildFromMallocString { doc, buffer, len: yaml.len() },
            ),
            BuildFromYaml::Building { doc, diag, original } => {
                let node = reply.pointer_spec();
                if node == 0 && diag != 0 {
                    Step::Ask(
                        BuildFromYaml::Diagnosing { doc, original },
                        Call::DiagTakeFirst { diag },
                    )
                } else if node == 0 {
                    Step::Ask(
                        BuildFromYaml::Restoring {
                            diag,
                            outcome: Err(
                                diagnosis(None, "fy_node_build_from_malloc_string failed"),
                            ),
                        },
                        Call::DocumentSetDiag { doc, diag: original },
                    )
                } else {
                    Step::Ask(
                        BuildFromYaml::Restoring {
                            diag,
                            outcome: Ok(RawNodeHandle { node, inserted: false }),
                        },
                        Call::DocumentSetDiag { doc, diag: original },
                    )
                }
            },
            BuildFromYaml::Diagnosing { doc, original } => Step::Ask(
                BuildFromYaml::Restoring {
                    diag: 0,
                    outcome: Err(
                        diagnosis(reply.first_spec(), "fy_node_build_from_malloc_string failed"),
                    ),
                },
                Call::DocumentSetDiag { doc, diag: original },
            ),
            BuildFromYaml::Restoring { diag, outcome } => if diag != 0 {
                Step::Ask(BuildFromYaml::Dropping { outcome }, Call::DiagDestroy { diag })
            } else {
                Step::Done(outcome)
            },
            BuildFromYaml::Dropping { outcome } => Step::Done(outcome),
        }
    }

    fn resume(self, reply: Reply) -> (next: Step<'a, Self, Self::Output>) {
        match self {
            BuildFromYaml::Copying { doc, yaml } => match reply.buffer() {
                Ok(buffer) => Step::Ask(
                    BuildFromYaml::MakingDiag { doc, yaml, buffer },
                    Call::DiagCreate,
                ),
                Err(e) => Step::Done(Err(e)),
            },
            BuildFromYaml::MakingDiag { doc, yaml, buffer } => Step::Ask(
                BuildFromYaml::ReadingDiag { doc, yaml, buffer, diag: reply.pointer() },
                Call::DocumentGetDiag { doc },
            ),
            BuildFromYaml::ReadingDiag { doc, yaml, buffer, diag } => {
                let original = reply.pointer();
                if diag != 0 {
                    Step::Ask(
                        BuildFromYaml::SettingDiag { doc, yaml, buffer, diag, original },
                        Call::DocumentSetDiag { doc, diag },
                    )
                } else {
                    Step::Ask(
                        BuildFromYaml::Building { doc, diag, original },
                        Call::NodeBuildFromMallocString { doc, buffer, len: yaml.len() },
                    )
                }
            },
            BuildFromYaml::SettingDiag { doc, yaml, buffer, diag, original } => Step::Ask(
                BuildFromYaml::Building { doc, diag, original },
                Call::NodeBuildFromMallocString { doc, buffer, len: yaml.len() },
            ),
            BuildFromYaml::Building { doc, diag, original } => {
                let node = reply.pointer();
                if node == 0 && diag != 0 {
                    Step::Ask(
                        BuildFromYaml::Diagnosing { doc, original },
                        Call::DiagTakeFirst { diag },
                    )
                } else if node == 0 {
                    let e = first_error_or(None, "fy_node_build_from_malloc_string failed");
                    Step::Ask(
                        BuildFromYaml::Restoring { diag, outcome: Err(e) },
                        Call::DocumentSetDiag { doc, diag: original },
                    )
                } else {
                    Step::Ask(
                        BuildFromYaml::Restoring {
                            diag,
                            outcome: Ok(RawNodeHandle { node, inserted: false }),
                        },
                        Call::DocumentSetDiag { doc, diag: original },
                    )
                }
            },
            BuildFromYaml::Diagnosing { doc, original } => {
                let e = first_error_or(reply.first(), "fy_node_build_from_malloc_string failed");
                Step::Ask(
                    BuildFromYaml::Restoring { diag: 0, outcome: Err(e) },
                    Call::DocumentSetDiag { doc, diag: original },
                )
            },
            BuildFromYaml::Restoring { diag, outcome } => if diag != 0 {
                Step::Ask(BuildFromYaml::Dropping { outcome }, Call::DiagDestroy { diag })
            } else {
                Step::Done(outcome)
            },
            BuildFromYaml::Dropping { outcome } => Step::Done(outcome),
        }
    }
}

} // verus!
