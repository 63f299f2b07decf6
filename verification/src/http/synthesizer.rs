//! The response synthesizer: a state machine that decides, step by step, what
//! has to be found out about a request path and how the request is answered.
//!
//! The machine never touches the filesystem. It hands its driver an
//! [`Action`]; the driver performs it and reports the outcome as an
//! [`Event`]. The filesystem is looked at only for paths that the traversal
//! guard has let through.

use crate::http::escape::{
    escapes_well_formed, lemma_decoded_without_percent, percent_decoded, well_formed_escapes,
};
use crate::http::listing::DirEntry;
use crate::http::path::{
    contains_parent_segment, depth, guard_allows, has_parent_segment, join,
    lemma_join_keeps_parent_segment, prevent_backtracking, resolve, ResolvedPath,
};
use crate::http::response::{
    lemma_error_pages, not_found_page, synthesized, HttpResponse, Resource, ResponseStatus,
};
use vstd::prelude::*;
use vstd::string::*;
use vstd::utf8::*;

verus! {

/// How far the synthesis of a response has come.
#[derive(Debug, Clone, Copy, PartialEq, Eq)]
pub enum Stage {
    /// The path is resolved; its canonical form is awaited.
    PathResolved,
    /// The guard has allowed the path; its kind is awaited.
    Allowed,
    /// The path names a file; its content is awaited.
    File,
    /// The path names a directory; its entries are awaited.
    Directory,
    /// The response has been handed out.
    Framed,
}

/// What is found at an allowed path.
#[derive(Debug, Clone, Copy, PartialEq, Eq)]
pub enum ResourceKind {
    File,
    Directory,
    Missing,
}

/// What the driver is asked to do next, each time with the candidate path.
#[derive(Debug)]
pub enum Action {
    /// Canonicalize the server root and the candidate path.
    Canonicalize,
    /// Find out what kind of entry the candidate path names.
    Inspect,
    /// Read the file at the candidate path.
    ReadFile,
    /// Read the entries of the directory at the candidate path.
    ReadDirectory,
    /// Send this response; the exchange is over.
    Respond(HttpResponse),
}

/// What the driver found.
#[derive(Debug)]
pub enum Event {
    /// The canonical form of the server root, and that of the candidate path
    /// where it could be canonicalized.
    Canonical { root: String, candidate: Option<String> },
    /// The kind of entry at the candidate path.
    Kind(ResourceKind),
    /// The content of the file at the candidate path.
    Content(Vec<u8>),
    /// The entries of the directory at the candidate path.
    Entries(Vec<DirEntry>),
}

/// An event that the machine had not asked for, handed back.
#[derive(Debug)]
pub struct UnexpectedEvent {
    pub event: Event,
}

/// The synthesizer as a mathematical value.
pub struct SynthesizerView {
    pub stage: Stage,
    pub decoded: Seq<char>,
    pub candidate: Seq<char>,
    /// The canonical forms of the root and of the candidate path on which the
    /// guard allowed the path, once it has.
    pub canonical: Option<(Seq<char>, Seq<char>)>,
}

impl SynthesizerView {
    /// Whether the traversal guard has allowed the candidate path, on the
    /// canonical forms that were reported.
    pub open spec fn allowed(self) -> bool {
        &&& self.canonical matches Some(pair)
        &&& guard_allows(self.candidate, pair.0, Some(pair.1))
    }

    /// What holds of the machine in every state. While a response is still to
    /// come, the candidate path holds no `..` segment; and the path is
    /// inspected and read only after the guard has allowed it.
    pub open spec fn inv(self) -> bool {
        &&& self.stage != Stage::Framed ==> !has_parent_segment(self.candidate)
        &&& (self.stage == Stage::Allowed || self.stage == Stage::File || self.stage
            == Stage::Directory) ==> self.allowed()
    }
}

/// The state of one request on its way to a response.
pub struct Synthesizer {
    stage: Stage,
    path: ResolvedPath,
    canonical: Ghost<Option<(Seq<char>, Seq<char>)>>,
}

impl View for Synthesizer {
    type V = SynthesizerView;

    closed spec fn view(&self) -> SynthesizerView {
        SynthesizerView {
            stage: self.stage,
            decoded: self.path.decoded@,
            candidate: self.path.candidate@,
            canonical: self.canonical@,
        }
    }
}

/// Whether a request is denied before anything is looked up: its path holds
/// a malformed escape, or its candidate path holds a `..` segment.
pub open spec fn denied_at_once(root: Seq<char>, request_path: Seq<char>) -> bool {
    ||| !well_formed_escapes(encode_utf8(request_path))
    ||| has_parent_segment(join(root, percent_decoded(request_path)))
}

/// Whether `action` hands out the response to `resource` for the path of
/// `machine`.
pub open spec fn hands_out(action: Action, machine: SynthesizerView, resource: Resource) -> bool {
    &&& action matches Action::Respond(response)
    &&& response@ == synthesized(machine.decoded, machine.candidate, resource)
}

/// Whether `action` hands out a response with the given status.
pub open spec fn answers_with(action: Action, status: ResponseStatus) -> bool {
    &&& action matches Action::Respond(response)
    &&& response@.status == status
}

/// Whether `result` is the action that hands out the response to `resource`
/// for the path of `machine`.
pub open spec fn responds(
    result: Result<Action, UnexpectedEvent>,
    machine: SynthesizerView,
    resource: Resource,
) -> bool {
    &&& result matches Ok(action)
    &&& hands_out(action, machine, resource)
}

/// The transition relation of the machine: whether `event`, arriving in state
/// `before`, leads to state `after` with `result`.
pub open spec fn transition(
    before: SynthesizerView,
    event: Event,
    after: SynthesizerView,
    result: Result<Action, UnexpectedEvent>,
) -> bool {
    &&& after.decoded == before.decoded
    &&& after.candidate == before.candidate
    &&& match (before.stage, event) {
        (Stage::PathResolved, Event::Canonical { root, candidate }) => {
            if guard_allows(before.candidate, root@, candidate.deep_view()) {
                &&& after.stage == Stage::Allowed
                &&& after.canonical == Some((root@, candidate->0@))
                &&& result == Ok::<Action, UnexpectedEvent>(Action::Inspect)
            } else {
                &&& after.stage == Stage::Framed
                &&& after.canonical == before.canonical
                &&& responds(result, before, Resource::Denied)
            }
        },
        (Stage::Allowed, Event::Kind(ResourceKind::Missing)) => {
            &&& after.stage == Stage::Framed
            &&& after.canonical == before.canonical
            &&& responds(result, before, Resource::Missing)
        },
        (Stage::Allowed, Event::Kind(ResourceKind::File)) => {
            &&& after.stage == Stage::File
            &&& after.canonical == before.canonical
            &&& result == Ok::<Action, UnexpectedEvent>(Action::ReadFile)
        },
        (Stage::Allowed, Event::Kind(ResourceKind::Directory)) => {
            &&& after.stage == Stage::Directory
            &&& after.canonical == before.canonical
            &&& result == Ok::<Action, UnexpectedEvent>(Action::ReadDirectory)
        },
        (Stage::File, Event::Content(content)) => {
            &&& after.stage == Stage::Framed
            &&& after.canonical == before.canonical
            &&& responds(result, before, Resource::File { content })
        },
        (Stage::Directory, Event::Entries(entries)) => {
            &&& after.stage == Stage::Framed
            &&& after.canonical == before.canonical
            &&& responds(result, before, Resource::Directory { entries })
        },
        _ => {
            &&& after == before
            &&& result == Err::<Action, UnexpectedEvent>(UnexpectedEvent { event })
        },
    }
}

/// The machine keeps to what holds of it in every state.
pub proof fn lemma_transition_keeps_inv(
    before: SynthesizerView,
    event: Event,
    after: SynthesizerView,
    result: Result<Action, UnexpectedEvent>,
)
    requires
        before.inv(),
        transition(before, event, after, result),
    ensures
        after.inv(),
{
}

/// A response other than a denial is handed out only for a path that the
/// traversal guard has allowed.
pub proof fn lemma_served_paths_are_allowed(
    before: SynthesizerView,
    event: Event,
    after: SynthesizerView,
    result: Result<Action, UnexpectedEvent>,
)
    requires
        before.inv(),
        transition(before, event, after, result),
        result matches Ok(action) && (answers_with(action, ResponseStatus::OK) || answers_with(
            action,
            ResponseStatus::NotFound,
        )),
    ensures
        before.allowed(),
{
}

/// A request path whose decoded form holds a `..` segment is denied at once,
/// whatever the root is and whatever exists on disk.
pub proof fn lemma_parent_segment_is_denied(root: Seq<char>, request_path: Seq<char>)
    requires
        has_parent_segment(percent_decoded(request_path)),
    ensures
        denied_at_once(root, request_path),
{
    lemma_join_keeps_parent_segment(root, percent_decoded(request_path));
}

/// A request path that holds no escape and a literal `..` segment is denied
/// at once.
pub proof fn lemma_literal_parent_segment_is_denied(root: Seq<char>, request_path: Seq<char>)
    requires
        !request_path.contains('%'),
        has_parent_segment(request_path),
    ensures
        denied_at_once(root, request_path),
{
    lemma_decoded_without_percent(request_path);
    lemma_parent_segment_is_denied(root, request_path);
}

/// Whether an event reports a candidate path that leaves the root: one that
/// cannot be canonicalized, or whose canonical form is less deep than that of
/// the root.
pub open spec fn reports_leaving_root(event: Event) -> bool {
    &&& event matches Event::Canonical { root, candidate }
    &&& candidate matches Some(canonical) ==> depth(canonical@) < depth(root@)
}

/// A candidate path that cannot be canonicalized, or whose canonical form is
/// less deep than that of the root, is answered with status 403.
pub proof fn lemma_leaving_root_is_forbidden(
    before: SynthesizerView,
    event: Event,
    after: SynthesizerView,
    result: Result<Action, UnexpectedEvent>,
)
    requires
        transition(before, event, after, result),
        before.stage == Stage::PathResolved,
        reports_leaving_root(event),
    ensures
        after.stage == Stage::Framed,
        result matches Ok(action) && answers_with(action, ResponseStatus::Forbidden),
{
}

/// An allowed path at which nothing exists is answered with status 404 and
/// the fixed not-found page.
pub proof fn lemma_missing_is_not_found(
    before: SynthesizerView,
    after: SynthesizerView,
    result: Result<Action, UnexpectedEvent>,
)
    requires
        transition(before, Event::Kind(ResourceKind::Missing), after, result),
        before.stage == Stage::Allowed,
    ensures
        after.stage == Stage::Framed,
        result matches Ok(Action::Respond(response)) && response@.status
            == ResponseStatus::NotFound && response@.text_body() == not_found_page(),
{
    lemma_error_pages(before.decoded, before.candidate);
}

impl Synthesizer {
    #[verifier::type_invariant]
    spec fn well_formed(self) -> bool {
        self@.inv()
    }

    /// Begins the synthesis of the response to a request for `request_path`,
    /// served from `root`. The request is denied at once where its path is
    /// malformed or reaches for a parent directory; else the canonical paths
    /// are asked for.
    pub fn begin(root: &str, request_path: &str) -> (started: (Synthesizer, Action))
        ensures
            started.0@.decoded == percent_decoded(request_path@),
            started.0@.candidate == join(root@, percent_decoded(request_path@)),
            denied_at_once(root@, request_path@) ==> started.0@.stage == Stage::Framed
                && hands_out(started.1, started.0@, Resource::Denied),
            !denied_at_once(root@, request_path@) ==> started.0@.stage == Stage::PathResolved
                && started.1 == Action::Canonicalize,
            has_parent_segment(percent_decoded(request_path@)) ==> answers_with(
                started.1,
                ResponseStatus::Forbidden,
            ),
            started.0@.canonical is None,
            started.0@.inv(),
    {
        let path = resolve(root, request_path);
        proof {
            if has_parent_segment(percent_decoded(request_path@)) {
                lemma_parent_segment_is_denied(root@, request_path@);
            }
        }
        if !escapes_well_formed(request_path) || contains_parent_segment(path.candidate.as_str()) {
            let response = HttpResponse::new(&path, Resource::Denied);
            (
                Synthesizer { stage: Stage::Framed, path, canonical: Ghost(None) },
                Action::Respond(response),
            )
        } else {
            (
                Synthesizer { stage: Stage::PathResolved, path, canonical: Ghost(None) },
                Action::Canonicalize,
            )
        }
    }

    /// Takes the outcome of the last action and says what to do next. An
    /// event that the last action did not ask for is handed back and leaves
    /// the machine as it was.
    pub fn step(&mut self, event: Event) -> (result: Result<Action, UnexpectedEvent>)
        ensures
            transition(old(self)@, event, final(self)@, result),
            old(self)@.inv(),
            final(self)@.inv(),
    {
        proof {
            use_type_invariant(&*self);
        }
        match (self.stage, event) {
            (Stage::PathResolved, Event::Canonical { root, candidate }) => {
                let allowed = match &candidate {
                    Some(canonical) => prevent_backtracking(
                        self.path.candidate.as_str(),
                        root.as_str(),
                        Some(canonical.as_str()),
                    ),
                    None => prevent_backtracking(
                        self.path.candidate.as_str(),
                        root.as_str(),
                        None,
                    ),
                };
                if allowed {
                    self.canonical = Ghost(Some((root@, candidate->0@)));
                    self.stage = Stage::Allowed;
                    Ok(Action::Inspect)
                } else {
                    self.stage = Stage::Framed;
                    Ok(Action::Respond(HttpResponse::new(&self.path, Resource::Denied)))
                }
            },
            (Stage::Allowed, Event::Kind(ResourceKind::Missing)) => {
                self.stage = Stage::Framed;
                Ok(Action::Respond(HttpResponse::new(&self.path, Resource::Missing)))
            },
            (Stage::Allowed, Event::Kind(ResourceKind::File)) => {
                self.stage = Stage::File;
                Ok(Action::ReadFile)
            },
            (Stage::Allowed, Event::Kind(ResourceKind::Directory)) => {
                self.stage = Stage::Directory;
                Ok(Action::ReadDirectory)
            },
            (Stage::File, Event::Content(content)) => {
                self.stage = Stage::Framed;
                Ok(Action::Respond(HttpResponse::new(&self.path, Resource::File { content })))
            },
            (Stage::Directory, Event::Entries(entries)) => {
                self.stage = Stage::Framed;
                Ok(
                    Action::Respond(
                        HttpResponse::new(&self.path, Resource::Directory { entries }),
                    ),
                )
            },
            (_, event) => Err(UnexpectedEvent { event }),
        }
    }

    /// How far the synthesis has come.
    pub fn stage(&self) -> (stage: Stage)
        ensures
            stage == self@.stage,
            self@.inv(),
    {
        proof {
            use_type_invariant(self);
        }
        self.stage
    }

    /// The resolved path of the request.
    pub fn path(&self) -> (path: &ResolvedPath)
        ensures
            path.decoded@ == self@.decoded,
            path.candidate@ == self@.candidate,
            self@.inv(),
    {
        proof {
            use_type_invariant(self);
        }
        &self.path
    }
}

} // verus!
