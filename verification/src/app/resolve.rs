//! The way from the text of a link to the file that it leads to.
//!
//! The link is taken apart, its project is searched for, and its file is looked up there. The
//! lookups are done outside; the resolution says what comes next.

use vstd::prelude::*;
use vstd::string::*;

use crate::app::locate::{
    answers, awaits, begin_search, locate_root, lookups_left, marker_views, next_search, scans_by,
    LocateError, RootAction, RootActionView, RootEvent, RootSearch, RootSearchView, RootStageView,
};
use crate::app::requests::{ResolveLinkOutput, ResolveLinkRequest};
use crate::link::{
    lemma_only_pages_name_repositories, link_of, parse_link, LinkError, LinkView,
};
use crate::paths::{
    is_absolute_path, join_path, joined_path, lemma_joined_paths_have_the_names_of_both,
    lemma_relative_paths_lead_back, names_in, relative_of, relative_path,
};
use crate::records::{
    JumpLinkKind, JumpRequest, MaterializedPath, ProjectRoot, RootView, TargetView,
};
use crate::text::opt_view;

verus! {

/// What to do next, or how the resolution has ended.
pub enum ResolveAction {
    /// Look something up for the search for the project.
    Lookup(RootAction),
    /// Find the full path of the file of the link, which is named by its path in the project.
    Materialize(String),
    /// The file with its project.
    Finished(ResolveLinkOutput),
    /// The link leads nowhere.
    Failed(ResolveError),
}

/// Why a link leads nowhere.
#[derive(Debug)]
pub enum ResolveError {
    /// The text is no link.
    Parse(LinkError),
    /// There is no project.
    Locate(LocateError),
    /// The file could not be looked up.
    Materialize { cause: String },
}

/// What an action has given.
pub enum ResolveEvent {
    LookedUp(RootEvent),
    /// The full path of the file.
    Materialized(Result<String, String>),
}

/// How far the resolution has come.
pub enum ResolveStage {
    /// The project is searched for.
    Locating { request: JumpRequest, search: RootSearch },
    /// The file is looked up.
    Materializing { request: JumpRequest, root: ProjectRoot },
    /// The resolution has ended.
    Done,
}

/// The way from the text of a link to the file that it leads to.
pub struct LinkResolution {
    pub stage: ResolveStage,
}

/// The event is what the stage waits for.
pub open spec fn resolution_awaits(stage: ResolveStage, event: ResolveEvent) -> bool {
    match stage {
        ResolveStage::Locating { search, .. } => event matches ResolveEvent::LookedUp(found)
            && awaits(search.stage@, found@),
        ResolveStage::Materializing { .. } => event is Materialized,
        ResolveStage::Done => false,
    }
}

/// The search has come to `stage` and says `lookup`: with a project the file is looked up next,
/// without one the resolution has failed.
pub open spec fn search_leads_to(
    link: LinkView,
    markers: Option<Seq<Seq<char>>>,
    stage: RootStageView,
    lookup: RootActionView,
    after: ResolveStage,
    action: ResolveAction,
) -> bool {
    match lookup {
        RootActionView::Found(root) => {
            &&& after matches ResolveStage::Materializing { request: kept, root: found }
            &&& kept@ == link
            &&& found@ == root
            &&& action matches ResolveAction::Materialize(path)
            &&& path@ == joined_path(root.path, link.path)
        },
        RootActionView::Failed(error) => {
            &&& after is Done
            &&& action matches ResolveAction::Failed(ResolveError::Locate(why))
            &&& why@ == error
        },
        _ => {
            &&& after matches ResolveStage::Locating { request: kept, search }
            &&& kept@ == link
            &&& search@ == RootSearchView { kind: link.kind, path: link.path, markers, stage }
            &&& action matches ResolveAction::Lookup(next)
            &&& next@ == lookup
        },
    }
}

/// The search of a resolution is for the project of its link.
pub open spec fn is_consistent(stage: ResolveStage) -> bool {
    stage matches ResolveStage::Locating { request, search } ==> {
        &&& search.kind == request.kind
        &&& search.path@ == request.path@
    }
}

/// The file at the full path `absolute`, to which a link in a project leads: it keeps the lines, the
/// kind and the revision of the link.
pub open spec fn target_at(root: RootView, link: LinkView, absolute: Seq<char>) -> TargetView {
    TargetView {
        absolute,
        relative: relative_of(root.path, absolute),
        line: link.line,
        end_line: link.end_line,
        kind: link.kind,
        revision: link.revision,
    }
}

/// The file at the full path `absolute`, to which a link in a project leads.
pub fn materialized(root: &ProjectRoot, request: &JumpRequest, absolute: String) -> (r:
    MaterializedPath)
    ensures
        r@ == target_at(root@, request@, absolute@),
{
    let relative: Option<String> = relative_path(root.path.as_str(), absolute.as_str());
    let revision: Option<String> = match &request.revision {
        Some(revision) => Some(revision.clone()),
        None => None,
    };
    MaterializedPath {
        absolute,
        relative,
        line: request.line,
        end_line: request.end_line,
        kind: request.kind,
        revision,
    }
}

/// How the resolution of the link `text` begins: with the search for its project.
pub open spec fn resolution_begins(
    text: Seq<char>,
    requested_root: Option<Seq<char>>,
    markers: Option<Seq<Seq<char>>>,
    after: ResolveStage,
    action: ResolveAction,
) -> bool {
    match link_of(text) {
        Ok(link) => {
            let (stage, lookup) = begin_search(
                link.kind,
                link.path,
                link.repo_name,
                requested_root,
                markers,
            );
            search_leads_to(link, markers, stage, lookup, after, action)
        },
        Err(error) => {
            &&& after is Done
            &&& action == ResolveAction::Failed(ResolveError::Parse(error))
        },
    }
}

/// How the resolution goes on.
pub open spec fn resolution_step(
    before: ResolveStage,
    event: ResolveEvent,
    after: ResolveStage,
    action: ResolveAction,
) -> bool {
    match (before, event) {
        (ResolveStage::Locating { request, search }, ResolveEvent::LookedUp(found)) => {
            let (stage, lookup) = next_search(search@, found@);
            search_leads_to(request@, search.markers@, stage, lookup, after, action)
        },
        (
            ResolveStage::Materializing { request, root },
            ResolveEvent::Materialized(Ok(absolute)),
        ) => {
            &&& after is Done
            &&& action matches ResolveAction::Finished(output)
            &&& output.request == request
            &&& output.root == root
            &&& output.materialized@ == target_at(root@, request@, absolute@)
        },
        (ResolveStage::Materializing { .. }, ResolveEvent::Materialized(Err(cause))) => {
            &&& after is Done
            &&& action == ResolveAction::Failed(ResolveError::Materialize { cause })
        },
        _ => true,
    }
}

fn follow(request: JumpRequest, search: RootSearch, lookup: RootAction) -> (r: (
    ResolveStage,
    ResolveAction,
))
    requires
        search.kind == request.kind,
        search.path@ == request.path@,
    ensures
        search_leads_to(request@, search.markers@, search.stage@, lookup@, r.0, r.1),
        is_consistent(r.0),
{
    match lookup {
        RootAction::Found(root) => {
            let path: String = join_path(root.path.as_str(), request.path.as_str());
            (ResolveStage::Materializing { request, root }, ResolveAction::Materialize(path))
        },
        RootAction::Failed(error) => (
            ResolveStage::Done,
            ResolveAction::Failed(ResolveError::Locate(error)),
        ),
        other => (ResolveStage::Locating { request, search }, ResolveAction::Lookup(other)),
    }
}

/// Begins the resolution of a link.
pub fn resolve_link(request: &ResolveLinkRequest) -> (r: (LinkResolution, ResolveAction))
    ensures
        resolution_begins(
            request.input@,
            opt_view(request.root),
            marker_views(request.markers),
            r.0.stage,
            r.1,
        ),
        is_consistent(r.0.stage),
{
    match parse_link(request.input.as_str()) {
        Ok(link) => {
            let root: Option<&str> = match &request.root {
                Some(root) => Some(root.as_str()),
                None => None,
            };
            let (search, lookup): (RootSearch, RootAction) = locate_root(
                &link,
                root,
                &request.markers,
            );
            let (stage, action): (ResolveStage, ResolveAction) = follow(link, search, lookup);
            (LinkResolution { stage }, action)
        },
        Err(error) => (
            LinkResolution { stage: ResolveStage::Done },
            ResolveAction::Failed(ResolveError::Parse(error)),
        ),
    }
}

impl LinkResolution {
    /// Goes on with what an action has given, and says what to do next.
    pub fn step(&mut self, event: ResolveEvent) -> (action: ResolveAction)
        requires
            is_consistent(old(self).stage),
            resolution_awaits(old(self).stage, event),
        ensures
            is_consistent(final(self).stage),
            resolution_step(old(self).stage, event, final(self).stage, action),
    {
        let mut current: ResolveStage = ResolveStage::Done;
        std::mem::swap(&mut current, &mut self.stage);
        let (stage, action): (ResolveStage, ResolveAction) = match (current, event) {
            (ResolveStage::Locating { request, search }, ResolveEvent::LookedUp(found)) => {
                let mut search: RootSearch = search;
                let lookup: RootAction = search.step(found);
                follow(request, search, lookup)
            },
            (
                ResolveStage::Materializing { request, root },
                ResolveEvent::Materialized(outcome),
            ) => match outcome {
                Ok(absolute) => {
                    let file: MaterializedPath = materialized(&root, &request, absolute);
                    let output: ResolveLinkOutput = ResolveLinkOutput {
                        request,
                        materialized: file,
                        root,
                    };
                    (ResolveStage::Done, ResolveAction::Finished(output))
                },
                Err(cause) => (
                    ResolveStage::Done,
                    ResolveAction::Failed(ResolveError::Materialize { cause }),
                ),
            },
            (stage, _) => (stage, ResolveAction::Materialize(String::new())),
        };
        self.stage = stage;
        action
    }
}

/// The resolution of an absolute link does not begin by failing for want of a project.
pub proof fn lemma_absolute_links_begin(
    text: Seq<char>,
    requested_root: Option<Seq<char>>,
    markers: Option<Seq<Seq<char>>>,
    after: ResolveStage,
    action: ResolveAction,
)
    requires
        resolution_begins(text, requested_root, markers, after, action),
        link_of(text) matches Ok(link) && link.kind == JumpLinkKind::Absolute,
    ensures
        action !is Failed,
        after matches ResolveStage::Locating { request, .. } ==> request.kind
            == JumpLinkKind::Absolute,
{
}

/// The resolution of an absolute link does not fail for want of a project.
pub proof fn lemma_absolute_links_have_a_project(
    before: ResolveStage,
    event: ResolveEvent,
    after: ResolveStage,
    action: ResolveAction,
)
    requires
        is_consistent(before),
        resolution_awaits(before, event),
        resolution_step(before, event, after, action),
        before matches ResolveStage::Locating { request, .. } ==> request.kind
            == JumpLinkKind::Absolute,
    ensures
        !(action matches ResolveAction::Failed(ResolveError::Locate(_))),
        after matches ResolveStage::Locating { request, .. } ==> request.kind
            == JumpLinkKind::Absolute,
{
}

/// The link of a resolution that has not ended.
pub open spec fn link_in(stage: ResolveStage) -> Option<LinkView> {
    match stage {
        ResolveStage::Locating { request, .. } => Some(request@),
        ResolveStage::Materializing { request, .. } => Some(request@),
        ResolveStage::Done => None,
    }
}

/// A resolution is of the link that it began with, and searches by the markers that were asked for.
pub proof fn lemma_resolution_is_of_its_link(
    text: Seq<char>,
    requested_root: Option<Seq<char>>,
    markers: Option<Seq<Seq<char>>>,
    after: ResolveStage,
    action: ResolveAction,
)
    requires
        resolution_begins(text, requested_root, markers, after, action),
        after !is Done,
    ensures
        link_of(text) matches Ok(link) && link_in(after) == Some(link),
        after matches ResolveStage::Locating { search, .. } ==> search.markers@ == markers,
        action matches ResolveAction::Lookup(lookup) ==> scans_by(lookup@, markers),
{
}

/// A resolution keeps its link, and what it finds has the lines, the kind and the revision of that
/// link.
pub proof fn lemma_links_keep_their_lines(
    before: ResolveStage,
    event: ResolveEvent,
    after: ResolveStage,
    action: ResolveAction,
)
    requires
        resolution_awaits(before, event),
        resolution_step(before, event, after, action),
    ensures
        after is Done || link_in(after) == link_in(before),
        action matches ResolveAction::Finished(output) ==> {
            &&& link_in(before) == Some(output.request@)
            &&& output.materialized.line == output.request.line
            &&& output.materialized.end_line == output.request.end_line
            &&& output.materialized.kind == output.request.kind
            &&& opt_view(output.materialized.revision) == opt_view(output.request.revision)
        },
{
}

/// The markers by which the project of a link is searched for are kept: every scan goes by them, and
/// so does the report that there is no project.
pub proof fn lemma_markers_are_kept(
    before: ResolveStage,
    event: ResolveEvent,
    after: ResolveStage,
    action: ResolveAction,
)
    requires
        resolution_awaits(before, event),
        resolution_step(before, event, after, action),
    ensures
        before matches ResolveStage::Locating { search, .. } ==> {
            &&& after matches ResolveStage::Locating { search: kept, .. } ==> kept.markers@
                == search.markers@
            &&& action matches ResolveAction::Lookup(lookup) ==> scans_by(
                lookup@,
                search.markers@,
            )
            &&& action matches ResolveAction::Failed(ResolveError::Locate(error)) ==> scans_by(
                RootActionView::Failed(error@),
                search.markers@,
            )
        },
{
}

/// The event is of the kind that performing the action gives.
pub open spec fn resolution_answers(action: ResolveAction, event: ResolveEvent) -> bool {
    match (action, event) {
        (ResolveAction::Lookup(lookup), ResolveEvent::LookedUp(found)) => answers(lookup@, found@),
        (ResolveAction::Materialize(_), ResolveEvent::Materialized(_)) => true,
        _ => false,
    }
}

/// What the first action of a resolution gives is what the resolution waits for, and nothing else
/// is.
pub proof fn lemma_first_resolve_action_fits(
    text: Seq<char>,
    requested_root: Option<Seq<char>>,
    markers: Option<Seq<Seq<char>>>,
    after: ResolveStage,
    action: ResolveAction,
    next: ResolveEvent,
)
    requires
        resolution_begins(text, requested_root, markers, after, action),
    ensures
        resolution_awaits(after, next) <==> resolution_answers(action, next),
{
}

/// The action that a resolution says is the one that its new stage waits for: what performing it
/// gives is what the resolution goes on with, and nothing else is.
pub proof fn lemma_resolve_actions_fit(
    before: ResolveStage,
    event: ResolveEvent,
    after: ResolveStage,
    action: ResolveAction,
    next: ResolveEvent,
)
    requires
        resolution_awaits(before, event),
        resolution_step(before, event, after, action),
    ensures
        resolution_awaits(after, next) <==> resolution_answers(action, next),
{
}

/// How many actions may still follow.
pub open spec fn steps_left(stage: ResolveStage) -> nat {
    match stage {
        ResolveStage::Locating { search, .. } => lookups_left(search.stage@) + 1,
        ResolveStage::Materializing { .. } => 1,
        ResolveStage::Done => 0,
    }
}

/// A resolution ends: each event brings it nearer to its end, and at the end it says what the link
/// leads to, or why it leads nowhere.
pub proof fn lemma_resolution_ends(
    before: ResolveStage,
    event: ResolveEvent,
    after: ResolveStage,
    action: ResolveAction,
)
    requires
        is_consistent(before),
        resolution_awaits(before, event),
        resolution_step(before, event, after, action),
    ensures
        steps_left(after) < steps_left(before),
        after is Done <==> action is Finished || action is Failed,
{
}

/// The file that is looked up is the one that the link names, whatever project was found: of an
/// absolute link the path itself, of a relative link and of one to GitHub the path as seen from the
/// root of the project.
pub proof fn lemma_links_lead_to_their_files(
    text: Seq<char>,
    link: LinkView,
    before: ResolveStage,
    event: ResolveEvent,
    after: ResolveStage,
    action: ResolveAction,
    root: RootView,
)
    requires
        link_of(text) == Ok::<LinkView, LinkError>(link),
        link_in(before) == Some(link),
        resolution_step(before, event, after, action),
        before matches ResolveStage::Locating { search, .. } && (event
            matches ResolveEvent::LookedUp(found) && next_search(search@, found@).1
            == RootActionView::Found(root)),
    ensures
        after matches ResolveStage::Materializing { request: kept, root: project } && kept@ == link
            && project@ == root,
        action matches ResolveAction::Materialize(path) && {
            &&& link.kind == JumpLinkKind::Absolute ==> path@ == link.path
            &&& is_absolute_path(link.path) ==> path@ == link.path
            &&& !is_absolute_path(link.path) ==> {
                &&& path@ == joined_path(root.path, link.path)
                &&& names_in(path@) == names_in(root.path) + names_in(link.path)
            }
        },
{
    lemma_only_pages_name_repositories(text);
    lemma_joined_paths_have_the_names_of_both(root.path, link.path);
}

/// What a resolution ends with is the file at the full path that was found, in the project that was
/// found, for the link that was asked for; and where no such path was found, it says why.
pub proof fn lemma_resolution_ends_with_the_file(
    request: JumpRequest,
    root: ProjectRoot,
    found: Result<String, String>,
    after: ResolveStage,
    action: ResolveAction,
)
    requires
        resolution_step(
            ResolveStage::Materializing { request, root },
            ResolveEvent::Materialized(found),
            after,
            action,
        ),
    ensures
        after is Done,
        match found {
            Ok(absolute) => action matches ResolveAction::Finished(output) && {
                &&& output.request@ == request@
                &&& output.root@ == root@
                &&& output.materialized.absolute@ == absolute@
                &&& output.materialized.line == request.line
                &&& output.materialized.end_line == request.end_line
                &&& output.materialized.kind == request.kind
                &&& opt_view(output.materialized.revision) == opt_view(request.revision)
                &&& opt_view(output.materialized.relative) == relative_of(root.path@, absolute@)
                &&& output.materialized.relative matches Some(rest) ==> names_in(
                    joined_path(root.path@, rest@),
                ) == names_in(absolute@)
            },
            Err(cause) => action matches ResolveAction::Failed(ResolveError::Materialize {
                cause: why,
            }) && why@ == cause@,
        },
{
    if let Ok(absolute) = found {
        if relative_of(root.path@, absolute@) is Some {
            lemma_relative_paths_lead_back(root.path@, absolute@);
        }
    }
}

/// A search that fails ends the resolution with its error; one that goes on is gone on with.
pub proof fn lemma_resolutions_follow_the_search(
    before: ResolveStage,
    event: ResolveEvent,
    after: ResolveStage,
    action: ResolveAction,
)
    requires
        resolution_awaits(before, event),
        resolution_step(before, event, after, action),
    ensures
        match (before, event) {
            (ResolveStage::Locating { search, .. }, ResolveEvent::LookedUp(found)) => {
                let (stage, lookup) = next_search(search@, found@);
                match lookup {
                    RootActionView::Found(root) => after is Materializing,
                    RootActionView::Failed(error) => after is Done && (action
                        matches ResolveAction::Failed(ResolveError::Locate(why)) && why@ == error),
                    _ => {
                        &&& after matches ResolveStage::Locating { search: next, .. }
                        &&& next.stage@ == stage
                        &&& action matches ResolveAction::Lookup(said)
                        &&& said@ == lookup
                    },
                }
            },
            _ => after is Done,
        },
{
}

/// A resolution begins with the search for the project of its link, by the root and the markers that
/// were asked for; a text that is no link is refused.
pub proof fn lemma_resolutions_begin_with_the_search(
    text: Seq<char>,
    requested_root: Option<Seq<char>>,
    markers: Option<Seq<Seq<char>>>,
    after: ResolveStage,
    action: ResolveAction,
)
    requires
        resolution_begins(text, requested_root, markers, after, action),
    ensures
        match link_of(text) {
            Ok(link) => {
                let (stage, lookup) = begin_search(
                    link.kind,
                    link.path,
                    link.repo_name,
                    requested_root,
                    markers,
                );
                &&& after matches ResolveStage::Locating { request, search }
                &&& request@ == link
                &&& search@ == RootSearchView { kind: link.kind, path: link.path, markers, stage }
                &&& action matches ResolveAction::Lookup(said)
                &&& said@ == lookup
            },
            Err(error) => after is Done && action == ResolveAction::Failed(
                ResolveError::Parse(error),
            ),
        },
{
}

} // verus!
