//! The per-file timestamp resolver: extension-based routing, the fixed
//! fallback order of the metadata sources, and target-name construction.
//!
//! The resolver is a small state machine.  It decides; the caller performs
//! the outside work (reading the file's bytes, running the external tag
//! tool) that an emitted action asks for and hands the raw result back as
//! an event.  First success wins, and a file whose eligible sources all
//! fail is excluded with a warning rather than aborting the batch.

use vstd::prelude::*;
use vstd::string::*;

use crate::adapters::primary_of;
use crate::adapters::primary_timestamp;
use crate::adapters::secondary_of;
use crate::adapters::secondary_timestamp;
use crate::adapters::tertiary_of;
use crate::adapters::tertiary_timestamp;
use crate::adapters::Warning;
use crate::plan::BatchItem;
use crate::plan::BatchItemView;
use crate::plan::PlanEntry;
use crate::plan::PlanEntryView;
use crate::text::extension_of;
use crate::text::is_extension_at;
use crate::text::lemma_extension_dot_unique;
use crate::text::lemma_normalized_has_no_space;
use crate::text::lowercase_ascii;
use crate::text::lowered;

verus! {

/// Which metadata source a resolution came from.
#[derive(Clone, Copy, Debug, PartialEq, Eq, Structural)]
pub enum SourceKind {
    /// The embedded primary-container capture-time tag.
    Primary,
    /// The external tool's timezone-carrying tag.
    Secondary,
    /// The external tool's timezone-ambiguous tag.
    Tertiary,
}

/// The fixed allow-list of image extensions, which try the
/// primary-container adapter first.
pub open spec fn is_image_ext(e: Seq<char>) -> bool {
    e == "jpg"@ || e == "jpeg"@ || e == "png"@ || e == "heic"@
}

/// The fixed allow-list of video extensions, which skip the
/// primary-container adapter entirely.
pub open spec fn is_video_ext(e: Seq<char>) -> bool {
    e == "mov"@ || e == "mp4"@
}

fn is_image_extension(e: &String) -> (r: bool)
    ensures
        r == is_image_ext(e@),
{
    *e == String::from_str("jpg") || *e == String::from_str("jpeg") || *e == String::from_str(
        "png",
    ) || *e == String::from_str("heic")
}

fn is_video_extension(e: &String) -> (r: bool)
    ensures
        r == is_video_ext(e@),
{
    *e == String::from_str("mov") || *e == String::from_str("mp4")
}

/// The lowercased extension of a path, if it has one.
pub open spec fn ext_spec(p: Seq<char>) -> Option<Seq<char>> {
    if exists|j: int| is_extension_at(p, j) {
        Some(lowered(p.subrange((choose|j: int| is_extension_at(p, j)) + 1, p.len() as int)))
    } else {
        None
    }
}

/// Extracts and lowercases the extension of a path string.
pub fn file_extension(path: &str) -> (r: Option<String>)
    ensures
        match r {
            Some(e) => ext_spec(path@) == Some(e@),
            None => ext_spec(path@) is None,
        },
{
    match extension_of(path) {
        Some(e) => {
            proof {
                let j1 = choose|j: int|
                    is_extension_at(path@, j) && e@ == path@.subrange(j + 1, path@.len() as int);
                let j2 = choose|j: int| is_extension_at(path@, j);
                lemma_extension_dot_unique(path@, j1, j2);
            }
            Some(lowercase_ascii(e.as_str()))
        },
        None => None,
    }
}

/// The disambiguation marker a timezone-ambiguous resolution carries in
/// its target name.
pub open spec fn marker_view() -> Seq<char> {
    " (utc)"@
}

/// The target name: the canonical timestamp, the timezone-ambiguity
/// marker when the source was timezone-ambiguous, and the file's
/// lowercased extension when it has one.
pub open spec fn target_name_spec(ts: Seq<char>, ext: Option<Seq<char>>, tz_ambiguous: bool) -> Seq<
    char,
> {
    let base = if tz_ambiguous {
        ts + marker_view()
    } else {
        ts
    };
    match ext {
        Some(e) => base + "."@ + e,
        None => base,
    }
}

pub open spec fn opt_str_view(o: Option<String>) -> Option<Seq<char>> {
    match o {
        Some(s) => Some(s@),
        None => None,
    }
}

/// Builds the target name for a resolved timestamp.
pub fn target_name(ts: &String, ext: &Option<String>, tz_ambiguous: bool) -> (r: String)
    ensures
        r@ == target_name_spec(
            ts@,
            match ext {
                Some(e) => Some(e@),
                None => None,
            },
            tz_ambiguous,
        ),
{
    let mut r = ts.clone();
    if tz_ambiguous {
        r = r.concat(" (utc)");
    }
    match ext {
        Some(e) => {
            r = r.concat(".");
            r = r.concat(e.as_str());
        },
        None => {},
    }
    r
}

/// A resolved file: its canonical timestamp, the target name built from
/// it, and which source won.
pub struct Resolution {
    pub timestamp: String,
    pub target_name: String,
    pub kind: SourceKind,
}

/// The mathematical image of a resolution.
pub ghost struct ResolutionView {
    pub timestamp: Seq<char>,
    pub target_name: Seq<char>,
    pub kind: SourceKind,
}

impl View for Resolution {
    type V = ResolutionView;

    open spec fn view(&self) -> ResolutionView {
        ResolutionView {
            timestamp: self.timestamp@,
            target_name: self.target_name@,
            kind: self.kind,
        }
    }
}

/// How a file leaves the resolver.
pub enum Outcome {
    /// A source produced a timestamp; the file joins the plan.
    Resolved(Resolution),
    /// The file was never attempted (unsupported extension).
    Skipped(Warning),
    /// Every eligible source failed; the file is excluded.
    Unresolved,
}

/// The mathematical image of an outcome.
pub ghost enum OutcomeView {
    Resolved(ResolutionView),
    Skipped(Warning),
    Unresolved,
}

impl View for Outcome {
    type V = OutcomeView;

    open spec fn view(&self) -> OutcomeView {
        match self {
            Outcome::Resolved(r) => OutcomeView::Resolved(r@),
            Outcome::Skipped(w) => OutcomeView::Skipped(*w),
            Outcome::Unresolved => OutcomeView::Unresolved,
        }
    }
}

/// What the resolver asks the caller to do next.
pub enum Action {
    /// Open the file and read its raw bytes.
    ReadFileBytes,
    /// Run the external tool for the timezone-carrying tag.
    RunCreationDateTool,
    /// Run the external tool for the timezone-ambiguous tag.
    RunCreateDateTool,
    /// The file is done, with this outcome.
    Finish(Outcome),
}

/// The mathematical image of an action.
pub ghost enum ActionView {
    ReadFileBytes,
    RunCreationDateTool,
    RunCreateDateTool,
    Finish(OutcomeView),
}

impl View for Action {
    type V = ActionView;

    open spec fn view(&self) -> ActionView {
        match self {
            Action::ReadFileBytes => ActionView::ReadFileBytes,
            Action::RunCreationDateTool => ActionView::RunCreationDateTool,
            Action::RunCreateDateTool => ActionView::RunCreateDateTool,
            Action::Finish(o) => ActionView::Finish(o@),
        }
    }
}

/// What the caller hands back: the raw result of the asked-for work,
/// `None` when the work itself failed (unopenable file, tool not
/// executable).
pub enum Event {
    FileBytes(Option<Vec<u8>>),
    ToolOutput(Option<Vec<u8>>),
}

/// The mathematical image of an event.
pub ghost enum EventView {
    FileBytes(Option<Seq<u8>>),
    ToolOutput(Option<Seq<u8>>),
}

impl View for Event {
    type V = EventView;

    open spec fn view(&self) -> EventView {
        match self {
            Event::FileBytes(Some(b)) => EventView::FileBytes(Some(b@)),
            Event::FileBytes(None) => EventView::FileBytes(None),
            Event::ToolOutput(Some(b)) => EventView::ToolOutput(Some(b@)),
            Event::ToolOutput(None) => EventView::ToolOutput(None),
        }
    }
}

/// Where the resolver stands in the fallback chain.
#[derive(Clone, Copy, Debug, PartialEq, Eq, Structural)]
pub enum Stage {
    AwaitFileBytes,
    AwaitCreationDate,
    AwaitCreateDate,
    Finished,
}

/// The resolver's state for one file.
pub struct FileResolver {
    pub ext: Option<String>,
    pub stage: Stage,
}

/// The mathematical image of a resolver state.
pub ghost struct FileResolverView {
    pub ext: Option<Seq<char>>,
    pub stage: Stage,
}

impl View for FileResolver {
    type V = FileResolverView;

    open spec fn view(&self) -> FileResolverView {
        FileResolverView { ext: opt_str_view(self.ext), stage: self.stage }
    }
}

/// Routing: image extensions (and files without an extension) try the
/// primary container first; video extensions go straight to the secondary
/// tag; anything else is rejected as unsupported.
pub open spec fn start_spec(p: Seq<char>) -> (FileResolverView, ActionView) {
    let ext = ext_spec(p);
    match ext {
        Some(e) => if is_video_ext(e) {
            (
                FileResolverView { ext, stage: Stage::AwaitCreationDate },
                ActionView::RunCreationDateTool,
            )
        } else if is_image_ext(e) {
            (FileResolverView { ext, stage: Stage::AwaitFileBytes }, ActionView::ReadFileBytes)
        } else {
            (
                FileResolverView { ext, stage: Stage::Finished },
                ActionView::Finish(OutcomeView::Skipped(Warning::UnsupportedExtension)),
            )
        },
        None => (FileResolverView { ext, stage: Stage::AwaitFileBytes }, ActionView::ReadFileBytes),
    }
}

/// Starts resolving one file, routing by its extension.
pub fn start(path: &str) -> (r: (FileResolver, Action))
    ensures
        (r.0@, r.1@) == start_spec(path@),
{
    let ext = file_extension(path);
    match ext {
        Some(e) => {
            if is_video_extension(&e) {
                (
                    FileResolver { ext: Some(e), stage: Stage::AwaitCreationDate },
                    Action::RunCreationDateTool,
                )
            } else if is_image_extension(&e) {
                (FileResolver { ext: Some(e), stage: Stage::AwaitFileBytes }, Action::ReadFileBytes)
            } else {
                (
                    FileResolver { ext: Some(e), stage: Stage::Finished },
                    Action::Finish(Outcome::Skipped(Warning::UnsupportedExtension)),
                )
            }
        },
        None => (FileResolver { ext: None, stage: Stage::AwaitFileBytes }, Action::ReadFileBytes),
    }
}

/// Whether an event answers what the stage is waiting for.
pub open spec fn compatible(st: FileResolverView, ev: EventView) -> bool {
    match st.stage {
        Stage::AwaitFileBytes => ev is FileBytes,
        Stage::AwaitCreationDate => ev is ToolOutput,
        Stage::AwaitCreateDate => ev is ToolOutput,
        Stage::Finished => false,
    }
}

/// One step of the fallback chain: primary container, then the secondary
/// tag, then the timezone-ambiguous tertiary tag; first success wins, and
/// only a tertiary resolution carries the ambiguity marker in its name.
pub open spec fn step_spec(st: FileResolverView, ev: EventView) -> (
    FileResolverView,
    ActionView,
    Option<Warning>,
) {
    match st.stage {
        Stage::AwaitFileBytes => {
            let next = FileResolverView { ext: st.ext, stage: Stage::AwaitCreationDate };
            match ev {
                EventView::FileBytes(None) => (
                    next,
                    ActionView::RunCreationDateTool,
                    Some(Warning::Unopenable),
                ),
                EventView::FileBytes(Some(b)) => match primary_of(b) {
                    Ok(ts) => (
                        FileResolverView { ext: st.ext, stage: Stage::Finished },
                        ActionView::Finish(
                            OutcomeView::Resolved(
                                ResolutionView {
                                    timestamp: ts,
                                    target_name: target_name_spec(ts, st.ext, false),
                                    kind: SourceKind::Primary,
                                },
                            ),
                        ),
                        None,
                    ),
                    Err(w) => (next, ActionView::RunCreationDateTool, Some(w)),
                },
                _ => (st, ActionView::Finish(OutcomeView::Unresolved), None),
            }
        },
        Stage::AwaitCreationDate => {
            let next = FileResolverView { ext: st.ext, stage: Stage::AwaitCreateDate };
            match ev {
                EventView::ToolOutput(None) => (
                    next,
                    ActionView::RunCreateDateTool,
                    Some(Warning::ToolExecutionError),
                ),
                EventView::ToolOutput(Some(b)) => match secondary_of(b) {
                    Ok(ts) => (
                        FileResolverView { ext: st.ext, stage: Stage::Finished },
                        ActionView::Finish(
                            OutcomeView::Resolved(
                                ResolutionView {
                                    timestamp: ts,
                                    target_name: target_name_spec(ts, st.ext, false),
                                    kind: SourceKind::Secondary,
                                },
                            ),
                        ),
                        None,
                    ),
                    Err(w) => (next, ActionView::RunCreateDateTool, Some(w)),
                },
                _ => (st, ActionView::Finish(OutcomeView::Unresolved), None),
            }
        },
        Stage::AwaitCreateDate => {
            let done = FileResolverView { ext: st.ext, stage: Stage::Finished };
            match ev {
                EventView::ToolOutput(None) => (
                    done,
                    ActionView::Finish(OutcomeView::Unresolved),
                    Some(Warning::ToolExecutionError),
                ),
                EventView::ToolOutput(Some(b)) => match tertiary_of(b) {
                    Ok(ts) => (
                        done,
                        ActionView::Finish(
                            OutcomeView::Resolved(
                                ResolutionView {
                                    timestamp: ts,
                                    target_name: target_name_spec(ts, st.ext, true),
                                    kind: SourceKind::Tertiary,
                                },
                            ),
                        ),
                        None,
                    ),
                    Err(w) => (done, ActionView::Finish(OutcomeView::Unresolved), Some(w)),
                },
                _ => (st, ActionView::Finish(OutcomeView::Unresolved), None),
            }
        },
        Stage::Finished => (st, ActionView::Finish(OutcomeView::Unresolved), None),
    }
}

impl FileResolver {
    /// Feeds the raw result of the last asked-for work to the resolver and
    /// gets the next action.
    pub fn step(self, ev: Event) -> (r: (FileResolver, Action, Option<Warning>))
        requires
            compatible(self@, ev@),
        ensures
            (r.0@, r.1@, r.2) == step_spec(self@, ev@),
    {
        match self.stage {
            Stage::AwaitFileBytes => {
                match ev {
                    Event::FileBytes(None) => (
                        FileResolver { ext: self.ext, stage: Stage::AwaitCreationDate },
                        Action::RunCreationDateTool,
                        Some(Warning::Unopenable),
                    ),
                    Event::FileBytes(Some(b)) => match primary_timestamp(&b) {
                        Ok(ts) => {
                            let name = target_name(&ts, &self.ext, false);
                            (
                                FileResolver { ext: self.ext, stage: Stage::Finished },
                                Action::Finish(
                                    Outcome::Resolved(
                                        Resolution {
                                            timestamp: ts,
                                            target_name: name,
                                            kind: SourceKind::Primary,
                                        },
                                    ),
                                ),
                                None,
                            )
                        },
                        Err(w) => (
                            FileResolver { ext: self.ext, stage: Stage::AwaitCreationDate },
                            Action::RunCreationDateTool,
                            Some(w),
                        ),
                    },
                    _ => {
                        proof {
                            assert(false);
                        }
                        (self, Action::Finish(Outcome::Unresolved), None)
                    },
                }
            },
            Stage::AwaitCreationDate => {
                match ev {
                    Event::ToolOutput(None) => (
                        FileResolver { ext: self.ext, stage: Stage::AwaitCreateDate },
                        Action::RunCreateDateTool,
                        Some(Warning::ToolExecutionError),
                    ),
                    Event::ToolOutput(Some(b)) => match secondary_timestamp(b) {
                        Ok(ts) => {
                            let name = target_name(&ts, &self.ext, false);
                            (
                                FileResolver { ext: self.ext, stage: Stage::Finished },
                                Action::Finish(
                                    Outcome::Resolved(
                                        Resolution {
                                            timestamp: ts,
                                            target_name: name,
                                            kind: SourceKind::Secondary,
                                        },
                                    ),
                                ),
                                None,
                            )
                        },
                        Err(w) => (
                            FileResolver { ext: self.ext, stage: Stage::AwaitCreateDate },
                            Action::RunCreateDateTool,
                            Some(w),
                        ),
                    },
                    _ => {
                        proof {
                            assert(false);
                        }
                        (self, Action::Finish(Outcome::Unresolved), None)
                    },
                }
            },
            Stage::AwaitCreateDate => {
                match ev {
                    Event::ToolOutput(None) => (
                        FileResolver { ext: self.ext, stage: Stage::Finished },
                        Action::Finish(Outcome::Unresolved),
                        Some(Warning::ToolExecutionError),
                    ),
                    Event::ToolOutput(Some(b)) => match tertiary_timestamp(b) {
                        Ok(ts) => {
                            let name = target_name(&ts, &self.ext, true);
                            (
                                FileResolver { ext: self.ext, stage: Stage::Finished },
                                Action::Finish(
                                    Outcome::Resolved(
                                        Resolution {
                                            timestamp: ts,
                                            target_name: name,
                                            kind: SourceKind::Tertiary,
                                        },
                                    ),
                                ),
                                None,
                            )
                        },
                        Err(w) => (
                            FileResolver { ext: self.ext, stage: Stage::Finished },
                            Action::Finish(Outcome::Unresolved),
                            Some(w),
                        ),
                    },
                    _ => {
                        proof {
                            assert(false);
                        }
                        (self, Action::Finish(Outcome::Unresolved), None)
                    },
                }
            },
            Stage::Finished => {
                proof {
                    assert(false);
                }
                (self, Action::Finish(Outcome::Unresolved), None)
            },
        }
    }
}

/// Turns a finished file's outcome into its batch contribution: a
/// resolved file joins the plan under its timestamp, everything else is
/// excluded and only asks for confirmation.
pub fn outcome_to_batch_item(path: &str, outcome: Outcome) -> (r: BatchItem)
    ensures
        match outcome@ {
            OutcomeView::Resolved(res) => r@ == BatchItemView::Resolved(
                PlanEntryView { timestamp: res.timestamp, path: path@, new_name: res.target_name },
            ),
            OutcomeView::Skipped(_) => r@ == BatchItemView::Excluded,
            OutcomeView::Unresolved => r@ == BatchItemView::Excluded,
        },
{
    match outcome {
        Outcome::Resolved(res) => BatchItem::Resolved(
            PlanEntry {
                timestamp: res.timestamp,
                path: path.to_owned(),
                new_name: res.target_name,
            },
        ),
        Outcome::Skipped(_) => BatchItem::Excluded,
        Outcome::Unresolved => BatchItem::Excluded,
    }
}

/// For a file with an image extension (or none) whose container bytes
/// carry a valid primary capture time, the resolver chooses the
/// primary-container source: routing asks for the file's bytes, and the
/// very first step finishes with the primary resolution — the tag-based
/// sources are never consulted.
pub proof fn lemma_primary_precedence(p: Seq<char>, b: Seq<u8>)
    requires
        match ext_spec(p) {
            Some(e) => is_image_ext(e),
            None => true,
        },
        primary_of(b) is Ok,
    ensures
        start_spec(p).1 == ActionView::ReadFileBytes,
        step_spec(start_spec(p).0, EventView::FileBytes(Some(b))).1 == ActionView::Finish(
            OutcomeView::Resolved(
                ResolutionView {
                    timestamp: primary_of(b)->Ok_0,
                    target_name: target_name_spec(primary_of(b)->Ok_0, ext_spec(p), false),
                    kind: SourceKind::Primary,
                },
            ),
        ),
{
    lemma_allowlists_disjoint();
}

proof fn lemma_allowlists_disjoint()
    ensures
        forall|e: Seq<char>| is_image_ext(e) ==> !is_video_ext(e),
{
    reveal_strlit("jpg");
    reveal_strlit("jpeg");
    reveal_strlit("png");
    reveal_strlit("heic");
    reveal_strlit("mov");
    reveal_strlit("mp4");
    assert("jpg"@[0] == 'j' && "png"@[0] == 'p' && "mov"@[0] == 'm' && "mp4"@[0] == 'm');
    assert("jpeg"@.len() == 4 && "heic"@.len() == 4 && "mov"@.len() == 3 && "mp4"@.len() == 3);
    assert(forall|e: Seq<char>| #[trigger] is_image_ext(e) ==> !is_video_ext(e));
}

/// For a video-extension file the primary-container adapter is never
/// invoked: routing goes straight to the secondary tag tool ...
pub proof fn lemma_video_start(p: Seq<char>)
    requires
        ext_spec(p) matches Some(e) && is_video_ext(e),
    ensures
        start_spec(p).1 == ActionView::RunCreationDateTool,
        start_spec(p).0.stage != Stage::AwaitFileBytes,
{
}

/// ... and from any state past the container stage, no step ever asks
/// for the file's bytes again, so the container source stays untouched.
pub proof fn lemma_no_container_read_past_primary(st: FileResolverView, ev: EventView)
    requires
        st.stage != Stage::AwaitFileBytes,
    ensures
        step_spec(st, ev).1 != ActionView::ReadFileBytes,
        step_spec(st, ev).0.stage != Stage::AwaitFileBytes,
{
}

/// Whether the timezone-ambiguity marker occurs anywhere in a name.
pub open spec fn contains_marker(s: Seq<char>) -> bool {
    exists|i: int| 0 <= i && i + 6 <= s.len() && #[trigger] s.subrange(i, i + 6) == marker_view()
}

pub open spec fn has_no_space(s: Seq<char>) -> bool {
    forall|i: int| 0 <= i < s.len() ==> s[i] != ' '
}

/// A target name carries the timezone-ambiguity marker exactly when it
/// was built for a timezone-ambiguous source, provided neither the
/// timestamp nor the extension contains a space — which holds for every
/// canonical timestamp and every allow-listed extension.
pub proof fn lemma_marker_iff_ambiguous(ts: Seq<char>, ext: Option<Seq<char>>, tz_ambiguous: bool)
    requires
        has_no_space(ts),
        ext matches Some(e) ==> has_no_space(e),
    ensures
        contains_marker(target_name_spec(ts, ext, tz_ambiguous)) <==> tz_ambiguous,
{
    reveal_strlit(" (utc)");
    reveal_strlit(".");
    let name = target_name_spec(ts, ext, tz_ambiguous);
    if tz_ambiguous {
        let base = ts + marker_view();
        assert(name.subrange(ts.len() as int, ts.len() as int + 6) =~= marker_view());
        assert(contains_marker(name));
    } else {
        assert(marker_view()[0] == ' ');
        assert(has_no_space(name)) by {
            match ext {
                Some(e) => {
                    assert forall|i: int| 0 <= i < name.len() implies name[i] != ' ' by {
                        if i < ts.len() {
                            assert(name[i] == ts[i]);
                        } else if i == ts.len() {
                            assert(name[i] == '.');
                        } else {
                            assert(name[i] == e[i - ts.len() - 1]);
                        }
                    }
                },
                None => {},
            }
        }
        if contains_marker(name) {
            let i = choose|i: int|
                0 <= i && i + 6 <= name.len() && #[trigger] name.subrange(i, i + 6)
                    == marker_view();
            assert(name[i] == name.subrange(i, i + 6)[0]);
        }
    }
}

/// A live resolver state only ever carries an allow-listed extension or
/// none: routing finished every other file before a step is taken.
pub open spec fn ext_ok(st: FileResolverView) -> bool {
    match st.ext {
        Some(e) => is_image_ext(e) || is_video_ext(e),
        None => true,
    }
}

pub proof fn lemma_start_ext_ok(p: Seq<char>)
    ensures
        start_spec(p).0.stage != Stage::Finished ==> ext_ok(start_spec(p).0),
        step_spec_preserves_ext(start_spec(p).0),
{
}

pub open spec fn step_spec_preserves_ext(st: FileResolverView) -> bool {
    forall|ev: EventView| (#[trigger] step_spec(st, ev)).0.ext == st.ext
}

proof fn lemma_allowlist_no_space(e: Seq<char>)
    requires
        is_image_ext(e) || is_video_ext(e),
    ensures
        has_no_space(e),
{
    reveal_strlit("jpg");
    reveal_strlit("jpeg");
    reveal_strlit("png");
    reveal_strlit("heic");
    reveal_strlit("mov");
    reveal_strlit("mp4");
}

/// Every resolution the machine can produce carries the
/// timezone-ambiguity marker in its target name exactly when it came from
/// the tertiary, timezone-ambiguous source: primary- and secondary-sourced
/// names never carry it.
pub proof fn lemma_marker_iff_tertiary(st: FileResolverView, ev: EventView)
    requires
        ext_ok(st),
    ensures
        step_spec(st, ev).1 matches ActionView::Finish(OutcomeView::Resolved(r)) ==> (
        contains_marker(r.target_name) <==> r.kind == SourceKind::Tertiary),
{
    let act = step_spec(st, ev).1;
    if act is Finish && act->Finish_0 is Resolved {
        let r = act->Finish_0->Resolved_0;
        let ts = r.timestamp;
        assert(has_no_space(ts)) by {
            match st.stage {
                Stage::AwaitFileBytes => {
                    if let EventView::FileBytes(Some(b)) = ev {
                        if primary_of(b) is Ok {
                            let fields = crate::adapters::exif_fields_of(b)->Some_0;
                            let raw = crate::adapters::primary_capture_time_of(fields)->Some_0;
                            assert(ts == crate::text::normalized(raw));
                            lemma_normalized_has_no_space(raw);
                        }
                    }
                },
                Stage::AwaitCreationDate => {
                    if let EventView::ToolOutput(Some(b)) = ev {
                        if secondary_of(b) is Ok {
                            let body = b.subrange(0, b.len() - 7);
                            assert(ts == crate::text::normalized(vstd::utf8::decode_utf8(body)));
                            lemma_normalized_has_no_space(vstd::utf8::decode_utf8(body));
                        }
                    }
                },
                Stage::AwaitCreateDate => {
                    if let EventView::ToolOutput(Some(b)) = ev {
                        if tertiary_of(b) is Ok {
                            let body = b.subrange(0, b.len() - 1);
                            assert(ts == crate::text::normalized(vstd::utf8::decode_utf8(body)));
                            lemma_normalized_has_no_space(vstd::utf8::decode_utf8(body));
                        }
                    }
                },
                Stage::Finished => {},
            }
        }
        match st.ext {
            Some(e) => lemma_allowlist_no_space(e),
            None => {},
        }
        lemma_marker_iff_ambiguous(ts, st.ext, r.kind == SourceKind::Tertiary);
    }
}

} // verus!
