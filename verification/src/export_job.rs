//! Export and clipboard jobs before and around their workers: what an export asks for, the
//! checks a request passes before any worker starts, the pending exports that the tray may
//! cancel, and what an overlay's finishing action exports. Encoding files and talking to the
//! clipboard happen in the workers, outside.

use crate::job_supervisor::{has_job, job_index, JobState, JobSupervisor, SupervisorView};
use crate::geometry::{clamp_i32, PixelPoint, PixelRect};
use crate::model::{ErrorCode, ImageId, JobId, JobKind, JobOwner, JobSpec, PinId, PinoraError, SessionId};
use crate::overlay_selection_readout::saturating_add_i32;
use crate::scan::find_from;
use crate::text::{chars_equal, chars_of, push_text};
use vstd::prelude::*;

verus! {

/// The file format of a saved image.
#[derive(Debug, Clone, Copy, PartialEq, Eq, Structural)]
pub enum ExportImageFormat {
    Png,
    Jpeg,
    WebP,
}

pub open spec fn extension_text(f: ExportImageFormat) -> Seq<char> {
    match f {
        ExportImageFormat::Png => "png"@,
        ExportImageFormat::Jpeg => "jpg"@,
        ExportImageFormat::WebP => "webp"@,
    }
}

impl ExportImageFormat {
    /// The file name extension that a saved file of this format carries.
    pub fn file_extension(self) -> (e: &'static str)
        ensures
            e@ == extension_text(self),
    {
        match self {
            ExportImageFormat::Png => "png",
            ExportImageFormat::Jpeg => "jpg",
            ExportImageFormat::WebP => "webp",
        }
    }
}

/// What an export worker is asked to do. Images travel as their identity here; the pixels stay
/// with the caller.
#[derive(Debug, Clone, PartialEq, Eq)]
pub enum ExportJobInput {
    SaveImage { image: ImageId, path: String, format: ExportImageFormat, jpeg_quality: u8 },
    CopyImage { image: ImageId },
    CopyText { text: String },
}

pub open spec fn input_kind(input: ExportJobInput) -> JobKind {
    match input {
        ExportJobInput::SaveImage { .. } => JobKind::Export,
        _ => JobKind::Clipboard,
    }
}

pub open spec fn input_image(input: ExportJobInput) -> Option<ImageId> {
    match input {
        ExportJobInput::SaveImage { image, .. } => Some(image),
        ExportJobInput::CopyImage { image } => Some(image),
        ExportJobInput::CopyText { .. } => None,
    }
}

/// The last path component of `path` (the text after its last `/`).
pub open spec fn last_component(path: Seq<char>) -> Seq<char>
    decreases path.len(),
{
    if path.len() == 0 {
        Seq::empty()
    } else if path.last() == '/' {
        Seq::empty()
    } else {
        last_component(path.drop_last()).push(path.last())
    }
}

/// `path` without what `Path` does not count as its last component: trailing separators and
/// trailing `.` components after a separator.
pub open spec fn trim_tail(path: Seq<char>) -> Seq<char>
    decreases path.len(),
{
    if path.len() > 0 && path.last() == '/' {
        trim_tail(path.drop_last())
    } else if path.len() >= 2 && path.last() == '.' && path[path.len() - 2] == '/' {
        trim_tail(path.drop_last())
    } else {
        path
    }
}

/// The file name `Path::file_name` finds in `path` (empty where there is none).
pub open spec fn file_name_of(path: Seq<char>) -> Seq<char> {
    last_component(trim_tail(path))
}

/// The extension of a file name as `Path::extension` reads it: the text after the last `.`,
/// where that dot is not the name's first character; none for `..`.
pub open spec fn name_extension(name: Seq<char>) -> Option<Seq<char>> {
    let rev = name.reverse();
    let k = find_from(rev, '.', 0);
    if name == ".."@ || k >= name.len() || k == name.len() - 1 {
        None
    } else {
        Some(name.subrange(name.len() - k, name.len() as int))
    }
}

pub const EXTENSION_MISMATCH: &'static str = "export path extension does not match frozen format";

pub const JPEG_QUALITY_OUT_OF_RANGE: &'static str = "JPEG quality is outside the supported range";

pub const IMAGE_MISMATCH: &'static str = "export input image does not match JobSpec asset";

/// Why a save request is refused before its worker starts, if it is: the path's extension must
/// be the format's, and a JPEG quality must lie in 1..=100.
pub open spec fn file_target_error(input: ExportJobInput) -> Option<Seq<char>> {
    match input {
        ExportJobInput::SaveImage { path, format, jpeg_quality, .. } => if name_extension(
            file_name_of(path@),
        ) != Some(extension_text(format)) {
            Some(EXTENSION_MISMATCH@)
        } else if format == ExportImageFormat::Jpeg && !(1 <= jpeg_quality && jpeg_quality <= 100) {
            Some(JPEG_QUALITY_OUT_OF_RANGE@)
        } else {
            None
        },
        _ => None,
    }
}

pub open spec fn kind_name(k: JobKind) -> Seq<char> {
    match k {
        JobKind::Ocr => "Ocr"@,
        JobKind::Export => "Export"@,
        JobKind::Clipboard => "Clipboard"@,
        JobKind::HistoryLoad => "HistoryLoad"@,
    }
}

pub open spec fn kind_mismatch_message(needed: JobKind, got: JobKind) -> Seq<char> {
    "export input requires "@ + kind_name(needed) + ", got "@ + kind_name(got)
}

impl ExportJobInput {
    pub fn kind(&self) -> (k: JobKind)
        ensures
            k == input_kind(*self),
    {
        match self {
            ExportJobInput::SaveImage { .. } => JobKind::Export,
            _ => JobKind::Clipboard,
        }
    }

    pub fn image_id(&self) -> (id: Option<ImageId>)
        ensures
            id == input_image(*self),
    {
        match self {
            ExportJobInput::SaveImage { image, .. } => Some(*image),
            ExportJobInput::CopyImage { image } => Some(*image),
            ExportJobInput::CopyText { .. } => None,
        }
    }

    /// Refuses a save whose path or JPEG quality does not fit its format.
    pub fn validate_file_target(&self) -> (r: Result<(), PinoraError>)
        ensures
            match file_target_error(*self) {
                Some(m) => r matches Err(e) && e.code == ErrorCode::CommandRejected && e.message@
                    == m,
                None => r is Ok,
            },
    {
        match self {
            ExportJobInput::SaveImage { path, format, jpeg_quality, .. } => {
                let ext = path_extension(path.as_str());
                let wanted = chars_of(format.file_extension());
                let matches = match &ext {
                    Some(e) => chars_equal(e, &wanted),
                    None => false,
                };
                if !matches {
                    return Err(PinoraError::new(ErrorCode::CommandRejected, EXTENSION_MISMATCH));
                }
                if *format == ExportImageFormat::Jpeg && !(1 <= *jpeg_quality && *jpeg_quality
                    <= 100) {
                    return Err(
                        PinoraError::new(ErrorCode::CommandRejected, JPEG_QUALITY_OUT_OF_RANGE),
                    );
                }
                Ok(())
            },
            _ => Ok(()),
        }
    }
}

fn trimmed_tail(path: &Vec<char>) -> (t: Vec<char>)
    ensures
        t@ == trim_tail(path@),
{
    let mut end: usize = path.len();
    assert(path@.subrange(0, end as int) =~= path@);
    while end > 0 && (path[end - 1] == '/' || (end >= 2 && path[end - 1] == '.' && path[end - 2] == '/'))
        invariant
            end <= path@.len(),
            trim_tail(path@.subrange(0, end as int)) == trim_tail(path@),
        decreases end,
    {
        let ghost before = path@.subrange(0, end as int);
        assert(before.drop_last() =~= path@.subrange(0, end - 1));
        end -= 1;
    }
    let mut t: Vec<char> = Vec::new();
    let mut i: usize = 0;
    while i < end
        invariant
            i <= end <= path@.len(),
            t@ == path@.subrange(0, i as int),
        decreases end - i,
    {
        t.push(path[i]);
        assert(t@ =~= path@.subrange(0, i + 1));
        i += 1;
    }
    t
}

fn last_component_chars(path: &Vec<char>) -> (name: Vec<char>)
    ensures
        name@ == last_component(path@),
{
    let mut start: usize = path.len();
    while start > 0 && path[start - 1] != '/'
        invariant
            start <= path@.len(),
            forall|k: int| start <= k < path@.len() ==> path@[k] != '/',
        decreases start,
    {
        start -= 1;
    }
    proof {
        lemma_last_component(path@, start as int);
    }
    let mut name: Vec<char> = Vec::new();
    let mut i: usize = start;
    while i < path.len()
        invariant
            start <= i <= path@.len(),
            name@ == path@.subrange(start as int, i as int),
        decreases path@.len() - i,
    {
        name.push(path[i]);
        assert(name@ =~= path@.subrange(start as int, i + 1));
        i += 1;
    }
    name
}

proof fn lemma_last_component(path: Seq<char>, start: int)
    requires
        0 <= start <= path.len(),
        forall|k: int| start <= k < path.len() ==> path[k] != '/',
        start == 0 || path[start - 1] == '/',
    ensures
        last_component(path) == path.subrange(start, path.len() as int),
    decreases path.len(),
{
    if path.len() == start {
        if path.len() > 0 {
            assert(path.last() == '/');
        }
        assert(path.subrange(start, path.len() as int) =~= Seq::<char>::empty());
    } else {
        let shorter = path.drop_last();
        assert forall|k: int| start <= k < shorter.len() implies shorter[k] != '/' by {
            assert(shorter[k] == path[k]);
        }
        if start > 0 {
            assert(shorter[start - 1] == path[start - 1]);
        }
        lemma_last_component(shorter, start);
        assert(path.subrange(start, path.len() as int) =~= shorter.subrange(
            start,
            shorter.len() as int,
        ).push(path.last()));
    }
}

fn path_extension(path: &str) -> (ext: Option<Vec<char>>)
    ensures
        match name_extension(file_name_of(path@)) {
            Some(e) => ext matches Some(v) && v@ == e,
            None => ext is None,
        },
{
    let name = last_component_chars(&trimmed_tail(&chars_of(path)));
    let n = name.len();
    let mut k: usize = 0;
    let ghost rev = name@.reverse();
    while k < n && name[n - 1 - k] != '.'
        invariant
            k <= n == name@.len(),
            rev == name@.reverse(),
            find_from(rev, '.', 0) == find_from(rev, '.', k as int),
        decreases n - k,
    {
        assert(rev[k as int] == name@[n - 1 - k]);
        k += 1;
    }
    if k < n {
        assert(rev[k as int] == name@[n - 1 - k]);
    }
    assert(find_from(rev, '.', k as int) == k);
    let dots = chars_of("..");
    if chars_equal(&name, &dots) || k >= n || k == n - 1 {
        return None;
    }
    let mut ext: Vec<char> = Vec::new();
    let mut i: usize = n - k;
    while i < n
        invariant
            k < n,
            n - k <= i <= n == name@.len(),
            ext@ == name@.subrange(n - k, i as int),
        decreases n - i,
    {
        ext.push(name[i]);
        assert(ext@ =~= name@.subrange(n - k, i + 1));
        i += 1;
    }
    Some(ext)
}

fn kind_label(k: JobKind) -> (s: &'static str)
    ensures
        s@ == kind_name(k),
{
    match k {
        JobKind::Ocr => "Ocr",
        JobKind::Export => "Export",
        JobKind::Clipboard => "Clipboard",
        JobKind::HistoryLoad => "HistoryLoad",
    }
}

/// Why a request is refused before its job is submitted: the file target first, then a job
/// kind other than the input's, then an image other than the job's asset.
pub open spec fn start_error(spec: JobSpec, input: ExportJobInput) -> Option<(ErrorCode, Seq<char>)> {
    match file_target_error(input) {
        Some(m) => Some((ErrorCode::CommandRejected, m)),
        None => if spec.kind != input_kind(input) {
            Some((ErrorCode::CommandRejected, kind_mismatch_message(input_kind(input), spec.kind)))
        } else {
            match input_image(input) {
                Some(id) => if spec.asset.image_id != id {
                    Some((ErrorCode::InvalidState, IMAGE_MISMATCH@))
                } else {
                    None
                },
                None => None,
            }
        },
    }
}

/// The checks an export request passes before its job is submitted and its worker starts.
pub fn check_export_start(spec: &JobSpec, input: &ExportJobInput) -> (r: Result<(), PinoraError>)
    ensures
        match start_error(*spec, *input) {
            Some((code, m)) => r matches Err(e) && e.code == code && e.message@ == m,
            None => r is Ok,
        },
{
    input.validate_file_target()?;
    let needed = input.kind();
    if !spec.kind.same_as(&needed) {
        let mut m = String::new();
        push_text(&mut m, "export input requires ");
        push_text(&mut m, kind_label(needed));
        push_text(&mut m, ", got ");
        push_text(&mut m, kind_label(spec.kind));
        assert(m@ =~= kind_mismatch_message(needed, spec.kind));
        return Err(PinoraError { code: ErrorCode::CommandRejected, message: m });
    }
    match input.image_id() {
        Some(id) => {
            if spec.asset.image_id.raw != id.raw {
                return Err(PinoraError::new(ErrorCode::InvalidState, IMAGE_MISMATCH));
            }
        },
        None => {},
    }
    Ok(())
}

/// How the tray reports an export.
#[derive(Debug, Clone, Copy, PartialEq, Eq, Structural)]
pub enum TrayExportOperation {
    SaveFile,
    CopyImage,
    CopyText,
}

/// An export waiting for its worker.
#[derive(Debug, Clone, PartialEq, Eq)]
pub enum PendingExportAction {
    SaveImage(String),
    CopyImage,
    CopyText,
}

impl PendingExportAction {
    pub fn is_file_save(&self) -> (b: bool)
        ensures
            b == (*self is SaveImage),
    {
        match self {
            PendingExportAction::SaveImage(_) => true,
            _ => false,
        }
    }

    pub fn tray_operation(&self) -> (op: TrayExportOperation)
        ensures
            op == (match *self {
                PendingExportAction::SaveImage(_) => TrayExportOperation::SaveFile,
                PendingExportAction::CopyImage => TrayExportOperation::CopyImage,
                PendingExportAction::CopyText => TrayExportOperation::CopyText,
            }),
    {
        match self {
            PendingExportAction::SaveImage(_) => TrayExportOperation::SaveFile,
            PendingExportAction::CopyImage => TrayExportOperation::CopyImage,
            PendingExportAction::CopyText => TrayExportOperation::CopyText,
        }
    }
}

pub fn tray_export_operation(action: &PendingExportAction) -> (op: TrayExportOperation)
    ensures
        op == (match *action {
            PendingExportAction::SaveImage(_) => TrayExportOperation::SaveFile,
            PendingExportAction::CopyImage => TrayExportOperation::CopyImage,
            PendingExportAction::CopyText => TrayExportOperation::CopyText,
        }),
{
    action.tray_operation()
}

pub open spec fn running_in(v: SupervisorView, id: JobId) -> bool {
    has_job(v.jobs, id) && v.jobs[job_index(v.jobs, id)].state == JobState::Running
}

/// The pending file saves that are still running, in the order given.
pub open spec fn running_saves(pending: Seq<(JobId, PendingExportAction)>, v: SupervisorView) -> Seq<
    JobId,
>
    decreases pending.len(),
{
    if pending.len() == 0 {
        Seq::empty()
    } else {
        let before = running_saves(pending.drop_last(), v);
        let (id, action) = pending.last();
        if action is SaveImage && running_in(v, id) {
            before.push(id)
        } else {
            before
        }
    }
}

/// The job ids of the pending exports, in order. The pending exports act as a map from job
/// id: each id occurs at most once.
pub open spec fn pending_export_ids(pending: Seq<(JobId, PendingExportAction)>) -> Seq<JobId> {
    pending.map_values(|e: (JobId, PendingExportAction)| e.0)
}

/// Every id that `running_saves` keeps is a pending save whose job is running, every such
/// save is kept, and where the pending ids are distinct no id is kept twice.
proof fn lemma_running_saves(pending: Seq<(JobId, PendingExportAction)>, v: SupervisorView)
    ensures
        forall|id: JobId| #[trigger]
            running_saves(pending, v).contains(id) <==> exists|k: int|
                0 <= k < pending.len() && pending[k].0 == id && pending[k].1 is SaveImage
                    && running_in(v, id),
        pending_export_ids(pending).no_duplicates() ==> running_saves(pending, v).no_duplicates(),
    decreases pending.len(),
{
    if pending.len() > 0 {
        let rest = pending.drop_last();
        lemma_running_saves(rest, v);
        let before = running_saves(rest, v);
        let (id, action) = pending.last();
        let last = pending.len() - 1;
        assert forall|x: JobId| #[trigger]
            running_saves(pending, v).contains(x) <==> exists|k: int|
                0 <= k < pending.len() && pending[k].0 == x && pending[k].1 is SaveImage
                    && running_in(v, x) by {
            if running_saves(pending, v).contains(x) {
                if before.contains(x) {
                    let k = choose|k: int|
                        0 <= k < rest.len() && rest[k].0 == x && rest[k].1 is SaveImage
                            && running_in(v, x);
                    assert(pending[k] == rest[k]);
                } else {
                    assert(action is SaveImage && running_in(v, id));
                    assert(before.push(id).contains(x));
                    let j = choose|j: int| 0 <= j < before.push(id).len() && before.push(id)[j] == x;
                    assert(x == id);
                    assert(pending[last].0 == x);
                }
            }
            if exists|k: int|
                0 <= k < pending.len() && pending[k].0 == x && pending[k].1 is SaveImage
                    && running_in(v, x) {
                let k = choose|k: int|
                    0 <= k < pending.len() && pending[k].0 == x && pending[k].1 is SaveImage
                        && running_in(v, x);
                if k < last {
                    assert(rest[k] == pending[k]);
                    assert(before.contains(x));
                    if action is SaveImage && running_in(v, id) {
                        let j = choose|j: int| 0 <= j < before.len() && before[j] == x;
                        assert(before.push(id)[j] == x);
                    }
                } else {
                    assert(before.push(id)[before.len() as int] == x);
                }
            }
        }
        if pending_export_ids(pending).no_duplicates() {
            let ids = pending_export_ids(pending);
            assert(pending_export_ids(rest) =~= ids.drop_last());
            assert(pending_export_ids(rest).no_duplicates());
            if action is SaveImage && running_in(v, id) {
                if before.contains(id) {
                    let k = choose|k: int|
                        0 <= k < rest.len() && rest[k].0 == id && rest[k].1 is SaveImage
                            && running_in(v, id);
                    assert(ids[k] == id && ids[last] == id);
                }
                assert forall|a: int, b: int|
                    0 <= a < b < before.push(id).len() implies before.push(id)[a]
                    != before.push(id)[b] by {
                    if b == before.len() {
                        assert(before.contains(before[a]));
                    }
                }
            }
        }
    }
}

/// The pending exports that the tray may cancel: file saves whose job is still running.
/// Clipboard jobs and finished jobs stay pending until their worker's report is consumed.
/// Exactly the running saves are listed; where each job id is pending once, none twice.
pub fn running_file_export_ids(
    pending: &Vec<(JobId, PendingExportAction)>,
    supervisor: &JobSupervisor,
) -> (ids: Vec<JobId>)
    requires
        supervisor.wf(),
    ensures
        ids@ == running_saves(pending@, supervisor.view()),
        forall|id: JobId| #[trigger]
            ids@.contains(id) <==> exists|k: int|
                0 <= k < pending@.len() && pending@[k].0 == id && pending@[k].1 is SaveImage
                    && running_in(supervisor.view(), id),
        pending_export_ids(pending@).no_duplicates() ==> ids@.no_duplicates(),
{
    let mut ids: Vec<JobId> = Vec::new();
    let mut i: usize = 0;
    while i < pending.len()
        invariant
            i <= pending@.len(),
            supervisor.wf(),
            ids@ == running_saves(pending@.subrange(0, i as int), supervisor.view()),
        decreases pending@.len() - i,
    {
        let ghost sub = pending@.subrange(0, i + 1);
        assert(sub.drop_last() =~= pending@.subrange(0, i as int));
        let (id, action) = &pending[i];
        if action.is_file_save() {
            match supervisor.state(*id) {
                Some(JobState::Running) => {
                    ids.push(*id);
                },
                _ => {},
            }
        }
        i += 1;
    }
    assert(pending@.subrange(0, pending@.len() as int) =~= pending@);
    proof {
        lemma_running_saves(pending@, supervisor.view());
    }
    ids
}

/// The output parameters of a save, fixed when it is submitted.
#[derive(Debug, Clone, PartialEq, Eq)]
pub struct FrozenExportTarget {
    pub path: String,
    pub format: ExportImageFormat,
    pub jpeg_quality: u8,
}

impl FrozenExportTarget {
    pub fn new(path: String, format: ExportImageFormat, jpeg_quality: u8) -> (t: FrozenExportTarget)
        ensures
            t.path@ == path@,
            t.format == format,
            t.jpeg_quality == jpeg_quality,
    {
        FrozenExportTarget { path, format, jpeg_quality }
    }
}

/// How an overlay selection is finished.
#[derive(Debug, Clone, Copy, PartialEq, Eq, Structural)]
pub enum OverlayFinish {
    Copy,
    Pin,
    Save,
}

/// Which pixels an export takes: the captured image as it was, or with the annotations drawn.
#[derive(Debug, Clone, Copy, PartialEq, Eq, Structural)]
pub enum CaptureExportSource {
    Original,
    Annotated,
}

/// Copy and save export the source the user selected; a pin always shows the annotated image.
pub fn export_source_for_overlay_finish(action: OverlayFinish, selected: CaptureExportSource) -> (s:
    CaptureExportSource)
    ensures
        s == (match action {
            OverlayFinish::Pin => CaptureExportSource::Annotated,
            _ => selected,
        }),
{
    match action {
        OverlayFinish::Copy | OverlayFinish::Save => selected,
        OverlayFinish::Pin => CaptureExportSource::Annotated,
    }
}

/// The export an overlay's finishing action starts.
#[derive(Debug, Clone, Copy, PartialEq, Eq, Structural)]
pub enum FinishExport {
    Copy,
    Save,
}

/// An export job that finishing an overlay starts, with the owner it runs for.
#[derive(Debug, Clone, Copy, PartialEq, Eq, Structural)]
pub struct FinishJob {
    pub owner: JobOwner,
    pub export: FinishExport,
}

/// What finishing an overlay does once its image is cropped.
#[derive(Debug, Clone, Copy, PartialEq, Eq, Structural)]
pub struct OverlayFinishPlan {
    /// The pin whose image the result replaces, when the overlay edited a pin.
    pub replace_pin: Option<PinId>,
    /// The export to start, with the owner its job runs for.
    pub export: Option<FinishJob>,
    /// Whether a new pin window opens with the result.
    pub open_pin: bool,
}

pub open spec fn finish_export_of(action: OverlayFinish) -> Option<FinishExport> {
    match action {
        OverlayFinish::Copy => Some(FinishExport::Copy),
        OverlayFinish::Save => Some(FinishExport::Save),
        OverlayFinish::Pin => None,
    }
}

pub open spec fn finish_plan(action: OverlayFinish, edit_pin: Option<PinId>, session: SessionId) -> OverlayFinishPlan {
    match edit_pin {
        Some(pin) => OverlayFinishPlan {
            replace_pin: Some(pin),
            export: match finish_export_of(action) {
                Some(e) => Some(FinishJob { owner: JobOwner::Pin(pin), export: e }),
                None => None,
            },
            open_pin: false,
        },
        None => OverlayFinishPlan {
            replace_pin: None,
            export: match finish_export_of(action) {
                Some(e) => Some(FinishJob { owner: JobOwner::Session(session), export: e }),
                None => None,
            },
            open_pin: action == OverlayFinish::Pin,
        },
    }
}

/// Plans an overlay's finish. Editing a pin replaces that pin's image, and a copy or save then
/// runs for the pin; pinning applies the edit to the same pin and opens no window. A plain
/// capture copies or saves for its session, or opens a new pin.
pub fn overlay_finish_plan(action: OverlayFinish, edit_pin: Option<PinId>, session: SessionId) -> (p:
    OverlayFinishPlan)
    ensures
        p == finish_plan(action, edit_pin, session),
{
    let export = match action {
        OverlayFinish::Copy => Some(FinishExport::Copy),
        OverlayFinish::Save => Some(FinishExport::Save),
        OverlayFinish::Pin => None,
    };
    match edit_pin {
        Some(pin) => OverlayFinishPlan {
            replace_pin: Some(pin),
            export: match export {
                Some(e) => Some(FinishJob { owner: JobOwner::Pin(pin), export: e }),
                None => None,
            },
            open_pin: false,
        },
        None => OverlayFinishPlan {
            replace_pin: None,
            export: match export {
                Some(e) => Some(FinishJob { owner: JobOwner::Session(session), export: e }),
                None => None,
            },
            open_pin: matches!(action, OverlayFinish::Pin),
        },
    }
}

/// The selection in desktop coordinates: the rectangle within the captured image moved by the
/// display's origin, saturating at the `i32` range.
pub fn global_selection_rect(display_origin: PixelPoint, selection: PixelRect) -> (r: PixelRect)
    ensures
        r.origin.x == clamp_i32(display_origin.x + selection.origin.x),
        r.origin.y == clamp_i32(display_origin.y + selection.origin.y),
        r.size == selection.size,
{
    PixelRect::new(
        saturating_add_i32(display_origin.x, selection.origin.x),
        saturating_add_i32(display_origin.y, selection.origin.y),
        selection.size.width,
        selection.size.height,
    )
}

} // verus!
