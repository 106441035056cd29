//! The per-job workspace on disk: which file in it is the artifact, how large
//! an artifact may be, and which leftovers a sweep removes.
use vstd::prelude::*;
use vstd::string::*;
use crate::errors::{bad_request_view, internal_view, ApiError};
use crate::model::strings_view;

verus! {

/// The largest artifact that is delivered: 250 MiB.
pub const MAX_DOWNLOAD_BYTES: u64 = 262_144_000;

/// A delivered job's workspace is kept this long: 20 minutes.
pub const DOWNLOAD_JOB_RETENTION_SECONDS: u64 = 1_200;

/// What lies this long unchanged in the workspace root is a leftover: 2 hours.
pub const STALE_DOWNLOAD_JOB_SECONDS: u64 = 7_200;

/// `path` lies strictly inside `dir`: the components of `dir` followed by at
/// least one more. Both are canonical paths, given component by component.
pub open spec fn lies_inside(dir: Seq<Seq<char>>, path: Seq<Seq<char>>) -> bool {
    dir.len() < path.len() && path.take(dir.len() as int) == dir
}

pub fn is_inside(dir: &Vec<String>, path: &Vec<String>) -> (inside: bool)
    ensures
        inside == lies_inside(strings_view(dir@), strings_view(path@)),
{
    if dir.len() >= path.len() {
        return false;
    }
    let ghost d = strings_view(dir@);
    let ghost p = strings_view(path@);
    let mut i: usize = 0;
    while i < dir.len()
        invariant
            i <= dir.len() < path.len(),
            d == strings_view(dir@),
            p == strings_view(path@),
            forall|k: int| 0 <= k < i ==> d[k] == p[k],
        decreases dir.len() - i,
    {
        if dir[i] != path[i] {
            assert(d[i as int] != p[i as int]);
            assert(p.take(d.len() as int)[i as int] == p[i as int]);
            return false;
        }
        i += 1;
    }
    assert(p.take(d.len() as int) =~= d);
    true
}

/// What looking at one candidate path found.
#[derive(Debug)]
pub enum CandidateProbe {
    /// Nothing exists at the path.
    Missing,
    /// Its metadata could not be read.
    Unreadable { detail: String },
    /// It exists and is not a regular file.
    NotAFile,
    /// It is a regular file whose canonical path could not be determined.
    Unresolvable { detail: String },
    /// It is a regular file with this canonical path.
    Resolved { canonical: Vec<String> },
    /// The workspace could not be listed.
    ListingFailed { detail: String },
    /// The listing broke off.
    EntryFailed { detail: String },
}

/// What the probe of a workspace entry means for the scan.
pub enum CandidateVerdict {
    /// This is the artifact.
    Accept,
    /// Not the artifact; look at the next one.
    Skip,
    /// The search fails with this message.
    Abort(Seq<char>),
}

pub open spec fn candidate_verdict(dir: Seq<Seq<char>>, probe: CandidateProbe) -> CandidateVerdict {
    match probe {
        CandidateProbe::Missing => CandidateVerdict::Skip,
        CandidateProbe::NotAFile => CandidateVerdict::Skip,
        CandidateProbe::Unreadable { detail } => CandidateVerdict::Abort(
            "No se pudo leer archivo temporal descargado: "@ + detail@,
        ),
        CandidateProbe::Unresolvable { detail } => CandidateVerdict::Abort(
            "No se pudo resolver ruta temporal descargada: "@ + detail@,
        ),
        CandidateProbe::Resolved { canonical } => if lies_inside(dir, strings_view(canonical@)) {
            CandidateVerdict::Accept
        } else {
            CandidateVerdict::Skip
        },
        CandidateProbe::ListingFailed { detail } => CandidateVerdict::Abort(
            "No se pudo abrir la carpeta temporal: "@ + detail@,
        ),
        CandidateProbe::EntryFailed { detail } => CandidateVerdict::Abort(
            "No se pudo leer archivos temporales: "@ + detail@,
        ),
    }
}

/// Judges one entry of the workspace during the scan: `Ok(true)` for the
/// artifact, `Ok(false)` to go on with the next entry, an internal failure
/// when the file system could not answer for the entry. A file outside the
/// workspace is never accepted. The printed path is not judged here: what
/// was found there is passed over unless it is the artifact, see
/// `probe_is_artifact`.
pub fn resolve_download_candidate(dir: &Vec<String>, probe: &CandidateProbe) -> (r: Result<
    bool,
    ApiError,
>)
    ensures
        match candidate_verdict(strings_view(dir@), *probe) {
            CandidateVerdict::Accept => r == Ok::<bool, ApiError>(true),
            CandidateVerdict::Skip => r == Ok::<bool, ApiError>(false),
            CandidateVerdict::Abort(message) => r is Err && r->Err_0@ == internal_view(message),
        },
{
    match probe {
        CandidateProbe::Missing => Ok(false),
        CandidateProbe::NotAFile => Ok(false),
        CandidateProbe::Unreadable { detail } => Err(
            ApiError::internal_with_detail(
                "No se pudo leer archivo temporal descargado: ",
                detail.as_str(),
            ),
        ),
        CandidateProbe::Unresolvable { detail } => Err(
            ApiError::internal_with_detail(
                "No se pudo resolver ruta temporal descargada: ",
                detail.as_str(),
            ),
        ),
        CandidateProbe::Resolved { canonical } => Ok(is_inside(dir, canonical)),
        CandidateProbe::ListingFailed { detail } => Err(
            ApiError::internal_with_detail(
                "No se pudo abrir la carpeta temporal: ",
                detail.as_str(),
            ),
        ),
        CandidateProbe::EntryFailed { detail } => Err(
            ApiError::internal_with_detail(
                "No se pudo leer archivos temporales: ",
                detail.as_str(),
            ),
        ),
    }
}

pub open spec fn artifact_not_found_message() -> Seq<char> {
    "No se encontro el archivo descargado para transferir al dispositivo."@
}

/// The probe found a regular file that lies inside the workspace.
pub open spec fn is_artifact(dir: Seq<Seq<char>>, probe: CandidateProbe) -> bool {
    probe matches CandidateProbe::Resolved { canonical } && lies_inside(
        dir,
        strings_view(canonical@),
    )
}

pub fn probe_is_artifact(dir: &Vec<String>, probe: &CandidateProbe) -> (b: bool)
    ensures
        b == is_artifact(strings_view(dir@), *probe),
{
    match probe {
        CandidateProbe::Resolved { canonical } => is_inside(dir, canonical),
        _ => false,
    }
}

/// None of the first `i` probes found the artifact.
pub open spec fn none_is_artifact(dir: Seq<Seq<char>>, probes: Seq<CandidateProbe>, i: int) -> bool {
    forall|j: int| 0 <= j < i ==> !is_artifact(dir, #[trigger] probes[j])
}

/// Every probe before index `i` says to look further.
pub open spec fn all_skipped(dir: Seq<Seq<char>>, probes: Seq<CandidateProbe>, i: int) -> bool {
    forall|j: int| 0 <= j < i ==> candidate_verdict(dir, #[trigger] probes[j]) is Skip
}

/// Which candidate is the artifact.
#[derive(Clone, Copy, Debug, PartialEq, Eq, Structural)]
pub enum ArtifactChoice {
    /// The candidate with this index among those for the printed path.
    Printed(usize),
    /// The entry with this index among those of the workspace.
    Scanned(usize),
}

/// What the search for the artifact comes to. The printed path is preferred:
/// the first of its readings that is a regular file inside the workspace is
/// taken, and a reading that is missing, unreadable or outside the workspace
/// is passed over. Otherwise the workspace's entries are gone through in
/// order: the first regular file inside the workspace is taken, and the
/// search fails at the first entry the file system could not answer for, and
/// when no entry is the artifact.
pub open spec fn resolution(
    dir: Seq<Seq<char>>,
    printed: Seq<CandidateProbe>,
    scanned: Seq<CandidateProbe>,
    r: Result<ArtifactChoice, ApiError>,
) -> bool {
    match r {
        Ok(ArtifactChoice::Printed(i)) => i < printed.len() && none_is_artifact(
            dir,
            printed,
            i as int,
        ) && is_artifact(dir, printed[i as int]),
        Ok(ArtifactChoice::Scanned(i)) => none_is_artifact(dir, printed, printed.len() as int)
            && i < scanned.len() && all_skipped(dir, scanned, i as int) && candidate_verdict(
            dir,
            scanned[i as int],
        ) is Accept,
        Err(e) => none_is_artifact(dir, printed, printed.len() as int) && ((all_skipped(
            dir,
            scanned,
            scanned.len() as int,
        ) && e@ == internal_view(artifact_not_found_message())) || (exists|i: int|
            0 <= i < scanned.len() && all_skipped(dir, scanned, i) && candidate_verdict(
                dir,
                #[trigger] scanned[i],
            ) == CandidateVerdict::Abort(e@.message) && e@ == internal_view(e@.message))),
    }
}

/// Finds the artifact. `printed` holds what was found at the printed path,
/// read as it stands and read relative to the workspace; `scanned` holds what
/// was found at the entries of the workspace, in the order of the listing.
pub fn resolve_downloaded_file(
    dir: &Vec<String>,
    printed: &Vec<CandidateProbe>,
    scanned: &Vec<CandidateProbe>,
) -> (r: Result<ArtifactChoice, ApiError>)
    ensures
        resolution(strings_view(dir@), printed@, scanned@, r),
{
    let mut p: usize = 0;
    while p < printed.len()
        invariant
            p <= printed.len(),
            none_is_artifact(strings_view(dir@), printed@, p as int),
        decreases printed.len() - p,
    {
        if probe_is_artifact(dir, &printed[p]) {
            return Ok(ArtifactChoice::Printed(p));
        }
        p += 1;
    }
    let mut i: usize = 0;
    while i < scanned.len()
        invariant
            i <= scanned.len(),
            none_is_artifact(strings_view(dir@), printed@, printed.len() as int),
            all_skipped(strings_view(dir@), scanned@, i as int),
        decreases scanned.len() - i,
    {
        match resolve_download_candidate(dir, &scanned[i]) {
            Ok(true) => {
                return Ok(ArtifactChoice::Scanned(i));
            },
            Ok(false) => {},
            Err(e) => {
                return Err(e);
            },
        }
        i += 1;
    }
    Err(ApiError::internal("No se encontro el archivo descargado para transferir al dispositivo."))
}

/// A path outside the workspace is never the artifact, wherever it was
/// found.
pub proof fn lemma_artifact_lies_inside(
    dir: Seq<Seq<char>>,
    printed: Seq<CandidateProbe>,
    scanned: Seq<CandidateProbe>,
    r: Result<ArtifactChoice, ApiError>,
)
    requires
        resolution(dir, printed, scanned, r),
        r is Ok,
    ensures
        match r->Ok_0 {
            ArtifactChoice::Printed(i) => printed[i as int] is Resolved && lies_inside(
                dir,
                strings_view(printed[i as int]->canonical@),
            ),
            ArtifactChoice::Scanned(i) => scanned[i as int] is Resolved && lies_inside(
                dir,
                strings_view(scanned[i as int]->canonical@),
            ),
        },
{
}

pub open spec fn oversized_message() -> Seq<char> {
    "El archivo supera el limite permitido de 250 MB."@
}

/// An artifact above `MAX_DOWNLOAD_BYTES` is refused as the caller's error.
pub fn check_artifact_size(len: u64) -> (r: Result<(), ApiError>)
    ensures
        len <= MAX_DOWNLOAD_BYTES ==> r is Ok,
        len > MAX_DOWNLOAD_BYTES ==> r is Err && r->Err_0@ == bad_request_view(oversized_message()),
{
    if len > MAX_DOWNLOAD_BYTES {
        Err(ApiError::bad_request("El archivo supera el limite permitido de 250 MB."))
    } else {
        Ok(())
    }
}

/// The name under which an artifact is delivered: the final component of its
/// path, or `download.bin` when it has none that is text.
pub fn artifact_filename(file_name: Option<&str>) -> (name: String)
    ensures
        name@ == match file_name {
            Some(n) => n@,
            None => crate::media::fallback_filename(),
        },
{
    match file_name {
        Some(n) => n.to_owned(),
        None => "download.bin".to_owned(),
    }
}

#[derive(Clone, Copy, Debug, PartialEq, Eq, Structural)]
pub enum EntryKind {
    Directory,
    File,
    Other,
}

/// One entry of the workspace root. `age_secs` is the whole seconds since it
/// was last modified, zero for a time in the future, and `None` when its
/// metadata or its modification time could not be read.
#[derive(Clone, Copy, Debug, PartialEq, Eq, Structural)]
pub struct SweepEntry {
    pub kind: EntryKind,
    pub age_secs: Option<u64>,
}

#[derive(Clone, Copy, Debug, PartialEq, Eq, Structural)]
pub enum SweepAction {
    Keep,
    RemoveDirectory,
    RemoveFile,
}

/// An entry is removed when its age is known and at least `older_than_secs`,
/// a directory with all it holds, a file alone. A threshold of zero switches
/// the sweep off.
pub open spec fn stale_action_spec(entry: SweepEntry, older_than_secs: u64) -> SweepAction {
    if older_than_secs == 0 {
        SweepAction::Keep
    } else {
        match entry.age_secs {
            None => SweepAction::Keep,
            Some(age) => if age < older_than_secs {
                SweepAction::Keep
            } else {
                match entry.kind {
                    EntryKind::Directory => SweepAction::RemoveDirectory,
                    EntryKind::File => SweepAction::RemoveFile,
                    EntryKind::Other => SweepAction::Keep,
                }
            },
        }
    }
}

pub fn stale_action(entry: &SweepEntry, older_than_secs: u64) -> (action: SweepAction)
    ensures
        action == stale_action_spec(*entry, older_than_secs),
{
    if older_than_secs == 0 {
        return SweepAction::Keep;
    }
    match entry.age_secs {
        None => SweepAction::Keep,
        Some(age) => {
            if age < older_than_secs {
                SweepAction::Keep
            } else {
                match entry.kind {
                    EntryKind::Directory => SweepAction::RemoveDirectory,
                    EntryKind::File => SweepAction::RemoveFile,
                    EntryKind::Other => SweepAction::Keep,
                }
            }
        },
    }
}

/// What a sweep of the workspace root does with each entry, in the order of
/// the entries. It looks at the entries alone: a leftover is removed whether
/// or not anything remembers the job it belonged to.
pub fn cleanup_stale_download_jobs(
    entries: &Vec<SweepEntry>,
    older_than_secs: u64,
) -> (actions: Vec<SweepAction>)
    ensures
        actions.len() == entries.len(),
        forall|i: int|
            0 <= i < entries.len() ==> #[trigger] actions[i] == stale_action_spec(
                entries[i],
                older_than_secs,
            ),
{
    let mut actions: Vec<SweepAction> = Vec::new();
    let mut i: usize = 0;
    while i < entries.len()
        invariant
            i <= entries.len(),
            actions.len() == i,
            forall|k: int|
                0 <= k < i ==> #[trigger] actions[k] == stale_action_spec(
                    entries[k],
                    older_than_secs,
                ),
        decreases entries.len() - i,
    {
        actions.push(stale_action(&entries[i], older_than_secs));
        i += 1;
    }
    actions
}

/// A directory or file that has lain for the stale threshold or longer is
/// removed by the sweep at that threshold.
pub proof fn lemma_stale_entries_are_removed(entry: SweepEntry)
    requires
        entry.age_secs is Some,
        entry.age_secs->0 >= STALE_DOWNLOAD_JOB_SECONDS,
        entry.kind != EntryKind::Other,
    ensures
        stale_action_spec(entry, STALE_DOWNLOAD_JOB_SECONDS) != SweepAction::Keep,
{
}

} // verus!
