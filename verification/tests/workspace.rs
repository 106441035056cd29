use backend::workspace::{
    artifact_filename, check_artifact_size, cleanup_stale_download_jobs, is_inside,
    probe_is_artifact, resolve_download_candidate, resolve_downloaded_file, stale_action,
    ArtifactChoice, CandidateProbe, EntryKind, SweepAction, SweepEntry,
    DOWNLOAD_JOB_RETENTION_SECONDS, MAX_DOWNLOAD_BYTES, STALE_DOWNLOAD_JOB_SECONDS,
};

fn path(components: &[&str]) -> Vec<String> {
    components.iter().map(|c| c.to_string()).collect()
}

fn resolved(components: &[&str]) -> CandidateProbe {
    CandidateProbe::Resolved { canonical: path(components) }
}

#[test]
fn workspace_limits_have_their_values() {
    assert_eq!(MAX_DOWNLOAD_BYTES, 250 * 1024 * 1024);
    assert_eq!(DOWNLOAD_JOB_RETENTION_SECONDS, 20 * 60);
    assert_eq!(STALE_DOWNLOAD_JOB_SECONDS, 2 * 60 * 60);
}

#[test]
fn inside_means_strictly_below() {
    let dir = path(&["/", "srv", "jobs", "abc"]);
    assert!(is_inside(&dir, &path(&["/", "srv", "jobs", "abc", "video.mp4"])));
    assert!(is_inside(&dir, &path(&["/", "srv", "jobs", "abc", "sub", "video.mp4"])));
    assert!(!is_inside(&dir, &path(&["/", "srv", "jobs", "abc"])));
    assert!(!is_inside(&dir, &path(&["/", "srv", "jobs"])));
    assert!(!is_inside(&dir, &path(&["/", "srv", "jobs", "abcd", "video.mp4"])));
    assert!(!is_inside(&dir, &path(&["/", "etc", "passwd"])));
    assert!(!is_inside(&dir, &path(&["/", "srv", "jobs", "other", "abc", "video.mp4"])));
    assert!(is_inside(&Vec::new(), &path(&["a"])));
    assert!(!is_inside(&Vec::new(), &Vec::new()));
}

#[test]
fn candidate_verdicts() {
    let dir = path(&["/", "srv", "jobs", "abc"]);
    assert_eq!(resolve_download_candidate(&dir, &CandidateProbe::Missing).unwrap(), false);
    assert_eq!(resolve_download_candidate(&dir, &CandidateProbe::NotAFile).unwrap(), false);
    assert_eq!(
        resolve_download_candidate(&dir, &resolved(&["/", "srv", "jobs", "abc", "v.mp4"])).unwrap(),
        true
    );
    assert_eq!(
        resolve_download_candidate(&dir, &resolved(&["/", "etc", "passwd"])).unwrap(),
        false
    );
    let unreadable = resolve_download_candidate(
        &dir,
        &CandidateProbe::Unreadable { detail: "permission denied".to_string() },
    )
    .unwrap_err();
    assert_eq!(unreadable.status, 500);
    assert_eq!(
        unreadable.message,
        "No se pudo leer archivo temporal descargado: permission denied"
    );
    let unresolvable = resolve_download_candidate(
        &dir,
        &CandidateProbe::Unresolvable { detail: "loop".to_string() },
    )
    .unwrap_err();
    assert_eq!(unresolvable.message, "No se pudo resolver ruta temporal descargada: loop");
    let listing = resolve_download_candidate(
        &dir,
        &CandidateProbe::ListingFailed { detail: "gone".to_string() },
    )
    .unwrap_err();
    assert_eq!(listing.message, "No se pudo abrir la carpeta temporal: gone");
    let entry = resolve_download_candidate(
        &dir,
        &CandidateProbe::EntryFailed { detail: "io".to_string() },
    )
    .unwrap_err();
    assert_eq!(entry.message, "No se pudo leer archivos temporales: io");
}

#[test]
fn printed_path_inside_the_workspace_is_taken() {
    let dir = path(&["/", "srv", "jobs", "abc"]);
    let printed = vec![resolved(&["/", "srv", "jobs", "abc", "printed.mp4"]), CandidateProbe::Missing];
    let scanned = vec![resolved(&["/", "srv", "jobs", "abc", "other.mp4"])];
    assert_eq!(
        resolve_downloaded_file(&dir, &printed, &scanned).unwrap(),
        ArtifactChoice::Printed(0)
    );
    let printed = vec![CandidateProbe::Missing, resolved(&["/", "srv", "jobs", "abc", "rel.mp4"])];
    assert_eq!(
        resolve_downloaded_file(&dir, &printed, &scanned).unwrap(),
        ArtifactChoice::Printed(1)
    );
}

#[test]
fn printed_path_outside_the_workspace_is_ignored() {
    let dir = path(&["/", "srv", "jobs", "abc"]);
    let printed = vec![resolved(&["/", "etc", "passwd"]), CandidateProbe::Missing];
    let scanned = vec![
        CandidateProbe::NotAFile,
        resolved(&["/", "srv", "jobs", "other", "x.mp4"]),
        resolved(&["/", "srv", "jobs", "abc", "found.mp4"]),
        resolved(&["/", "srv", "jobs", "abc", "second.mp4"]),
    ];
    assert_eq!(
        resolve_downloaded_file(&dir, &printed, &scanned).unwrap(),
        ArtifactChoice::Scanned(2)
    );
    assert!(!probe_is_artifact(&dir, &printed[0]));
    assert!(!probe_is_artifact(&dir, &printed[1]));
    assert!(probe_is_artifact(&dir, &scanned[2]));
}

#[test]
fn printed_path_that_cannot_be_read_is_passed_over() {
    let dir = path(&["/", "srv", "jobs", "abc"]);
    let printed = vec![
        CandidateProbe::Unreadable { detail: "denied".to_string() },
        CandidateProbe::Unresolvable { detail: "loop".to_string() },
    ];
    let scanned = vec![resolved(&["/", "srv", "jobs", "abc", "found.mp4"])];
    assert_eq!(
        resolve_downloaded_file(&dir, &printed, &scanned).unwrap(),
        ArtifactChoice::Scanned(0)
    );
    assert_eq!(
        resolve_downloaded_file(&dir, &Vec::new(), &scanned).unwrap(),
        ArtifactChoice::Scanned(0)
    );
}

#[test]
fn nothing_valid_in_the_workspace_is_an_internal_failure() {
    let dir = path(&["/", "srv", "jobs", "abc"]);
    let printed = vec![resolved(&["/", "etc", "passwd"]), CandidateProbe::Missing];
    let scanned = vec![CandidateProbe::NotAFile, resolved(&["/", "tmp", "elsewhere.mp4"])];
    let error = resolve_downloaded_file(&dir, &printed, &scanned).unwrap_err();
    assert_eq!(error.status, 500);
    assert_eq!(
        error.message,
        "No se encontro el archivo descargado para transferir al dispositivo."
    );
    let empty = resolve_downloaded_file(&dir, &Vec::new(), &Vec::new()).unwrap_err();
    assert_eq!(empty.status, 500);
    assert_eq!(
        empty.message,
        "No se encontro el archivo descargado para transferir al dispositivo."
    );
}

#[test]
fn the_scan_stops_at_the_first_failure() {
    let dir = path(&["/", "srv", "jobs", "abc"]);
    let scanned = vec![
        CandidateProbe::Missing,
        CandidateProbe::Unreadable { detail: "denied".to_string() },
        resolved(&["/", "srv", "jobs", "abc", "found.mp4"]),
    ];
    let error = resolve_downloaded_file(&dir, &Vec::new(), &scanned).unwrap_err();
    assert_eq!(error.status, 500);
    assert_eq!(error.message, "No se pudo leer archivo temporal descargado: denied");
    let scanned = vec![
        resolved(&["/", "srv", "jobs", "abc", "found.mp4"]),
        CandidateProbe::Unreadable { detail: "denied".to_string() },
    ];
    assert_eq!(
        resolve_downloaded_file(&dir, &Vec::new(), &scanned).unwrap(),
        ArtifactChoice::Scanned(0)
    );
    let scanned = vec![CandidateProbe::ListingFailed { detail: "gone".to_string() }];
    let error = resolve_downloaded_file(&dir, &Vec::new(), &scanned).unwrap_err();
    assert_eq!(error.message, "No se pudo abrir la carpeta temporal: gone");
    let scanned = vec![
        CandidateProbe::NotAFile,
        CandidateProbe::EntryFailed { detail: "io".to_string() },
    ];
    let error = resolve_downloaded_file(&dir, &Vec::new(), &scanned).unwrap_err();
    assert_eq!(error.message, "No se pudo leer archivos temporales: io");
}

#[test]
fn artifact_size_limit() {
    assert!(check_artifact_size(0).is_ok());
    assert!(check_artifact_size(MAX_DOWNLOAD_BYTES).is_ok());
    let error = check_artifact_size(MAX_DOWNLOAD_BYTES + 1).unwrap_err();
    assert_eq!(error.status, 400);
    assert_eq!(error.message, "El archivo supera el limite permitido de 250 MB.");
    assert_eq!(check_artifact_size(300 * 1024 * 1024).unwrap_err().status, 400);
    assert_eq!(check_artifact_size(u64::MAX).unwrap_err().status, 400);
}

#[test]
fn artifact_filename_falls_back() {
    assert_eq!(artifact_filename(Some("video.mp4")), "video.mp4");
    assert_eq!(artifact_filename(None), "download.bin");
}

#[test]
fn stale_entries_are_removed() {
    let dir = SweepEntry { kind: EntryKind::Directory, age_secs: Some(7_200) };
    let file = SweepEntry { kind: EntryKind::File, age_secs: Some(10_000) };
    let other = SweepEntry { kind: EntryKind::Other, age_secs: Some(10_000) };
    let young = SweepEntry { kind: EntryKind::Directory, age_secs: Some(7_199) };
    let unknown = SweepEntry { kind: EntryKind::Directory, age_secs: None };
    assert_eq!(stale_action(&dir, STALE_DOWNLOAD_JOB_SECONDS), SweepAction::RemoveDirectory);
    assert_eq!(stale_action(&file, STALE_DOWNLOAD_JOB_SECONDS), SweepAction::RemoveFile);
    assert_eq!(stale_action(&other, STALE_DOWNLOAD_JOB_SECONDS), SweepAction::Keep);
    assert_eq!(stale_action(&young, STALE_DOWNLOAD_JOB_SECONDS), SweepAction::Keep);
    assert_eq!(stale_action(&unknown, STALE_DOWNLOAD_JOB_SECONDS), SweepAction::Keep);
    assert_eq!(stale_action(&dir, 0), SweepAction::Keep);
    assert_eq!(stale_action(&file, 0), SweepAction::Keep);
    assert_eq!(
        stale_action(&SweepEntry { kind: EntryKind::File, age_secs: Some(0) }, 1),
        SweepAction::Keep
    );
    assert_eq!(
        stale_action(&SweepEntry { kind: EntryKind::File, age_secs: Some(1) }, 1),
        SweepAction::RemoveFile
    );
}

#[test]
fn sweep_plans_one_action_per_entry() {
    let entries = vec![
        SweepEntry { kind: EntryKind::Directory, age_secs: Some(8_000) },
        SweepEntry { kind: EntryKind::Directory, age_secs: Some(60) },
        SweepEntry { kind: EntryKind::File, age_secs: Some(7_200) },
        SweepEntry { kind: EntryKind::File, age_secs: None },
        SweepEntry { kind: EntryKind::Other, age_secs: Some(90_000) },
    ];
    assert_eq!(
        cleanup_stale_download_jobs(&entries, STALE_DOWNLOAD_JOB_SECONDS),
        vec![
            SweepAction::RemoveDirectory,
            SweepAction::Keep,
            SweepAction::RemoveFile,
            SweepAction::Keep,
            SweepAction::Keep,
        ]
    );
    assert_eq!(cleanup_stale_download_jobs(&entries, 0), vec![SweepAction::Keep; 5]);
    assert_eq!(cleanup_stale_download_jobs(&Vec::new(), 10), Vec::<SweepAction>::new());
}
