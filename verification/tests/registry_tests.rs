use mobydick::api::{Album, ArtistPreview, Image, Track};
use mobydick::registry::{
    DlStatus, Download, DownloadRegistry, Finalize, Pickup, WorkerResult,
};

fn image() -> Image {
    Image {
        medium_square_crop: None,
        small_square_crop: None,
        original: None,
        square_crop: None,
    }
}

fn track(id: i32, title: &str) -> Track {
    Track {
        id,
        title: title.to_string(),
        album: Album {
            title: "Album".to_string(),
            artist: ArtistPreview { name: "Artist".to_string() },
            tracks: None,
            cover: image(),
            id: 7,
        },
        artist: ArtistPreview { name: "Artist".to_string() },
        listen_url: format!("https://x/media/{}.raw", id),
    }
}

fn planned(id: i32, title: &str) -> Download {
    Download {
        url: format!("https://x/media/{}.raw", id),
        status: DlStatus::Planned,
        output: format!("Artist/Album/{}.mp3", title),
        track: track(id, title),
        job: 0,
    }
}

#[test]
fn fresh_registry_is_empty() {
    let reg = DownloadRegistry::new();
    assert_eq!(reg.len(), 0);
    assert_eq!(reg.version(), 0);
    assert!(reg.get(1).is_none());
}

#[test]
fn insert_records_a_planned_download() {
    let mut reg = DownloadRegistry::new();
    let job = reg.insert(planned(1, "Song"));
    assert_eq!(reg.len(), 1);
    let d = reg.get(1).unwrap();
    assert_eq!(d.status, DlStatus::Planned);
    assert_eq!(d.job, job);
    assert_eq!(d.url, "https://x/media/1.raw");
}

#[test]
fn insert_bumps_the_version() {
    let mut reg = DownloadRegistry::new();
    let v0 = reg.version();
    reg.insert(planned(1, "Song"));
    assert_ne!(reg.version(), v0);
}

#[test]
fn full_lifecycle_reaches_done() {
    let mut reg = DownloadRegistry::new();
    let job = reg.insert(planned(1, "Song"));
    match reg.pickup(1, job) {
        Pickup::Fetch { url, output } => {
            assert_eq!(url, "https://x/media/1.raw");
            assert_eq!(output, "Artist/Album/Song.mp3");
        },
        Pickup::Abort => panic!("expected a fetch"),
    }
    assert_eq!(reg.get(1).unwrap().status, DlStatus::Started);
    let d = reg.finalize(
        1,
        job,
        WorkerResult::Saved { output: "Artist/Album/Song.flac".to_string() },
    );
    assert_eq!(d, Finalize::Commit);
    let rec = reg.get(1).unwrap();
    assert_eq!(rec.status, DlStatus::Done);
    assert_eq!(rec.output, "Artist/Album/Song.flac");
}

#[test]
fn failed_fetch_lands_in_failed() {
    let mut reg = DownloadRegistry::new();
    let job = reg.insert(planned(1, "Song"));
    assert!(matches!(reg.pickup(1, job), Pickup::Fetch { .. }));
    let d = reg.finalize(1, job, WorkerResult::Failed);
    assert_eq!(d, Finalize::Discard);
    assert_eq!(reg.get(1).unwrap().status, DlStatus::Failed);
}

#[test]
fn cancel_before_pickup_blocks_the_worker() {
    let mut reg = DownloadRegistry::new();
    let job = reg.insert(planned(1, "Song"));
    assert!(reg.cancel(1));
    assert_eq!(reg.get(1).unwrap().status, DlStatus::Cancelled);
    // The worker's pickup aborts: no fetch, no file ever created.
    assert!(matches!(reg.pickup(1, job), Pickup::Abort));
    assert_eq!(reg.get(1).unwrap().status, DlStatus::Cancelled);
}

#[test]
fn cancel_mid_flight_withholds_the_file() {
    let mut reg = DownloadRegistry::new();
    let job = reg.insert(planned(1, "Song"));
    assert!(matches!(reg.pickup(1, job), Pickup::Fetch { .. }));
    assert!(reg.cancel(1));
    // The worker finished its fetch, but the artifact is discarded and
    // the record stays cancelled.
    let d = reg.finalize(
        1,
        job,
        WorkerResult::Saved { output: "Artist/Album/Song.flac".to_string() },
    );
    assert_eq!(d, Finalize::Discard);
    assert_eq!(reg.get(1).unwrap().status, DlStatus::Cancelled);
}

#[test]
fn cancel_of_done_or_absent_does_nothing() {
    let mut reg = DownloadRegistry::new();
    let job = reg.insert(planned(1, "Song"));
    assert!(matches!(reg.pickup(1, job), Pickup::Fetch { .. }));
    reg.finalize(1, job, WorkerResult::Saved { output: "out.flac".to_string() });
    let v = reg.version();
    assert!(!reg.cancel(1));
    assert_eq!(reg.get(1).unwrap().status, DlStatus::Done);
    assert_eq!(reg.version(), v);
    assert!(!reg.cancel(99));
}

#[test]
fn resubmission_leaves_one_entry_and_the_later_outcome_wins() {
    let mut reg = DownloadRegistry::new();
    let job1 = reg.insert(planned(1, "Song"));
    assert!(matches!(reg.pickup(1, job1), Pickup::Fetch { .. }));
    // A second submission for the same identity replaces the record.
    let job2 = reg.insert(planned(1, "Song"));
    assert_ne!(job1, job2);
    assert_eq!(reg.len(), 1);
    assert_eq!(reg.get(1).unwrap().status, DlStatus::Planned);
    // The first worker's late result is discarded silently.
    let d = reg.finalize(
        1,
        job1,
        WorkerResult::Saved { output: "stale.flac".to_string() },
    );
    assert_eq!(d, Finalize::Discard);
    assert_eq!(reg.get(1).unwrap().status, DlStatus::Planned);
    // The second worker's outcome is what the record ends in.
    assert!(matches!(reg.pickup(1, job2), Pickup::Fetch { .. }));
    let d = reg.finalize(
        1,
        job2,
        WorkerResult::Saved { output: "fresh.flac".to_string() },
    );
    assert_eq!(d, Finalize::Commit);
    let rec = reg.get(1).unwrap();
    assert_eq!(rec.status, DlStatus::Done);
    assert_eq!(rec.output, "fresh.flac");
}

#[test]
fn stale_pickup_cannot_restart_a_replaced_download() {
    let mut reg = DownloadRegistry::new();
    let job1 = reg.insert(planned(1, "Song"));
    let _job2 = reg.insert(planned(1, "Song"));
    assert!(matches!(reg.pickup(1, job1), Pickup::Abort));
    assert_eq!(reg.get(1).unwrap().status, DlStatus::Planned);
}

#[test]
fn two_identities_are_independent() {
    let mut reg = DownloadRegistry::new();
    let j1 = reg.insert(planned(1, "One"));
    let j2 = reg.insert(planned(2, "Two"));
    assert_eq!(reg.len(), 2);
    assert!(reg.cancel(1));
    assert!(matches!(reg.pickup(1, j1), Pickup::Abort));
    assert!(matches!(reg.pickup(2, j2), Pickup::Fetch { .. }));
    assert_eq!(reg.get(1).unwrap().status, DlStatus::Cancelled);
    assert_eq!(reg.get(2).unwrap().status, DlStatus::Started);
}

#[test]
fn observed_statuses_follow_the_state_machine() {
    // One identity, observed after every operation: the sequence is a
    // valid path and its terminal state is never left.
    let mut reg = DownloadRegistry::new();
    let job = reg.insert(planned(1, "Song"));
    let mut seen = vec![reg.get(1).unwrap().status.clone()];
    assert!(matches!(reg.pickup(1, job), Pickup::Fetch { .. }));
    seen.push(reg.get(1).unwrap().status.clone());
    reg.finalize(1, job, WorkerResult::Saved { output: "o.flac".to_string() });
    seen.push(reg.get(1).unwrap().status.clone());
    reg.cancel(1);
    seen.push(reg.get(1).unwrap().status.clone());
    assert_eq!(
        seen,
        vec![DlStatus::Planned, DlStatus::Started, DlStatus::Done, DlStatus::Done],
    );
}

#[test]
fn ended_marks_a_started_record_done() {
    let mut d = planned(1, "Song");
    d.status = DlStatus::Started;
    d.ended("Artist/Album/Song.flac".to_string());
    assert_eq!(d.status, DlStatus::Done);
    assert_eq!(d.output, "Artist/Album/Song.flac");
}
