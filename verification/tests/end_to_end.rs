use mobydick::api::{Album, AlbumTrack, Artist, ArtistPreview, Image, Track};
use mobydick::registry::{
    DlStatus, DownloadRegistry, Finalize, Pickup, WorkerResult, resolve_output,
};

fn image() -> Image {
    Image {
        medium_square_crop: Some("https://x/media/cover.png".to_string()),
        small_square_crop: None,
        original: None,
        square_crop: None,
    }
}

fn album(id: i32, title: &str, artist: &str, tracks: Option<Vec<AlbumTrack>>) -> Album {
    Album {
        title: title.to_string(),
        artist: ArtistPreview { name: artist.to_string() },
        tracks,
        cover: image(),
        id,
    }
}

fn album_track(id: i32, title: &str, artist: &str) -> AlbumTrack {
    AlbumTrack {
        id,
        title: title.to_string(),
        artist: ArtistPreview { name: artist.to_string() },
        listen_url: format!("https://x/media/{}.raw", id),
    }
}

#[test]
fn submit_fetch_and_finish_track_42() {
    // Submit a download for track id 42, destined for Artist/Album/Song;
    // the worker's response advertises the extension "flac"; the registry
    // must end `Done` with an output path ending in "Song.flac".
    let track = Track {
        id: 42,
        title: "Song".to_string(),
        album: album(7, "Album", "Artist", None),
        artist: ArtistPreview { name: "Artist".to_string() },
        listen_url: "https://x/media/42.raw".to_string(),
    };
    let mut dls = track.downloads("Media");
    assert_eq!(dls.len(), 1);
    let dl = dls.pop().unwrap();
    assert_eq!(dl.output, "Media/Artist/Album/Song.mp3");
    assert_eq!(dl.url, "https://x/media/42.raw");
    assert_eq!(dl.status, DlStatus::Planned);
    // The record carries the submitting track's data: identity, titles,
    // album context with its artist and cover (the listing is dropped).
    assert_eq!(dl.track.id, 42);
    assert_eq!(dl.track.title, "Song");
    assert_eq!(dl.track.artist.name, "Artist");
    assert_eq!(dl.track.album.title, "Album");
    assert_eq!(dl.track.album.artist.name, "Artist");
    assert_eq!(
        dl.track.album.cover.medium_square_crop.as_deref(),
        Some("https://x/media/cover.png"),
    );
    assert!(dl.track.album.tracks.is_none());

    let mut reg = DownloadRegistry::new();
    let base = dl.output.clone();
    let job = reg.insert(dl);

    // The worker picks the job up and fetches.
    let (url, planned) = match reg.pickup(42, job) {
        Pickup::Fetch { url, output } => (url, output),
        Pickup::Abort => panic!("expected a fetch"),
    };
    assert_eq!(url, "https://x/media/42.raw");
    assert_eq!(planned, base);

    // The response names the real extension; the worker resolves the
    // final path and saves the bytes to a temporary artifact.
    let output = resolve_output(&base, Some("attachment; filename=42.flac"));
    let verdict = reg.finalize(42, job, WorkerResult::Saved { output });
    assert_eq!(verdict, Finalize::Commit);

    let rec = reg.get(42).unwrap();
    assert_eq!(rec.status, DlStatus::Done);
    assert!(rec.output.ends_with("Song.flac"));
    assert_eq!(rec.output, "Media/Artist/Album/Song.flac");
}

#[test]
fn album_downloads_one_planned_record_per_track() {
    let a = album(
        7,
        "Album",
        "Artist",
        Some(vec![
            album_track(1, "One", "Artist"),
            album_track(2, "Two", "Artist"),
        ]),
    );
    let dls = a.downloads("Media");
    assert_eq!(dls.len(), 2);
    assert_eq!(dls[0].output, "Media/Artist/Album/One.mp3");
    assert_eq!(dls[1].output, "Media/Artist/Album/Two.mp3");
    assert_eq!(dls[0].url, "https://x/media/1.raw");
    assert!(dls.iter().all(|d| d.status == DlStatus::Planned));
    assert_eq!(dls[0].track.id, 1);
    assert_eq!(dls[0].track.album.title, "Album");
}

#[test]
fn album_without_listing_downloads_nothing() {
    let a = album(7, "Album", "Artist", None);
    assert!(a.downloads("Media").is_empty());
}

#[test]
fn artist_downloads_cover_every_album_under_the_artist_directory() {
    let artist = Artist { name: "Band".to_string(), albums: None };
    let albums = vec![
        album(1, "First", "Band", Some(vec![album_track(1, "A", "Band")])),
        album(2, "Second", "Band", Some(vec![
            album_track(2, "B", "Band"),
            album_track(3, "C", "Band"),
        ])),
    ];
    let dls = artist.downloads(&albums, "Media");
    assert_eq!(dls.len(), 3);
    assert_eq!(dls[0].output, "Media/Band/First/A.mp3");
    assert_eq!(dls[1].output, "Media/Band/Second/B.mp3");
    assert_eq!(dls[2].output, "Media/Band/Second/C.mp3");
    assert_eq!(dls[2].track.id, 3);
}

#[test]
fn download_status_reads_the_registry() {
    let track = Track {
        id: 42,
        title: "Song".to_string(),
        album: album(7, "Album", "Artist", None),
        artist: ArtistPreview { name: "Artist".to_string() },
        listen_url: "https://x/media/42.raw".to_string(),
    };
    let mut reg = DownloadRegistry::new();
    assert!(track.download_status(&reg).is_none());
    let mut dls = track.downloads("Media");
    reg.insert(dls.pop().unwrap());
    let rec = track.download_status(&reg).unwrap();
    assert_eq!(rec.status, DlStatus::Planned);
    assert_eq!(rec.track.id, 42);
}
