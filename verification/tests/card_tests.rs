use mobydick::api::{Album, Artist, ArtistAlbum, ArtistPreview, Image, Track};
use mobydick::card::{status_caption, CardModel};
use mobydick::registry::DlStatus;
use mobydick::text::u64_to_string;

fn cover(url: Option<&str>) -> Image {
    Image {
        medium_square_crop: url.map(|u| u.to_string()),
        small_square_crop: None,
        original: None,
        square_crop: None,
    }
}

fn sample_album(n_tracks: usize) -> Album {
    let tracks = (0..n_tracks)
        .map(|i| mobydick::api::AlbumTrack {
            id: i as i32,
            title: format!("T{}", i),
            artist: ArtistPreview { name: "Band".to_string() },
            listen_url: format!("/t/{}", i),
        })
        .collect();
    Album {
        title: "Album".to_string(),
        artist: ArtistPreview { name: "Band".to_string() },
        tracks: Some(tracks),
        cover: cover(Some("https://x/media/c.png")),
        id: 1,
    }
}

#[test]
fn decimal_writing_is_exact() {
    assert_eq!(u64_to_string(0), "0");
    assert_eq!(u64_to_string(7), "7");
    assert_eq!(u64_to_string(10), "10");
    assert_eq!(u64_to_string(42), "42");
    assert_eq!(u64_to_string(1234567890), "1234567890");
    assert_eq!(u64_to_string(u64::MAX), "18446744073709551615");
}

#[test]
fn artist_card_lines() {
    let artist = Artist {
        name: "Band".to_string(),
        albums: Some(vec![ArtistAlbum {
            title: "First".to_string(),
            tracks_count: 9,
            id: 4,
            cover: cover(Some("https://x/media/a.png")),
        }]),
    };
    assert_eq!(artist.text(), "Band");
    assert_eq!(artist.subtext(), "1 albums");
    assert_eq!(artist.image_url().as_deref(), Some("https://x/media/a.png"));

    let bare = Artist { name: "Band".to_string(), albums: None };
    assert_eq!(bare.subtext(), "0 albums");
    assert!(bare.image_url().is_none());
}

#[test]
fn album_card_lines() {
    let album = sample_album(2);
    assert_eq!(album.text(), "Album");
    assert_eq!(album.subtext(), "2 tracks, by Band");
    assert_eq!(album.image_url().as_deref(), Some("https://x/media/c.png"));
}

#[test]
fn track_card_lines() {
    let track = Track {
        id: 42,
        title: "Song".to_string(),
        album: sample_album(0),
        artist: ArtistPreview { name: "Band".to_string() },
        listen_url: "/t/42".to_string(),
    };
    assert_eq!(track.text(), "Song");
    assert_eq!(track.subtext(), "By Band, in Album");
    assert_eq!(track.image_url().as_deref(), Some("https://x/media/c.png"));
}

#[test]
fn status_captions_per_state() {
    assert_eq!(status_caption(DlStatus::Planned), Some("Waiting to download"));
    assert_eq!(status_caption(DlStatus::Started), Some("Download in progress"));
    assert_eq!(status_caption(DlStatus::Cancelled), Some("Cancelled"));
    assert_eq!(status_caption(DlStatus::Failed), Some("Download failed"));
    assert_eq!(status_caption(DlStatus::Done), None);
}
