//! Building download submissions from catalog records.
//!
//! A download action on a track, an album or an artist turns into a list
//! of planned [`Download`] records, one per track, each with the URL to
//! fetch and the planned output path `base/artist/album/title.mp3` (the
//! extension is replaced at completion by what the server advertises).
//! `base` is the caller's media directory. For an artist the caller first
//! fetches the full album records; building the list from them is pure.

use vstd::prelude::*;
use vstd::string::*;

use crate::api::{Album, AlbumTrack, Artist, ArtistPreview, Image, Track};
use crate::registry::{DlStatus, Download, DownloadRegistry};

verus! {

/// The planned output path of one track.
pub open spec fn spec_track_output(
    base: Seq<char>,
    artist: Seq<char>,
    album: Seq<char>,
    title: Seq<char>,
) -> Seq<char> {
    base + seq!['/'] + artist + seq!['/'] + album + seq!['/'] + title + seq![
        '.',
        'm',
        'p',
        '3',
    ]
}

/// Builds the planned output path of one track.
pub fn track_output(base: &str, artist: &str, album: &str, title: &str) -> (r: String)
    ensures
        r@ == spec_track_output(base@, artist@, album@, title@),
{
    let r = String::from_str(base)
        .concat("/")
        .concat(artist)
        .concat("/")
        .concat(album)
        .concat("/")
        .concat(title)
        .concat(".mp3");
    proof {
        reveal_strlit("/");
        reveal_strlit(".mp3");
        assert("/"@ =~= seq!['/']);
        assert(".mp3"@ =~= seq!['.', 'm', 'p', '3']);
        assert(r@ =~= spec_track_output(base@, artist@, album@, title@));
    }
    r
}

/// A copy of an optional address.
fn clone_opt(o: &Option<String>) -> (r: Option<String>)
    ensures
        r == *o,
{
    match o {
        Some(s) => Some(s.clone()),
        None => None,
    }
}

impl Image {
    /// A copy of the image addresses.
    pub fn duplicate(&self) -> (r: Image)
        ensures
            r == *self,
    {
        Image {
            medium_square_crop: clone_opt(&self.medium_square_crop),
            small_square_crop: clone_opt(&self.small_square_crop),
            original: clone_opt(&self.original),
            square_crop: clone_opt(&self.square_crop),
        }
    }
}

/// The album as embedded in a download's track record: its identifying
/// fields, without the track listing.
fn album_context(a: &Album) -> (r: Album)
    ensures
        r.title == a.title,
        r.artist == a.artist,
        r.cover == a.cover,
        r.id == a.id,
        r.tracks is None,
{
    Album {
        title: a.title.clone(),
        artist: ArtistPreview { name: a.artist.name.clone() },
        tracks: None,
        cover: a.cover.duplicate(),
        id: a.id,
    }
}

/// The tracks an album record lists, as a sequence; none when the
/// listing is absent.
pub open spec fn spec_tracks_of(a: Album) -> Seq<AlbumTrack> {
    match a.tracks {
        Some(ts) => ts@,
        None => Seq::empty(),
    }
}

/// How many tracks an album record lists.
pub open spec fn spec_track_count(a: Album) -> nat {
    spec_tracks_of(a).len()
}

/// `d` is the planned download of `album`'s track `at`, destined under
/// the directory of `artist_dir` below `base`.
pub open spec fn spec_planned_for(
    d: Download,
    at: AlbumTrack,
    album: Album,
    artist_dir: Seq<char>,
    base: Seq<char>,
) -> bool {
    &&& d.url == at.listen_url
    &&& d.status is Planned
    &&& d.output@ == spec_track_output(base, artist_dir, album.title@, at.title@)
    &&& d.track.id == at.id
    &&& d.track.title == at.title
    &&& d.track.listen_url == at.listen_url
    &&& d.track.artist == at.artist
    &&& d.track.album.title == album.title
    &&& d.track.album.id == album.id
    &&& d.track.album.artist == album.artist
    &&& d.track.album.cover == album.cover
}

/// Appends one planned download per listed track of `album` to `dls`,
/// destined under `artist_dir` below `base`; what was in `dls` stays.
fn push_album_downloads(dls: &mut Vec<Download>, album: &Album, artist_dir: &str, base: &str)
    ensures
        final(dls)@.len() == old(dls)@.len() + spec_track_count(*album),
        forall|j: int| 0 <= j < old(dls)@.len() ==> final(dls)@[j] == old(dls)@[j],
        forall|t: int|
            0 <= t < spec_tracks_of(*album).len() ==> spec_planned_for(
                final(dls)@[old(dls)@.len() + t],
                spec_tracks_of(*album)[t],
                *album,
                artist_dir@,
                base@,
            ),
{
    let ghost pre = dls@;
    match &album.tracks {
        Some(ts) => {
            let n = ts.len();
            let mut t: usize = 0;
            while t < n
                invariant
                    0 <= t <= n,
                    ts@ == spec_tracks_of(*album),
                    n == ts@.len(),
                    dls@.len() == pre.len() + t,
                    forall|j: int| 0 <= j < pre.len() ==> dls@[j] == pre[j],
                    forall|k: int|
                        0 <= k < t ==> spec_planned_for(
                            dls@[pre.len() + k],
                            ts@[k],
                            *album,
                            artist_dir@,
                            base@,
                        ),
                decreases n - t,
            {
                let at = &ts[t];
                let output = track_output(
                    base,
                    artist_dir,
                    album.title.as_str(),
                    at.title.as_str(),
                );
                let track = Track {
                    id: at.id,
                    title: at.title.clone(),
                    album: album_context(album),
                    artist: ArtistPreview { name: at.artist.name.clone() },
                    listen_url: at.listen_url.clone(),
                };
                dls.push(
                    Download {
                        url: at.listen_url.clone(),
                        status: DlStatus::Planned,
                        output,
                        track,
                        job: 0,
                    },
                );
                t = t + 1;
            }
        },
        None => {},
    }
}

impl Album {
    /// One planned download per listed track, nested under this album's
    /// artist: what pressing the download button on an album submits.
    pub fn downloads(&self, base: &str) -> (dls: Vec<Download>)
        ensures
            dls@.len() == spec_track_count(*self),
            forall|t: int|
                0 <= t < spec_tracks_of(*self).len() ==> spec_planned_for(
                    dls@[t],
                    spec_tracks_of(*self)[t],
                    *self,
                    self.artist.name@,
                    base@,
                ),
    {
        let mut dls: Vec<Download> = Vec::new();
        push_album_downloads(&mut dls, self, self.artist.name.as_str(), base);
        dls
    }
}

impl Track {
    /// The single planned download for this track: what pressing the
    /// download button on a track submits.
    pub fn downloads(&self, base: &str) -> (dls: Vec<Download>)
        ensures
            dls@.len() == 1,
            dls@[0].url == self.listen_url,
            dls@[0].status is Planned,
            dls@[0].output@ == spec_track_output(
                base@,
                self.artist.name@,
                self.album.title@,
                self.title@,
            ),
            dls@[0].track.id == self.id,
            dls@[0].track.title == self.title,
            dls@[0].track.listen_url == self.listen_url,
            dls@[0].track.artist == self.artist,
            dls@[0].track.album.title == self.album.title,
            dls@[0].track.album.id == self.album.id,
            dls@[0].track.album.artist == self.album.artist,
            dls@[0].track.album.cover == self.album.cover,
            dls@[0].track.album.tracks is None,
    {
        let output = track_output(
            base,
            self.artist.name.as_str(),
            self.album.title.as_str(),
            self.title.as_str(),
        );
        let track = Track {
            id: self.id,
            title: self.title.clone(),
            album: album_context(&self.album),
            artist: ArtistPreview { name: self.artist.name.clone() },
            listen_url: self.listen_url.clone(),
        };
        let mut dls: Vec<Download> = Vec::new();
        dls.push(
            Download {
                url: self.listen_url.clone(),
                status: DlStatus::Planned,
                output,
                track,
                job: 0,
            },
        );
        dls
    }

    /// This track's download record, if the registry holds one.
    pub fn download_status<'a>(&self, downloads: &'a DownloadRegistry) -> (r: Option<
        &'a Download,
    >)
        requires
            downloads.wf(),
        ensures
            match r {
                Some(d) => downloads@.dom().contains(self.id) && *d == downloads@[self.id],
                None => !downloads@.dom().contains(self.id),
            },
    {
        downloads.get(self.id)
    }
}

/// How many tracks the albums before position `a` list in all: the flat
/// position at which album `a`'s downloads begin.
pub open spec fn spec_track_count_before(albums: Seq<Album>, a: int) -> nat
    decreases a,
{
    if a <= 0 {
        0
    } else {
        spec_track_count_before(albums, a - 1) + spec_track_count(albums[a - 1])
    }
}

/// Flat positions grow with the album position.
proof fn lemma_track_count_before_mono(albums: Seq<Album>, i: int, j: int)
    requires
        0 <= i <= j,
    ensures
        spec_track_count_before(albums, i) <= spec_track_count_before(albums, j),
    decreases j - i,
{
    if i < j {
        lemma_track_count_before_mono(albums, i, j - 1);
    }
}

impl Artist {
    /// One planned download per track of each of this artist's albums,
    /// all nested under the artist's own directory: what pressing the
    /// download button on an artist submits. The caller hands in the full
    /// album records, fetched one by one from the catalog.
    pub fn downloads(&self, albums: &Vec<Album>, base: &str) -> (dls: Vec<Download>)
        ensures
            dls@.len() == spec_track_count_before(albums@, albums@.len() as int),
            forall|a: int, t: int| #![auto]
                0 <= a < albums@.len() && 0 <= t < spec_tracks_of(albums@[a]).len()
                    ==> spec_planned_for(
                    dls@[spec_track_count_before(albums@, a) + t],
                    spec_tracks_of(albums@[a])[t],
                    albums@[a],
                    self.name@,
                    base@,
                ),
    {
        let mut dls: Vec<Download> = Vec::new();
        let n = albums.len();
        let mut a: usize = 0;
        while a < n
            invariant
                0 <= a <= n,
                n == albums@.len(),
                dls@.len() == spec_track_count_before(albums@, a as int),
                forall|x: int, t: int| #![auto]
                    0 <= x < a && 0 <= t < spec_tracks_of(albums@[x]).len()
                        ==> spec_planned_for(
                        dls@[spec_track_count_before(albums@, x) + t],
                        spec_tracks_of(albums@[x])[t],
                        albums@[x],
                        self.name@,
                        base@,
                    ),
            decreases n - a,
        {
            let ghost before = dls@;
            push_album_downloads(&mut dls, &albums[a], self.name.as_str(), base);
            proof {
                assert forall|x: int, t: int| #![auto]
                    0 <= x < a + 1 && 0 <= t < spec_tracks_of(albums@[x]).len()
                        implies spec_planned_for(
                    dls@[spec_track_count_before(albums@, x) + t],
                    spec_tracks_of(albums@[x])[t],
                    albums@[x],
                    self.name@,
                    base@,
                ) by {
                    if x < a {
                        lemma_track_count_before_mono(albums@, x + 1, a as int);
                        assert(spec_track_count_before(albums@, x) + t < before.len());
                    }
                }
            }
            a = a + 1;
        }
        dls
    }
}

} // verus!
