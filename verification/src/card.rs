//! What a catalog card says about its record: title line, description
//! line, image address, and the caption a download's status adds.
//!
//! Drawing the card is the presentation layer's concern and stays outside
//! the library; the text and the choices it is built from are computed and
//! specified here.

use vstd::prelude::*;
use vstd::string::*;

use crate::api::{Album, Artist, Track};
use crate::registry::DlStatus;
use crate::submissions::spec_track_count;
use crate::text::{spec_decimal, u64_to_string};

verus! {

/// A record the search results show as a card: a title line, a
/// description line, and possibly an image.
pub trait CardModel {
    /// The card's title line.
    spec fn spec_text(&self) -> Seq<char>;

    /// The card's description line.
    spec fn spec_subtext(&self) -> Seq<char>;

    /// The address of the card's image, when it has one.
    spec fn spec_image_url(&self) -> Option<Seq<char>>;

    /// The card's title line.
    fn text(&self) -> (r: String)
        ensures
            r@ == self.spec_text(),
    ;

    /// The card's description line.
    fn subtext(&self) -> (r: String)
        ensures
            r@ == self.spec_subtext(),
    ;

    /// The address of the card's image, when it has one.
    fn image_url(&self) -> (r: Option<String>)
        ensures
            match r {
                Some(s) => self.spec_image_url() == Some(s@),
                None => self.spec_image_url() is None,
            },
    ;
}

/// The view of an optional address.
pub open spec fn spec_opt_view(o: Option<String>) -> Option<Seq<char>> {
    match o {
        Some(s) => Some(s@),
        None => None,
    }
}

/// How many albums an artist record lists.
pub open spec fn spec_album_count(a: Artist) -> nat {
    match a.albums {
        Some(v) => v@.len(),
        None => 0,
    }
}

impl CardModel for Artist {
    open spec fn spec_text(&self) -> Seq<char> {
        self.name@
    }

    open spec fn spec_subtext(&self) -> Seq<char> {
        spec_decimal(spec_album_count(*self)) + seq![' ', 'a', 'l', 'b', 'u', 'm', 's']
    }

    open spec fn spec_image_url(&self) -> Option<Seq<char>> {
        match self.albums {
            Some(v) => if v@.len() > 0 {
                spec_opt_view(v@[0].cover.medium_square_crop)
            } else {
                None
            },
            None => None,
        }
    }

    fn text(&self) -> (r: String) {
        self.name.clone()
    }

    fn subtext(&self) -> (r: String) {
        let count: u64 = match &self.albums {
            Some(v) => v.len() as u64,
            None => 0,
        };
        let r = u64_to_string(count).concat(" albums");
        proof {
            reveal_strlit(" albums");
            assert(" albums"@ =~= seq![' ', 'a', 'l', 'b', 'u', 'm', 's']);
        }
        r
    }

    fn image_url(&self) -> (r: Option<String>) {
        match &self.albums {
            Some(v) => if v.len() > 0 {
                match &v[0].cover.medium_square_crop {
                    Some(s) => Some(s.clone()),
                    None => None,
                }
            } else {
                None
            },
            None => None,
        }
    }
}

impl CardModel for Album {
    open spec fn spec_text(&self) -> Seq<char> {
        self.title@
    }

    open spec fn spec_subtext(&self) -> Seq<char> {
        spec_decimal(spec_track_count(*self)) + seq![
            ' ',
            't',
            'r',
            'a',
            'c',
            'k',
            's',
            ',',
            ' ',
            'b',
            'y',
            ' ',
        ] + self.artist.name@
    }

    open spec fn spec_image_url(&self) -> Option<Seq<char>> {
        spec_opt_view(self.cover.medium_square_crop)
    }

    fn text(&self) -> (r: String) {
        self.title.clone()
    }

    fn subtext(&self) -> (r: String) {
        let count: u64 = match &self.tracks {
            Some(v) => v.len() as u64,
            None => 0,
        };
        let r = u64_to_string(count).concat(" tracks, by ").concat(self.artist.name.as_str());
        proof {
            reveal_strlit(" tracks, by ");
            assert(" tracks, by "@ =~= seq![
                ' ',
                't',
                'r',
                'a',
                'c',
                'k',
                's',
                ',',
                ' ',
                'b',
                'y',
                ' ',
            ]);
        }
        r
    }

    fn image_url(&self) -> (r: Option<String>) {
        match &self.cover.medium_square_crop {
            Some(s) => Some(s.clone()),
            None => None,
        }
    }
}

impl CardModel for Track {
    open spec fn spec_text(&self) -> Seq<char> {
        self.title@
    }

    open spec fn spec_subtext(&self) -> Seq<char> {
        seq!['B', 'y', ' '] + self.artist.name@ + seq![',', ' ', 'i', 'n', ' ']
            + self.album.title@
    }

    open spec fn spec_image_url(&self) -> Option<Seq<char>> {
        spec_opt_view(self.album.cover.medium_square_crop)
    }

    fn text(&self) -> (r: String) {
        self.title.clone()
    }

    fn subtext(&self) -> (r: String) {
        let r = String::from_str("By ")
            .concat(self.artist.name.as_str())
            .concat(", in ")
            .concat(self.album.title.as_str());
        proof {
            reveal_strlit("By ");
            reveal_strlit(", in ");
            assert("By "@ =~= seq!['B', 'y', ' ']);
            assert(", in "@ =~= seq![',', ' ', 'i', 'n', ' ']);
        }
        r
    }

    fn image_url(&self) -> (r: Option<String>) {
        match &self.album.cover.medium_square_crop {
            Some(s) => Some(s.clone()),
            None => None,
        }
    }
}

/// The caption a card appends to its description line for a download in
/// the given state; a finished download shows its buttons instead and
/// gets none.
pub fn status_caption(status: DlStatus) -> (r: Option<&'static str>)
    ensures
        match status {
            DlStatus::Planned => r matches Some(c) && c@ == "Waiting to download"@,
            DlStatus::Started => r matches Some(c) && c@ == "Download in progress"@,
            DlStatus::Cancelled => r matches Some(c) && c@ == "Cancelled"@,
            DlStatus::Failed => r matches Some(c) && c@ == "Download failed"@,
            DlStatus::Done => r is None,
        },
{
    match status {
        DlStatus::Planned => Some("Waiting to download"),
        DlStatus::Started => Some("Download in progress"),
        DlStatus::Cancelled => Some("Cancelled"),
        DlStatus::Failed => Some("Download failed"),
        DlStatus::Done => None,
    }
}

} // verus!
