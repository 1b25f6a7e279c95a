//! The request context and the data model of the remote catalog service.
//!
//! A [`RequestContext`] holds the authenticated connection parameters —
//! remote address and bearer token — and builds outbound request
//! descriptions. It does no network I/O itself: a [`Req`] is a plain value
//! that the caller hands to whatever transport it uses. The context is
//! replaced wholesale on login and logout; [`ContextStore`] is the shared
//! optional slot it lives in (the lock around the slot is the caller's).

use vstd::prelude::*;
use vstd::string::*;

use crate::text::{spec_starts_with, spec_trim_end, str_starts_with, trim_end_char};

verus! {

/// The scheme prefix accepted on an instance address.
pub open spec fn http_prefix() -> Seq<char> {
    seq!['h', 't', 't', 'p', ':', '/', '/']
}

/// The scheme prefix accepted and supplied on an instance address.
pub open spec fn https_prefix() -> Seq<char> {
    seq!['h', 't', 't', 'p', 's', ':', '/', '/']
}

/// What the authorization header carries for a given bearer token.
pub open spec fn spec_auth_header(token: Seq<char>) -> Seq<char> {
    seq!['J', 'W', 'T', ' '] + token
}

/// The full URL of a request: the instance address followed by the path.
pub open spec fn spec_url(instance: Seq<char>, path: Seq<char>) -> Seq<char> {
    instance + path
}

/// An instance address as the user typed it, normalized: trailing `/`
/// stripped, and `https://` supplied when no scheme is present.
pub open spec fn spec_normalized_instance(raw: Seq<char>) -> Seq<char> {
    let t = spec_trim_end(raw, '/');
    if spec_starts_with(t, http_prefix()) || spec_starts_with(t, https_prefix()) {
        t
    } else {
        https_prefix() + t
    }
}

/// Normalizes an instance address as the user typed it.
pub fn normalize_instance(raw: &str) -> (r: String)
    ensures
        r@ == spec_normalized_instance(raw@),
{
    let t = trim_end_char(raw, '/');
    proof {
        reveal_strlit("http://");
        reveal_strlit("https://");
        assert("http://"@ =~= http_prefix());
        assert("https://"@ =~= https_prefix());
    }
    if str_starts_with(t, "http://") || str_starts_with(t, "https://") {
        String::from_str(t)
    } else {
        String::from_str("https://").concat(t)
    }
}

/// HTTP method of a request description.
#[derive(Clone, Copy, Debug, PartialEq, Eq, Structural)]
pub enum Method {
    Get,
    Post,
}

/// A plain description of one outbound request, bound to the context fields
/// at the moment it was built. The transport that performs it lives outside
/// the library.
#[derive(Debug)]
pub struct Req {
    pub method: Method,
    pub url: String,
    /// Value of the authorization header, when the request is authenticated.
    pub auth: Option<String>,
}

/// The authenticated connection parameters, replaced wholesale on login and
/// logout and never mutated concurrently: the caller keeps it behind a lock
/// and holds the lock only long enough to build a request or copy a field.
#[derive(Debug)]
pub struct RequestContext {
    pub instance: String,
    pub token: String,
}

/// A plain, serializable view of the context for persistence across runs.
#[derive(Debug)]
pub struct ContextSnapshot {
    pub instance: String,
    pub token: String,
}

impl RequestContext {
    /// A fresh, unauthenticated context for the given instance address.
    pub fn new(instance: String) -> (r: Self)
        ensures
            r.instance == instance,
            r.token@ == Seq::<char>::empty(),
    {
        RequestContext { instance, token: String::new() }
    }

    /// Sets the bearer token on the existing context, in place.
    pub fn auth(&mut self, token: String)
        ensures
            final(self).token == token,
            final(self).instance == old(self).instance,
    {
        self.token = token;
    }

    /// An authenticated GET request for `path`, bound to the current
    /// instance address and token.
    pub fn get(&self, path: &str) -> (r: Req)
        ensures
            r.method is Get,
            r.url@ == spec_url(self.instance@, path@),
            r.auth matches Some(a) && a@ == spec_auth_header(self.token@),
    {
        let auth = String::from_str("JWT ").concat(self.token.as_str());
        proof {
            reveal_strlit("JWT ");
            assert(auth@ =~= spec_auth_header(self.token@));
        }
        Req {
            method: Method::Get,
            url: String::from_str(self.instance.as_str()).concat(path),
            auth: Some(auth),
        }
    }

    /// An unauthenticated POST request for `path`. It deliberately carries
    /// no authorization header: it is used only for the login exchange.
    pub fn post(&self, path: &str) -> (r: Req)
        ensures
            r.method is Post,
            r.url@ == spec_url(self.instance@, path@),
            r.auth is None,
    {
        Req {
            method: Method::Post,
            url: String::from_str(self.instance.as_str()).concat(path),
            auth: None,
        }
    }

    /// The serializable view of this context.
    pub fn snapshot(&self) -> (s: ContextSnapshot)
        ensures
            s.instance == self.instance,
            s.token == self.token,
    {
        ContextSnapshot { instance: self.instance.clone(), token: self.token.clone() }
    }

    /// A context restored from a persisted snapshot.
    pub fn restore(s: ContextSnapshot) -> (r: Self)
        ensures
            r.instance == s.instance,
            r.token == s.token,
    {
        RequestContext { instance: s.instance, token: s.token }
    }
}

/// The shared slot the live context sits in. At most one context is live at
/// a time; login and logout replace the slot's whole content.
#[derive(Debug)]
pub struct ContextStore {
    pub ctx: Option<RequestContext>,
}

impl ContextStore {
    /// The logged-out store.
    pub fn logged_out() -> (r: Self)
        ensures
            r.ctx is None,
    {
        ContextStore { ctx: None }
    }

    /// Replaces the live context: the previous one, if any, is gone.
    pub fn set(&mut self, ctx: RequestContext)
        ensures
            final(self).ctx == Some(ctx),
    {
        self.ctx = Some(ctx);
    }

    /// Clears the slot: the store is logged out.
    pub fn clear(&mut self)
        ensures
            final(self).ctx is None,
    {
        self.ctx = None;
    }

    /// Whether a context is live.
    pub fn is_connected(&self) -> (b: bool)
        ensures
            b == (self.ctx is Some),
    {
        self.ctx.is_some()
    }

    /// Sets the bearer token on the live context, if there is one.
    pub fn auth(&mut self, token: String) -> (changed: bool)
        ensures
            changed == (old(self).ctx is Some),
            old(self).ctx matches Some(c) ==> final(self).ctx matches Some(d)
                && d.instance == c.instance && d.token == token,
            old(self).ctx is None ==> final(self).ctx is None,
    {
        match &mut self.ctx {
            Some(c) => {
                c.auth(token);
                true
            },
            None => false,
        }
    }

    /// An authenticated GET bound to the live context, when one is live.
    pub fn build_get(&self, path: &str) -> (r: Option<Req>)
        ensures
            match r {
                Some(req) => {
                    &&& self.ctx matches Some(c)
                    &&& req.method is Get
                    &&& req.url@ == spec_url(c.instance@, path@)
                    &&& req.auth matches Some(a) && a@ == spec_auth_header(c.token@)
                },
                None => self.ctx is None,
            },
    {
        match &self.ctx {
            Some(c) => Some(c.get(path)),
            None => None,
        }
    }

    /// An unauthenticated POST bound to the live context, when one is live.
    pub fn build_post(&self, path: &str) -> (r: Option<Req>)
        ensures
            match r {
                Some(req) => {
                    &&& self.ctx matches Some(c)
                    &&& req.method is Post
                    &&& req.url@ == spec_url(c.instance@, path@)
                    &&& req.auth is None
                },
                None => self.ctx is None,
            },
    {
        match &self.ctx {
            Some(c) => Some(c.post(path)),
            None => None,
        }
    }

    /// The serializable view of the live context, when one is live.
    pub fn snapshot(&self) -> (s: Option<ContextSnapshot>)
        ensures
            match s {
                Some(snap) => self.ctx matches Some(c)
                    && snap.instance == c.instance && snap.token == c.token,
                None => self.ctx is None,
            },
    {
        match &self.ctx {
            Some(c) => Some(c.snapshot()),
            None => None,
        }
    }
}

/// A request is bound at build time: its URL determines the instance it was
/// built against. Replacing the context changes every subsequently built
/// URL whenever the address differs; requests built earlier keep their
/// values, being plain immutable data.
pub proof fn lemma_url_binds_instance(i1: Seq<char>, i2: Seq<char>, path: Seq<char>)
    ensures
        spec_url(i1, path) == spec_url(i2, path) <==> i1 == i2,
{
    if spec_url(i1, path) == spec_url(i2, path) {
        assert((i1 + path).len() == i1.len() + path.len());
        assert((i2 + path).len() == i2.len() + path.len());
        assert forall|k: int| 0 <= k < i1.len() implies i1[k] == i2[k] by {
            assert(i1[k] == (i1 + path)[k]);
            assert(i2[k] == (i2 + path)[k]);
        }
        assert(i1 =~= i2);
    }
}

/// The authorization header of a request determines the token it was built
/// with: after a re-login with a different token, every subsequently built
/// request carries a different header.
pub proof fn lemma_auth_binds_token(t1: Seq<char>, t2: Seq<char>)
    ensures
        spec_auth_header(t1) == spec_auth_header(t2) <==> t1 == t2,
{
    if spec_auth_header(t1) == spec_auth_header(t2) {
        assert(spec_auth_header(t1).len() == 4 + t1.len());
        assert(spec_auth_header(t2).len() == 4 + t2.len());
        assert forall|k: int| 0 <= k < t1.len() implies t1[k] == t2[k] by {
            assert(t1[k] == spec_auth_header(t1)[4 + k]);
            assert(t2[k] == spec_auth_header(t2)[4 + k]);
        }
        assert(t1 =~= t2);
    }
}

/// The shape a decoded API response takes: either the expected value or an
/// unusable body.
pub enum ApiResult<T> {
    Success(T),
    Failure,
}

impl<T> ApiResult<T> {
    /// The response as an ordinary `Result`.
    pub fn into_result(self) -> (r: Result<T, ()>)
        ensures
            r == match self {
                ApiResult::Success(t) => Result::<T, ()>::Ok(t),
                ApiResult::Failure => Result::<T, ()>::Err(()),
            },
    {
        match self {
            ApiResult::Success(t) => Ok(t),
            ApiResult::Failure => Err(()),
        }
    }
}

/// Credentials sent on the login exchange.
#[derive(Debug)]
pub struct LoginData {
    pub password: String,
    pub username: String,
}

/// What a successful login exchange returns.
#[derive(Debug)]
pub struct LoginInfo {
    pub token: String,
}

/// The current user's profile.
#[derive(Debug)]
pub struct UserInfo {
    pub username: String,
    pub avatar: Image,
}

/// The address variants an image is served under.
#[derive(Debug, Clone)]
pub struct Image {
    pub medium_square_crop: Option<String>,
    pub small_square_crop: Option<String>,
    pub original: Option<String>,
    pub square_crop: Option<String>,
}

/// A full-text search request.
#[derive(Debug)]
pub struct SearchQuery {
    pub query: String,
}

/// What a full-text search returns.
#[derive(Debug)]
pub struct SearchResult {
    pub artists: Vec<Artist>,
    pub albums: Vec<Album>,
    pub tracks: Vec<Track>,
}

impl SearchResult {
    /// Whether the search found nothing at all.
    pub fn is_empty(&self) -> (b: bool)
        ensures
            b == (self.artists@.len() == 0 && self.albums@.len() == 0
                && self.tracks@.len() == 0),
    {
        self.artists.len() == 0 && self.albums.len() == 0 && self.tracks.len() == 0
    }
}

/// An artist, with album previews when the response carries them.
#[derive(Debug, Clone)]
pub struct Artist {
    pub name: String,
    pub albums: Option<Vec<ArtistAlbum>>,
}

/// An album, with its track listing when the response carries it.
#[derive(Debug, Clone)]
pub struct Album {
    pub title: String,
    pub artist: ArtistPreview,
    pub tracks: Option<Vec<AlbumTrack>>,
    pub cover: Image,
    pub id: i32,
}

/// An album as listed under an artist.
#[derive(Debug, Clone)]
pub struct ArtistAlbum {
    pub title: String,
    pub tracks_count: i32,
    pub id: i32,
    pub cover: Image,
}

/// A track with its full album context.
#[derive(Debug, Clone)]
pub struct Track {
    pub id: i32,
    pub title: String,
    pub album: Album,
    pub artist: ArtistPreview,
    pub listen_url: String,
}

/// The artist name carried inside album and track records.
#[derive(Debug, Clone)]
pub struct ArtistPreview {
    pub name: String,
}

/// A track as listed inside an album, without the album context.
#[derive(Debug, Clone)]
pub struct AlbumTrack {
    pub id: i32,
    pub title: String,
    pub artist: ArtistPreview,
    pub listen_url: String,
}

} // verus!
