use mobydick::registry::resolve_output;
use mobydick::text::{
    after_last_dot, after_last_match, dash_slashes, media_cache_key, rfind_char,
    str_starts_with, trim_end_char, with_extension,
};

#[test]
fn starts_with_on_prefixes_and_others() {
    assert!(str_starts_with("https://demo", "https://"));
    assert!(str_starts_with("abc", ""));
    assert!(str_starts_with("abc", "abc"));
    assert!(!str_starts_with("http://demo", "https://"));
    assert!(!str_starts_with("ab", "abc"));
}

#[test]
fn trim_end_char_strips_all_trailing() {
    assert_eq!(trim_end_char("demo.funkwhale.audio///", '/'), "demo.funkwhale.audio");
    assert_eq!(trim_end_char("no-slash", '/'), "no-slash");
    assert_eq!(trim_end_char("///", '/'), "");
    assert_eq!(trim_end_char("", '/'), "");
}

#[test]
fn rfind_char_finds_the_last_occurrence() {
    assert_eq!(rfind_char("a.b.c", '.'), Some(3));
    assert_eq!(rfind_char("abc", '.'), None);
    assert_eq!(rfind_char(".", '.'), Some(0));
}

#[test]
fn after_last_dot_reads_an_extension() {
    assert_eq!(after_last_dot("attachment; filename=track.flac"), "flac");
    assert_eq!(after_last_dot(".mp3"), "mp3");
    assert_eq!(after_last_dot("a.b.ogg"), "ogg");
    assert_eq!(after_last_dot("no-dot"), "no-dot");
    assert_eq!(after_last_dot("ends."), "");
}

#[test]
fn with_extension_replaces_only_the_final_component() {
    assert_eq!(with_extension("Artist/Album/Song.mp3", "flac"), "Artist/Album/Song.flac");
    assert_eq!(with_extension("Artist/Album/Song", "flac"), "Artist/Album/Song.flac");
    assert_eq!(with_extension("Artist/Al.bum/Song", "ogg"), "Artist/Al.bum/Song.ogg");
    assert_eq!(with_extension("Song.mp3", "ogg"), "Song.ogg");
    assert_eq!(with_extension("Song", "ogg"), "Song.ogg");
}

#[test]
fn resolve_output_uses_the_advertised_extension() {
    assert_eq!(
        resolve_output("Artist/Album/Song.mp3", Some("attachment; filename=s.flac")),
        "Artist/Album/Song.flac",
    );
    assert_eq!(resolve_output("Artist/Album/Song.mp3", None), "Artist/Album/Song.mp3");
    assert_eq!(resolve_output("A/B/C", None), "A/B/C.mp3");
    // A header value without any dot stands in for the extension whole.
    assert_eq!(resolve_output("A/B/C.mp3", Some("flac")), "A/B/C.flac");
}

#[test]
fn dash_slashes_replaces_every_slash() {
    assert_eq!(dash_slashes("a/b/c"), "a-b-c");
    assert_eq!(dash_slashes("abc"), "abc");
    assert_eq!(dash_slashes("///"), "---");
    assert_eq!(dash_slashes(""), "");
}

#[test]
fn after_last_match_takes_the_suffix_of_the_last_occurrence() {
    assert_eq!(after_last_match("https://x/media/covers/1.png", "/media/"), "covers/1.png");
    assert_eq!(after_last_match("https://x/nothing/1.png", "/media/"), "https://x/nothing/1.png");
    assert_eq!(after_last_match("a/media/b/media/c", "/media/"), "c");
    assert_eq!(after_last_match("abc", ""), "");
}

#[test]
fn media_cache_key_sanitizes_the_media_path() {
    assert_eq!(media_cache_key("https://x/media/covers/albums/1.png"), "covers-albums-1.png");
    assert_eq!(media_cache_key("https://x/media/1.png"), "1.png");
    assert_eq!(media_cache_key("relative/no/marker.png"), "relative-no-marker.png");
}
