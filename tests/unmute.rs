use twitch_recover::{TwitchRecoverError, VodUnmute};

#[test]
fn base_url_drops_the_playlist_name() {
    let vod = VodUnmute::new("https://host/abc_x_1/chunked/index-dvr.m3u8");
    assert_eq!(vod.base_url(), "https://host/abc_x_1/chunked/");
}

#[test]
fn base_url_without_playlist_name_is_unchanged() {
    let vod = VodUnmute::new("https://host/x/");
    assert_eq!(vod.base_url(), "https://host/x/");
}

#[test]
fn muted_playlist_detection() {
    assert!(VodUnmute::muted_from_response(200, "#EXT\n3-unmuted.ts\n").unwrap());
    assert!(!VodUnmute::muted_from_response(200, "#EXT\n3.ts\n").unwrap());
    assert!(matches!(
        VodUnmute::muted_from_response(403, "unmuted"),
        Err(TwitchRecoverError::VodNotFound)
    ));
}

#[test]
fn rewrite_lines() {
    let mut counter = 0u64;
    assert_eq!(VodUnmute::rewrite_line("b/", "#EXTINF:10,", &mut counter), "#EXTINF:10,");
    assert_eq!(counter, 0);
    assert_eq!(VodUnmute::rewrite_line("b/", "0-unmuted.ts", &mut counter), "b/0-muted.ts");
    assert_eq!(counter, 1);
    assert_eq!(VodUnmute::rewrite_line("b/", "1.ts", &mut counter), "b/1.ts");
    assert_eq!(counter, 2);
}
