use twitch_recover::{
    ParsedTwitchTrackerUrl, TwitchRecoverError, TwitchRecoverErrorKind, VodRecover,
    VodRecoverOptions,
};

#[test]
fn test_parse_twitchtracker_url() {
    let url = "https://twitchtracker.com/streamer_name/streams/10000000";
    let ParsedTwitchTrackerUrl(streamer, vod_id) =
        VodRecover::parse_twitchtracker_url(url).unwrap();

    assert_eq!(streamer, "streamer_name");
    assert_eq!(vod_id, "10000000");
}

#[test]
#[should_panic]
fn fail_streamer_name_parse_twitchtracker_url() {
    let url = "https://twitchtracker.cstreamer_name/streams/10000000";
    VodRecover::parse_twitchtracker_url(url).unwrap();
}

#[test]
#[should_panic]
fn fail_vod_id_parse_twitchtracker_url() {
    let url = "https://twitchtracker.cstreamer_name/stre10000000";
    VodRecover::parse_twitchtracker_url(url).unwrap();
}

#[test]
fn test_parse_twitchtracker_timestamp() {
    let page =
        r#"...<div class=\"stream-timestamp-dt to-dowdatetime\">2022-10-30 14:57:02</div>..."#
            .to_string();
    let timestamp = VodRecover::parse_twitchtracker_timestamp(page, "").unwrap();

    assert_eq!(timestamp, 1667141822);
}

#[test]
fn test_split_urls_in_chunks() {
    let urls = vec!["".to_string(); 7];
    let chunks = VodRecover::split_urls_in_chunks(urls, 3);

    assert_eq!(chunks[0].len(), 3);
    assert_eq!(chunks[1].len(), 3);
    assert_eq!(chunks[2].len(), 1);
}

#[test]
fn test_generate_all_urls() {
    let vod = VodRecover::from_manual("streamer_name", "vod_id", 100000);
    let urls = vod.generate_all_urls();

    assert_eq!(urls.first().unwrap(), "https://vod-secure.twitch.tv/6fc3cda1d80cf7bf6b72_streamer_name_vod_id_100000/chunked/index-dvr.m3u8");
    assert_eq!(urls.last().unwrap(), "https://d3aqoihi2n8ty8.cloudfront.net/8a03f89d58f01a4b5539_streamer_name_vod_id_100059/chunked/index-dvr.m3u8");
}

#[test]
fn parse_url_with_query_keeps_the_whole_remainder() {
    let url = "https://twitchtracker.com/someone/streams/42?utm=x";
    let ParsedTwitchTrackerUrl(streamer, vod_id) =
        VodRecover::parse_twitchtracker_url(url).unwrap();
    assert_eq!(streamer, "someone");
    assert_eq!(vod_id, "42?utm=x");
}

#[test]
fn parse_url_streamer_without_trailing_slash() {
    let url = "twitchtracker.com/someone";
    match VodRecover::parse_twitchtracker_url(url) {
        Err(TwitchRecoverError::UrlParseVodId(u)) => assert_eq!(u, url),
        _ => panic!("expected a missing vod id"),
    }
}

#[test]
fn parse_url_without_com_marker_is_a_streamer_error() {
    let url = "https://twitchtracker.cstreamer_name/streams/10000000";
    match VodRecover::parse_twitchtracker_url(url) {
        Err(e) => {
            assert_eq!(e.kind(), TwitchRecoverErrorKind::UrlParseStreamer);
            assert!(matches!(e, TwitchRecoverError::UrlParseStreamer(ref u) if u == url));
        }
        Ok(_) => panic!("expected an error"),
    }
}

#[test]
fn parse_url_without_streams_marker_is_a_vod_id_error() {
    let url = "https://twitchtracker.com/streamer_name/stre10000000";
    match VodRecover::parse_twitchtracker_url(url) {
        Err(e) => assert_eq!(e.kind(), TwitchRecoverErrorKind::UrlParseVodId),
        Ok(_) => panic!("expected an error"),
    }
}

#[test]
fn parse_url_with_empty_streamer_is_a_streamer_error() {
    let url = "https://twitchtracker.com//streams/1";
    match VodRecover::parse_twitchtracker_url(url) {
        Err(e) => assert_eq!(e.kind(), TwitchRecoverErrorKind::UrlParseStreamer),
        Ok(_) => panic!("expected an error"),
    }
}

#[test]
fn parse_empty_url_fails() {
    assert!(VodRecover::parse_twitchtracker_url("").is_err());
}

#[test]
fn timestamp_missing_marker_is_an_error() {
    let page = "<div>2022-10-30 14:57:02</div>".to_string();
    match VodRecover::parse_twitchtracker_timestamp(page, "https://page") {
        Err(TwitchRecoverError::PageParseTimestamp(u)) => assert_eq!(u, "https://page"),
        _ => panic!("expected a timestamp error"),
    }
}

#[test]
fn timestamp_malformed_date_is_an_error() {
    let page = r#"<div class="stream-timestamp-dt">not a date</div>"#.to_string();
    match VodRecover::parse_twitchtracker_timestamp(page, "u") {
        Err(e) => assert_eq!(e.kind(), TwitchRecoverErrorKind::PageParseTimestamp),
        Ok(_) => panic!("expected a timestamp error"),
    }
}

#[test]
fn timestamp_of_the_epoch() {
    let page = r#"<div class="stream-timestamp-dt">1970-01-01 00:00:00</div>"#.to_string();
    assert_eq!(VodRecover::parse_twitchtracker_timestamp(page, "u").unwrap(), 0);
}

#[test]
fn timestamp_or_error_maps_both_cases() {
    assert_eq!(VodRecover::timestamp_or_error(Some(7), "u").unwrap(), 7);
    match VodRecover::timestamp_or_error(None, "u") {
        Err(TwitchRecoverError::PageParseTimestamp(u)) => assert_eq!(u, "u"),
        _ => panic!("expected a timestamp error"),
    }
}

#[test]
fn generate_is_deterministic_and_covers_the_window() {
    let vod = VodRecover::from_manual("streamer_name", "vod_id", 100000);
    let first = vod.generate_all_urls();
    let second = vod.generate_all_urls();
    assert_eq!(first, second);
    assert_eq!(first.len(), 60 * 17);
    assert!(first[17].contains("_streamer_name_vod_id_100001/"));
    assert!(first[16].contains("_streamer_name_vod_id_100000/"));
}

#[test]
fn generate_hash_prefix_differs_per_second() {
    let vod = VodRecover::from_manual("streamer_name", "vod_id", 100000);
    let urls = vod.generate_all_urls();
    let prefix = |u: &str| u["https://vod-secure.twitch.tv/".len()..][..20].to_string();
    assert_eq!(prefix(&urls[0]), "6fc3cda1d80cf7bf6b72");
    assert_ne!(prefix(&urls[0]), prefix(&urls[17]));
}

#[test]
fn generate_with_negative_start() {
    let vod = VodRecover::from_manual("a", "b", -5);
    let urls = vod.generate_all_urls();
    assert!(urls[0].ends_with("_a_b_-5/chunked/index-dvr.m3u8"));
    assert!(urls[urls.len() - 1].ends_with("_a_b_54/chunked/index-dvr.m3u8"));
}

#[test]
fn generate_with_the_largest_start() {
    let vod = VodRecover::from_manual("a", "b", i64::MAX);
    let urls = vod.generate_all_urls();
    assert!(urls[urls.len() - 1].ends_with("_a_b_9223372036854775866/chunked/index-dvr.m3u8"));
}

#[test]
fn split_exact_multiple_and_edge_sizes() {
    let urls: Vec<String> = (0..6).map(|i| i.to_string()).collect();
    let chunks = VodRecover::split_urls_in_chunks(urls.clone(), 3);
    assert_eq!(chunks, vec![vec!["0", "1", "2"], vec!["3", "4", "5"]]);
    let chunks = VodRecover::split_urls_in_chunks(urls.clone(), 0);
    assert_eq!(chunks, vec![urls.clone()]);
    let chunks = VodRecover::split_urls_in_chunks(urls.clone(), 10);
    assert_eq!(chunks, vec![urls.clone()]);
    let chunks = VodRecover::split_urls_in_chunks(Vec::new(), 3);
    assert!(chunks.is_empty());
}

#[test]
fn options_default_and_new() {
    assert_eq!(VodRecoverOptions::default().chunck, 17);
    assert_eq!(VodRecoverOptions::new(100).chunck, 100);
}

#[test]
fn tracker_page_of_a_parsed_url() {
    let parsed = VodRecover::parse_twitchtracker_url("https://twitchtracker.com/x/streams/9").unwrap();
    assert_eq!(parsed.page_url(), "https://twitchtracker.com/x/streams/9");
    let page = r#"<div class="stream-timestamp-dt">2022-10-30 14:57:02</div>"#.to_string();
    let vod = VodRecover::from_tracker_page(parsed, page).unwrap();
    let urls = vod.generate_all_urls();
    assert!(urls[0].ends_with("_x_9_1667141822/chunked/index-dvr.m3u8"));
}

#[test]
fn tracker_page_without_time_names_the_page() {
    let parsed = VodRecover::parse_twitchtracker_url("https://twitchtracker.com/x/streams/9").unwrap();
    match VodRecover::from_tracker_page(parsed, String::new()) {
        Err(TwitchRecoverError::PageParseTimestamp(u)) => {
            assert_eq!(u, "https://twitchtracker.com/x/streams/9")
        }
        _ => panic!("expected a timestamp error"),
    }
}

#[test]
fn urls_for_a_given_digest() {
    let urls = VodRecover::urls_for_base("s_v_1", "0123456789abcdef0123456789abcdef01234567");
    assert_eq!(urls.len(), 17);
    assert_eq!(
        urls[0],
        "https://vod-secure.twitch.tv/0123456789abcdef0123_s_v_1/chunked/index-dvr.m3u8"
    );
    assert_eq!(
        urls[16],
        "https://d3aqoihi2n8ty8.cloudfront.net/0123456789abcdef0123_s_v_1/chunked/index-dvr.m3u8"
    );
}
