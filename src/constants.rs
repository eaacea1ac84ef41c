//! Fixed tables: the CDN origins that serve VODs, and the user agents that
//! requests present.
use vstd::prelude::*;

verus! {

/// How many CDN origins the domain table holds.
pub const DOMAIN_COUNT: usize = 17;

/// The CDN origins that serve VOD playlists, in the order they are tried.
pub open spec fn domain_table() -> Seq<Seq<char>> {
    seq![
        "https://vod-secure.twitch.tv/"@,
        "https://vod-metro.twitch.tv/"@,
        "https://vod-pop-secure.twitch.tv/"@,
        "https://d2e2de1etea730.cloudfront.net/"@,
        "https://dqrpb9wgowsf5.cloudfront.net/"@,
        "https://ds0h3roq6wcgc.cloudfront.net/"@,
        "https://d2nvs31859zcd8.cloudfront.net/"@,
        "https://d2aba1wr3818hz.cloudfront.net/"@,
        "https://d3c27h4odz752x.cloudfront.net/"@,
        "https://dgeft87wbj63p.cloudfront.net/"@,
        "https://d1m7jfoe9zdc1j.cloudfront.net/"@,
        "https://d3vd9lfkzbru3h.cloudfront.net/"@,
        "https://d2vjef5jvl6bfs.cloudfront.net/"@,
        "https://d1ymi26ma8va5x.cloudfront.net/"@,
        "https://d1mhjrowxxagfy.cloudfront.net/"@,
        "https://ddacn6pr5v0tl.cloudfront.net/"@,
        "https://d3aqoihi2n8ty8.cloudfront.net/"@,
    ]
}

/// The CDN origins that serve VOD playlists.
pub fn domains() -> (r: Vec<&'static str>)
    ensures
        r@.len() == DOMAIN_COUNT,
        forall|i: int| 0 <= i < r@.len() ==> r@[i]@ == #[trigger] domain_table()[i],
{
    let r = vec![
        "https://vod-secure.twitch.tv/",
        "https://vod-metro.twitch.tv/",
        "https://vod-pop-secure.twitch.tv/",
        "https://d2e2de1etea730.cloudfront.net/",
        "https://dqrpb9wgowsf5.cloudfront.net/",
        "https://ds0h3roq6wcgc.cloudfront.net/",
        "https://d2nvs31859zcd8.cloudfront.net/",
        "https://d2aba1wr3818hz.cloudfront.net/",
        "https://d3c27h4odz752x.cloudfront.net/",
        "https://dgeft87wbj63p.cloudfront.net/",
        "https://d1m7jfoe9zdc1j.cloudfront.net/",
        "https://d3vd9lfkzbru3h.cloudfront.net/",
        "https://d2vjef5jvl6bfs.cloudfront.net/",
        "https://d1ymi26ma8va5x.cloudfront.net/",
        "https://d1mhjrowxxagfy.cloudfront.net/",
        "https://ddacn6pr5v0tl.cloudfront.net/",
        "https://d3aqoihi2n8ty8.cloudfront.net/",
    ];
    assert(r@.map_values(|s: &'static str| s@) =~= domain_table());
    r
}

/// The user agents that requests present.
pub open spec fn user_agent_table() -> Seq<Seq<char>> {
    seq![
        "Mozilla/5.0 (Windows NT 10.0; Win64; x64) AppleWebKit/537.36 (KHTML, like Gecko) Chrome/106.0.0.0 Safari/537.36"@,
        "Mozilla/5.0 (Macintosh; Intel Mac OS X 10_15_7) AppleWebKit/537.36 (KHTML, like Gecko) Chrome/106.0.0.0 Safari/537.36"@,
        "Mozilla/5.0 (X11; Linux x86_64) AppleWebKit/537.36 (KHTML, like Gecko) Chrome/106.0.0.0 Safari/537.36"@,
        "Mozilla/5.0 (Windows NT 10.0; Win64; x64; rv:106.0) Gecko/20100101 Firefox/106.0"@,
        "Mozilla/5.0 (Macintosh; Intel Mac OS X 10.15; rv:106.0) Gecko/20100101 Firefox/106.0"@,
        "Mozilla/5.0 (X11; Linux x86_64; rv:106.0) Gecko/20100101 Firefox/106.0"@,
        "Mozilla/5.0 (Macintosh; Intel Mac OS X 10_15_7) AppleWebKit/605.1.15 (KHTML, like Gecko) Version/16.0 Safari/605.1.15"@,
        "Mozilla/5.0 (Windows NT 10.0; Win64; x64) AppleWebKit/537.36 (KHTML, like Gecko) Chrome/106.0.0.0 Safari/537.36 Edg/106.0.1370.47"@,
    ]
}

/// The user agents that requests present, one picked at random each time.
pub fn user_agents() -> (r: Vec<&'static str>)
    ensures
        r@.map_values(|s: &'static str| s@) == user_agent_table(),
        r@.len() > 0,
{
    let r = vec![
        "Mozilla/5.0 (Windows NT 10.0; Win64; x64) AppleWebKit/537.36 (KHTML, like Gecko) Chrome/106.0.0.0 Safari/537.36",
        "Mozilla/5.0 (Macintosh; Intel Mac OS X 10_15_7) AppleWebKit/537.36 (KHTML, like Gecko) Chrome/106.0.0.0 Safari/537.36",
        "Mozilla/5.0 (X11; Linux x86_64) AppleWebKit/537.36 (KHTML, like Gecko) Chrome/106.0.0.0 Safari/537.36",
        "Mozilla/5.0 (Windows NT 10.0; Win64; x64; rv:106.0) Gecko/20100101 Firefox/106.0",
        "Mozilla/5.0 (Macintosh; Intel Mac OS X 10.15; rv:106.0) Gecko/20100101 Firefox/106.0",
        "Mozilla/5.0 (X11; Linux x86_64; rv:106.0) Gecko/20100101 Firefox/106.0",
        "Mozilla/5.0 (Macintosh; Intel Mac OS X 10_15_7) AppleWebKit/605.1.15 (KHTML, like Gecko) Version/16.0 Safari/605.1.15",
        "Mozilla/5.0 (Windows NT 10.0; Win64; x64) AppleWebKit/537.36 (KHTML, like Gecko) Chrome/106.0.0.0 Safari/537.36 Edg/106.0.1370.47",
    ];
    assert(r@.map_values(|s: &'static str| s@) =~= user_agent_table());
    r
}

} // verus!
