//! A VOD to recover: its identity, its start time, and the candidate
//! addresses that the CDN's naming scheme could have given it.
use vstd::prelude::*;

use crypto::digest::Digest;

use crate::constants::{domain_table, domains, DOMAIN_COUNT};
use crate::error::{TwitchRecoverError, TwitchRecoverResult};
use crate::probe::{batch_views, lemma_scan_without_live_probes_all, run_from, ProbeScan};
use crate::text::{chars_of, decimal, find_first, find_from, find_from_index, occurs_at, push_decimal};

verus! {

/// The marker after which a tracking address names the streamer.
pub open spec fn streamer_marker() -> Seq<char> {
    seq!['c', 'o', 'm', '/']
}

/// The marker after which a tracking address names the VOD.
pub open spec fn vod_marker() -> Seq<char> {
    seq!['s', 't', 'r', 'e', 'a', 'm', 's', '/']
}

/// Where the streamer's name starts in a tracking address: right after the
/// first `com/`.
pub open spec fn streamer_start(url: Seq<char>) -> Option<int> {
    match find_first(url, streamer_marker()) {
        Some(i) => Some(i + 4),
        None => None,
    }
}

/// The streamer named by a tracking address: the text after the first `com/`
/// up to the next `/` or the end; none where the marker is missing or that
/// text is empty.
pub open spec fn tracker_streamer(url: Seq<char>) -> Option<Seq<char>> {
    match streamer_start(url) {
        Some(start) => {
            let end = match find_from(url, seq!['/'], start) {
                Some(e) => e,
                None => url.len() as int,
            };
            if end > start {
                Some(url.subrange(start, end))
            } else {
                None
            }
        },
        None => None,
    }
}

/// The VOD id named by a tracking address: everything after the first
/// `streams/`; none where the marker is missing.
pub open spec fn tracker_vod_id(url: Seq<char>) -> Option<Seq<char>> {
    match find_first(url, vod_marker()) {
        Some(i) => Some(url.skip(i + 8)),
        None => None,
    }
}

/// A tracking address taken apart: the streamer, then the VOD id.
#[derive(Debug)]
pub struct ParsedTwitchTrackerUrl<'a>(pub &'a str, pub &'a str);

/// A VOD: its streamer, its id and the Unix time at which it started.
#[derive(Debug)]
pub struct VodRecover<'a> {
    streamer: &'a str,
    vod_id: &'a str,
    timestamp: i64,
}

impl<'a> View for VodRecover<'a> {
    /// Streamer, VOD id and start time.
    type V = (Seq<char>, Seq<char>, int);

    closed spec fn view(&self) -> (Seq<char>, Seq<char>, int) {
        (self.streamer@, self.vod_id@, self.timestamp as int)
    }
}

impl<'a> VodRecover<'a> {
    /// Takes a tracking address (`https://<host>/<streamer>/streams/<vod_id>`)
    /// apart into the streamer and the VOD id.
    pub fn parse_twitchtracker_url(url: &'a str) -> (r: TwitchRecoverResult<
        ParsedTwitchTrackerUrl<'a>,
    >)
        ensures
            match r {
                Ok(p) => tracker_streamer(url@) == Some(p.0@) && tracker_vod_id(url@) == Some(
                    p.1@,
                ),
                Err(TwitchRecoverError::UrlParseStreamer(u)) => tracker_streamer(url@) is None
                    && u@ == url@,
                Err(TwitchRecoverError::UrlParseVodId(u)) => tracker_streamer(url@) is Some
                    && tracker_vod_id(url@) is None && u@ == url@,
                Err(_) => false,
            },
    {
        proof {
            reveal_strlit("com/");
            reveal_strlit("streams/");
            reveal_strlit("/");
        }
        let chars = chars_of(url);
        let n = chars.len();
        let streamer_pat = chars_of("com/");
        let vod_pat = chars_of("streams/");
        let slash = chars_of("/");
        assert(streamer_pat@ =~= streamer_marker());
        assert(vod_pat@ =~= vod_marker());
        assert(slash@ =~= seq!['/']);
        let streamer = match find_from_index(&chars, &streamer_pat, 0) {
            None => {
                return Err(TwitchRecoverError::UrlParseStreamer(url.to_owned()));
            },
            Some(i) => {
                proof {
                    lemma_find_from_bounds(chars@, streamer_pat@, 0);
                }
                let start = i + 4;
                let end = match find_from_index(&chars, &slash, start) {
                    Some(e) => {
                        proof {
                            lemma_find_from_bounds(chars@, slash@, start as int);
                        }
                        e
                    },
                    None => n,
                };
                if end <= start {
                    return Err(TwitchRecoverError::UrlParseStreamer(url.to_owned()));
                }
                url.substring_char(start, end)
            },
        };
        let vod_id = match find_from_index(&chars, &vod_pat, 0) {
            None => {
                return Err(TwitchRecoverError::UrlParseVodId(url.to_owned()));
            },
            Some(i) => {
                proof {
                    lemma_find_from_bounds(chars@, vod_pat@, 0);
                }
                url.substring_char(i + 8, n)
            },
        };
        Ok(ParsedTwitchTrackerUrl(streamer, vod_id))
    }
}

/// A position that the search finds is one where the pattern fits.
proof fn lemma_find_from_bounds(s: Seq<char>, pat: Seq<char>, i: int)
    ensures
        forall|k: int| find_from(s, pat, i) == Some(k) ==> i <= k && k + pat.len() <= s.len(),
    decreases s.len() + 1 - i,
{
    if !(i < 0 || i + pat.len() > s.len()) && !crate::text::occurs_at(s, pat, i) {
        lemma_find_from_bounds(s, pat, i + 1);
    }
}

} // verus!

verus! {

impl<'a> VodRecover<'a> {
    /// A VOD given by hand: streamer, VOD id and start time.
    pub fn from_manual(streamer: &'a str, vod_id: &'a str, timestamp: i64) -> (r: VodRecover<'a>)
        ensures
            r@ == (streamer@, vod_id@, timestamp as int),
    {
        VodRecover { streamer, vod_id, timestamp }
    }
}

/// How a search for a VOD is run.
#[derive(Debug)]
pub struct VodRecoverOptions {
    /// How many candidate addresses are probed at once.
    pub chunck: usize,
}

impl VodRecoverOptions {
    /// Options that probe `chunck` addresses at once.
    pub fn new(chunck: usize) -> (r: Self)
        ensures
            r.chunck == chunck,
    {
        Self { chunck }
    }
}

impl Default for VodRecoverOptions {
    /// Probes one time offset's worth of addresses, one per CDN origin, at once.
    fn default() -> (r: Self)
        ensures
            r.chunck == DOMAIN_COUNT,
    {
        Self { chunck: DOMAIN_COUNT }
    }
}

} // verus!

verus! {

/// How many seconds after the tracked start time the search covers.
pub const SEARCH_WINDOW: usize = 60;

/// The pattern that finds the start time in a tracking page.
pub const TIMESTAMP_PATTERN: &'static str = "(stream-timestamp-dt.+>(?P<timestamp>.+)<)";

/// The name of the pattern's group that holds the start time.
pub const TIMESTAMP_GROUP: &'static str = "timestamp";

/// The layout of the start time in a tracking page.
pub const TIMESTAMP_FORMAT: &'static str = "%Y-%m-%d %H:%M:%S";

/// What the named group `group` of the leftmost match of the regular
/// expression `pattern` in `text` holds; none where the pattern is not a
/// valid expression, nothing matches, or the group took no part in the match.
pub uninterp spec fn regex_named_capture(pattern: Seq<char>, group: Seq<char>, text: Seq<char>) -> Option<Seq<char>>;

/// The Unix time of the date and time that `text` writes in `format`, read
/// without a time zone; none where it cannot be read.
pub uninterp spec fn naive_timestamp(text: Seq<char>, format: Seq<char>) -> Option<int>;

/// The SHA-1 digest of the UTF-8 bytes of `text`, in lowercase hexadecimal.
pub uninterp spec fn sha1_hex(text: Seq<char>) -> Seq<char>;

/// Relies on regex::Regex::new, then Regex::captures and Captures::name: the
/// text of the named group in the leftmost match.
#[verifier::external_body]
fn named_capture(pattern: &str, group: &str, text: &str) -> (r: Option<String>)
    ensures
        match r {
            Some(c) => regex_named_capture(pattern@, group@, text@) == Some(c@),
            None => regex_named_capture(pattern@, group@, text@) is None,
        },
{
    let re = regex::Regex::new(pattern).ok()?;
    let captures = re.captures(text)?;
    let found = captures.name(group)?;
    Some(found.as_str().to_owned())
}

/// Relies on chrono::NaiveDateTime::parse_from_str, then
/// NaiveDateTime::and_utc and DateTime::timestamp: the date read from `text`
/// in `format`, as seconds since the Unix epoch.
#[verifier::external_body]
fn parse_naive_timestamp(text: &str, format: &str) -> (r: Option<i64>)
    ensures
        match r {
            Some(t) => naive_timestamp(text@, format@) == Some(t as int),
            None => naive_timestamp(text@, format@) is None,
        },
{
    let date = chrono::NaiveDateTime::parse_from_str(text, format).ok()?;
    Some(date.and_utc().timestamp())
}

/// Relies on crypto::sha1::Sha1 through Digest::input_str and
/// Digest::result_str: the digest of the text's UTF-8 bytes, written as forty
/// hexadecimal digits.
#[verifier::external_body]
fn sha1_hex_digest(text: &str) -> (r: String)
    ensures
        r@ == sha1_hex(text@),
        r@.len() == 40,
{
    let mut hasher = crypto::sha1::Sha1::new();
    hasher.input_str(text);
    hasher.result_str()
}

/// The start time that a tracking page gives.
pub open spec fn page_timestamp(page: Seq<char>) -> Option<int> {
    match regex_named_capture(TIMESTAMP_PATTERN@, TIMESTAMP_GROUP@, page) {
        Some(date) => naive_timestamp(date, TIMESTAMP_FORMAT@),
        None => None,
    }
}

/// The folder name of a VOD segment uploaded at second `t`:
/// `<streamer>_<vod_id>_<t>`.
pub open spec fn base_name(streamer: Seq<char>, vod_id: Seq<char>, t: int) -> Seq<char> {
    streamer + seq!['_'] + vod_id + seq!['_'] + decimal(t)
}

/// The playlist address on `domain` of a VOD whose segments began at second
/// `t`: the first twenty hex digits of the folder name's SHA-1 digest, `_`,
/// the folder name, then the playlist's path.
pub open spec fn candidate_url(domain: Seq<char>, streamer: Seq<char>, vod_id: Seq<char>, t: int) -> Seq<char> {
    let base = base_name(streamer, vod_id, t);
    url_with_digest(domain, sha1_hex(base), base)
}

/// The playlist address on `domain` of the folder `base` whose name's digest
/// is `digest`: the first twenty digits of the digest, `_`, the folder name,
/// then the playlist's path.
pub open spec fn url_with_digest(domain: Seq<char>, digest: Seq<char>, base: Seq<char>) -> Seq<char> {
    domain + digest.take(20) + seq!['_'] + base + "/chunked/index-dvr.m3u8"@
}

/// Every candidate address of a VOD that started at `start`: for each second
/// of the search window in turn, one address per CDN origin.
pub open spec fn candidate_urls(streamer: Seq<char>, vod_id: Seq<char>, start: int) -> Seq<Seq<char>> {
    Seq::new(
        (SEARCH_WINDOW * DOMAIN_COUNT) as nat,
        |k: int|
            candidate_url(
                domain_table()[k % DOMAIN_COUNT as int],
                streamer,
                vod_id,
                start + k / DOMAIN_COUNT as int,
            ),
    )
}

/// The views of a sequence of strings.
pub open spec fn string_views(v: Seq<String>) -> Seq<Seq<char>> {
    v.map_values(|s: String| s@)
}

/// `s` cut into consecutive batches of `n` items, the last one holding what
/// is left; with `n` zero, one batch of everything.
pub open spec fn batches_of<A>(s: Seq<A>, n: nat) -> Seq<Seq<A>> {
    if s.len() == 0 {
        Seq::empty()
    } else if n == 0 {
        seq![s]
    } else {
        Seq::new(
            ((s.len() + n - 1) / n as int) as nat,
            |k: int|
                s.subrange(
                    k * n,
                    if (k + 1) * n <= s.len() {
                        (k + 1) * n
                    } else {
                        s.len() as int
                    },
                ),
        )
    }
}

impl<'a> VodRecover<'a> {
    /// Reads the start time of a VOD from its tracking page; `url` is the
    /// page's address, reported when the page holds no readable time.
    pub fn parse_twitchtracker_timestamp(page: String, url: &str) -> (r: TwitchRecoverResult<i64>)
        ensures
            match r {
                Ok(t) => page_timestamp(page@) == Some(t as int),
                Err(TwitchRecoverError::PageParseTimestamp(u)) => page_timestamp(page@) is None
                    && u@ == url@,
                Err(_) => false,
            },
    {
        let parsed = match named_capture(TIMESTAMP_PATTERN, TIMESTAMP_GROUP, page.as_str()) {
            Some(date) => parse_naive_timestamp(date.as_str(), TIMESTAMP_FORMAT),
            None => None,
        };
        Self::timestamp_or_error(parsed, url)
    }

    /// The start time read from a tracking page, or the error that names the
    /// page where none could be read.
    pub fn timestamp_or_error(parsed: Option<i64>, url: &str) -> (r: TwitchRecoverResult<i64>)
        ensures
            match parsed {
                Some(t) => r matches Ok(v) && v == t,
                None => r matches Err(TwitchRecoverError::PageParseTimestamp(u)) && u@ == url@,
            },
    {
        match parsed {
            Some(t) => Ok(t),
            None => Err(TwitchRecoverError::PageParseTimestamp(url.to_owned())),
        }
    }

    /// The candidate addresses of the folder `base` whose name's SHA-1 digest
    /// is `digest`, one per CDN origin, in the order of the domain table.
    pub fn urls_for_base(base: &str, digest: &str) -> (r: Vec<String>)
        requires
            digest@.len() >= 20,
        ensures
            r@.len() == DOMAIN_COUNT,
            forall|d: int|
                0 <= d < DOMAIN_COUNT ==> #[trigger] r@[d]@ == url_with_digest(
                    domain_table()[d],
                    digest@,
                    base@,
                ),
    {
        let table = domains();
        let prefix = digest.substring_char(0, 20);
        let mut urls: Vec<String> = Vec::new();
        for d in 0..DOMAIN_COUNT
            invariant
                table@.len() == DOMAIN_COUNT,
                forall|i: int| 0 <= i < table@.len() ==> table@[i]@ == #[trigger] domain_table()[i],
                prefix@ == digest@.take(20),
                urls@.len() == d,
                forall|k: int|
                    0 <= k < d ==> #[trigger] urls@[k]@ == url_with_digest(domain_table()[k], digest@, base@),
        {
            proof {
                reveal_strlit("_");
                assert("_"@ =~= seq!['_']);
            }
            let mut url = String::from_str(table[d]);
            url.append(prefix);
            url.append("_");
            url.append(base);
            url.append("/chunked/index-dvr.m3u8");
            assert(url@ =~= url_with_digest(domain_table()[d as int], digest@, base@));
            urls.push(url);
        }
        urls
    }

    /// Every candidate playlist address of this VOD, one per second of the
    /// search window and CDN origin, seconds in the outer order.
    pub fn generate_all_urls(&self) -> (r: Vec<String>)
        ensures
            string_views(r@) == candidate_urls(self@.0, self@.1, self@.2),
    {
        let mut urls: Vec<String> = Vec::new();
        let ghost expected = candidate_urls(self@.0, self@.1, self@.2);
        for sec in 0..SEARCH_WINDOW
            invariant
                expected == candidate_urls(self@.0, self@.1, self@.2),
                urls@.len() == sec * DOMAIN_COUNT,
                forall|k: int| 0 <= k < urls@.len() ==> #[trigger] urls@[k]@ == expected[k],
        {
            let t: i128 = self.timestamp as i128 + sec as i128;
            proof {
                reveal_strlit("_");
                assert("_"@ =~= seq!['_']);
            }
            let mut base = String::from_str(self.streamer);
            base.append("_");
            base.append(self.vod_id);
            base.append("_");
            push_decimal(&mut base, t);
            assert(base@ =~= base_name(self@.0, self@.1, t as int));
            let digest = sha1_hex_digest(base.as_str());
            let mut batch = Self::urls_for_base(base.as_str(), digest.as_str());
            proof {
                assert forall|k: int|
                    sec * DOMAIN_COUNT <= k < sec * DOMAIN_COUNT + DOMAIN_COUNT implies #[trigger] expected[k]
                    == batch@[k - sec * DOMAIN_COUNT]@ by {
                    let d = k - sec * DOMAIN_COUNT;
                    assert(k / (DOMAIN_COUNT as int) == sec && k % (DOMAIN_COUNT as int) == d) by (nonlinear_arith)
                        requires
                            k == sec * DOMAIN_COUNT + d,
                            0 <= d < DOMAIN_COUNT,
                            DOMAIN_COUNT == 17,
                    ;
                    assert(k < expected.len()) by (nonlinear_arith)
                        requires
                            k == sec * DOMAIN_COUNT + d,
                            d < DOMAIN_COUNT,
                            sec < SEARCH_WINDOW,
                            DOMAIN_COUNT == 17,
                            SEARCH_WINDOW == 60,
                            expected.len() == SEARCH_WINDOW * DOMAIN_COUNT,
                    ;
                }
            }
            let ghost before = urls@;
            let ghost added = batch@;
            urls.append(&mut batch);
            proof {
                assert forall|k: int| 0 <= k < urls@.len() implies #[trigger] urls@[k]@ == expected[k] by {
                    if k >= before.len() {
                        assert(urls@[k] == added[k - sec * DOMAIN_COUNT]);
                    } else {
                        assert(urls@[k] == before[k]);
                    }
                }
            }
        }
        assert(string_views(urls@) =~= expected);
        urls
    }

    /// Cuts `urls` into consecutive batches of `chunck` addresses, the last
    /// one holding what is left.
    pub fn split_urls_in_chunks(urls: Vec<String>, chunck: usize) -> (r: Vec<Vec<String>>)
        ensures
            r@.map_values(|c: Vec<String>| c@) == batches_of(urls@, chunck as nat),
    {
        let ghost all = urls@;
        let ghost n = chunck as int;
        let mut output: Vec<Vec<String>> = Vec::new();
        let mut current: Vec<String> = Vec::new();
        for url in iter: urls.into_iter()
            invariant
                iter.seq() == all,
                0 < n ==> current@.len() < n,
                0 < n ==> output@.len() * n + current@.len() == iter.index(),
                0 < n ==> current@ == all.subrange(output@.len() * n, iter.index() as int),
                0 < n ==> forall|k: int|
                    0 <= k < output@.len() ==> #[trigger] output@[k]@ == all.subrange(k * n, k * n + n),
                n == chunck,
                n == 0 ==> output@.len() == 0 && current@ == all.take(iter.index() as int),
        {
            let ghost done = output@.len() as int;
            proof {
                assert((done + 1) * n == done * n + n) by (nonlinear_arith);
            }
            current.push(url);
            if current.len() == chunck {
                output.push(current);
                current = Vec::new();
            }
        }
        let ghost full = output@.len() as int;
        let ghost rest = current@.len() as int;
        assert(0 < n ==> full * n + rest == all.len());
        assert(n == 0 ==> current@ =~= all);
        if current.len() > 0 {
            output.push(current);
        }
        proof {
            let views = output@.map_values(|c: Vec<String>| c@);
            let expected = batches_of(all, n as nat);
            if n == 0 {
                if all.len() > 0 {
                    assert(views[0] == all);
                }
                assert(views =~= expected);
            } else {
                assert((full + 1) * n == full * n + n) by (nonlinear_arith);
                vstd::arithmetic::div_mod::lemma_fundamental_div_mod_converse(
                    all.len() + n - 1,
                    n,
                    if rest > 0 { full + 1 } else { full },
                    if rest > 0 { rest - 1 } else { n - 1 },
                );
                assert(full * n >= full) by (nonlinear_arith)
                    requires n > 0, full >= 0;
                assert forall|k: int| 0 <= k < views.len() implies views[k] == expected[k] by {
                    if k < full {
                        assert((k + 1) * n <= full * n) by (nonlinear_arith)
                            requires k < full, n > 0;
                        assert((k + 1) * n == k * n + n) by (nonlinear_arith);
                    } else {
                        assert(k == full);
                        assert((k + 1) * n == k * n + n) by (nonlinear_arith);
                    }
                }
                assert(views =~= expected);
            }
        }
        output
    }
}

/// The address of the tracking page of a VOD:
/// `https://twitchtracker.com/<streamer>/streams/<vod_id>`.
pub open spec fn tracker_page_url(streamer: Seq<char>, vod_id: Seq<char>) -> Seq<char> {
    "https://twitchtracker.com/"@ + streamer + "/streams/"@ + vod_id
}

/// Batching the views of some strings is viewing their batches.
proof fn lemma_batches_of_views(s: Seq<String>, n: nat)
    ensures
        batches_of(string_views(s), n) == batches_of(s, n).map_values(|c: Seq<String>| string_views(c)),
{
    let l = batches_of(string_views(s), n);
    let r = batches_of(s, n).map_values(|c: Seq<String>| string_views(c));
    if s.len() == 0 {
        assert(l =~= r);
    } else if n == 0 {
        assert(string_views(s) =~= string_views(s));
        assert(l =~= r);
    } else {
        let q = (s.len() + n - 1) / (n as int);
        vstd::arithmetic::div_mod::lemma_fundamental_div_mod(s.len() + n - 1, n as int);
        vstd::arithmetic::div_mod::lemma_mod_bound(s.len() + n - 1, n as int);
        assert(q * n <= s.len() + n - 1) by (nonlinear_arith)
            requires
                s.len() + n - 1 == n * q + (s.len() + n - 1) % (n as int),
                (s.len() + n - 1) % (n as int) >= 0;
        assert forall|k: int| 0 <= k < l.len() implies l[k] =~= r[k] by {
            assert(k * n + n <= q * n) by (nonlinear_arith)
                requires k + 1 <= q, n > 0;
            assert(k * n >= 0) by (nonlinear_arith)
                requires k >= 0, n > 0;
            assert((k + 1) * n == k * n + n) by (nonlinear_arith);
        }
        assert(l =~= r);
    }
}

impl<'a> ParsedTwitchTrackerUrl<'a> {
    /// The address of this VOD's tracking page.
    pub fn page_url(&self) -> (r: String)
        ensures
            r@ == tracker_page_url(self.0@, self.1@),
    {
        let mut url = String::from_str("https://twitchtracker.com/");
        url.append(self.0);
        url.append("/streams/");
        url.append(self.1);
        url
    }
}

impl<'a> VodRecover<'a> {
    /// The VOD of a parsed tracking address, started at the time that its
    /// tracking page `page` gives.
    pub fn from_tracker_page(parsed: ParsedTwitchTrackerUrl<'a>, page: String) -> (r: TwitchRecoverResult<VodRecover<'a>>)
        ensures
            match page_timestamp(page@) {
                Some(t) => r matches Ok(v) && v@ == (parsed.0@, parsed.1@, t),
                None => r matches Err(TwitchRecoverError::PageParseTimestamp(u)) && u@
                    == tracker_page_url(parsed.0@, parsed.1@),
            },
    {
        let url = parsed.page_url();
        let timestamp = Self::parse_twitchtracker_timestamp(page, url.as_str())?;
        Ok(VodRecover { streamer: parsed.0, vod_id: parsed.1, timestamp })
    }

    /// A scan over every candidate address of this VOD, in batches of
    /// `options.chunck`.
    pub fn probe_scan(&self, options: &VodRecoverOptions) -> (r: ProbeScan)
        ensures
            r.wf(),
            r@.batches == batches_of(candidate_urls(self@.0, self@.1, self@.2), options.chunck as nat),
            r@.next == 0,
            r@.found is None,
    {
        let urls = self.generate_all_urls();
        let ghost views = urls@;
        let batches = Self::split_urls_in_chunks(urls, options.chunck);
        proof {
            lemma_batches_of_views(views, options.chunck as nat);
            assert(batches@.map_values(|c: Vec<String>| c@) == batches_of(views, options.chunck as nat));
            assert(batch_views(batches@) =~= batches_of(views, options.chunck as nat).map_values(
                |c: Seq<String>| string_views(c),
            ));
        }
        ProbeScan::new(batches)
    }
}

/// Generating the candidates is a function of the VOD alone: two runs on the
/// same streamer, id and start time give the same addresses, one per second
/// of the search window and CDN origin.
pub proof fn lemma_generate_deterministic(
    streamer: Seq<char>,
    vod_id: Seq<char>,
    start: int,
    first: Seq<String>,
    second: Seq<String>,
)
    requires
        string_views(first) == candidate_urls(streamer, vod_id, start),
        string_views(second) == candidate_urls(streamer, vod_id, start),
    ensures
        string_views(first) == string_views(second),
        first.len() == SEARCH_WINDOW * DOMAIN_COUNT,
        second.len() == SEARCH_WINDOW * DOMAIN_COUNT,
{
    assert(string_views(first).len() == first.len());
    assert(string_views(second).len() == second.len());
}

/// A search for a VOD none of whose candidate addresses is live probes the
/// whole candidate space, each address once, and ends with `VodNotFound`.
pub proof fn lemma_vod_not_found_probes_whole_space(
    streamer: Seq<char>,
    vod_id: Seq<char>,
    start: int,
    batch_size: nat,
    orders: Seq<Seq<int>>,
    live: Set<Seq<char>>,
)
    requires
        forall|i: int|
            0 <= i < candidate_urls(streamer, vod_id, start).len() ==> !live.contains(
                #[trigger] candidate_urls(streamer, vod_id, start)[i],
            ),
    ensures
        run_from(batches_of(candidate_urls(streamer, vod_id, start), batch_size), 0, None, orders, live)
            == (None::<Seq<char>>, (SEARCH_WINDOW * DOMAIN_COUNT) as int),
{
    lemma_scan_without_live_probes_all(candidate_urls(streamer, vod_id, start), batch_size, orders, live);
}

/// The search from `i` finds `p` where the pattern stands at `p` and
/// nowhere from `i` up to `p`.
proof fn lemma_find_from_is(s: Seq<char>, pat: Seq<char>, i: int, p: int)
    requires
        0 <= i <= p,
        occurs_at(s, pat, p),
        forall|j: int| i <= j < p ==> !occurs_at(s, pat, j),
    ensures
        find_from(s, pat, i) == Some(p),
    decreases p - i,
{
    if i < p {
        lemma_find_from_is(s, pat, i + 1, p);
    }
}

/// A tracking address `<head>com/<streamer>/streams/<vod_id>` parses into
/// exactly `streamer` and `vod_id`, where `com/` does not occur in the head,
/// the streamer is not empty and holds no `/`, and `streams/` does not occur
/// before the marker that follows the streamer.
pub proof fn lemma_parse_tracking_shape(head: Seq<char>, streamer: Seq<char>, vod_id: Seq<char>)
    requires
        forall|j: int| !occurs_at(head, streamer_marker(), j),
        streamer.len() > 0,
        forall|j: int| 0 <= j < streamer.len() ==> streamer[j] != '/',
        forall|j: int| !occurs_at(head + streamer_marker() + streamer + seq!['/'], vod_marker(), j),
    ensures
        tracker_streamer(head + streamer_marker() + streamer + seq!['/'] + vod_marker() + vod_id)
            == Some(streamer),
        tracker_vod_id(head + streamer_marker() + streamer + seq!['/'] + vod_marker() + vod_id)
            == Some(vod_id),
{
    let prefix = head + streamer_marker() + streamer + seq!['/'];
    let url = prefix + vod_marker() + vod_id;
    let h = head.len() as int;
    let start = h + 4;
    let end = start + streamer.len();
    assert forall|j: int| 0 <= j < h implies !occurs_at(url, streamer_marker(), j) by {
        if j + 4 <= h {
            assert(!occurs_at(head, streamer_marker(), j));
            assert(url.subrange(j, j + 4) =~= head.subrange(j, j + 4));
        } else {
            assert(url[h] == 'c');
            assert(url.subrange(j, j + 4)[h - j] == url[h]);
            assert(streamer_marker()[h - j] != 'c');
        }
    }
    assert(url.subrange(h, h + 4) =~= streamer_marker());
    lemma_find_from_is(url, streamer_marker(), 0, h);
    assert forall|j: int| start <= j < end implies !occurs_at(url, seq!['/'], j) by {
        assert(url[j] == streamer[j - start]);
        assert(url.subrange(j, j + 1)[0] == url[j]);
    }
    assert(url.subrange(end, end + 1) =~= seq!['/']);
    lemma_find_from_is(url, seq!['/'], start, end);
    assert(url.subrange(start, end) =~= streamer);
    let v = end + 1;
    assert forall|j: int| 0 <= j < v implies !occurs_at(url, vod_marker(), j) by {
        if j + 8 <= v {
            assert(!occurs_at(prefix, vod_marker(), j));
            assert(url.subrange(j, j + 8) =~= prefix.subrange(j, j + 8));
        } else {
            assert(url[end] == '/');
            assert(url.subrange(j, j + 8)[end - j] == url[end]);
            assert(vod_marker()[end - j] != '/');
        }
    }
    assert(url.subrange(v, v + 8) =~= vod_marker());
    lemma_find_from_is(url, vod_marker(), 0, v);
    assert(url.skip(v + 8) =~= vod_id);
}

} // verus!
