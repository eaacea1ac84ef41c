//! Rewriting the playlist of a muted VOD so that it names the segments by
//! their number.
use vstd::prelude::*;

use crate::error::{TwitchRecoverError, TwitchRecoverResult};
use crate::text::{chars_of, decimal, find_first, find_from_index, occurs_at, occurs_at_index, push_decimal};

verus! {

/// `s` from `i` on with every occurrence of `pat` taken out, occurrences
/// found left to right without overlap.
pub open spec fn strip_from(s: Seq<char>, pat: Seq<char>, i: int) -> Seq<char>
    decreases s.len() - i,
{
    if i < 0 || i >= s.len() || pat.len() == 0 {
        if 0 <= i <= s.len() {
            s.skip(i)
        } else {
            Seq::empty()
        }
    } else if occurs_at(s, pat, i) {
        strip_from(s, pat, i + pat.len())
    } else {
        seq![s[i]] + strip_from(s, pat, i + 1)
    }
}

/// The file name of a VOD playlist.
pub open spec fn playlist_name() -> Seq<char> {
    "index-dvr.m3u8"@
}

/// The marker that a muted segment's name carries.
pub open spec fn muted_marker() -> Seq<char> {
    "-unmuted"@
}

/// The marker that a playlist with muted segments holds.
pub open spec fn muted_playlist_marker() -> Seq<char> {
    "unmuted"@
}

/// A playlist line rewritten: a tag line (starting with `#`) stays; the
/// segment line numbered `counter` becomes `<base><counter>-muted.ts` where it
/// names a muted segment, `<base><counter>.ts` where not.
pub open spec fn rewritten_line(base: Seq<char>, line: Seq<char>, counter: int) -> Seq<char> {
    if line.len() > 0 && line[0] == '#' {
        line
    } else if find_first(line, muted_marker()) is Some {
        base + decimal(counter) + "-muted.ts"@
    } else {
        base + decimal(counter) + ".ts"@
    }
}

/// A VOD playlist to unmute.
#[derive(Debug)]
pub struct VodUnmute<'a> {
    link: &'a str,
}

impl<'a> View for VodUnmute<'a> {
    /// The playlist's link.
    type V = Seq<char>;

    closed spec fn view(&self) -> Seq<char> {
        self.link@
    }
}

/// How an unmuting ended.
#[derive(Debug)]
pub enum VodUnmuteResult {
    /// The playlist names no muted segment.
    VodAlreadyUnmuted,
    /// The rewritten playlist.
    Vod(String),
}

/// Removes every occurrence of `pat` from `s`, left to right.
fn strip_all(s: &str, pat: &str) -> (r: String)
    ensures
        r@ == strip_from(s@, pat@, 0),
{
    let chars = chars_of(s);
    let pat_chars = chars_of(pat);
    let n = chars.len();
    let m = pat_chars.len();
    let mut out = String::new();
    let mut i: usize = 0;
    if m == 0 {
        out.append(s);
        assert(s@.skip(0) =~= s@);
        return out;
    }
    while i < n
        invariant
            chars@ == s@,
            pat_chars@ == pat@,
            n == s@.len(),
            m == pat@.len(),
            m > 0,
            i <= n,
            out@ + strip_from(s@, pat@, i as int) == strip_from(s@, pat@, 0),
        decreases n - i,
    {
        if occurs_at_index(&chars, &pat_chars, i) {
            i = i + m;
        } else {
            out.append(s.substring_char(i, i + 1));
            assert(out@ + strip_from(s@, pat@, i + 1) =~= strip_from(s@, pat@, 0));
            i = i + 1;
        }
    }
    assert(strip_from(s@, pat@, i as int) =~= Seq::<char>::empty());
    assert(out@ =~= strip_from(s@, pat@, 0));
    out
}

/// `pat` stands somewhere in `s`.
fn contains(s: &str, pat: &str) -> (r: bool)
    ensures
        r == (find_first(s@, pat@) is Some),
{
    let chars = chars_of(s);
    let pat_chars = chars_of(pat);
    find_from_index(&chars, &pat_chars, 0).is_some()
}

impl<'a> VodUnmute<'a> {
    /// The playlist at `link`.
    pub fn new(link: &'a str) -> (r: Self)
        ensures
            r@ == link@,
    {
        Self { link }
    }

    /// The address of the playlist's directory: the link with the playlist's
    /// file name taken out.
    pub fn base_url(&self) -> (r: String)
        ensures
            r@ == strip_from(self@, playlist_name(), 0),
    {
        let r = strip_all(self.link, "index-dvr.m3u8");
        assert(r@ == strip_from(self@, playlist_name(), 0));
        r
    }

    /// Whether the playlist fetched from the link names muted segments; a
    /// status other than 200 means that the VOD was not found.
    pub fn muted_from_response(status: u16, body: &str) -> (r: TwitchRecoverResult<bool>)
        ensures
            status == 200 ==> (r matches Ok(m) && m == (find_first(body@, muted_playlist_marker()) is Some)),
            status != 200 ==> r matches Err(TwitchRecoverError::VodNotFound),
    {
        if status != 200 {
            return Err(TwitchRecoverError::VodNotFound);
        }
        Ok(contains(body, "unmuted"))
    }

    /// Rewrites one playlist line; `counter` numbers the segment lines seen
    /// so far and is moved on by one where `line` is a segment line.
    pub fn rewrite_line(base: &str, line: &str, counter: &mut u64) -> (r: String)
        requires
            *old(counter) < u64::MAX,
        ensures
            r@ == rewritten_line(base@, line@, *old(counter) as int),
            line@.len() > 0 && line@[0] == '#' ==> *final(counter) == *old(counter),
            !(line@.len() > 0 && line@[0] == '#') ==> *final(counter) == *old(counter) + 1,
    {
        let chars = chars_of(line);
        if chars.len() > 0 && chars[0] == '#' {
            let mut r = String::new();
            r.append(line);
            return r;
        }
        let mut r = String::new();
        r.append(base);
        push_decimal(&mut r, *counter as i128);
        if contains(line, "-unmuted") {
            r.append("-muted.ts");
        } else {
            r.append(".ts");
        }
        *counter = *counter + 1;
        r
    }
}

} // verus!
