//! Requests to the liveset catalogue: genre slugs, the order in which pages are tried, and
//! the choice of one track from a page.
use crate::text::{lower_of, lowercase, substring};
use vstd::prelude::*;

verus! {

pub struct HearthisUser {
    pub username: String,
}

/// One entry of a catalogue page.
pub struct HearthisTrack {
    pub id: String,
    pub title: String,
    pub genre: String,
    pub stream_url: String,
    pub duration: String,
    pub track_type: String,
    pub user: HearthisUser,
}

pub open spec fn dash_spaces(s: Seq<char>) -> Seq<char> {
    s.map_values(|c: char| if c == ' ' { '-' } else { c })
}

/// A genre as the catalogue names it: lower case, spaces turned into hyphens.
pub open spec fn slug_of(genre: Seq<char>) -> Seq<char> {
    dash_spaces(lower_of(genre))
}

pub fn genre_slug(genre: &str) -> (r: String)
    ensures
        r@ == slug_of(genre@),
{
    let lower = lowercase(genre);
    dash_slug(lower.as_str())
}

/// A genre already in lower case, with its spaces turned into hyphens.
pub fn dash_slug(l: &str) -> (r: String)
    ensures
        r@ == dash_spaces(l@),
{
    let n = l.unicode_len();
    let mut out = String::new();
    let mut i: usize = 0;
    while i < n
        invariant
            n == l@.len(),
            i <= n,
            out@ == dash_spaces(l@.subrange(0, i as int)),
        decreases n - i,
    {
        let c = l.get_char(i);
        if c == ' ' {
            out.append("-");
            proof {
                reveal_strlit("-");
            }
        } else {
            let one = substring(l, i, i + 1);
            out.append(one.as_str());
            assert(l@.subrange(i as int, i + 1) =~= seq![c]);
        }
        assert(dash_spaces(l@.subrange(0, i + 1)) =~= dash_spaces(l@.subrange(0, i as int)).push(
            if c == ' ' {
                '-'
            } else {
                c
            },
        ));
        i = i + 1;
    }
    assert(l@.subrange(0, n as int) =~= l@);
    out
}

pub open spec fn feed_url_spec() -> Seq<char> {
    "https://api-v2.hearthis.at/feed/?page=1&count=20"@
}

pub open spec fn category_url_spec(genre: Seq<char>) -> Seq<char> {
    "https://api-v2.hearthis.at/categories/"@ + slug_of(genre) + "/?page=1&count=20"@
}

/// The page of recent popular tracks across all genres.
pub fn feed_url() -> (r: String)
    ensures
        r@ == feed_url_spec(),
{
    String::from_str("https://api-v2.hearthis.at/feed/?page=1&count=20")
}

/// The page of tracks of one genre.
pub fn category_url(genre: &str) -> (r: String)
    ensures
        r@ == category_url_spec(genre@),
{
    let mut s = String::from_str("https://api-v2.hearthis.at/categories/");
    s.append(genre_slug(genre).as_str());
    s.append("/?page=1&count=20");
    s
}

/// The pages to try for a liveset, in order: each genre's page, then the general feed.
pub open spec fn liveset_pages(genres: Seq<String>) -> Seq<Seq<char>> {
    genres.map_values(|g: String| category_url_spec(g@)).push(feed_url_spec())
}

pub fn liveset_urls(genres: &Vec<String>) -> (r: Vec<String>)
    ensures
        r@.map_values(|s: String| s@) == liveset_pages(genres@),
{
    let mut out: Vec<String> = Vec::new();
    let mut i: usize = 0;
    while i < genres.len()
        invariant
            i <= genres@.len(),
            out@.map_values(|s: String| s@) == genres@.subrange(0, i as int).map_values(
                |g: String| category_url_spec(g@),
            ),
        decreases genres@.len() - i,
    {
        let url = category_url(genres[i].as_str());
        let ghost before = out@.map_values(|s: String| s@);
        out.push(url);
        assert(out@.map_values(|s: String| s@) =~= before.push(url@));
        assert(genres@.subrange(0, i + 1) =~= genres@.subrange(0, i as int).push(genres@[i as int]));
        assert(out@.map_values(|s: String| s@) =~= genres@.subrange(0, i + 1).map_values(
            |g: String| category_url_spec(g@),
        ));
        i = i + 1;
    }
    assert(genres@.subrange(0, genres@.len() as int) =~= genres@);
    out.push(feed_url());
    assert(out@.map_values(|s: String| s@) =~= liveset_pages(genres@));
    out
}

/// The index of the track taken from a page of `len` tracks, for a random `seed`.
pub fn select_random_track(len: usize, seed: u64) -> (r: usize)
    requires
        len > 0,
    ensures
        r < len,
        r as int == seed as int % len as int,
{
    (seed % (len as u64)) as usize
}

} // verus!
