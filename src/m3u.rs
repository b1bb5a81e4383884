//! M3U playlists: one path per line, `#` lines and blank lines ignored, relative paths
//! resolved against the playlist's directory.
use crate::text::{strings, substring, trim, trimmed, is_space, leading_space, trailing_space};
use vstd::prelude::*;

verus! {

/// The pieces of `s` between line feeds (one more piece than there are line feeds).
pub open spec fn split_lines(s: Seq<char>) -> Seq<Seq<char>>
    decreases s.len(),
{
    if s.len() == 0 {
        seq![Seq::<char>::empty()]
    } else {
        let prev = split_lines(s.drop_last());
        if s.last() == '\n' {
            prev.push(Seq::<char>::empty())
        } else {
            prev.update(prev.len() - 1, prev.last().push(s.last()))
        }
    }
}

/// A trimmed line that names a track: not blank and not a comment.
pub open spec fn is_entry(t: Seq<char>) -> bool {
    t.len() > 0 && t[0] != '#'
}

/// The trimmed lines that name tracks, in order.
pub open spec fn entries_of(lines: Seq<Seq<char>>) -> Seq<Seq<char>>
    decreases lines.len(),
{
    if lines.len() == 0 {
        Seq::empty()
    } else {
        let prev = entries_of(lines.drop_last());
        let t = trimmed(lines.last());
        if is_entry(t) {
            prev.push(t)
        } else {
            prev
        }
    }
}

pub open spec fn playlist_entries(content: Seq<char>) -> Seq<Seq<char>> {
    entries_of(split_lines(content))
}

pub open spec fn is_absolute(p: Seq<char>) -> bool {
    p.len() > 0 && p[0] == '/'
}

/// `entry` joined to `dir` as a path: an absolute entry stands alone.
pub open spec fn resolve(dir: Seq<char>, entry: Seq<char>) -> Seq<char> {
    if is_absolute(entry) || dir.len() == 0 {
        entry
    } else if dir.last() == '/' {
        dir + entry
    } else {
        dir + "/"@ + entry
    }
}

/// The entries at which `exists` holds, in order (a missing flag counts as false).
pub open spec fn existing(candidates: Seq<Seq<char>>, exists: Seq<bool>, n: int) -> Seq<Seq<char>>
    decreases n,
{
    if n <= 0 {
        Seq::empty()
    } else if n - 1 < exists.len() && exists[n - 1] {
        existing(candidates, exists, n - 1).push(candidates[n - 1])
    } else {
        existing(candidates, exists, n - 1)
    }
}

pub open spec fn no_tracks_message(playlist: Seq<char>) -> Seq<char> {
    "No valid tracks found in M3U playlist: "@ + playlist
}

proof fn lemma_split_lines_nonempty(s: Seq<char>)
    ensures
        split_lines(s).len() >= 1,
    decreases s.len(),
{
    if s.len() > 0 {
        lemma_split_lines_nonempty(s.drop_last());
    }
}

/// Lines joined with line feeds between them.
pub open spec fn joined_lines(ls: Seq<Seq<char>>) -> Seq<char>
    decreases ls.len(),
{
    if ls.len() == 0 {
        Seq::empty()
    } else if ls.len() == 1 {
        ls[0]
    } else {
        joined_lines(ls.drop_last()) + seq!['\n'] + ls.last()
    }
}

/// An absolute path with no line feed and no white space at its end.
pub open spec fn plain_absolute(p: Seq<char>) -> bool {
    &&& is_absolute(p)
    &&& !is_space(p.last())
    &&& forall|i: int| 0 <= i < p.len() ==> #[trigger] p[i] != '\n'
}

proof fn lemma_split_lines_append(a: Seq<char>, b: Seq<char>)
    requires
        forall|i: int| 0 <= i < b.len() ==> #[trigger] b[i] != '\n',
    ensures
        split_lines(a + b) == split_lines(a).update(
            split_lines(a).len() - 1,
            split_lines(a).last() + b,
        ),
    decreases b.len(),
{
    lemma_split_lines_nonempty(a);
    if b.len() == 0 {
        assert(a + b =~= a);
        assert(split_lines(a).last() + b =~= split_lines(a).last());
        assert(split_lines(a).update(split_lines(a).len() - 1, split_lines(a).last())
            =~= split_lines(a));
    } else {
        let b2 = b.drop_last();
        assert forall|i: int| 0 <= i < b2.len() implies #[trigger] b2[i] != '\n' by {
            assert(b2[i] == b[i]);
        }
        lemma_split_lines_append(a, b2);
        assert((a + b).drop_last() =~= a + b2);
        assert((a + b).last() == b.last());
        assert(b[b.len() - 1] != '\n');
        lemma_split_lines_nonempty(a + b2);
        assert(split_lines(a).last() + b2 + seq![b.last()] =~= split_lines(a).last() + b);
        assert((split_lines(a).last() + b2).push(b.last()) =~= split_lines(a).last() + b);
        assert(split_lines(a + b) =~= split_lines(a).update(
            split_lines(a).len() - 1,
            split_lines(a).last() + b,
        ));
    }
}

proof fn lemma_split_joined(ls: Seq<Seq<char>>)
    requires
        ls.len() >= 1,
        forall|k: int, i: int|
            0 <= k < ls.len() && 0 <= i < ls[k].len() ==> #[trigger] ls[k][i] != '\n',
    ensures
        split_lines(joined_lines(ls)) == ls,
    decreases ls.len(),
{
    if ls.len() == 1 {
        lemma_split_lines_append(Seq::<char>::empty(), ls[0]);
        assert(Seq::<char>::empty() + ls[0] =~= ls[0]);
        assert(split_lines(Seq::<char>::empty()) == seq![Seq::<char>::empty()]);
        assert(split_lines(ls[0]) =~= ls);
    } else {
        let init = ls.drop_last();
        assert forall|k: int, i: int|
            0 <= k < init.len() && 0 <= i < init[k].len() implies #[trigger] init[k][i]
            != '\n' by {
            assert(init[k] == ls[k]);
        }
        lemma_split_joined(init);
        let j = joined_lines(init);
        let l = ls.last();
        assert forall|i: int| 0 <= i < l.len() implies #[trigger] l[i] != '\n' by {
            assert(ls[ls.len() - 1][i] != '\n');
        }
        let jn = j.push('\n');
        assert(j + seq!['\n'] =~= jn);
        assert(jn.drop_last() =~= j);
        lemma_split_lines_nonempty(j);
        assert(split_lines(jn) == init.push(Seq::<char>::empty()));
        lemma_split_lines_append(jn, l);
        assert(Seq::<char>::empty() + l =~= l);
        assert(split_lines(jn + l) =~= ls);
    }
}

proof fn lemma_entries_of_plain(ls: Seq<Seq<char>>)
    requires
        forall|k: int| 0 <= k < ls.len() ==> plain_absolute(#[trigger] ls[k]),
    ensures
        entries_of(ls) == ls,
    decreases ls.len(),
{
    if ls.len() > 0 {
        let init = ls.drop_last();
        assert forall|k: int| 0 <= k < init.len() implies plain_absolute(#[trigger] init[k]) by {
            assert(init[k] == ls[k]);
        }
        lemma_entries_of_plain(init);
        let l = ls.last();
        assert(plain_absolute(ls[ls.len() - 1]));
        assert(!is_space(l[0]));
        assert(leading_space(l) == 0);
        assert(l.subrange(0, l.len() as int) =~= l);
        assert(trailing_space(l) == 0);
        assert(trimmed(l) == l);
        assert(ls =~= init.push(l));
    }
}

proof fn lemma_existing_all(c: Seq<Seq<char>>, exists: Seq<bool>, n: int)
    requires
        0 <= n <= c.len(),
        exists.len() == c.len(),
        forall|i: int| 0 <= i < exists.len() ==> #[trigger] exists[i],
    ensures
        existing(c, exists, n) == c.subrange(0, n),
    decreases n,
{
    if n > 0 {
        lemma_existing_all(c, exists, n - 1);
        assert(c.subrange(0, n) =~= c.subrange(0, n - 1).push(c[n - 1]));
    } else {
        assert(c.subrange(0, 0) =~= Seq::<Seq<char>>::empty());
    }
}

/// A playlist of one or more absolute paths, one per line, whose files all exist, yields
/// exactly those paths, in order, wherever the playlist lies.
pub proof fn lemma_absolute_playlist_round_trip(
    paths: Seq<Seq<char>>,
    dir: Seq<char>,
    exists: Seq<bool>,
)
    requires
        paths.len() >= 1,
        forall|k: int| 0 <= k < paths.len() ==> plain_absolute(#[trigger] paths[k]),
        exists.len() == paths.len(),
        forall|i: int| 0 <= i < exists.len() ==> #[trigger] exists[i],
    ensures
        playlist_entries(joined_lines(paths)).map_values(|e: Seq<char>| resolve(dir, e)) == paths,
        existing(paths, exists, paths.len() as int) == paths,
{
    assert forall|k: int, i: int|
        0 <= k < paths.len() && 0 <= i < paths[k].len() implies #[trigger] paths[k][i]
        != '\n' by {
        assert(plain_absolute(paths[k]));
    }
    lemma_split_joined(paths);
    lemma_entries_of_plain(paths);
    assert forall|k: int| 0 <= k < paths.len() implies resolve(dir, #[trigger] paths[k])
        == paths[k] by {
        assert(plain_absolute(paths[k]));
    }
    assert(paths.map_values(|e: Seq<char>| resolve(dir, e)) =~= paths);
    lemma_existing_all(paths, exists, paths.len() as int);
    assert(paths.subrange(0, paths.len() as int) =~= paths);
}

pub struct M3uParser;

impl M3uParser {
    /// The lines of `content`, split at line feeds.
    pub fn lines(content: &str) -> (r: Vec<String>)
        ensures
            strings(r@) == split_lines(content@),
    {
        let n = content.unicode_len();
        let mut lines: Vec<String> = Vec::new();
        let mut start: usize = 0;
        let mut i: usize = 0;
        assert(content@.subrange(0, 0) =~= Seq::<char>::empty());
        assert(content@.subrange(0, 0) =~= content@.subrange(0, 0));
        assert(split_lines(Seq::<char>::empty()) == seq![Seq::<char>::empty()]);
        assert(strings(lines@).push(content@.subrange(0, 0)) =~= split_lines(
            content@.subrange(0, 0),
        ));
        while i < n
            invariant
                n == content@.len(),
                start <= i <= n,
                strings(lines@).push(content@.subrange(start as int, i as int)) == split_lines(
                    content@.subrange(0, i as int),
                ),
            decreases n - i,
        {
            let c = content.get_char(i);
            let ghost prefix = content@.subrange(0, i as int);
            let ghost next = content@.subrange(0, i + 1);
            assert(next.drop_last() =~= prefix);
            assert(next.last() == c);
            proof {
                lemma_split_lines_nonempty(prefix);
            }
            if c == '\n' {
                let line = substring(content, start, i);
                lines.push(line);
                assert(content@.subrange(i + 1, i + 1) =~= Seq::<char>::empty());
                assert(strings(lines@).push(content@.subrange(i + 1, i + 1)) =~= split_lines(
                    prefix,
                ).push(Seq::<char>::empty()));
                start = i + 1;
            } else {
                assert(content@.subrange(start as int, i + 1) =~= content@.subrange(
                    start as int,
                    i as int,
                ).push(c));
                assert(strings(lines@).push(content@.subrange(start as int, i + 1)) =~= split_lines(
                    prefix,
                ).update(
                    split_lines(prefix).len() - 1,
                    split_lines(prefix).last().push(c),
                ));
            }
            i = i + 1;
        }
        let last = substring(content, start, n);
        lines.push(last);
        assert(content@.subrange(0, n as int) =~= content@);
        lines
    }

    /// The track entries of a playlist's text: lines trimmed, blank and `#` lines dropped.
    pub fn entries(content: &str) -> (r: Vec<String>)
        ensures
            strings(r@) == playlist_entries(content@),
    {
        let lines = Self::lines(content);
        let mut out: Vec<String> = Vec::new();
        let mut i: usize = 0;
        assert(strings(lines@).subrange(0, 0) =~= Seq::<Seq<char>>::empty());
        while i < lines.len()
            invariant
                i <= lines@.len(),
                strings(out@) == entries_of(strings(lines@).subrange(0, i as int)),
            decreases lines@.len() - i,
        {
            let t = trim(lines[i].as_str());
            let ghost ls = strings(lines@).subrange(0, i + 1);
            assert(ls.drop_last() =~= strings(lines@).subrange(0, i as int));
            assert(ls.last() == lines@[i as int]@);
            let keep = t.unicode_len() > 0 && t.get_char(0) != '#';
            if keep {
                out.push(t);
                assert(strings(out@) =~= entries_of(ls.drop_last()).push(trimmed(ls.last())));
            }
            i = i + 1;
        }
        assert(strings(lines@).subrange(0, lines@.len() as int) =~= strings(lines@));
        out
    }

    /// `entry` resolved against the playlist's directory `dir`.
    pub fn resolve_entry(dir: &str, entry: &str) -> (r: String)
        ensures
            r@ == resolve(dir@, entry@),
    {
        let absolute = entry.unicode_len() > 0 && entry.get_char(0) == '/';
        let dn = dir.unicode_len();
        if absolute || dn == 0 {
            return String::from_str(entry);
        }
        let mut p = String::from_str(dir);
        if dir.get_char(dn - 1) != '/' {
            p.append("/");
        }
        p.append(entry);
        p
    }

    /// The paths a playlist names, resolved against its directory.
    pub fn candidates(content: &str, dir: &str) -> (r: Vec<String>)
        ensures
            strings(r@) == playlist_entries(content@).map_values(|e: Seq<char>| resolve(dir@, e)),
    {
        let entries = Self::entries(content);
        let mut out: Vec<String> = Vec::new();
        let mut i: usize = 0;
        while i < entries.len()
            invariant
                i <= entries@.len(),
                strings(entries@) == playlist_entries(content@),
                strings(out@) == strings(entries@).subrange(0, i as int).map_values(
                    |e: Seq<char>| resolve(dir@, e),
                ),
            decreases entries@.len() - i,
        {
            let p = Self::resolve_entry(dir, entries[i].as_str());
            let ghost before = strings(out@);
            out.push(p);
            assert(strings(entries@)[i as int] == entries@[i as int]@);
            assert(strings(entries@).subrange(0, i + 1) =~= strings(entries@).subrange(
                0,
                i as int,
            ).push(entries@[i as int]@));
            assert(strings(out@) =~= before.push(p@));
            assert(strings(out@) =~= strings(entries@).subrange(0, i + 1).map_values(
                |e: Seq<char>| resolve(dir@, e),
            ));
            i = i + 1;
        }
        assert(strings(entries@).subrange(0, entries@.len() as int) =~= strings(entries@));
        out
    }

    /// The candidates whose file exists (`exists[i]`, checked by the caller); an error
    /// naming the playlist when none does.
    pub fn select_existing(candidates: Vec<String>, exists: &Vec<bool>, playlist: &str) -> (r:
        Result<Vec<String>, String>)
        ensures
            r is Err <==> existing(strings(candidates@), exists@, candidates@.len() as int).len()
                == 0,
            r matches Ok(v) ==> strings(v@) == existing(
                strings(candidates@),
                exists@,
                candidates@.len() as int,
            ),
            r matches Err(m) ==> m@ == no_tracks_message(playlist@),
    {
        let mut out: Vec<String> = Vec::new();
        let mut i: usize = 0;
        while i < candidates.len()
            invariant
                i <= candidates@.len(),
                strings(out@) == existing(strings(candidates@), exists@, i as int),
            decreases candidates@.len() - i,
        {
            if i < exists.len() && exists[i] {
                out.push(candidates[i].clone());
                assert(strings(out@) =~= existing(strings(candidates@), exists@, i as int).push(
                    strings(candidates@)[i as int],
                ));
            }
            i = i + 1;
        }
        if out.len() == 0 {
            let mut m = String::from_str("No valid tracks found in M3U playlist: ");
            m.append(playlist);
            return Err(m);
        }
        Ok(out)
    }

    /// The number of existing tracks a playlist names; an error when there is none.
    pub fn validate_playlist(candidates: Vec<String>, exists: &Vec<bool>, playlist: &str) -> (r:
        Result<usize, String>)
        ensures
            r is Err <==> existing(strings(candidates@), exists@, candidates@.len() as int).len()
                == 0,
            r matches Ok(k) ==> k == existing(
                strings(candidates@),
                exists@,
                candidates@.len() as int,
            ).len(),
    {
        match Self::select_existing(candidates, exists, playlist) {
            Ok(v) => Ok(v.len()),
            Err(e) => Err(e),
        }
    }
}

} // verus!
