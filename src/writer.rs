use vstd::prelude::*;
use crate::model::{SupportedTag, TaggerConfig, Track};
use crate::tagging::filled;
use crate::text::texts;

verus! {

/// The tag fields of one file, as read from or written to its container.
#[derive(Debug)]
pub struct FileTags {
    pub title: Option<String>,
    pub artists: Vec<String>,
    pub album: Option<String>,
    pub label: Option<String>,
    pub genres: Vec<String>,
    pub styles: Vec<String>,
    pub track_id: Option<String>,
    pub release_id: Option<String>,
    pub url: Option<String>,
    pub art: Option<String>,
    pub release_year: Option<i32>,
    pub track_total: Option<u16>,
    /// The marker that a run completed on this file.
    pub tagged: bool,
}

impl FileTags {
    /// A file with no tag at all.
    pub fn empty() -> (r: FileTags)
        ensures
            r.title is None && r.artists@.len() == 0 && r.album is None && r.label is None
                && r.genres@.len() == 0 && r.styles@.len() == 0 && r.track_id is None
                && r.release_id is None && r.url is None && r.art is None && r.release_year is None
                && r.track_total is None && !r.tagged,
    {
        FileTags {
            title: None,
            artists: Vec::new(),
            album: None,
            label: None,
            genres: Vec::new(),
            styles: Vec::new(),
            track_id: None,
            release_id: None,
            url: None,
            art: None,
            release_year: None,
            track_total: None,
            tagged: false,
        }
    }
}

/// The run writes this field.
pub open spec fn requested(config: TaggerConfig, tag: SupportedTag) -> bool {
    config.tags@.contains(tag)
}

/// A requested, non-empty new value replaces the old one where the run
/// overwrites or the old one is empty; otherwise the old one stays.
pub open spec fn put_text(req: bool, overwrite: bool, old: Option<String>, new: Option<String>) -> Option<String> {
    if req && filled(new) && (overwrite || !filled(old)) {
        new
    } else {
        old
    }
}

pub open spec fn put_list(req: bool, overwrite: bool, old: Vec<String>, new: Vec<String>) -> Vec<String> {
    if req && new@.len() > 0 && (overwrite || old@.len() == 0) {
        new
    } else {
        old
    }
}

pub open spec fn put<T>(req: bool, overwrite: bool, old: Option<T>, new: Option<T>) -> Option<T> {
    if req && new is Some && (overwrite || old is None) {
        new
    } else {
        old
    }
}

/// The old genres followed by each new genre not already there.
pub open spec fn genre_union(old: Seq<String>, new: Seq<String>) -> Seq<String>
    decreases new.len(),
{
    if new.len() == 0 {
        old
    } else {
        let prev = genre_union(old, new.drop_last());
        if texts(prev).contains(new.last()@) {
            prev
        } else {
            prev.push(new.last())
        }
    }
}

fn has_tag(tags: &Vec<SupportedTag>, t: SupportedTag) -> (r: bool)
    ensures
        r == tags@.contains(t),
{
    let mut i: usize = 0;
    while i < tags.len()
        invariant
            i <= tags@.len(),
            forall|k: int| 0 <= k < i ==> tags@[k] != t,
        decreases tags.len() - i,
    {
        if tags[i] == t {
            return true;
        }
        i = i + 1;
    }
    false
}

fn put_text_exec(req: bool, overwrite: bool, old: Option<String>, new: Option<String>) -> (r: Option<String>)
    ensures
        r == put_text(req, overwrite, old, new),
{
    let new_filled = match &new {
        Some(v) => v.unicode_len() > 0,
        None => false,
    };
    let old_filled = match &old {
        Some(v) => v.unicode_len() > 0,
        None => false,
    };
    if req && new_filled && (overwrite || !old_filled) {
        new
    } else {
        old
    }
}

fn put_list_exec(req: bool, overwrite: bool, old: Vec<String>, new: Vec<String>) -> (r: Vec<String>)
    ensures
        r == put_list(req, overwrite, old, new),
{
    if req && new.len() > 0 && (overwrite || old.len() == 0) {
        new
    } else {
        old
    }
}

fn put_exec<T>(req: bool, overwrite: bool, old: Option<T>, new: Option<T>) -> (r: Option<T>)
    ensures
        r == put(req, overwrite, old, new),
{
    if req && new.is_some() && (overwrite || old.is_none()) {
        new
    } else {
        old
    }
}

fn has_text(list: &Vec<String>, s: &String) -> (r: bool)
    ensures
        r == texts(list@).contains(s@),
{
    let mut i: usize = 0;
    while i < list.len()
        invariant
            i <= list@.len(),
            forall|k: int| 0 <= k < i ==> list@[k]@ != s@,
        decreases list.len() - i,
    {
        if list[i] == *s {
            assert(texts(list@)[i as int] == s@);
            return true;
        }
        i = i + 1;
    }
    assert forall|k: int| 0 <= k < texts(list@).len() implies texts(list@)[k] != s@ by {}
    false
}

/// The union of two genre lists (see `genre_union`).
pub fn merge_genre_lists(old: Vec<String>, new: Vec<String>) -> (r: Vec<String>)
    ensures
        r@ == genre_union(old@, new@),
{
    let ghost all_new = new@;
    let mut acc = old;
    let mut rest = new;
    let mut i: usize = 0;
    let n = rest.len();
    assert(all_new.subrange(0, 0) =~= Seq::<String>::empty());
    while rest.len() > 0
        invariant
            n == all_new.len(),
            i + rest@.len() == n,
            rest@ == all_new.subrange(i as int, n as int),
            acc@ == genre_union(old@, all_new.subrange(0, i as int)),
        decreases rest.len(),
    {
        let g = rest.remove(0);
        proof {
            let pre = all_new.subrange(0, i as int + 1);
            assert(pre.drop_last() =~= all_new.subrange(0, i as int));
            assert(pre.last() == g);
            assert(rest@ =~= all_new.subrange(i as int + 1, n as int));
        }
        if !has_text(&acc, &g) {
            acc.push(g);
        }
        i = i + 1;
    }
    assert(all_new.subrange(0, n as int) =~= all_new);
    acc
}

/// The tags of a file after writing `track` into it: each field the run
/// requests follows the overwrite rule (see `put_text`); genres are united
/// with the old ones where the run merges genres; the tagged marker is set.
pub fn write_tags(existing: FileTags, track: Track, config: &TaggerConfig) -> (r: FileTags)
    ensures
        ({
            let ow = config.overwrite;
            &&& r.title == put_text(requested(*config, SupportedTag::Title), ow, existing.title, Some(track.title))
            &&& r.artists == put_list(requested(*config, SupportedTag::Artist), ow, existing.artists, track.artists)
            &&& r.album == put_text(requested(*config, SupportedTag::Album), ow, existing.album, track.album)
            &&& r.label == put_text(requested(*config, SupportedTag::Label), ow, existing.label, track.label)
            &&& r.styles == put_list(requested(*config, SupportedTag::Style), ow, existing.styles, track.styles)
            &&& r.track_id == put_text(requested(*config, SupportedTag::TrackId), ow, existing.track_id, track.track_id)
            &&& r.release_id == put_text(requested(*config, SupportedTag::ReleaseId), ow, existing.release_id, track.release_id)
            &&& r.url == put_text(requested(*config, SupportedTag::URL), ow, existing.url, Some(track.url))
            &&& r.art == put_text(requested(*config, SupportedTag::AlbumArt), ow, existing.art, track.art)
            &&& r.release_year == put(requested(*config, SupportedTag::ReleaseDate), ow, existing.release_year, track.release_year)
            &&& r.track_total == put(requested(*config, SupportedTag::TrackTotal), ow, existing.track_total, track.track_total)
            &&& if requested(*config, SupportedTag::Genre) && config.merge_genres {
                r.genres@ == genre_union(existing.genres@, track.genres@)
            } else {
                r.genres == put_list(requested(*config, SupportedTag::Genre), ow, existing.genres, track.genres)
            }
            &&& r.tagged
        }),
{
    let ow = config.overwrite;
    let genre_req = has_tag(&config.tags, SupportedTag::Genre);
    let genres = if genre_req && config.merge_genres {
        merge_genre_lists(existing.genres, track.genres)
    } else {
        put_list_exec(genre_req, ow, existing.genres, track.genres)
    };
    FileTags {
        title: put_text_exec(has_tag(&config.tags, SupportedTag::Title), ow, existing.title, Some(track.title)),
        artists: put_list_exec(has_tag(&config.tags, SupportedTag::Artist), ow, existing.artists, track.artists),
        album: put_text_exec(has_tag(&config.tags, SupportedTag::Album), ow, existing.album, track.album),
        label: put_text_exec(has_tag(&config.tags, SupportedTag::Label), ow, existing.label, track.label),
        genres,
        styles: put_list_exec(has_tag(&config.tags, SupportedTag::Style), ow, existing.styles, track.styles),
        track_id: put_text_exec(has_tag(&config.tags, SupportedTag::TrackId), ow, existing.track_id, track.track_id),
        release_id: put_text_exec(has_tag(&config.tags, SupportedTag::ReleaseId), ow, existing.release_id, track.release_id),
        url: put_text_exec(has_tag(&config.tags, SupportedTag::URL), ow, existing.url, Some(track.url)),
        art: put_text_exec(has_tag(&config.tags, SupportedTag::AlbumArt), ow, existing.art, track.art),
        release_year: put_exec(has_tag(&config.tags, SupportedTag::ReleaseDate), ow, existing.release_year, track.release_year),
        track_total: put_exec(has_tag(&config.tags, SupportedTag::TrackTotal), ow, existing.track_total, track.track_total),
        tagged: true,
    }
}

} // verus!
