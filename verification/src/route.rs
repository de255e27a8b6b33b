//! Which iTunes resource an Apple Music link names.
use vstd::prelude::*;
use crate::external::{
    parse_error_text, parse_url, path_of, query_pairs_of, url_error_text, url_parses, url_path, url_query_pairs,
};
use crate::text::{chars_of, concat, is_all_digits, all_digits, same_text, string_of};

verus! {

/// The non-empty pieces of a path between its slashes, in order.
pub open spec fn segments(p: Seq<char>) -> Seq<Seq<char>>
    decreases p.len(),
{
    if p.len() == 0 {
        Seq::empty()
    } else if p.last() == '/' {
        segments(p.drop_last())
    } else if p.len() == 1 || p[p.len() - 2] == '/' {
        segments(p.drop_last()).push(seq![p.last()])
    } else {
        let s = segments(p.drop_last());
        s.update(s.len() - 1, s.last().push(p.last()))
    }
}

/// The last of the pieces that consists of digits only.
pub open spec fn last_numeric(parts: Seq<Seq<char>>) -> Option<Seq<char>>
    decreases parts.len(),
{
    if parts.len() == 0 {
        None
    } else if all_digits(parts.last()) {
        Some(parts.last())
    } else {
        last_numeric(parts.drop_last())
    }
}

/// The value of the last query pair with the given key: the one a map built from the pairs keeps.
pub open spec fn last_value(pairs: Seq<(Seq<char>, Seq<char>)>, key: Seq<char>) -> Option<Seq<char>>
    decreases pairs.len(),
{
    if pairs.len() == 0 {
        None
    } else if pairs.last().0 == key {
        Some(pairs.last().1)
    } else {
        last_value(pairs.drop_last(), key)
    }
}

/// What a link asks to fetch.
#[derive(Debug, Clone)]
pub enum Resource {
    /// A playlist page, by its full link.
    Playlist(String),
    /// One track, by its id.
    Track(String),
    /// An album, by its id.
    Album(String),
}

/// The mathematical value of a [`Resource`].
pub ghost enum ResourceView {
    Playlist(Seq<char>),
    Track(Seq<char>),
    Album(Seq<char>),
}

impl View for Resource {
    type V = ResourceView;

    open spec fn view(&self) -> ResourceView {
        match self {
            Resource::Playlist(u) => ResourceView::Playlist(u@),
            Resource::Track(i) => ResourceView::Track(i@),
            Resource::Album(i) => ResourceView::Album(i@),
        }
    }
}

/// Why a link names nothing to fetch.
#[derive(Debug, Clone)]
pub enum ResolveError {
    /// The link does not parse; the text says why.
    InvalidUrl(String),
    /// A song link without a numeric id.
    NoTrackId,
    /// An album link without a track or a numeric album id.
    NoAlbumId,
    /// A link to neither an album, a track nor a playlist.
    Unrecognized,
}

/// The mathematical value of a [`ResolveError`].
pub ghost enum ResolveErrorView {
    InvalidUrl(Seq<char>),
    NoTrackId,
    NoAlbumId,
    Unrecognized,
}

impl View for ResolveError {
    type V = ResolveErrorView;

    open spec fn view(&self) -> ResolveErrorView {
        match self {
            ResolveError::InvalidUrl(e) => ResolveErrorView::InvalidUrl(e@),
            ResolveError::NoTrackId => ResolveErrorView::NoTrackId,
            ResolveError::NoAlbumId => ResolveErrorView::NoAlbumId,
            ResolveError::Unrecognized => ResolveErrorView::Unrecognized,
        }
    }
}

/// The text of an error.
pub open spec fn error_text(e: ResolveErrorView) -> Seq<char> {
    match e {
        ResolveErrorView::InvalidUrl(why) => "Invalid URL: "@ + why,
        ResolveErrorView::NoTrackId => "No track ID found in URL"@,
        ResolveErrorView::NoAlbumId => "No album ID found in URL"@,
        ResolveErrorView::Unrecognized =>
            "Unrecognized URL — expected an Apple Music album, track, or playlist link"@,
    }
}

impl ResolveError {
    /// The text of the error, as the log shows it.
    pub fn message(&self) -> (r: String)
        ensures
            r@ == error_text(self@),
    {
        match self {
            ResolveError::InvalidUrl(why) => concat("Invalid URL: ", why.as_str()),
            ResolveError::NoTrackId => "No track ID found in URL".to_owned(),
            ResolveError::NoAlbumId => "No album ID found in URL".to_owned(),
            ResolveError::Unrecognized =>
                "Unrecognized URL — expected an Apple Music album, track, or playlist link".to_owned(),
        }
    }
}

/// What the parts of a parsed link name.
pub open spec fn resource_of(
    raw: Seq<char>,
    path: Seq<char>,
    pairs: Seq<(Seq<char>, Seq<char>)>,
) -> Result<ResourceView, ResolveErrorView> {
    let parts = segments(path);
    if parts.contains("playlist"@) {
        Ok(ResourceView::Playlist(raw))
    } else if parts.contains("song"@) || parts.contains("music-video"@) {
        match last_numeric(parts) {
            Some(id) => Ok(ResourceView::Track(id)),
            None => Err(ResolveErrorView::NoTrackId),
        }
    } else if parts.contains("album"@) {
        match last_value(pairs, "i"@) {
            Some(id) => Ok(ResourceView::Track(id)),
            None => match last_numeric(parts) {
                Some(id) => Ok(ResourceView::Album(id)),
                None => Err(ResolveErrorView::NoAlbumId),
            },
        }
    } else {
        Err(ResolveErrorView::Unrecognized)
    }
}

/// What a link names: a playlist link is fetched whole; a song or music-video link by its last
/// numeric path piece; an album link by its `i` query value as a track, else by its last
/// numeric path piece as an album.
pub open spec fn resolution(raw: Seq<char>) -> Result<ResourceView, ResolveErrorView> {
    if url_parses(raw) {
        resource_of(raw, url_path(raw), url_query_pairs(raw))
    } else {
        Err(ResolveErrorView::InvalidUrl(url_error_text(raw)))
    }
}

/// What a link names, as a value.
pub open spec fn resolved_view(r: Result<Resource, ResolveError>) -> Result<ResourceView, ResolveErrorView> {
    match r {
        Ok(x) => Ok(x@),
        Err(e) => Err(e@),
    }
}

/// The non-empty pieces of a path between its slashes.
pub fn path_segments(path: &str) -> (r: Vec<String>)
    ensures
        r.deep_view() == segments(path@),
{
    let cs = chars_of(path);
    let mut out: Vec<String> = Vec::new();
    let mut cur: Vec<char> = Vec::new();
    let mut i: usize = 0;
    while i < cs.len()
        invariant
            cs@ == path@,
            i <= cs@.len(),
            segments(cs@.take(i as int)) == (if cur@.len() > 0 { out.deep_view().push(cur@) } else { out.deep_view() }),
            cur@.len() > 0 <==> (i > 0 && cs@[i - 1] != '/'),
        decreases cs@.len() - i,
    {
        let ghost before = cs@.take(i as int);
        let ghost next = cs@.take(i + 1);
        assert(next.drop_last() =~= before);
        if cs[i] == '/' {
            if cur.len() > 0 {
                let ghost o = out.deep_view();
                out.push(string_of(&cur));
                assert(out.deep_view() =~= o.push(cur@));
                cur = Vec::new();
            }
        } else {
            let ghost c = cur@;
            cur.push(cs[i]);
            proof {
                if c.len() == 0 {
                    assert(cur@ =~= seq![cs@[i as int]]);
                } else {
                    assert(next[next.len() - 2] == cs@[i - 1]);
                }
            }
        }
        i = i + 1;
    }
    assert(cs@.take(i as int) =~= cs@);
    if cur.len() > 0 {
        let ghost o = out.deep_view();
        out.push(string_of(&cur));
        assert(out.deep_view() =~= o.push(cur@));
    }
    out
}

fn has_piece(parts: &Vec<String>, piece: &str) -> (r: bool)
    ensures
        r == parts.deep_view().contains(piece@),
{
    let mut i: usize = 0;
    while i < parts.len()
        invariant
            i <= parts@.len(),
            forall|k: int| 0 <= k < i ==> parts.deep_view()[k] != piece@,
        decreases parts@.len() - i,
    {
        if same_text(parts[i].as_str(), piece) {
            assert(parts.deep_view()[i as int] == piece@);
            return true;
        }
        i = i + 1;
    }
    false
}

fn last_numeric_piece(parts: &Vec<String>) -> (r: Option<String>)
    ensures
        r.deep_view() == last_numeric(parts.deep_view()),
{
    let mut i: usize = parts.len();
    assert(parts.deep_view().take(i as int) =~= parts.deep_view());
    while i > 0
        invariant
            i <= parts@.len(),
            last_numeric(parts.deep_view()) == last_numeric(parts.deep_view().take(i as int)),
        decreases i,
    {
        let ghost t = parts.deep_view().take(i as int);
        assert(t.last() == parts@[i - 1]@);
        assert(t.drop_last() =~= parts.deep_view().take(i - 1));
        if is_all_digits(parts[i - 1].as_str()) {
            return Some(parts[i - 1].clone());
        }
        i = i - 1;
    }
    None
}

fn last_value_of(pairs: &Vec<(String, String)>, key: &str) -> (r: Option<String>)
    ensures
        r.deep_view() == last_value(pairs.deep_view(), key@),
{
    let mut i: usize = pairs.len();
    assert(pairs.deep_view().take(i as int) =~= pairs.deep_view());
    while i > 0
        invariant
            i <= pairs@.len(),
            last_value(pairs.deep_view(), key@) == last_value(pairs.deep_view().take(i as int), key@),
        decreases i,
    {
        let ghost t = pairs.deep_view().take(i as int);
        assert(t.last() == pairs.deep_view()[i - 1]);
        assert(t.drop_last() =~= pairs.deep_view().take(i - 1));
        if same_text(pairs[i - 1].0.as_str(), key) {
            return Some(pairs[i - 1].1.clone());
        }
        i = i - 1;
    }
    None
}

/// What the parts of a parsed link name.
pub fn resource_from_parts(raw: &str, path: &str, pairs: &Vec<(String, String)>) -> (r: Result<Resource, ResolveError>)
    ensures
        resolved_view(r) == resource_of(raw@, path@, pairs.deep_view()),
{
    let parts = path_segments(path);
    if has_piece(&parts, "playlist") {
        return Ok(Resource::Playlist(raw.to_owned()));
    }
    if has_piece(&parts, "song") || has_piece(&parts, "music-video") {
        return match last_numeric_piece(&parts) {
            Some(id) => Ok(Resource::Track(id)),
            None => Err(ResolveError::NoTrackId),
        };
    }
    if has_piece(&parts, "album") {
        if let Some(id) = last_value_of(pairs, "i") {
            return Ok(Resource::Track(id));
        }
        return match last_numeric_piece(&parts) {
            Some(id) => Ok(Resource::Album(id)),
            None => Err(ResolveError::NoAlbumId),
        };
    }
    Err(ResolveError::Unrecognized)
}

/// What an Apple Music link names: the playlist, track or album to fetch, or why it names none.
pub fn resolve_url(raw_url: &str) -> (r: Result<Resource, ResolveError>)
    ensures
        resolved_view(r) == resolution(raw_url@),
{
    match parse_url(raw_url) {
        Ok(u) => resource_from_parts(raw_url, path_of(&u).as_str(), &query_pairs_of(&u)),
        Err(e) => Err(ResolveError::InvalidUrl(parse_error_text(&e))),
    }
}

} // verus!
