//! Track metadata as the iTunes lookup and search services describe it.
use vstd::prelude::*;
use crate::text::{concat, same_text};
use crate::external::{compile, regex_compiles, regex_replace_first, replace_first};
use vstd::utf8::{encode_utf8, decode_utf8, is_char_boundary};
use vstd::string::StringSliceAdditionalSpecFns;

verus! {

/// The metadata of one track.
#[derive(Debug, Clone)]
pub struct TrackData {
    pub artist: String,
    pub title: String,
    pub album: String,
    pub album_artist: String,
    pub year: String,
    pub genre: String,
    pub composer: String,
    pub copyright: String,
    pub track_number: Option<u32>,
    pub track_count: Option<u32>,
    pub disk_number: Option<u32>,
    pub disk_count: Option<u32>,
    pub duration_ms: Option<u64>,
    pub artwork_url: Option<String>,
}

/// The mathematical value of a [`TrackData`].
pub ghost struct TrackInfo {
    pub artist: Seq<char>,
    pub title: Seq<char>,
    pub album: Seq<char>,
    pub album_artist: Seq<char>,
    pub year: Seq<char>,
    pub genre: Seq<char>,
    pub composer: Seq<char>,
    pub copyright: Seq<char>,
    pub track_number: Option<u32>,
    pub track_count: Option<u32>,
    pub disk_number: Option<u32>,
    pub disk_count: Option<u32>,
    pub duration_ms: Option<u64>,
    pub artwork_url: Option<Seq<char>>,
}

impl View for TrackData {
    type V = TrackInfo;

    open spec fn view(&self) -> TrackInfo {
        TrackInfo {
            artist: self.artist@,
            title: self.title@,
            album: self.album@,
            album_artist: self.album_artist@,
            year: self.year@,
            genre: self.genre@,
            composer: self.composer@,
            copyright: self.copyright@,
            track_number: self.track_number,
            track_count: self.track_count,
            disk_number: self.disk_number,
            disk_count: self.disk_count,
            duration_ms: self.duration_ms,
            artwork_url: self.artwork_url.deep_view(),
        }
    }
}

/// A copy of an optional string.
pub fn copy_opt(o: &Option<String>) -> (r: Option<String>)
    ensures
        r.deep_view() == o.deep_view(),
{
    match o {
        Some(s) => Some(s.clone()),
        None => None,
    }
}

/// Track metadata with every text empty and every number absent.
pub open spec fn blank_info() -> TrackInfo {
    TrackInfo {
        artist: Seq::empty(),
        title: Seq::empty(),
        album: Seq::empty(),
        album_artist: Seq::empty(),
        year: Seq::empty(),
        genre: Seq::empty(),
        composer: Seq::empty(),
        copyright: Seq::empty(),
        track_number: None,
        track_count: None,
        disk_number: None,
        disk_count: None,
        duration_ms: None,
        artwork_url: None,
    }
}

impl Default for TrackData {
    fn default() -> (r: TrackData)
        ensures
            r@ == blank_info(),
    {
        TrackData {
            artist: String::new(),
            title: String::new(),
            album: String::new(),
            album_artist: String::new(),
            year: String::new(),
            genre: String::new(),
            composer: String::new(),
            copyright: String::new(),
            track_number: None,
            track_count: None,
            disk_number: None,
            disk_count: None,
            duration_ms: None,
            artwork_url: None,
        }
    }
}

impl TrackData {
    /// A copy with the same value.
    pub fn duplicate(&self) -> (r: TrackData)
        ensures
            r@ == self@,
    {
        TrackData {
            artist: self.artist.clone(),
            title: self.title.clone(),
            album: self.album.clone(),
            album_artist: self.album_artist.clone(),
            year: self.year.clone(),
            genre: self.genre.clone(),
            composer: self.composer.clone(),
            copyright: self.copyright.clone(),
            track_number: self.track_number,
            track_count: self.track_count,
            disk_number: self.disk_number,
            disk_count: self.disk_count,
            duration_ms: self.duration_ms,
            artwork_url: copy_opt(&self.artwork_url),
        }
    }
}


/// One result of the iTunes lookup or search service.
#[derive(Debug, Clone)]
pub struct ItunesItem {
    pub wrapper_type: String,
    pub artist_name: String,
    pub track_name: String,
    pub collection_name: String,
    pub collection_artist_name: Option<String>,
    pub track_number: Option<u32>,
    pub track_count: Option<u32>,
    pub disc_number: Option<u32>,
    pub disc_count: Option<u32>,
    pub release_date: Option<String>,
    pub primary_genre_name: Option<String>,
    pub composer_name: Option<String>,
    pub copyright: Option<String>,
    pub track_time_millis: Option<u64>,
    pub artwork_url100: Option<String>,
}

/// A URL component byte that is written as itself.
pub open spec fn unreserved(b: u8) -> bool {
    ||| (65 <= b && b <= 90)
    ||| (97 <= b && b <= 122)
    ||| (48 <= b && b <= 57)
    ||| b == 45 || b == 95 || b == 46 || b == 126
}

/// The upper-case hexadecimal digit of a value below sixteen.
pub open spec fn hex_digit(d: nat) -> char {
    if d < 10 { crate::text::digit_char(d) } else if d == 10 { 'A' } else if d == 11 { 'B' }
    else if d == 12 { 'C' } else if d == 13 { 'D' } else if d == 14 { 'E' } else { 'F' }
}

/// How one byte is written in a query component: as itself, `+` for a space, else `%XX`.
pub open spec fn encoded_byte(b: u8) -> Seq<char> {
    if unreserved(b) {
        seq![b as char]
    } else if b == 32 {
        seq!['+']
    } else {
        seq!['%', hex_digit((b / 16) as nat), hex_digit((b % 16) as nat)]
    }
}

/// The query-component encoding of a byte string.
pub open spec fn encoded(bs: Seq<u8>) -> Seq<char>
    decreases bs.len(),
{
    if bs.len() == 0 {
        Seq::empty()
    } else {
        encoded(bs.drop_last()) + encoded_byte(bs.last())
    }
}

fn hex(d: u8) -> (c: char)
    requires
        d < 16,
    ensures
        c == hex_digit(d as nat),
{
    if d < 10 {
        if d == 0 { '0' } else if d == 1 { '1' } else if d == 2 { '2' } else if d == 3 { '3' }
        else if d == 4 { '4' } else if d == 5 { '5' } else if d == 6 { '6' } else if d == 7 { '7' }
        else if d == 8 { '8' } else { '9' }
    } else if d == 10 { 'A' } else if d == 11 { 'B' } else if d == 12 { 'C' } else if d == 13 { 'D' }
    else if d == 14 { 'E' } else { 'F' }
}

/// Encodes text for a URL query: letters, digits and `-_.~` stay, a space becomes `+`, every
/// other byte of the UTF-8 encoding becomes `%` and two upper-case hex digits.
pub fn encode(s: &str) -> (r: String)
    ensures
        r@ == encoded(s.spec_bytes()),
{
    let bytes = s.as_bytes();
    let mut out = String::new();
    let mut i: usize = 0;
    while i < bytes.len()
        invariant
            i <= bytes@.len(),
            bytes@ == s.spec_bytes(),
            out@ == encoded(bytes@.take(i as int)),
        decreases bytes@.len() - i,
    {
        let b = bytes[i];
        if (65 <= b && b <= 90) || (97 <= b && b <= 122) || (48 <= b && b <= 57) || b == 45 || b == 95
            || b == 46 || b == 126 {
            out.push(b as char);
        } else if b == 32 {
            out.push('+');
        } else {
            out.push('%');
            out.push(hex(b / 16));
            out.push(hex(b % 16));
        }
        i = i + 1;
        assert(bytes@.take(i as int).drop_last() =~= bytes@.take(i - 1));
        assert(out@ =~= encoded(bytes@.take(i as int)));
    }
    assert(bytes@.take(i as int) =~= bytes@);
    out
}

/// The lookup URL of one track.
pub open spec fn track_lookup_url(id: Seq<char>) -> Seq<char> {
    "https://itunes.apple.com/lookup?id="@ + id
}

/// The lookup URL of an album with its songs.
pub open spec fn album_lookup_url(id: Seq<char>) -> Seq<char> {
    "https://itunes.apple.com/lookup?id="@ + id + "&entity=song"@
}

/// The search URL for the best match of an artist and a title.
pub open spec fn search_url(artist: Seq<char>, title: Seq<char>) -> Seq<char> {
    let query = artist + " "@ + title;
    "https://itunes.apple.com/search?term="@ + encoded(vstd::utf8::encode_utf8(query))
        + "&media=music&limit=1"@
}

/// The lookup URL of one track.
pub fn track_lookup(id: &str) -> (r: String)
    ensures
        r@ == track_lookup_url(id@),
{
    concat("https://itunes.apple.com/lookup?id=", id)
}

/// The lookup URL of an album with its songs.
pub fn album_lookup(id: &str) -> (r: String)
    ensures
        r@ == album_lookup_url(id@),
{
    let mut r = concat("https://itunes.apple.com/lookup?id=", id);
    r.append("&entity=song");
    r
}

/// The search URL for the best match of an artist and a title.
pub fn search(artist: &str, title: &str) -> (r: String)
    ensures
        r@ == search_url(artist@, title@),
{
    let mut query = concat(artist, " ");
    query.append(title);
    let mut r = concat("https://itunes.apple.com/search?term=", encode(query.as_str()).as_str());
    r.append("&media=music&limit=1");
    r
}

/// The text of an optional string, or nothing.
pub open spec fn or_empty(o: Option<Seq<char>>) -> Seq<char> {
    match o {
        Some(s) => s,
        None => Seq::empty(),
    }
}

fn text_or_empty(o: &Option<String>) -> (r: String)
    ensures
        r@ == or_empty(o.deep_view()),
{
    match o {
        Some(s) => s.clone(),
        None => String::new(),
    }
}

/// The year of a release date: its first four bytes, when there are four and they end on a
/// character boundary.
pub open spec fn year_of(date: Option<Seq<char>>) -> Seq<char> {
    match date {
        Some(d) => {
            let b = encode_utf8(d);
            if is_char_boundary(b, 4) {
                decode_utf8(b.take(4))
            } else {
                Seq::empty()
            }
        },
        None => Seq::empty(),
    }
}

/// The year of a release date.
pub fn release_year(date: &Option<String>) -> (r: String)
    ensures
        r@ == year_of(date.deep_view()),
{
    match date {
        Some(d) => {
            let s = d.as_str();
            if s.is_char_boundary(4) {
                let (head, _) = s.split_at(4);
                proof {
                    vstd::utf8::encode_utf8_decode_utf8(head@);
                    assert(s.spec_bytes().subrange(0, 4) =~= s.spec_bytes().take(4));
                }
                head.to_owned()
            } else {
                String::new()
            }
        },
        None => String::new(),
    }
}

/// The regular expression that finds the size part of an artwork URL.
pub open spec fn artwork_size_pattern() -> Seq<char> {
    "\\d+x\\d+bb"@
}

/// The largest artwork size.
pub open spec fn full_artwork_size() -> Seq<char> {
    "3000x3000bb"@
}

/// The artwork URL with its first size part replaced by the largest size; none should the
/// size pattern not compile.
pub open spec fn upscaled(url: Option<Seq<char>>) -> Option<Seq<char>> {
    match url {
        Some(u) => if regex_compiles(artwork_size_pattern()) {
            Some(regex_replace_first(artwork_size_pattern(), u, full_artwork_size()))
        } else {
            None
        },
        None => None,
    }
}

/// The track metadata that a service result describes, with the given artwork URL.
pub open spec fn item_info(item: ItunesItem, artwork: Option<Seq<char>>) -> TrackInfo {
    TrackInfo {
        artist: item.artist_name@,
        title: item.track_name@,
        album: item.collection_name@,
        album_artist: match item.collection_artist_name {
            Some(a) => a@,
            None => item.artist_name@,
        },
        year: year_of(item.release_date.deep_view()),
        genre: or_empty(item.primary_genre_name.deep_view()),
        composer: or_empty(item.composer_name.deep_view()),
        copyright: or_empty(item.copyright.deep_view()),
        track_number: item.track_number,
        track_count: item.track_count,
        disk_number: item.disc_number,
        disk_count: item.disc_count,
        duration_ms: item.track_time_millis,
        artwork_url: artwork,
    }
}

/// The track metadata that a service result describes, with the given artwork URL.
pub fn track_from_item(item: &ItunesItem, artwork: Option<String>) -> (r: TrackData)
    ensures
        r@ == item_info(*item, artwork.deep_view()),
{
    TrackData {
        artist: item.artist_name.clone(),
        title: item.track_name.clone(),
        album: item.collection_name.clone(),
        album_artist: match &item.collection_artist_name {
            Some(a) => a.clone(),
            None => item.artist_name.clone(),
        },
        year: release_year(&item.release_date),
        genre: text_or_empty(&item.primary_genre_name),
        composer: text_or_empty(&item.composer_name),
        copyright: text_or_empty(&item.copyright),
        track_number: item.track_number,
        track_count: item.track_count,
        disk_number: item.disc_number,
        disk_count: item.disc_count,
        duration_ms: item.track_time_millis,
        artwork_url: artwork,
    }
}

/// The track metadata that a service result describes, its artwork URL asking for the largest
/// size. Should the size pattern not compile, the track has no artwork URL.
pub fn item_to_track(item: &ItunesItem) -> (r: TrackData)
    ensures
        r@ == item_info(*item, upscaled(item.artwork_url100.deep_view())),
{
    let artwork = match &item.artwork_url100 {
        Some(u) => match compile("\\d+x\\d+bb") {
            Some(p) => Some(replace_first(&p, u.as_str(), "3000x3000bb")),
            None => None,
        },
        None => None,
    };
    track_from_item(item, artwork)
}


/// The disc and track numbers an album is ordered by, a missing number counting as zero.
pub open spec fn order_key(t: TrackInfo) -> (u32, u32) {
    (
        match t.disk_number { Some(n) => n, None => 0 },
        match t.track_number { Some(n) => n, None => 0 },
    )
}

/// Whether key `a` comes strictly before key `b`.
pub open spec fn key_before(a: (u32, u32), b: (u32, u32)) -> bool {
    a.0 < b.0 || (a.0 == b.0 && a.1 < b.1)
}

/// Whether `p` lists each of `0..n` exactly once.
pub open spec fn is_permutation(p: Seq<int>, n: nat) -> bool {
    &&& p.len() == n
    &&& forall|k: int| 0 <= k < n ==> 0 <= #[trigger] p[k] < n
    &&& forall|a: int, b: int| 0 <= a < n && 0 <= b < n && a != b ==> #[trigger] p[a] != #[trigger] p[b]
}

/// Whether `out` is `src` reordered by `p` into album order, tracks with equal keys keeping
/// their order.
pub open spec fn stably_ordered_by(src: Seq<TrackInfo>, out: Seq<TrackInfo>, p: Seq<int>) -> bool {
    &&& is_permutation(p, src.len())
    &&& out.len() == src.len()
    &&& forall|k: int| 0 <= k < out.len() ==> #[trigger] out[k] == src[p[k]]
    &&& forall|a: int, b: int|
        0 <= a < b < out.len() ==> !key_before(order_key(#[trigger] out[b]), order_key(#[trigger] out[a]))
    &&& forall|a: int, b: int|
        0 <= a < b < out.len() && order_key(#[trigger] out[a]) == order_key(#[trigger] out[b]) ==> p[a] < p[b]
}

/// Whether `out` is `src` in album order by disc and track number, as a stable sort leaves it.
pub open spec fn stably_ordered(src: Seq<TrackInfo>, out: Seq<TrackInfo>) -> bool {
    exists|p: Seq<int>| stably_ordered_by(src, out, p)
}

/// The metadata of a list of tracks, as values.
pub open spec fn infos(v: Seq<TrackData>) -> Seq<TrackInfo> {
    v.map_values(|t: TrackData| t@)
}

fn key_of(t: &TrackData) -> (r: (u32, u32))
    ensures
        r == order_key(t@),
{
    (
        match t.disk_number { Some(n) => n, None => 0 },
        match t.track_number { Some(n) => n, None => 0 },
    )
}

fn goes_before(a: (u32, u32), b: (u32, u32)) -> (r: bool)
    ensures
        r == key_before(a, b),
{
    a.0 < b.0 || (a.0 == b.0 && a.1 < b.1)
}

/// The tracks in album order by disc and then track number; tracks with equal numbers keep
/// their order.
pub fn sort_album_order(v: &Vec<TrackData>) -> (r: Vec<TrackData>)
    ensures
        stably_ordered(infos(v@), infos(r@)),
{
    let ghost src = infos(v@);
    let mut out: Vec<TrackData> = Vec::new();
    let ghost mut p: Seq<int> = Seq::empty();
    let mut i: usize = 0;
    while i < v.len()
        invariant
            i <= v@.len(),
            src == infos(v@),
            out@.len() == i,
            p.len() == i,
            forall|k: int| 0 <= k < i ==> 0 <= #[trigger] p[k] < i,
            forall|a: int, b: int| 0 <= a < i && 0 <= b < i && a != b ==> #[trigger] p[a] != #[trigger] p[b],
            forall|k: int| 0 <= k < i ==> #[trigger] out@[k]@ == src[p[k]],
            forall|a: int, b: int|
                0 <= a < b < i ==> !key_before(order_key(#[trigger] out@[b]@), order_key(#[trigger] out@[a]@)),
            forall|a: int, b: int|
                0 <= a < b < i && order_key(#[trigger] out@[a]@) == order_key(#[trigger] out@[b]@) ==> p[a] < p[b],
        decreases v@.len() - i,
    {
        let x = v[i].duplicate();
        let kx = key_of(&x);
        let mut pos: usize = 0;
        while pos < out.len() && !goes_before(kx, key_of(&out[pos]))
            invariant
                pos <= out@.len(),
                kx == order_key(x@),
                forall|q: int| 0 <= q < pos ==> !key_before(kx, order_key(#[trigger] out@[q]@)),
            decreases out@.len() - pos,
        {
            pos = pos + 1;
        }
        let ghost old_out = out@;
        let ghost old_p = p;
        assert forall|q: int| pos <= q < old_out.len() implies key_before(kx, order_key(#[trigger] old_out[q]@)) by {
            if q > pos {
                assert(!key_before(order_key(old_out[q]@), order_key(old_out[pos as int]@)));
            }
        }
        out.insert(pos, x);
        proof {
            p = old_p.insert(pos as int, i as int);
            assert forall|k: int| 0 <= k < i + 1 implies #[trigger] out@[k]@ == src[p[k]] by {
                if k < pos {
                    assert(out@[k] == old_out[k]);
                } else if k > pos {
                    assert(out@[k] == old_out[k - 1]);
                }
            }
            assert forall|a: int, b: int|
                0 <= a < b < i + 1 implies !key_before(order_key(#[trigger] out@[b]@), order_key(#[trigger] out@[a]@)) by {
                if a < pos && b < pos {
                    assert(out@[a] == old_out[a] && out@[b] == old_out[b]);
                } else if a < pos && b == pos {
                    assert(out@[a] == old_out[a]);
                } else if a < pos && b > pos {
                    assert(out@[a] == old_out[a] && out@[b] == old_out[b - 1]);
                } else if a == pos {
                    assert(out@[b] == old_out[b - 1]);
                } else {
                    assert(out@[a] == old_out[a - 1] && out@[b] == old_out[b - 1]);
                }
            }
            assert forall|a: int, b: int|
                0 <= a < b < i + 1 && order_key(#[trigger] out@[a]@) == order_key(#[trigger] out@[b]@) implies p[a] < p[b] by {
                if a < pos && b < pos {
                    assert(out@[a] == old_out[a] && out@[b] == old_out[b]);
                } else if a < pos && b == pos {
                } else if a < pos && b > pos {
                    assert(out@[a] == old_out[a] && out@[b] == old_out[b - 1]);
                } else if a == pos {
                    assert(out@[b] == old_out[b - 1]);
                } else {
                    assert(out@[a] == old_out[a - 1] && out@[b] == old_out[b - 1]);
                }
            }
            assert forall|a: int, b: int| 0 <= a < i + 1 && 0 <= b < i + 1 && a != b implies #[trigger] p[a] != #[trigger] p[b] by {
                if a != pos && b != pos {
                    let oa = if a < pos { a } else { a - 1 };
                    let ob = if b < pos { b } else { b - 1 };
                    assert(p[a] == old_p[oa] && p[b] == old_p[ob]);
                } else if a == pos {
                    let ob = if b < pos { b } else { b - 1 };
                    assert(p[b] == old_p[ob]);
                } else {
                    let oa = if a < pos { a } else { a - 1 };
                    assert(p[a] == old_p[oa]);
                }
            }
            assert forall|k: int| 0 <= k < i + 1 implies 0 <= #[trigger] p[k] < i + 1 by {
                if k < pos {
                    assert(p[k] == old_p[k]);
                } else if k > pos {
                    assert(p[k] == old_p[k - 1]);
                }
            }
        }
        i = i + 1;
    }
    assert(stably_ordered_by(src, infos(out@), p));
    out
}


/// The track metadata of a service result, its artwork asking for the largest size.
pub open spec fn item_track(item: ItunesItem) -> TrackInfo {
    item_info(item, upscaled(item.artwork_url100.deep_view()))
}

/// The track metadata of every result of a lookup, in order.
pub open spec fn lookup_infos(items: Seq<ItunesItem>) -> Seq<TrackInfo> {
    items.map_values(|it: ItunesItem| item_track(it))
}

/// The track metadata of the results of an album lookup that are tracks, in order.
pub open spec fn album_songs(items: Seq<ItunesItem>) -> Seq<TrackInfo>
    decreases items.len(),
{
    if items.len() == 0 {
        Seq::empty()
    } else {
        let rest = album_songs(items.drop_last());
        if items.last().wrapper_type@ == "track"@ {
            rest.push(item_track(items.last()))
        } else {
            rest
        }
    }
}

/// The tracks that a lookup of one track returned.
pub fn lookup_tracks(items: &Vec<ItunesItem>) -> (r: Vec<TrackData>)
    ensures
        infos(r@) == lookup_infos(items@),
{
    let mut out: Vec<TrackData> = Vec::new();
    let mut i: usize = 0;
    while i < items.len()
        invariant
            i <= items@.len(),
            infos(out@) =~= lookup_infos(items@.take(i as int)),
        decreases items@.len() - i,
    {
        out.push(item_to_track(&items[i]));
        i = i + 1;
        assert(lookup_infos(items@.take(i as int)) =~= lookup_infos(items@.take(i - 1)).push(item_track(items@[i - 1])));
    }
    assert(items@.take(i as int) =~= items@);
    out
}

/// The tracks of an album lookup: the results that are tracks, in album order by disc and track
/// number.
pub fn album_tracks(items: &Vec<ItunesItem>) -> (r: Vec<TrackData>)
    ensures
        stably_ordered(album_songs(items@), infos(r@)),
{
    let mut songs: Vec<TrackData> = Vec::new();
    let mut i: usize = 0;
    while i < items.len()
        invariant
            i <= items@.len(),
            infos(songs@) =~= album_songs(items@.take(i as int)),
        decreases items@.len() - i,
    {
        if same_text(items[i].wrapper_type.as_str(), "track") {
            songs.push(item_to_track(&items[i]));
        }
        i = i + 1;
        assert(items@.take(i as int).drop_last() =~= items@.take(i - 1));
    }
    assert(items@.take(i as int) =~= items@);
    sort_album_order(&songs)
}

/// The metadata a playlist entry gets: the first search result where the search found one,
/// else the artist, title and album the playlist page showed.
pub open spec fn searched_or(found: Option<Seq<ItunesItem>>, artist: Seq<char>, title: Seq<char>, album: Seq<char>) -> TrackInfo {
    match found {
        Some(items) if items.len() > 0 => item_track(items[0]),
        _ => TrackInfo { artist, title, album, ..blank_info() },
    }
}

/// The metadata of a playlist entry: the first search result where the search (`None` where it
/// failed) found one, else the artist, title and album the playlist page showed.
pub fn search_result_or(found: Option<Vec<ItunesItem>>, artist: String, title: String, album: String) -> (r: TrackData)
    ensures
        r@ == searched_or(
            match found { Some(v) => Some(v@), None => None },
            artist@,
            title@,
            album@,
        ),
{
    match found {
        Some(v) => {
            if v.len() > 0 {
                return item_to_track(&v[0]);
            }
        },
        None => {},
    }
    let mut t = TrackData::default();
    t.artist = artist;
    t.title = title;
    t.album = album;
    t
}

} // verus!
