//! Properties of the text, link, list and screen helpers that hold for all inputs.
use vstd::prelude::*;
use crate::external::json_document;
use crate::route::segments;
use crate::text::{is_ws, trim_end, trim_start, trimmed};
use crate::track::{encoded, encoded_byte, unreserved};
use crate::view::{log_range, shortened};
use crate::json::{
    Entry, Json, embedded_entries, embedded_in_items, embedded_in_members, embedded_within, first_linked_data,
    text_weight,
    linked_data_entries, linked_data_in_items, listed_entries, page_entries, server_data_entries,
    server_data_in_items, server_data_in_members,
};

verus! {

proof fn lemma_trim_start_first(s: Seq<char>)
    ensures
        trim_start(s).len() > 0 ==> !is_ws(trim_start(s)[0]),
    decreases s.len(),
{
    if s.len() > 0 && is_ws(s[0]) {
        lemma_trim_start_first(s.drop_first());
    }
}

proof fn lemma_trim_end_prefix(s: Seq<char>)
    ensures
        trim_end(s).len() <= s.len(),
        trim_end(s) == s.take(trim_end(s).len() as int),
        trim_end(s).len() > 0 ==> !is_ws(trim_end(s).last()),
    decreases s.len(),
{
    if s.len() > 0 && is_ws(s.last()) {
        lemma_trim_end_prefix(s.drop_last());
        assert(s.drop_last().take(trim_end(s).len() as int) =~= s.take(trim_end(s).len() as int));
    } else {
        assert(s.take(s.len() as int) =~= s);
    }
}

/// Trimming what is already trimmed changes nothing.
pub proof fn lemma_trim_idempotent(s: Seq<char>)
    ensures
        trimmed(trimmed(s)) == trimmed(s),
{
    let u = trim_start(s);
    let t = trim_end(u);
    lemma_trim_start_first(s);
    lemma_trim_end_prefix(u);
    if t.len() > 0 {
        assert(t[0] == u[0]);
        assert(trim_start(t) == t);
        lemma_trim_end_prefix(t);
        assert(trim_end(t) == t);
    }
}

/// A shortened text has at most the allowed number of characters; a text that fits, where any
/// fit, is left as it is, and a cut one keeps its start.
pub proof fn lemma_shortened_fits(s: Seq<char>, max: nat)
    ensures
        shortened(s, max).len() <= max,
        max > 0 && s.len() <= max ==> shortened(s, max) == s,
        s.len() > max > 0 ==> shortened(s, max).take(max - 1) == s.take(max - 1)
            && shortened(s, max).last() == '…',
{
    if s.len() > max && max > 0 {
        assert(shortened(s, max).take(max - 1) =~= s.take(max - 1));
    }
}

/// The log lines on screen are a range within the log no longer than the visible height.
pub proof fn lemma_log_range_within(len: usize, visible: usize, scroll: u16)
    requires
        visible + scroll <= usize::MAX,
    ensures
        log_range(len, visible, scroll).0 <= log_range(len, visible, scroll).1 <= len,
        log_range(len, visible, scroll).1 - log_range(len, visible, scroll).0 <= visible,
{
}

/// The pieces of a path are not empty and hold no slash.
pub proof fn lemma_segments_clean(p: Seq<char>)
    ensures
        forall|i: int| 0 <= i < segments(p).len() ==> #[trigger] segments(p)[i].len() > 0
            && !segments(p)[i].contains('/'),
    decreases p.len(),
{
    if p.len() > 0 {
        lemma_segments_clean(p.drop_last());
        let s = segments(p.drop_last());
        if p.last() != '/' && !(p.len() == 1 || p[p.len() - 2] == '/') {
            assert(s.len() > 0) by {
                lemma_segments_end(p.drop_last());
            }
            assert forall|i: int| 0 <= i < segments(p).len() implies #[trigger] segments(p)[i].len() > 0
                && !segments(p)[i].contains('/') by {
                if i == s.len() - 1 {
                    let w = s.last().push(p.last());
                    assert(segments(p)[i] == w);
                    if w.contains('/') {
                        let k = choose|k: int| 0 <= k < w.len() && w[k] == '/';
                        if k < s.last().len() {
                            assert(s.last()[k] == '/');
                        }
                    }
                }
            }
        } else if p.last() != '/' {
            assert forall|i: int| 0 <= i < segments(p).len() implies #[trigger] segments(p)[i].len() > 0
                && !segments(p)[i].contains('/') by {
                if i == s.len() {
                    assert(segments(p)[i] =~= seq![p.last()]);
                }
            }
        }
    }
}

proof fn lemma_segments_end(p: Seq<char>)
    requires
        p.len() > 0,
        p.last() != '/',
    ensures
        segments(p).len() > 0,
    decreases p.len(),
{
    if !(p.len() == 1 || p[p.len() - 2] == '/') {
        lemma_segments_end(p.drop_last());
    }
}

/// A character that an encoded query component may hold.
pub open spec fn url_safe(c: char) -> bool {
    ||| ('A' <= c && c <= 'Z')
    ||| ('a' <= c && c <= 'z')
    ||| ('0' <= c && c <= '9')
    ||| c == '-' || c == '_' || c == '.' || c == '~' || c == '+' || c == '%'
}

/// An encoded query component holds only letters, digits, `-_.~`, `+` and `%`.
pub proof fn lemma_encoded_is_url_safe(bs: Seq<u8>)
    ensures
        forall|i: int| 0 <= i < encoded(bs).len() ==> url_safe(#[trigger] encoded(bs)[i]),
    decreases bs.len(),
{
    if bs.len() > 0 {
        lemma_encoded_is_url_safe(bs.drop_last());
        let b = bs.last();
        let e = encoded_byte(b);
        assert forall|i: int| 0 <= i < e.len() implies url_safe(#[trigger] e[i]) by {
            if unreserved(b) {
                assert(e[i] == b as char);
            } else if b != 32 && i > 0 {
                let d = if i == 1 { (b / 16) as nat } else { (b % 16) as nat };
                assert(d < 16);
            }
        }
        let a = encoded(bs.drop_last());
        assert forall|i: int| 0 <= i < encoded(bs).len() implies url_safe(#[trigger] encoded(bs)[i]) by {
            if i < a.len() {
                assert(encoded(bs)[i] == a[i]);
            } else {
                assert(encoded(bs)[i] == e[i - a.len()]);
            }
        }
    }
}


/// Every entry has a title.
pub open spec fn all_titled(es: Seq<Entry>) -> bool {
    forall|i: int| 0 <= i < es.len() ==> (#[trigger] es[i]).1.len() > 0
}

/// Every entry has an artist and a title.
pub open spec fn all_named(es: Seq<Entry>) -> bool {
    forall|i: int| 0 <= i < es.len() ==> (#[trigger] es[i]).0.len() > 0 && es[i].1.len() > 0
}

proof fn lemma_named_concat(a: Seq<Entry>, b: Seq<Entry>)
    requires
        all_named(a),
        all_named(b),
    ensures
        all_named(a + b),
{
    assert forall|i: int| 0 <= i < (a + b).len() implies (#[trigger] (a + b)[i]).0.len() > 0 && (a + b)[i].1.len() > 0 by {
        if i < a.len() {
            assert((a + b)[i] == a[i]);
        } else {
            assert((a + b)[i] == b[i - a.len()]);
        }
    }
}

proof fn lemma_titled_concat(a: Seq<Entry>, b: Seq<Entry>)
    requires
        all_titled(a),
        all_titled(b),
    ensures
        all_titled(a + b),
{
    assert forall|i: int| 0 <= i < (a + b).len() implies (#[trigger] (a + b)[i]).1.len() > 0 by {
        if i < a.len() {
            assert((a + b)[i] == a[i]);
        } else {
            assert((a + b)[i] == b[i - a.len()]);
        }
    }
}

/// Every entry found in server data has an artist and a title.
pub proof fn lemma_server_data_entries_named(v: Json)
    ensures
        all_named(server_data_entries(v)),
    decreases v,
{
    match v {
        Json::Object(es) => {
            if crate::json::song_entry(es@) is None {
                lemma_server_members_named(es@);
            }
        },
        Json::Array(items) => lemma_server_items_named(items@),
        _ => {},
    }
}

proof fn lemma_server_members_named(es: Seq<(String, Json)>)
    ensures
        all_named(server_data_in_members(es)),
    decreases es,
{
    if es.len() > 0 {
        lemma_server_members_named(es.drop_last());
        lemma_server_data_entries_named(es.last().1);
        lemma_named_concat(server_data_in_members(es.drop_last()), server_data_entries(es.last().1));
    }
}

proof fn lemma_server_items_named(items: Seq<Json>)
    ensures
        all_named(server_data_in_items(items)),
    decreases items,
{
    if items.len() > 0 {
        lemma_server_items_named(items.drop_last());
        lemma_server_data_entries_named(items.last());
        lemma_named_concat(server_data_in_items(items.drop_last()), server_data_entries(items.last()));
    }
}

/// Every entry found in the media cache has an artist and a title.
pub proof fn lemma_embedded_entries_named(v: Json)
    ensures
        all_named(embedded_entries(v)),
{
    lemma_embedded_within_named(v, text_weight(v) + 1);
}

proof fn lemma_embedded_within_named(v: Json, bound: nat)
    ensures
        all_named(embedded_within(v, bound)),
    decreases bound, v,
{
    match v {
        Json::Object(es) => {
            if crate::json::attributes_entry(es@) is None {
                lemma_embedded_members_named(es@, bound);
            }
        },
        Json::Array(items) => lemma_embedded_items_named(items@, bound),
        _ => {},
    }
}

proof fn lemma_embedded_members_named(es: Seq<(String, Json)>, bound: nat)
    ensures
        all_named(embedded_in_members(es, bound)),
    decreases bound, es,
{
    if es.len() > 0 {
        lemma_embedded_members_named(es.drop_last(), bound);
        match es.last().1 {
            Json::Str(t) => match json_document(t@) {
                Some(d) => if text_weight(d) < t@.len() && t@.len() < bound {
                    lemma_embedded_within_named(d, text_weight(d) + 1);
                },
                None => {},
            },
            other => lemma_embedded_within_named(other, bound),
        }
        let part = match es.last().1 {
            Json::Str(t) => match json_document(t@) {
                Some(d) => if text_weight(d) < t@.len() && t@.len() < bound {
                    embedded_within(d, text_weight(d) + 1)
                } else {
                    Seq::empty()
                },
                None => Seq::empty(),
            },
            other => embedded_within(other, bound),
        };
        lemma_named_concat(embedded_in_members(es.drop_last(), bound), part);
    }
}

proof fn lemma_embedded_items_named(items: Seq<Json>, bound: nat)
    ensures
        all_named(embedded_in_items(items, bound)),
    decreases bound, items,
{
    if items.len() > 0 {
        lemma_embedded_items_named(items.drop_last(), bound);
        lemma_embedded_within_named(items.last(), bound);
        lemma_named_concat(embedded_in_items(items.drop_last(), bound), embedded_within(items.last(), bound));
    }
}

proof fn lemma_listed_titled(items: Seq<Json>, album: Seq<char>)
    ensures
        all_titled(listed_entries(items, album)),
    decreases items.len(),
{
    if items.len() > 0 {
        lemma_listed_titled(items.drop_last(), album);
    }
}

/// Every entry found in linked data has a title.
pub proof fn lemma_linked_data_entries_titled(v: Json)
    ensures
        all_titled(linked_data_entries(v)),
    decreases v,
{
    match v {
        Json::Array(items) => lemma_linked_items_titled(items@),
        Json::Object(es) => {
            match crate::json::member(es@, "track"@) {
                Some(Json::Array(items)) => lemma_listed_titled(items@, crate::json::text_or_empty(crate::json::member(es@, "name"@))),
                _ => {},
            }
        },
        _ => {},
    }
}

proof fn lemma_linked_items_titled(items: Seq<Json>)
    ensures
        all_titled(linked_data_in_items(items)),
    decreases items,
{
    if items.len() > 0 {
        lemma_linked_items_titled(items.drop_last());
        lemma_linked_data_entries_titled(items.last());
        lemma_titled_concat(linked_data_in_items(items.drop_last()), linked_data_entries(items.last()));
    }
}

proof fn lemma_first_linked_titled(docs: Seq<Option<Json>>)
    ensures
        all_titled(first_linked_data(docs)),
    decreases docs.len(),
{
    if docs.len() > 0 {
        match docs[0] {
            Some(d) => lemma_linked_data_entries_titled(d),
            None => {},
        }
        lemma_first_linked_titled(docs.drop_first());
    }
}

/// Every entry a playlist page yields has a title, whichever of its documents it came from.
pub proof fn lemma_page_entries_titled(server: Option<Json>, linked: Seq<Option<Json>>, cache: Option<Json>)
    ensures
        all_titled(page_entries(server, linked, cache)),
{
    match server {
        Some(d) => lemma_server_data_entries_named(d),
        None => {},
    }
    lemma_first_linked_titled(linked);
    match cache {
        Some(d) => lemma_embedded_entries_named(d),
        None => {},
    }
}

} // verus!

verus! {

/// Encoding two byte strings one after the other gives the encodings one after the other.
pub proof fn lemma_encoded_concat(x: Seq<u8>, y: Seq<u8>)
    ensures
        encoded(x + y) == encoded(x) + encoded(y),
    decreases y.len(),
{
    if y.len() == 0 {
        assert(x + y =~= x);
        assert(encoded(x) + encoded(y) =~= encoded(x));
    } else {
        lemma_encoded_concat(x, y.drop_last());
        assert((x + y).drop_last() =~= x + y.drop_last());
        assert((x + y).last() == y.last());
        assert(encoded(x + y) =~= encoded(x) + encoded(y));
    }
}

proof fn lemma_utf8_concat(a: Seq<char>, b: Seq<char>)
    ensures
        vstd::utf8::encode_utf8(a + b) == vstd::utf8::encode_utf8(a) + vstd::utf8::encode_utf8(b),
    decreases a.len(),
{
    if a.len() == 0 {
        assert(a + b =~= b);
        assert(vstd::utf8::encode_utf8(a) + vstd::utf8::encode_utf8(b) =~= vstd::utf8::encode_utf8(b));
    } else {
        lemma_utf8_concat(a.drop_first(), b);
        assert((a + b).drop_first() =~= a.drop_first() + b);
        assert((a + b)[0] == a[0]);
        assert(vstd::utf8::encode_utf8(a + b) =~= vstd::utf8::encode_utf8(a) + vstd::utf8::encode_utf8(b));
    }
}

/// Encoding text that is two texts one after the other gives their encodings one after the
/// other: `encode(a + b) == encode(a) + encode(b)`.
pub proof fn lemma_encode_text_concat(a: Seq<char>, b: Seq<char>)
    ensures
        encoded(vstd::utf8::encode_utf8(a + b)) == encoded(vstd::utf8::encode_utf8(a)) + encoded(
            vstd::utf8::encode_utf8(b),
        ),
{
    lemma_utf8_concat(a, b);
    lemma_encoded_concat(vstd::utf8::encode_utf8(a), vstd::utf8::encode_utf8(b));
}

/// Each byte encodes as itself where it is a letter, a digit or one of `-_.~`, as `+` where it is
/// a space, and as three characters otherwise.
pub proof fn lemma_encoded_byte_length(b: u8)
    ensures
        encoded_byte(b).len() == (if unreserved(b) || b == 32 { 1nat } else { 3nat }),
        unreserved(b) ==> encoded_byte(b) == seq![b as char],
        b == 32 ==> encoded_byte(b) == seq!['+'],
{
}

} // verus!

verus! {

/// Whether piece `k` is the last of the pieces that consists of digits only.
pub open spec fn is_last_numeric_at(parts: Seq<Seq<char>>, k: int) -> bool {
    &&& 0 <= k < parts.len()
    &&& crate::text::all_digits(parts[k])
    &&& forall|j: int| k < j < parts.len() ==> !crate::text::all_digits(#[trigger] parts[j])
}

/// The id a link's path gives is its last all-digit piece: where some piece is all digits, it
/// is the piece after which no piece is all digits; where none is, there is no id.
pub proof fn lemma_last_numeric_is_the_last_digit_piece(parts: Seq<Seq<char>>)
    ensures
        match crate::route::last_numeric(parts) {
            Some(id) => exists|k: int| is_last_numeric_at(parts, k) && parts[k] == id,
            None => forall|j: int| 0 <= j < parts.len() ==> !crate::text::all_digits(#[trigger] parts[j]),
        },
    decreases parts.len(),
{
    if parts.len() > 0 {
        let k = parts.len() - 1;
        if crate::text::all_digits(parts.last()) {
            assert(is_last_numeric_at(parts, k));
        } else {
            let rest = parts.drop_last();
            lemma_last_numeric_is_the_last_digit_piece(rest);
            match crate::route::last_numeric(rest) {
                Some(id) => {
                    let m = choose|m: int| is_last_numeric_at(rest, m) && rest[m] == id;
                    assert forall|j: int| m < j < parts.len() implies !crate::text::all_digits(#[trigger] parts[j]) by {
                        if j < k {
                            assert(rest[j] == parts[j]);
                        }
                    }
                    assert(is_last_numeric_at(parts, m) && parts[m] == id);
                },
                None => {
                    assert forall|j: int| 0 <= j < parts.len() implies !crate::text::all_digits(#[trigger] parts[j]) by {
                        if j < k {
                            assert(rest[j] == parts[j]);
                        }
                    }
                },
            }
        }
    }
}

/// A song or music-video link names the track whose id is the last all-digit piece of its path,
/// and an album link without an `i` query value the album whose id is that piece (so in
/// `/us/album/21/420075073` the id is `420075073`, not the title `21`).
pub proof fn lemma_link_id_is_last_digit_piece(
    raw: Seq<char>,
    path: Seq<char>,
    pairs: Seq<(Seq<char>, Seq<char>)>,
)
    ensures
        ({
            let parts = segments(path);
            let r = crate::route::resource_of(raw, path, pairs);
            &&& match r {
                Ok(crate::route::ResourceView::Track(id)) => !parts.contains("album"@) ==> exists|k: int|
                    is_last_numeric_at(parts, k) && parts[k] == id,
                Ok(crate::route::ResourceView::Album(id)) => exists|k: int|
                    is_last_numeric_at(parts, k) && parts[k] == id,
                _ => true,
            }
            &&& ((parts.contains("song"@) || parts.contains("music-video"@)) && !parts.contains("playlist"@)
                ==> (r is Ok <==> exists|k: int| 0 <= k < parts.len() && crate::text::all_digits(#[trigger] parts[k])))
        }),
{
    let parts = segments(path);
    lemma_last_numeric_is_the_last_digit_piece(parts);
    if crate::route::last_numeric(parts) is Some {
        let id = crate::route::last_numeric(parts)->0;
        let k = choose|k: int| is_last_numeric_at(parts, k) && parts[k] == id;
        assert(0 <= k < parts.len() && crate::text::all_digits(parts[k]));
    }
}

} // verus!

verus! {

/// A page whose server data yields entries gives exactly those, whatever its linked-data and
/// media-cache documents hold; otherwise the entries of the first linked-data document that
/// yields any; otherwise those of the media cache.
pub proof fn lemma_page_prefers_server_data(server: Option<Json>, linked: Seq<Option<Json>>, cache: Option<Json>)
    ensures
        match server {
            Some(d) => server_data_entries(d).len() > 0 ==> page_entries(server, linked, cache)
                == server_data_entries(d),
            None => true,
        },
        !(server matches Some(d) && server_data_entries(d).len() > 0) ==> forall|k: int|
            0 <= k < linked.len() && (linked[k] matches Some(d) && linked_data_entries(d).len() > 0)
                && (forall|j: int| 0 <= j < k ==> !((#[trigger] linked[j]) matches Some(e) && linked_data_entries(e).len() > 0))
                ==> page_entries(server, linked, cache) == linked_data_entries(linked[k]->0),
        !(server matches Some(d) && server_data_entries(d).len() > 0) && (forall|j: int|
            0 <= j < linked.len() ==> !((#[trigger] linked[j]) matches Some(e) && linked_data_entries(e).len() > 0))
            ==> page_entries(server, linked, cache) == (match cache {
                Some(d) => embedded_entries(d),
                None => Seq::empty(),
            }),
{
    lemma_first_linked_data_is_first(linked);
}

proof fn lemma_first_linked_data_is_first(linked: Seq<Option<Json>>)
    ensures
        forall|k: int|
            0 <= k < linked.len() && (linked[k] matches Some(d) && linked_data_entries(d).len() > 0)
                && (forall|j: int| 0 <= j < k ==> !((#[trigger] linked[j]) matches Some(e) && linked_data_entries(e).len() > 0))
                ==> first_linked_data(linked) == linked_data_entries(linked[k]->0),
        (forall|j: int| 0 <= j < linked.len() ==> !((#[trigger] linked[j]) matches Some(e) && linked_data_entries(e).len() > 0))
            ==> first_linked_data(linked).len() == 0,
    decreases linked.len(),
{
    if linked.len() > 0 {
        let rest = linked.drop_first();
        lemma_first_linked_data_is_first(rest);
        assert forall|k: int|
            0 <= k < linked.len() && (linked[k] matches Some(d) && linked_data_entries(d).len() > 0)
                && (forall|j: int| 0 <= j < k ==> !((#[trigger] linked[j]) matches Some(e) && linked_data_entries(e).len() > 0))
            implies first_linked_data(linked) == linked_data_entries(linked[k]->0) by {
            if k > 0 {
                assert(!(linked[0] matches Some(e) && linked_data_entries(e).len() > 0));
                assert(rest[k - 1] == linked[k]);
                assert forall|j: int| 0 <= j < k - 1 implies !((#[trigger] rest[j]) matches Some(e) && linked_data_entries(e).len() > 0) by {
                    assert(rest[j] == linked[j + 1]);
                }
            }
        }
        if forall|j: int| 0 <= j < linked.len() ==> !((#[trigger] linked[j]) matches Some(e) && linked_data_entries(e).len() > 0) {
            assert(!(linked[0] matches Some(e) && linked_data_entries(e).len() > 0));
            assert forall|j: int| 0 <= j < rest.len() implies !((#[trigger] rest[j]) matches Some(e) && linked_data_entries(e).len() > 0) by {
                assert(rest[j] == linked[j + 1]);
            }
        }
    }
}

} // verus!

verus! {

/// A service result's metadata carries the result's own fields: artist, title and album by
/// name, album artist where given (else the artist), composer and copyright where given, and
/// its track number, track count, disc number, disc count and duration unchanged.
pub proof fn lemma_item_fields_carried(item: crate::track::ItunesItem, artwork: Option<Seq<char>>)
    ensures
        ({
            let t = crate::track::item_info(item, artwork);
            &&& t.artist == item.artist_name@
            &&& t.title == item.track_name@
            &&& t.album == item.collection_name@
            &&& (item.collection_artist_name matches Some(a) ==> t.album_artist == a@)
            &&& (item.collection_artist_name is None ==> t.album_artist == item.artist_name@)
            &&& (item.composer_name matches Some(c) ==> t.composer == c@)
            &&& (item.copyright matches Some(c) ==> t.copyright == c@)
            &&& t.track_number == item.track_number
            &&& t.track_count == item.track_count
            &&& t.disk_number == item.disc_number
            &&& t.disk_count == item.disc_count
            &&& t.duration_ms == item.track_time_millis
            &&& t.artwork_url == artwork
        }),
{
}

} // verus!

verus! {

/// A track's tag gets an album-artist frame holding the album artist exactly when there is one,
/// a composer frame holding the composer exactly when there is one, and a copyright frame
/// holding the copyright exactly when there is one, each whatever the others are; it gets no
/// other frame, and the frames come album artist, composer, copyright.
pub proof fn lemma_text_frames_each_present(d: crate::track::TrackInfo)
    ensures
        ({
            let f = crate::download::text_frames_of(d);
            &&& f.contains(("TPE2"@, d.album_artist)) <==> d.album_artist.len() > 0
            &&& f.contains(("TCOM"@, d.composer)) <==> d.composer.len() > 0
            &&& f.contains(("TCOP"@, d.copyright)) <==> d.copyright.len() > 0
            &&& f.len() == (if d.album_artist.len() > 0 { 1int } else { 0int }) + (if d.composer.len() > 0 {
                1int
            } else {
                0int
            }) + (if d.copyright.len() > 0 { 1int } else { 0int })
            &&& forall|i: int, j: int|
                0 <= i < j < f.len() ==> frame_rank((#[trigger] f[i]).0) < frame_rank((#[trigger] f[j]).0)
        }),
{
    reveal_strlit("TPE2");
    reveal_strlit("TCOM");
    reveal_strlit("TCOP");
    let f = crate::download::text_frames_of(d);
    let p = ("TPE2"@, d.album_artist);
    let c = ("TCOM"@, d.composer);
    let q = ("TCOP"@, d.copyright);
    assert(p.0 != c.0 && p.0 != q.0 && c.0 != q.0) by {
        assert(p.0[1] != c.0[1]);
        assert(p.0[1] != q.0[1]);
        assert(c.0[3] != q.0[3]);
    }
    if d.album_artist.len() > 0 {
        assert(f[0] == p);
    }
    if f.contains(p) {
        let i = choose|i: int| 0 <= i < f.len() && f[i] == p;
        assert(d.album_artist.len() > 0);
    }
    if d.composer.len() > 0 {
        let i = if d.album_artist.len() > 0 { 1int } else { 0int };
        assert(f[i] == c);
    }
    if f.contains(c) {
        let i = choose|i: int| 0 <= i < f.len() && f[i] == c;
        assert(d.composer.len() > 0);
    }
    if d.copyright.len() > 0 {
        let i = f.len() - 1;
        assert(f[i] == q);
    }
    if f.contains(q) {
        let i = choose|i: int| 0 <= i < f.len() && f[i] == q;
        assert(d.copyright.len() > 0);
    }
}

/// The place of a frame kind in a tag: album artist, then composer, then copyright.
pub open spec fn frame_rank(id: Seq<char>) -> int {
    if id == "TPE2"@ { 0 } else if id == "TCOM"@ { 1 } else { 2 }
}

} // verus!

verus! {

/// In album order every track on a lower disc comes before every track on a higher disc, and
/// on one disc the track numbers never go down, however large they are (a missing number
/// counting as zero); the order holds the same tracks.
pub proof fn lemma_album_order_by_disc_then_track(src: Seq<crate::track::TrackInfo>, out: Seq<crate::track::TrackInfo>)
    requires
        crate::track::stably_ordered(src, out),
    ensures
        out.len() == src.len(),
        forall|a: int, b: int| 0 <= a < b < out.len() ==> disc_of(#[trigger] out[a]) <= disc_of(#[trigger] out[b]),
        forall|a: int, b: int|
            0 <= a < b < out.len() && disc_of(#[trigger] out[a]) == disc_of(#[trigger] out[b]) ==> track_of(out[a])
                <= track_of(out[b]),
{
    let p = choose|p: Seq<int>| crate::track::stably_ordered_by(src, out, p);
    assert forall|a: int, b: int| 0 <= a < b < out.len() implies disc_of(#[trigger] out[a]) <= disc_of(#[trigger] out[b]) by {
        assert(!crate::track::key_before(crate::track::order_key(out[b]), crate::track::order_key(out[a])));
    }
    assert forall|a: int, b: int|
        0 <= a < b < out.len() && disc_of(#[trigger] out[a]) == disc_of(#[trigger] out[b]) implies track_of(out[a])
            <= track_of(out[b]) by {
        assert(!crate::track::key_before(crate::track::order_key(out[b]), crate::track::order_key(out[a])));
    }
}

/// A track's disc number, zero where it has none.
pub open spec fn disc_of(t: crate::track::TrackInfo) -> int {
    match t.disk_number {
        Some(n) => n as int,
        None => 0,
    }
}

/// A track's number on its disc, zero where it has none.
pub open spec fn track_of(t: crate::track::TrackInfo) -> int {
    match t.track_number {
        Some(n) => n as int,
        None => 0,
    }
}

} // verus!
