//! Finding a playlist's tracks in the JSON documents that its web page embeds.
use vstd::prelude::*;
use crate::text::same_text;
use crate::external::{compile, group_matches, json_document, parse_document, regex_compiles, regex_group_matches};

verus! {

/// A JSON document.
#[derive(Debug)]
pub enum Json {
    Null,
    Bool(bool),
    /// A number, by its text.
    Number(String),
    Str(String),
    Array(Vec<Json>),
    /// An object's members in their order.
    Object(Vec<(String, Json)>),
}

/// An entry of a playlist: artist, title and album.
pub type Entry = (Seq<char>, Seq<char>, Seq<char>);

/// The value of the first member with the given key.
pub open spec fn member(es: Seq<(String, Json)>, key: Seq<char>) -> Option<Json>
    decreases es.len(),
{
    if es.len() == 0 {
        None
    } else if es[0].0@ == key {
        Some(es[0].1)
    } else {
        member(es.drop_first(), key)
    }
}

/// A member of a document that is an object, looked up by key.
pub open spec fn field(v: Option<Json>, key: Seq<char>) -> Option<Json> {
    match v {
        Some(Json::Object(es)) => member(es@, key),
        _ => None,
    }
}

/// The text of a document that is a string, or nothing.
pub open spec fn text_or_empty(v: Option<Json>) -> Seq<char> {
    match v {
        Some(Json::Str(s)) => s@,
        _ => Seq::empty(),
    }
}

/// The album a song object names: the title of its first tertiary link.
pub open spec fn song_album(es: Seq<(String, Json)>) -> Seq<char> {
    match member(es, "tertiaryLinks"@) {
        Some(Json::Array(links)) => if links@.len() > 0 {
            text_or_empty(field(Some(links@[0]), "title"@))
        } else {
            Seq::empty()
        },
        _ => Seq::empty(),
    }
}

/// The entry a song object of the page's server data describes, where it is a song with an
/// artist and a title.
pub open spec fn song_entry(es: Seq<(String, Json)>) -> Option<Entry> {
    let kind = field(member(es, "contentDescriptor"@), "kind"@);
    let title = text_or_empty(member(es, "title"@));
    let artist = text_or_empty(member(es, "artistName"@));
    if (kind matches Some(Json::Str(k)) && k@ == "song"@) && title.len() > 0 && artist.len() > 0 {
        Some((artist, title, song_album(es)))
    } else {
        None
    }
}

/// The entries in the page's server data: a song object gives its own entry, any other object
/// or array those of its values in order.
pub open spec fn server_data_entries(v: Json) -> Seq<Entry>
    decreases v,
{
    match v {
        Json::Object(es) => match song_entry(es@) {
            Some(e) => seq![e],
            None => server_data_in_members(es@),
        },
        Json::Array(items) => server_data_in_items(items@),
        _ => Seq::empty(),
    }
}

/// The server-data entries in the values of an object's members, in order.
pub open spec fn server_data_in_members(es: Seq<(String, Json)>) -> Seq<Entry>
    decreases es,
{
    if es.len() == 0 {
        Seq::empty()
    } else {
        server_data_in_members(es.drop_last()) + server_data_entries(es.last().1)
    }
}

/// The server-data entries in the values of an array, in order.
pub open spec fn server_data_in_items(items: Seq<Json>) -> Seq<Entry>
    decreases items,
{
    if items.len() == 0 {
        Seq::empty()
    } else {
        server_data_in_items(items.drop_last()) + server_data_entries(items.last())
    }
}



/// The entry an item of a linked-data track list describes, where it has a title.
pub open spec fn listed_entry(it: Json, album: Seq<char>) -> Option<Entry> {
    let title = text_or_empty(field(Some(it), "name"@));
    let artist = match field(Some(it), "byArtist"@) {
        Some(Json::Object(a)) => text_or_empty(member(a@, "name"@)),
        Some(Json::Str(s)) => s@,
        _ => Seq::empty(),
    };
    if title.len() > 0 {
        Some((artist, title, album))
    } else {
        None
    }
}

/// The entries of a linked-data track list, in order.
pub open spec fn listed_entries(items: Seq<Json>, album: Seq<char>) -> Seq<Entry>
    decreases items.len(),
{
    if items.len() == 0 {
        Seq::empty()
    } else {
        let rest = listed_entries(items.drop_last(), album);
        match listed_entry(items.last(), album) {
            Some(e) => rest.push(e),
            None => rest,
        }
    }
}

/// The entries in a linked-data document: those of the track list of a playlist or album
/// object, or of the documents of an array in order.
pub open spec fn linked_data_entries(v: Json) -> Seq<Entry>
    decreases v,
{
    match v {
        Json::Array(items) => linked_data_in_items(items@),
        Json::Object(es) => {
            let t = text_or_empty(member(es@, "@type"@));
            if t == "MusicPlaylist"@ || t == "MusicAlbum"@ {
                match member(es@, "track"@) {
                    Some(Json::Array(items)) => listed_entries(items@, text_or_empty(member(es@, "name"@))),
                    _ => Seq::empty(),
                }
            } else {
                Seq::empty()
            }
        },
        _ => Seq::empty(),
    }
}

/// The linked-data entries in the documents of an array, in order.
pub open spec fn linked_data_in_items(items: Seq<Json>) -> Seq<Entry>
    decreases items,
{
    if items.len() == 0 {
        Seq::empty()
    } else {
        linked_data_in_items(items.drop_last()) + linked_data_entries(items.last())
    }
}

/// The entry an object's `attributes` member describes, where it has an artist and a name.
pub open spec fn attributes_entry(es: Seq<(String, Json)>) -> Option<Entry> {
    match member(es, "attributes"@) {
        Some(Json::Object(attrs)) => {
            let artist = text_or_empty(member(attrs@, "artistName"@));
            let title = text_or_empty(member(attrs@, "name"@));
            let album = text_or_empty(member(attrs@, "albumName"@));
            if artist.len() > 0 && title.len() > 0 {
                Some((artist, title, album))
            } else {
                None
            }
        },
        _ => None,
    }
}

/// How many characters the strings of a document hold in all.
pub open spec fn text_weight(v: Json) -> nat
    decreases v,
{
    match v {
        Json::Str(s) => s@.len(),
        Json::Array(items) => items_weight(items@),
        Json::Object(es) => members_weight(es@),
        _ => 0,
    }
}

/// How many characters the strings of the values of an array hold in all.
pub open spec fn items_weight(items: Seq<Json>) -> nat
    decreases items,
{
    if items.len() == 0 {
        0
    } else {
        items_weight(items.drop_last()) + text_weight(items.last())
    }
}

/// How many characters the strings of the values of an object's members hold in all.
pub open spec fn members_weight(es: Seq<(String, Json)>) -> nat
    decreases es,
{
    if es.len() == 0 {
        0
    } else {
        members_weight(es.drop_last()) + text_weight(es.last().1)
    }
}

/// The entries in the page's media cache: an object whose attributes name an artist and a
/// title gives that entry; any other object those of its members in order, a string member
/// those of the document its text parses as; an array those of its values in order.
pub open spec fn embedded_entries(v: Json) -> Seq<Entry> {
    embedded_within(v, text_weight(v) + 1)
}

/// The media-cache entries of a document whose every string is shorter than `bound`.
pub open spec fn embedded_within(v: Json, bound: nat) -> Seq<Entry>
    decreases bound, v,
{
    match v {
        Json::Object(es) => match attributes_entry(es@) {
            Some(e) => seq![e],
            None => embedded_in_members(es@, bound),
        },
        Json::Array(items) => embedded_in_items(items@, bound),
        _ => Seq::empty(),
    }
}

/// The media-cache entries in an object's members, in order: a string member gives those of
/// the document its text parses as, if it parses.
pub open spec fn embedded_in_members(es: Seq<(String, Json)>, bound: nat) -> Seq<Entry>
    decreases bound, es,
{
    if es.len() == 0 {
        Seq::empty()
    } else {
        embedded_in_members(es.drop_last(), bound) + match es.last().1 {
            Json::Str(s) => match json_document(s@) {
                Some(d) => if text_weight(d) < s@.len() && s@.len() < bound {
                    embedded_within(d, text_weight(d) + 1)
                } else {
                    Seq::empty()
                },
                None => Seq::empty(),
            },
            other => embedded_within(other, bound),
        }
    }
}

/// The media-cache entries in the values of an array, in order.
pub open spec fn embedded_in_items(items: Seq<Json>, bound: nat) -> Seq<Entry>
    decreases bound, items,
{
    if items.len() == 0 {
        Seq::empty()
    } else {
        embedded_in_items(items.drop_last(), bound) + embedded_within(items.last(), bound)
    }
}

/// The entries of the first linked-data document that has any.
pub open spec fn first_linked_data(docs: Seq<Option<Json>>) -> Seq<Entry>
    decreases docs.len(),
{
    if docs.len() == 0 {
        Seq::empty()
    } else {
        let e = match docs[0] {
            Some(d) => linked_data_entries(d),
            None => Seq::empty(),
        };
        if e.len() > 0 {
            e
        } else {
            first_linked_data(docs.drop_first())
        }
    }
}

/// The entries of a playlist page: those of its server data where it has any, else those of
/// the first linked-data document that has any, else those of its media cache. A `None` stands
/// for a document that is missing or does not parse.
pub open spec fn page_entries(server: Option<Json>, linked: Seq<Option<Json>>, cache: Option<Json>) -> Seq<Entry> {
    let a = match server {
        Some(d) => server_data_entries(d),
        None => Seq::empty(),
    };
    if a.len() > 0 {
        a
    } else {
        let b = first_linked_data(linked);
        if b.len() > 0 {
            b
        } else {
            match cache {
                Some(d) => embedded_entries(d),
                None => Seq::empty(),
            }
        }
    }
}

/// An optional reference to a document, as an optional document.
pub open spec fn deref_opt(o: Option<&Json>) -> Option<Json> {
    match o {
        Some(v) => Some(*v),
        None => None,
    }
}

/// The value of the first member with the given key.
pub fn member_of<'a>(es: &'a Vec<(String, Json)>, key: &str) -> (r: Option<&'a Json>)
    ensures
        deref_opt(r) == member(es@, key@),
{
    let mut i: usize = 0;
    assert(es@.skip(0) =~= es@);
    while i < es.len()
        invariant
            i <= es@.len(),
            member(es@, key@) == member(es@.skip(i as int), key@),
        decreases es@.len() - i,
    {
        let ghost rest = es@.skip(i as int);
        assert(rest.drop_first() =~= es@.skip(i + 1));
        assert(rest[0] == es@[i as int]);
        if same_text(es[i].0.as_str(), key) {
            return Some(&es[i].1);
        }
        i = i + 1;
    }
    None
}

/// A member of a document that is an object, looked up by key.
pub fn field_of<'a>(v: Option<&'a Json>, key: &str) -> (r: Option<&'a Json>)
    ensures
        deref_opt(r) == field(deref_opt(v), key@),
{
    match v {
        Some(Json::Object(es)) => member_of(es, key),
        _ => None,
    }
}

/// The text of a document that is a string, or nothing.
pub fn text_of(v: Option<&Json>) -> (r: String)
    ensures
        r@ == text_or_empty(deref_opt(v)),
{
    match v {
        Some(Json::Str(s)) => s.clone(),
        _ => String::new(),
    }
}

fn song_entry_of(es: &Vec<(String, Json)>) -> (r: Option<(String, String, String)>)
    ensures
        r.deep_view() == song_entry(es@),
{
    let kind = field_of(member_of(es, "contentDescriptor"), "kind");
    let is_song = match kind {
        Some(Json::Str(k)) => same_text(k.as_str(), "song"),
        _ => false,
    };
    let title = text_of(member_of(es, "title"));
    let artist = text_of(member_of(es, "artistName"));
    if is_song && title.as_str().unicode_len() > 0 && artist.as_str().unicode_len() > 0 {
        let album = match member_of(es, "tertiaryLinks") {
            Some(Json::Array(links)) => if links.len() > 0 {
                text_of(field_of(Some(&links[0]), "title"))
            } else {
                String::new()
            },
            _ => String::new(),
        };
        Some((artist, title, album))
    } else {
        None
    }
}

/// The playlist entries in the page's server data: a song object with an artist and a title
/// gives its own entry, any other object or array those of its values, in order.
pub fn extract_serialized_tracks(v: &Json) -> (r: Vec<(String, String, String)>)
    ensures
        r.deep_view() == server_data_entries(*v),
    decreases v,
{
    match v {
        Json::Object(es) => match song_entry_of(es) {
            Some(e) => {
                let mut out: Vec<(String, String, String)> = Vec::new();
                out.push(e);
                assert(out.deep_view() =~= seq![song_entry(es@)->0]);
                out
            },
            None => {
                let mut out: Vec<(String, String, String)> = Vec::new();
                let mut i: usize = 0;
                while i < es.len()
                    invariant
                        *v == Json::Object(*es),
                        i <= es@.len(),
                        out.deep_view() == server_data_in_members(es@.take(i as int)),
                    decreases es@.len() - i,
                {
                    proof {
                        let w = *v;
                        assert(decreases_to!(w => w->Object_0));
                        assert(decreases_to!(w->Object_0 => w->Object_0@));
                        assert(decreases_to!(w->Object_0@ => w->Object_0@[i as int]));
                        assert(decreases_to!(w->Object_0@[i as int] => w->Object_0@[i as int].1));
                    }
                    let mut more = extract_serialized_tracks(&es[i].1);
                    let ghost o = out.deep_view();
                    let ghost m = more.deep_view();
                    out.append(&mut more);
                    i = i + 1;
                    proof {
                        let t = es@.take(i as int);
                        assert(t.drop_last() =~= es@.take(i - 1));
                        assert(t.last() == es@[i - 1]);
                        assert(out.deep_view() =~= o + m);
                    }
                }
                assert(es@.take(i as int) =~= es@);
                out
            },
        },
        Json::Array(items) => {
            let mut out: Vec<(String, String, String)> = Vec::new();
            let mut i: usize = 0;
            while i < items.len()
                invariant
                    *v == Json::Array(*items),
                    i <= items@.len(),
                    out.deep_view() == server_data_in_items(items@.take(i as int)),
                decreases items@.len() - i,
            {
                proof {
                    let w = *v;
                    assert(decreases_to!(w => w->Array_0));
                    assert(decreases_to!(w->Array_0 => w->Array_0@));
                    assert(decreases_to!(w->Array_0@ => w->Array_0@[i as int]));
                }
                let mut more = extract_serialized_tracks(&items[i]);
                let ghost o = out.deep_view();
                let ghost m = more.deep_view();
                out.append(&mut more);
                i = i + 1;
                proof {
                    let t = items@.take(i as int);
                    assert(t.drop_last() =~= items@.take(i - 1));
                    assert(out.deep_view() =~= o + m);
                }
            }
            assert(items@.take(i as int) =~= items@);
            out
        },
        _ => Vec::new(),
    }
}


fn listed_entry_of(it: &Json, album: &String) -> (r: Option<(String, String, String)>)
    ensures
        r.deep_view() == listed_entry(*it, album@),
{
    let title = text_of(field_of(Some(it), "name"));
    let artist = match field_of(Some(it), "byArtist") {
        Some(Json::Object(a)) => text_of(member_of(a, "name")),
        Some(Json::Str(s)) => s.clone(),
        _ => String::new(),
    };
    if title.as_str().unicode_len() > 0 {
        Some((artist, title, album.clone()))
    } else {
        None
    }
}

/// The playlist entries in a linked-data document: the titled items of the track list of a
/// playlist or album object, or the entries of the documents of an array, in order.
pub fn extract_jsonld_tracks(v: &Json) -> (r: Vec<(String, String, String)>)
    ensures
        r.deep_view() == linked_data_entries(*v),
    decreases v,
{
    match v {
        Json::Array(items) => {
            let mut out: Vec<(String, String, String)> = Vec::new();
            let mut i: usize = 0;
            while i < items.len()
                invariant
                    *v == Json::Array(*items),
                    i <= items@.len(),
                    out.deep_view() == linked_data_in_items(items@.take(i as int)),
                decreases items@.len() - i,
            {
                proof {
                    let w = *v;
                    assert(decreases_to!(w => w->Array_0));
                    assert(decreases_to!(w->Array_0 => w->Array_0@));
                    assert(decreases_to!(w->Array_0@ => w->Array_0@[i as int]));
                }
                let mut more = extract_jsonld_tracks(&items[i]);
                let ghost o = out.deep_view();
                let ghost m = more.deep_view();
                out.append(&mut more);
                i = i + 1;
                proof {
                    let t = items@.take(i as int);
                    assert(t.drop_last() =~= items@.take(i - 1));
                    assert(out.deep_view() =~= o + m);
                }
            }
            assert(items@.take(i as int) =~= items@);
            out
        },
        Json::Object(es) => {
            let t = text_of(member_of(es, "@type"));
            let mut out: Vec<(String, String, String)> = Vec::new();
            if same_text(t.as_str(), "MusicPlaylist") || same_text(t.as_str(), "MusicAlbum") {
                match member_of(es, "track") {
                    Some(Json::Array(items)) => {
                        let album = text_of(member_of(es, "name"));
                        let mut i: usize = 0;
                        while i < items.len()
                            invariant
                                i <= items@.len(),
                                out.deep_view() == listed_entries(items@.take(i as int), album@),
                            decreases items@.len() - i,
                        {
                            let ghost o = out.deep_view();
                            match listed_entry_of(&items[i], &album) {
                                Some(e) => out.push(e),
                                None => {},
                            }
                            i = i + 1;
                            proof {
                                let t = items@.take(i as int);
                                assert(t.drop_last() =~= items@.take(i - 1));
                                assert(out.deep_view() =~= listed_entries(t, album@));
                            }
                        }
                        assert(items@.take(i as int) =~= items@);
                    },
                    _ => {},
                }
            }
            assert(out.deep_view() =~= linked_data_entries(*v));
            out
        },
        _ => Vec::new(),
    }
}

fn attributes_entry_of(es: &Vec<(String, Json)>) -> (r: Option<(String, String, String)>)
    ensures
        r.deep_view() == attributes_entry(es@),
{
    match member_of(es, "attributes") {
        Some(Json::Object(attrs)) => {
            let artist = text_of(member_of(attrs, "artistName"));
            let title = text_of(member_of(attrs, "name"));
            let album = text_of(member_of(attrs, "albumName"));
            if artist.as_str().unicode_len() > 0 && title.as_str().unicode_len() > 0 {
                Some((artist, title, album))
            } else {
                None
            }
        },
        _ => None,
    }
}

proof fn lemma_member_weight(es: Seq<(String, Json)>, i: int)
    requires
        0 <= i < es.len(),
    ensures
        text_weight(es[i].1) <= members_weight(es),
    decreases es.len(),
{
    if i < es.len() - 1 {
        lemma_member_weight(es.drop_last(), i);
        assert(es.drop_last()[i] == es[i]);
    }
}

proof fn lemma_item_weight(items: Seq<Json>, i: int)
    requires
        0 <= i < items.len(),
    ensures
        text_weight(items[i]) <= items_weight(items),
    decreases items.len(),
{
    if i < items.len() - 1 {
        lemma_item_weight(items.drop_last(), i);
        assert(items.drop_last()[i] == items[i]);
    }
}

/// The media-cache entries of a document whose every string is shorter than `bound`.
fn extract_within(v: &Json, Ghost(bound): Ghost<nat>) -> (r: Vec<(String, String, String)>)
    requires
        text_weight(*v) < bound,
    ensures
        r.deep_view() == embedded_within(*v, bound),
    decreases bound, v,
{
    match v {
        Json::Object(es) => match attributes_entry_of(es) {
            Some(e) => {
                let mut out: Vec<(String, String, String)> = Vec::new();
                out.push(e);
                assert(out.deep_view() =~= seq![attributes_entry(es@)->0]);
                out
            },
            None => {
                let mut out: Vec<(String, String, String)> = Vec::new();
                let mut i: usize = 0;
                while i < es.len()
                    invariant
                        *v == Json::Object(*es),
                        text_weight(*v) < bound,
                        i <= es@.len(),
                        out.deep_view() == embedded_in_members(es@.take(i as int), bound),
                    decreases es@.len() - i,
                {
                    proof {
                        lemma_member_weight(es@, i as int);
                    }
                    let ghost o = out.deep_view();
                    let ghost val = es@[i as int].1;
                    let mut more = match &es[i].1 {
                        Json::Str(t) => match parse_document(t.as_str()) {
                            Some(d) => {
                                assert(text_weight(d) + 1 < bound);
                                extract_within(&d, Ghost(text_weight(d) + 1))
                            },
                            None => Vec::new(),
                        },
                        other => {
                            proof {
                                let w = *v;
                                assert(decreases_to!(w => w->Object_0));
                                assert(decreases_to!(w->Object_0 => w->Object_0@));
                                assert(decreases_to!(w->Object_0@ => w->Object_0@[i as int]));
                                assert(decreases_to!(w->Object_0@[i as int] => w->Object_0@[i as int].1));
                            }
                            extract_within(other, Ghost(bound))
                        },
                    };
                    let ghost m = more.deep_view();
                    out.append(&mut more);
                    i = i + 1;
                    proof {
                        let t = es@.take(i as int);
                        assert(t.drop_last() =~= es@.take(i - 1));
                        assert(t.last() == es@[i - 1]);
                        assert(out.deep_view() =~= o + m);
                    }
                }
                assert(es@.take(i as int) =~= es@);
                out
            },
        },
        Json::Array(items) => {
            let mut out: Vec<(String, String, String)> = Vec::new();
            let mut i: usize = 0;
            while i < items.len()
                invariant
                    *v == Json::Array(*items),
                    text_weight(*v) < bound,
                    i <= items@.len(),
                    out.deep_view() == embedded_in_items(items@.take(i as int), bound),
                decreases items@.len() - i,
            {
                proof {
                    lemma_item_weight(items@, i as int);
                    let w = *v;
                    assert(decreases_to!(w => w->Array_0));
                    assert(decreases_to!(w->Array_0 => w->Array_0@));
                    assert(decreases_to!(w->Array_0@ => w->Array_0@[i as int]));
                }
                let mut more = extract_within(&items[i], Ghost(bound));
                let ghost o = out.deep_view();
                let ghost m = more.deep_view();
                out.append(&mut more);
                i = i + 1;
                proof {
                    let t = items@.take(i as int);
                    assert(t.drop_last() =~= items@.take(i - 1));
                    assert(out.deep_view() =~= o + m);
                }
            }
            assert(items@.take(i as int) =~= items@);
            out
        },
        _ => Vec::new(),
    }
}

/// The playlist entries in the page's media cache: an object whose attributes name an artist
/// and a title gives that entry; any other object those of its members in order, a string
/// member those of the document its text parses as (by `serde_json`), an array those of its
/// values in order.
pub fn extract_recursive_tracks(v: &Json) -> (r: Vec<(String, String, String)>)
    ensures
        r.deep_view() == embedded_entries(*v),
{
    extract_within(v, Ghost(text_weight(*v) + 1))
}

/// The playlist entries of a page: those of its server data where it has any, else those of
/// the first linked-data document that has any, else those of its media cache. A `None` stands
/// for a document that is missing or does not parse.
pub fn tracks_from_documents(
    server: &Option<Json>,
    linked: &Vec<Option<Json>>,
    cache: &Option<Json>,
) -> (r: Vec<(String, String, String)>)
    ensures
        r.deep_view() == page_entries(*server, linked@, *cache),
{
    if let Some(d) = server {
        let a = extract_serialized_tracks(d);
        if a.len() > 0 {
            return a;
        }
    }
    let mut i: usize = 0;
    assert(linked@.skip(0) =~= linked@);
    while i < linked.len()
        invariant
            i <= linked@.len(),
            first_linked_data(linked@) == first_linked_data(linked@.skip(i as int)),
            (match *server {
                Some(d) => server_data_entries(d),
                None => Seq::empty(),
            }).len() == 0,
        decreases linked@.len() - i,
    {
        let ghost rest = linked@.skip(i as int);
        assert(rest.drop_first() =~= linked@.skip(i + 1));
        assert(rest[0] == linked@[i as int]);
        if let Some(d) = &linked[i] {
            let b = extract_jsonld_tracks(d);
            if b.len() > 0 {
                return b;
            }
        }
        i = i + 1;
    }
    match cache {
        Some(d) => extract_recursive_tracks(d),
        None => Vec::new(),
    }
}


/// The pattern of the script element that holds a page's server data.
pub open spec fn server_data_pattern() -> Seq<char> {
    "(?s)<script[^>]+id=[\"']serialized-server-data[\"'][^>]*>(.*?)</script>"@
}

/// The pattern of a script element that holds a linked-data document.
pub open spec fn linked_data_pattern() -> Seq<char> {
    "(?s)<script[^>]+type=[\"']application/ld\\+json[\"'][^>]*>(.*?)</script>"@
}

/// The pattern of the script element that holds a page's media cache.
pub open spec fn media_cache_pattern() -> Seq<char> {
    "(?s)<script[^>]+id=[\"']shoebox-media-api-cache-amp-music[\"'][^>]*>(.*?)</script>"@
}

/// The texts of the script elements of a playlist page that may list its tracks.
#[derive(Debug)]
pub struct PageScripts {
    /// The server data: the content of the first matching element.
    pub server: Option<String>,
    /// The linked-data documents: the contents of every matching element, in order.
    pub linked: Vec<String>,
    /// The media cache: the content of the first matching element.
    pub cache: Option<String>,
}

/// The content of the first match, where there is one.
pub open spec fn first_content(m: Option<Seq<Option<Seq<char>>>>) -> Option<Seq<char>> {
    match m {
        Some(s) => if s.len() > 0 { s[0] } else { None },
        None => None,
    }
}

/// The contents of every match, in order.
pub open spec fn all_contents(s: Seq<Option<Seq<char>>>) -> Seq<Seq<char>>
    decreases s.len(),
{
    if s.len() == 0 {
        Seq::empty()
    } else {
        let rest = all_contents(s.drop_last());
        match s.last() {
            Some(c) => rest.push(c),
            None => rest,
        }
    }
}

fn first_of(m: Option<Vec<Option<String>>>) -> (r: Option<String>)
    ensures
        r.deep_view() == first_content(matches_view(m)),
{
    match m {
        Some(v) => {
            if v.len() > 0 {
                let ghost g = crate::external::group_texts(v);
                assert(g[0] == v@[0].deep_view());
                match &v[0] {
                    Some(c) => Some(c.clone()),
                    None => None,
                }
            } else {
                None
            }
        },
        None => None,
    }
}

/// The content groups of a list of matches, as values.
pub open spec fn matches_view(m: Option<Vec<Option<String>>>) -> Option<Seq<Option<Seq<char>>>> {
    match m {
        Some(v) => Some(crate::external::group_texts(v)),
        None => None,
    }
}

/// The contents of every match, in order, or none where the pattern did not compile.
pub open spec fn contents_of(m: Option<Seq<Option<Seq<char>>>>) -> Seq<Seq<char>> {
    match m {
        Some(s) => all_contents(s),
        None => Seq::empty(),
    }
}

/// The script texts, given the content groups of the matches of the three patterns (`None`
/// where a pattern did not compile): the first server-data match, every linked-data match and
/// the first media-cache match.
pub fn scripts_from_matches(
    server: Option<Vec<Option<String>>>,
    linked: Option<Vec<Option<String>>>,
    cache: Option<Vec<Option<String>>>,
) -> (r: PageScripts)
    ensures
        r.server.deep_view() == first_content(matches_view(server)),
        r.linked.deep_view() == contents_of(matches_view(linked)),
        r.cache.deep_view() == first_content(matches_view(cache)),
{
    let server = first_of(server);
    let cache = first_of(cache);
    let mut texts: Vec<String> = Vec::new();
    match linked {
        Some(found) => {
            let ghost g = crate::external::group_texts(found);
            let mut i: usize = 0;
            while i < found.len()
                invariant
                    i <= found@.len(),
                    g == crate::external::group_texts(found),
                    texts.deep_view() == all_contents(g.take(i as int)),
                decreases found@.len() - i,
            {
                match &found[i] {
                    Some(c) => texts.push(c.clone()),
                    None => {},
                }
                i = i + 1;
                proof {
                    let t = g.take(i as int);
                    assert(t.drop_last() =~= g.take(i - 1));
                    assert(t.last() == found@[i - 1].deep_view());
                    assert(texts.deep_view() =~= all_contents(t));
                }
            }
            assert(g.take(i as int) =~= g);
        },
        None => {},
    }
    PageScripts { server, linked: texts, cache }
}

/// The content groups of the matches of a pattern, where it compiles.
pub open spec fn content_matches(pattern: Seq<char>, html: Seq<char>) -> Option<Seq<Option<Seq<char>>>> {
    if regex_compiles(pattern) {
        Some(regex_group_matches(pattern, html, 1))
    } else {
        None
    }
}

fn matches_of(pattern: &str, html: &str) -> (r: Option<Vec<Option<String>>>)
    ensures
        matches_view(r) == content_matches(pattern@, html@),
{
    match compile(pattern) {
        Some(p) => Some(group_matches(&p, html, 1)),
        None => None,
    }
}

/// The script elements of a playlist page that may list its tracks. A pattern that does not
/// compile, or a match whose content group took no part, counts as no match.
pub fn page_scripts(html: &str) -> (r: PageScripts)
    ensures
        r.server.deep_view() == first_content(content_matches(server_data_pattern(), html@)),
        r.linked.deep_view() == contents_of(content_matches(linked_data_pattern(), html@)),
        r.cache.deep_view() == first_content(content_matches(media_cache_pattern(), html@)),
{
    scripts_from_matches(
        matches_of("(?s)<script[^>]+id=[\"']serialized-server-data[\"'][^>]*>(.*?)</script>", html),
        matches_of("(?s)<script[^>]+type=[\"']application/ld\\+json[\"'][^>]*>(.*?)</script>", html),
        matches_of("(?s)<script[^>]+id=[\"']shoebox-media-api-cache-amp-music[\"'][^>]*>(.*?)</script>", html),
    )
}


/// The document a script's text parses as, where there is a script and it parses.
pub open spec fn parsed_script(t: Option<Seq<char>>) -> Option<Json> {
    match t {
        Some(x) => json_document(x),
        None => None,
    }
}

/// The documents the scripts' texts parse as, in order (`None` for one that does not parse).
pub open spec fn parsed_scripts(ts: Seq<Seq<char>>) -> Seq<Option<Json>> {
    ts.map_values(|t: Seq<char>| json_document(t))
}

/// The playlist entries of a page: those of the document in its server-data script where it
/// has any, else those of the first linked-data script whose document has any, else those of
/// the document in its media-cache script.
pub open spec fn scraped_entries(html: Seq<char>) -> Seq<Entry> {
    page_entries(
        parsed_script(first_content(content_matches(server_data_pattern(), html))),
        parsed_scripts(contents_of(content_matches(linked_data_pattern(), html))),
        parsed_script(first_content(content_matches(media_cache_pattern(), html))),
    )
}

fn parse_script(t: &Option<String>) -> (r: Option<Json>)
    ensures
        r == parsed_script(t.deep_view()),
{
    match t {
        Some(x) => parse_document(x.as_str()),
        None => None,
    }
}

/// The playlist entries (artist, title, album) of a playlist page's HTML, read from the JSON
/// documents that its scripts hold.
pub fn scrape_tracks_from_html(html: &str) -> (r: Vec<(String, String, String)>)
    ensures
        r.deep_view() == scraped_entries(html@),
{
    let scripts = page_scripts(html);
    let server = parse_script(&scripts.server);
    let cache = parse_script(&scripts.cache);
    let mut linked: Vec<Option<Json>> = Vec::new();
    let mut i: usize = 0;
    while i < scripts.linked.len()
        invariant
            i <= scripts.linked@.len(),
            linked@ == parsed_scripts(scripts.linked.deep_view().take(i as int)),
        decreases scripts.linked@.len() - i,
    {
        let d = parse_document(scripts.linked[i].as_str());
        let ghost before = linked@;
        linked.push(d);
        i = i + 1;
        proof {
            let texts = scripts.linked.deep_view();
            assert(texts[i - 1] == scripts.linked@[i - 1]@);
            assert(texts.take(i as int) =~= texts.take(i - 1).push(texts[i - 1]));
            assert(linked@ =~= parsed_scripts(texts.take(i as int)));
        }
    }
    assert(scripts.linked.deep_view().take(i as int) =~= scripts.linked.deep_view());
    tracks_from_documents(&server, &linked, &cache)
}

} // verus!
