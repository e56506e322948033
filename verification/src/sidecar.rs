//! The sidecar document of a reference: the JSON file that holds its
//! metadata, one schema for each kind of reference, chosen by the file's
//! name.

use vstd::prelude::*;
use crate::json::{
    array_len, array_value, distinct_names, is_null, is_object, item_of, items_of, json_of, member,
    member_of, members_of, null_value, number_of, number_value, object_value, parse_json, parsed_json,
    pretty_json, render_json, text_of, text_value, JsonView,
};
use crate::state::{
    AudioMetadata, DetailView, DocMetadata, ImageMetadata, LinkMetadata, MetaView, NoteMetadata, Ref,
    RefKind, RefMeta, RefView, VideoMetadata,
};
use crate::text::{opt_text, str_eq, texts};
use crate::utils::{human_size, human_size_text};

verus! {

/// The file name of the sidecar of each kind of reference.
pub open spec fn sidecar_name_text(kind: RefKind) -> Seq<char> {
    match kind {
        RefKind::Image => "metadata.image.json"@,
        RefKind::Video => "metadata.video.json"@,
        RefKind::Audio => "metadata.audio.json"@,
        RefKind::Note => "metadata.note.json"@,
        RefKind::Link => "metadata.link.json"@,
        RefKind::Doc => "metadata.doc.json"@,
    }
}

/// The kind of reference that a file name marks as a sidecar, if it is the
/// sidecar name of a kind.
pub open spec fn kind_of_name(file_name: Seq<char>) -> Option<RefKind> {
    if file_name == "metadata.image.json"@ {
        Some(RefKind::Image)
    } else if file_name == "metadata.video.json"@ {
        Some(RefKind::Video)
    } else if file_name == "metadata.audio.json"@ {
        Some(RefKind::Audio)
    } else if file_name == "metadata.note.json"@ {
        Some(RefKind::Note)
    } else if file_name == "metadata.link.json"@ {
        Some(RefKind::Link)
    } else if file_name == "metadata.doc.json"@ {
        Some(RefKind::Doc)
    } else {
        None
    }
}

/// The file name of the sidecar of a kind of reference.
pub fn sidecar_name(kind: RefKind) -> (name: &'static str)
    ensures
        name@ == sidecar_name_text(kind),
{
    match kind {
        RefKind::Image => "metadata.image.json",
        RefKind::Video => "metadata.video.json",
        RefKind::Audio => "metadata.audio.json",
        RefKind::Note => "metadata.note.json",
        RefKind::Link => "metadata.link.json",
        RefKind::Doc => "metadata.doc.json",
    }
}

/// Classifies a file name: the kind whose sidecar it names, if any.
pub fn sidecar_kind(file_name: &str) -> (kind: Option<RefKind>)
    ensures
        kind == kind_of_name(file_name@),
{
    if str_eq(file_name, "metadata.image.json") {
        Some(RefKind::Image)
    } else if str_eq(file_name, "metadata.video.json") {
        Some(RefKind::Video)
    } else if str_eq(file_name, "metadata.audio.json") {
        Some(RefKind::Audio)
    } else if str_eq(file_name, "metadata.note.json") {
        Some(RefKind::Note)
    } else if str_eq(file_name, "metadata.link.json") {
        Some(RefKind::Link)
    } else if str_eq(file_name, "metadata.doc.json") {
        Some(RefKind::Doc)
    } else {
        None
    }
}

/// The six sidecar names differ, so each names its own kind.
pub proof fn lemma_sidecar_names_differ(kind: RefKind)
    ensures
        kind_of_name(sidecar_name_text(kind)) == Some(kind),
{
    reveal_strlit("metadata.image.json");
    reveal_strlit("metadata.video.json");
    reveal_strlit("metadata.audio.json");
    reveal_strlit("metadata.note.json");
    reveal_strlit("metadata.link.json");
    reveal_strlit("metadata.doc.json");
    let image = "metadata.image.json"@;
    let video = "metadata.video.json"@;
    let audio = "metadata.audio.json"@;
    let note = "metadata.note.json"@;
    let link = "metadata.link.json"@;
    let doc = "metadata.doc.json"@;
    assert(image[9] == 'i' && video[9] == 'v' && audio[9] == 'a' && note[9] == 'n' && link[9] == 'l'
        && doc[9] == 'd');
}

/// A list of texts as a JSON array of strings.
pub open spec fn list_json(items: Seq<Seq<char>>) -> JsonView {
    JsonView::Array(items.map_values(|t: Seq<char>| JsonView::Text(t)))
}

/// Pixel dimensions as JSON: `null` for none, else the array of width and
/// height.
pub open spec fn dimensions_json(dimensions: Option<(u32, u32)>) -> JsonView {
    match dimensions {
        None => JsonView::Null,
        Some((w, h)) => JsonView::Array(seq![JsonView::Number(w as u64), JsonView::Number(h as u64)]),
    }
}

/// The members of the sidecar document of a record, in the order in which
/// they are written.
pub open spec fn encoded_members(m: MetaView) -> Seq<(Seq<char>, JsonView)> {
    match m.detail {
        DetailView::Image { file_name, media_type, dimensions, file_size, colors } => seq![
            ("id"@, JsonView::Text(m.id)),
            ("name"@, JsonView::Text(m.name)),
            ("file_name"@, JsonView::Text(file_name)),
            ("ref_type"@, JsonView::Text(m.ref_type)),
            ("media_type"@, JsonView::Text(media_type)),
            ("dimensions"@, dimensions_json(dimensions)),
            ("file_size"@, JsonView::Text(file_size)),
            ("collection"@, JsonView::Text(m.collection)),
            ("colors"@, list_json(colors)),
            ("created_at"@, JsonView::Text(m.created_at)),
            ("updated_at"@, JsonView::Text(m.updated_at)),
            ("note_text"@, JsonView::Text(m.note_text)),
            ("tags"@, list_json(m.tags)),
        ],
        DetailView::Video { file_name, media_type, file_size } => media_members(
            m,
            file_name,
            media_type,
            file_size,
        ),
        DetailView::Audio { file_name, media_type, file_size } => media_members(
            m,
            file_name,
            media_type,
            file_size,
        ),
        DetailView::Note => plain_members(m),
        DetailView::Link { source_uri } => seq![
            ("id"@, JsonView::Text(m.id)),
            ("name"@, JsonView::Text(m.name)),
            ("ref_type"@, JsonView::Text(m.ref_type)),
            ("source_uri"@, JsonView::Text(source_uri)),
            ("collection"@, JsonView::Text(m.collection)),
            ("created_at"@, JsonView::Text(m.created_at)),
            ("updated_at"@, JsonView::Text(m.updated_at)),
            ("note_text"@, JsonView::Text(m.note_text)),
            ("tags"@, list_json(m.tags)),
        ],
        DetailView::Doc => plain_members(m),
    }
}

/// The members of the sidecar of a video or an audio recording.
pub open spec fn media_members(
    m: MetaView,
    file_name: Seq<char>,
    media_type: Seq<char>,
    file_size: Seq<char>,
) -> Seq<(Seq<char>, JsonView)> {
    seq![
        ("id"@, JsonView::Text(m.id)),
        ("name"@, JsonView::Text(m.name)),
        ("file_name"@, JsonView::Text(file_name)),
        ("ref_type"@, JsonView::Text(m.ref_type)),
        ("media_type"@, JsonView::Text(media_type)),
        ("file_size"@, JsonView::Text(file_size)),
        ("collection"@, JsonView::Text(m.collection)),
        ("created_at"@, JsonView::Text(m.created_at)),
        ("updated_at"@, JsonView::Text(m.updated_at)),
        ("note_text"@, JsonView::Text(m.note_text)),
        ("tags"@, list_json(m.tags)),
    ]
}

/// The members of the sidecar of a note or a document.
pub open spec fn plain_members(m: MetaView) -> Seq<(Seq<char>, JsonView)> {
    seq![
        ("id"@, JsonView::Text(m.id)),
        ("name"@, JsonView::Text(m.name)),
        ("ref_type"@, JsonView::Text(m.ref_type)),
        ("collection"@, JsonView::Text(m.collection)),
        ("created_at"@, JsonView::Text(m.created_at)),
        ("updated_at"@, JsonView::Text(m.updated_at)),
        ("note_text"@, JsonView::Text(m.note_text)),
        ("tags"@, list_json(m.tags)),
    ]
}

/// The sidecar document of a record.
pub open spec fn encoded(m: MetaView) -> JsonView {
    JsonView::Object(encoded_members(m))
}

fn text_member(key: &str, value: &String) -> (made: (String, serde_json::Value))
    ensures
        made.0@ == key@,
        json_of(made.1) == JsonView::Text(value@),
{
    (key.to_owned(), text_value(value.as_str()))
}

fn list_member(key: &str, items: &Vec<String>) -> (made: (String, serde_json::Value))
    ensures
        made.0@ == key@,
        json_of(made.1) == list_json(texts(items@)),
{
    let mut out: Vec<serde_json::Value> = Vec::new();
    let mut i: usize = 0;
    while i < items.len()
        invariant
            0 <= i <= items.len(),
            out@.len() == i,
            forall|j: int| 0 <= j < i ==> json_of(#[trigger] out@[j]) == JsonView::Text(items@[j]@),
        decreases items.len() - i,
    {
        out.push(text_value(items[i].as_str()));
        i = i + 1;
    }
    assert(items_of(out@) =~= texts(items@).map_values(|t: Seq<char>| JsonView::Text(t)));
    (key.to_owned(), array_value(out))
}

fn dimensions_member(dimensions: Option<(u32, u32)>) -> (made: (String, serde_json::Value))
    ensures
        made.0@ == "dimensions"@,
        json_of(made.1) == dimensions_json(dimensions),
{
    let value = match dimensions {
        None => null_value(),
        Some((w, h)) => {
            let items = vec![number_value(w as u64), number_value(h as u64)];
            assert(items_of(items@) =~= seq![JsonView::Number(w as u64), JsonView::Number(h as u64)]);
            array_value(items)
        },
    };
    ("dimensions".to_owned(), value)
}

fn encode_image(m: &ImageMetadata) -> (doc: serde_json::Value)
    ensures
        json_of(doc) == encoded(m@),
{
    let members = vec![
        text_member("id", &m.id),
        text_member("name", &m.name),
        text_member("file_name", &m.file_name),
        text_member("ref_type", &m.ref_type),
        text_member("media_type", &m.media_type),
        dimensions_member(m.dimensions),
        text_member("file_size", &m.file_size),
        text_member("collection", &m.collection),
        list_member("colors", &m.colors),
        text_member("created_at", &m.created_at),
        text_member("updated_at", &m.updated_at),
        text_member("note_text", &m.note_text),
        list_member("tags", &m.tags),
    ];
    proof {
        lemma_names_differ(m@);
        assert(members_of(members@) =~= encoded_members(m@));
    }
    object_value(members)
}

fn encode_video(m: &VideoMetadata) -> (doc: serde_json::Value)
    ensures
        json_of(doc) == encoded(m@),
{
    let members = vec![
        text_member("id", &m.id),
        text_member("name", &m.name),
        text_member("file_name", &m.file_name),
        text_member("ref_type", &m.ref_type),
        text_member("media_type", &m.media_type),
        text_member("file_size", &m.file_size),
        text_member("collection", &m.collection),
        text_member("created_at", &m.created_at),
        text_member("updated_at", &m.updated_at),
        text_member("note_text", &m.note_text),
        list_member("tags", &m.tags),
    ];
    proof {
        lemma_names_differ(m@);
        assert(members_of(members@) =~= encoded_members(m@));
    }
    object_value(members)
}

fn encode_audio(m: &AudioMetadata) -> (doc: serde_json::Value)
    ensures
        json_of(doc) == encoded(m@),
{
    let members = vec![
        text_member("id", &m.id),
        text_member("name", &m.name),
        text_member("file_name", &m.file_name),
        text_member("ref_type", &m.ref_type),
        text_member("media_type", &m.media_type),
        text_member("file_size", &m.file_size),
        text_member("collection", &m.collection),
        text_member("created_at", &m.created_at),
        text_member("updated_at", &m.updated_at),
        text_member("note_text", &m.note_text),
        list_member("tags", &m.tags),
    ];
    proof {
        lemma_names_differ(m@);
        assert(members_of(members@) =~= encoded_members(m@));
    }
    object_value(members)
}

fn encode_note(m: &NoteMetadata) -> (doc: serde_json::Value)
    ensures
        json_of(doc) == encoded(m@),
{
    let members = vec![
        text_member("id", &m.id),
        text_member("name", &m.name),
        text_member("ref_type", &m.ref_type),
        text_member("collection", &m.collection),
        text_member("created_at", &m.created_at),
        text_member("updated_at", &m.updated_at),
        text_member("note_text", &m.note_text),
        list_member("tags", &m.tags),
    ];
    proof {
        lemma_names_differ(m@);
        assert(members_of(members@) =~= encoded_members(m@));
    }
    object_value(members)
}

fn encode_link(m: &LinkMetadata) -> (doc: serde_json::Value)
    ensures
        json_of(doc) == encoded(m@),
{
    let members = vec![
        text_member("id", &m.id),
        text_member("name", &m.name),
        text_member("ref_type", &m.ref_type),
        text_member("source_uri", &m.source_uri),
        text_member("collection", &m.collection),
        text_member("created_at", &m.created_at),
        text_member("updated_at", &m.updated_at),
        text_member("note_text", &m.note_text),
        list_member("tags", &m.tags),
    ];
    proof {
        lemma_names_differ(m@);
        assert(members_of(members@) =~= encoded_members(m@));
    }
    object_value(members)
}

fn encode_doc(m: &DocMetadata) -> (doc: serde_json::Value)
    ensures
        json_of(doc) == encoded(m@),
{
    let members = vec![
        text_member("id", &m.id),
        text_member("name", &m.name),
        text_member("ref_type", &m.ref_type),
        text_member("collection", &m.collection),
        text_member("created_at", &m.created_at),
        text_member("updated_at", &m.updated_at),
        text_member("note_text", &m.note_text),
        list_member("tags", &m.tags),
    ];
    proof {
        lemma_names_differ(m@);
        assert(members_of(members@) =~= encoded_members(m@));
    }
    object_value(members)
}

/// The sidecar document of a metadata record.
pub fn encode(meta: &RefMeta) -> (doc: serde_json::Value)
    ensures
        json_of(doc) == encoded(meta@),
{
    match meta {
        RefMeta::Image(m) => encode_image(m),
        RefMeta::Video(m) => encode_video(m),
        RefMeta::Audio(m) => encode_audio(m),
        RefMeta::Note(m) => encode_note(m),
        RefMeta::Link(m) => encode_link(m),
        RefMeta::Doc(m) => encode_doc(m),
    }
}

/// The string under `key`, which has to be there.
pub open spec fn required_text(members: Seq<(Seq<char>, JsonView)>, key: Seq<char>) -> Option<
    Seq<char>,
> {
    match member(members, key) {
        Some(JsonView::Text(t)) => Some(t),
        _ => None,
    }
}

/// The string under `key`, or the empty string where the document has no
/// such member.
pub open spec fn optional_text(members: Seq<(Seq<char>, JsonView)>, key: Seq<char>) -> Option<
    Seq<char>,
> {
    match member(members, key) {
        None => Some(Seq::empty()),
        Some(JsonView::Text(t)) => Some(t),
        Some(_) => None,
    }
}

/// The texts of a JSON array of strings.
pub open spec fn list_of(value: JsonView) -> Option<Seq<Seq<char>>> {
    match value {
        JsonView::Array(items) => if forall|i: int| 0 <= i < items.len() ==> (#[trigger] items[i]) is Text {
            Some(items.map_values(|v: JsonView| v->Text_0))
        } else {
            None
        },
        _ => None,
    }
}

/// The list of strings under `key`, which has to be there.
pub open spec fn required_list(members: Seq<(Seq<char>, JsonView)>, key: Seq<char>) -> Option<
    Seq<Seq<char>>,
> {
    match member(members, key) {
        Some(value) => list_of(value),
        None => None,
    }
}

/// The list of strings under `key`, or the empty list where the document
/// has no such member.
pub open spec fn optional_list(members: Seq<(Seq<char>, JsonView)>, key: Seq<char>) -> Option<
    Seq<Seq<char>>,
> {
    match member(members, key) {
        Some(value) => list_of(value),
        None => Some(Seq::empty()),
    }
}

/// The pixel dimensions that a JSON value writes: none for `null`, a pair
/// for an array of two whole numbers below 2^32.
pub open spec fn dimensions_of(value: JsonView) -> Option<Option<(u32, u32)>> {
    match value {
        JsonView::Null => Some(None),
        JsonView::Array(items) => if items.len() == 2 && items[0] is Number && items[1] is Number
            && items[0]->Number_0 <= u32::MAX && items[1]->Number_0 <= u32::MAX {
            Some(Some((items[0]->Number_0 as u32, items[1]->Number_0 as u32)))
        } else {
            None
        },
        _ => None,
    }
}

/// The pixel dimensions of a document; a document without the member has
/// none.
pub open spec fn optional_dimensions(members: Seq<(Seq<char>, JsonView)>) -> Option<
    Option<(u32, u32)>,
> {
    match member(members, "dimensions"@) {
        Some(value) => dimensions_of(value),
        None => Some(None),
    }
}

/// The file size that a JSON value writes: a string as it stands, a byte
/// count written as people read it, and nothing else.
pub open spec fn size_of_value(value: JsonView) -> Option<Seq<char>> {
    match value {
        JsonView::Text(t) => Some(t),
        JsonView::Number(n) => Some(human_size_text(n as nat)),
        _ => None,
    }
}

/// The file size of a document, which has to be there.
pub open spec fn required_size(members: Seq<(Seq<char>, JsonView)>) -> Option<Seq<char>> {
    match member(members, "file_size"@) {
        Some(value) => size_of_value(value),
        None => None,
    }
}

/// Whether the schema of a kind lets the note be missing.
pub open spec fn is_lenient(kind: RefKind) -> bool {
    kind == RefKind::Image || kind == RefKind::Video || kind == RefKind::Audio
}

/// The note of a document.
pub open spec fn note_of(kind: RefKind, members: Seq<(Seq<char>, JsonView)>) -> Option<Seq<char>> {
    if is_lenient(kind) {
        optional_text(members, "note_text"@)
    } else {
        required_text(members, "note_text"@)
    }
}

/// The tags of a document; a document without the member has none.
pub open spec fn tags_of(members: Seq<(Seq<char>, JsonView)>) -> Option<Seq<Seq<char>>> {
    optional_list(members, "tags"@)
}

/// The fields of a document that only its kind has.
pub open spec fn detail_of(kind: RefKind, members: Seq<(Seq<char>, JsonView)>) -> Option<
    DetailView,
> {
    match kind {
        RefKind::Image => if required_text(members, "file_name"@) is Some && required_text(
            members,
            "media_type"@,
        ) is Some && optional_dimensions(members) is Some && required_size(members) is Some
            && required_list(members, "colors"@) is Some {
            Some(
                DetailView::Image {
                    file_name: required_text(members, "file_name"@)->Some_0,
                    media_type: required_text(members, "media_type"@)->Some_0,
                    dimensions: optional_dimensions(members)->Some_0,
                    file_size: required_size(members)->Some_0,
                    colors: required_list(members, "colors"@)->Some_0,
                },
            )
        } else {
            None
        },
        RefKind::Video => if required_text(members, "file_name"@) is Some && required_text(
            members,
            "media_type"@,
        ) is Some && required_size(members) is Some {
            Some(
                DetailView::Video {
                    file_name: required_text(members, "file_name"@)->Some_0,
                    media_type: required_text(members, "media_type"@)->Some_0,
                    file_size: required_size(members)->Some_0,
                },
            )
        } else {
            None
        },
        RefKind::Audio => if required_text(members, "file_name"@) is Some && required_text(
            members,
            "media_type"@,
        ) is Some && required_size(members) is Some {
            Some(
                DetailView::Audio {
                    file_name: required_text(members, "file_name"@)->Some_0,
                    media_type: required_text(members, "media_type"@)->Some_0,
                    file_size: required_size(members)->Some_0,
                },
            )
        } else {
            None
        },
        RefKind::Note => Some(DetailView::Note),
        RefKind::Link => match required_text(members, "source_uri"@) {
            Some(source_uri) => Some(DetailView::Link { source_uri }),
            None => None,
        },
        RefKind::Doc => Some(DetailView::Doc),
    }
}

/// The record that the members of a document of a kind write, if they
/// follow the schema of that kind: every member that the schema names is
/// there with its type, but for the tags, which may be missing and are then
/// none, the note of an image, a video or an audio recording, which may be
/// missing and is then empty, and the dimensions of an image, which may be
/// missing or `null`. Members that the schema does not name are passed over.
pub open spec fn decoded_members(kind: RefKind, members: Seq<(Seq<char>, JsonView)>) -> Option<
    MetaView,
> {
    if required_text(members, "id"@) is Some && required_text(members, "name"@) is Some
        && required_text(members, "ref_type"@) is Some && required_text(members, "collection"@) is Some
        && required_text(members, "created_at"@) is Some && required_text(members, "updated_at"@) is Some
        && note_of(kind, members) is Some && tags_of(members) is Some && detail_of(
        kind,
        members,
    ) is Some {
        Some(
            MetaView {
                id: required_text(members, "id"@)->Some_0,
                name: required_text(members, "name"@)->Some_0,
                ref_type: required_text(members, "ref_type"@)->Some_0,
                collection: required_text(members, "collection"@)->Some_0,
                created_at: required_text(members, "created_at"@)->Some_0,
                updated_at: required_text(members, "updated_at"@)->Some_0,
                note_text: note_of(kind, members)->Some_0,
                tags: tags_of(members)->Some_0,
                detail: detail_of(kind, members)->Some_0,
            },
        )
    } else {
        None
    }
}

/// The record that a sidecar document of a kind writes, if the document is
/// an object that follows the schema of that kind.
pub open spec fn decoded(kind: RefKind, doc: JsonView) -> Option<MetaView> {
    match doc {
        JsonView::Object(members) => decoded_members(kind, members),
        _ => None,
    }
}

/// The characters of each string of an optional list.
pub open spec fn texts_of(v: Option<Vec<String>>) -> Option<Seq<Seq<char>>> {
    match v {
        Some(v) => Some(texts(v@)),
        None => None,
    }
}

fn take_text(doc: &serde_json::Value, key: &str) -> (found: Option<String>)
    requires
        json_of(*doc) is Object,
    ensures
        opt_text(found) == required_text(json_of(*doc)->Object_0, key@),
{
    match member_of(doc, key) {
        Some(value) => text_of(value),
        None => None,
    }
}

fn take_text_or_empty(doc: &serde_json::Value, key: &str) -> (found: Option<String>)
    requires
        json_of(*doc) is Object,
    ensures
        opt_text(found) == optional_text(json_of(*doc)->Object_0, key@),
{
    match member_of(doc, key) {
        Some(value) => text_of(value),
        None => Some(String::new()),
    }
}

fn read_list(value: &serde_json::Value) -> (found: Option<Vec<String>>)
    ensures
        texts_of(found) == list_of(json_of(*value)),
{
    let len = match array_len(value) {
        Some(len) => len,
        None => {
            return None;
        },
    };
    let ghost items = json_of(*value)->Array_0;
    let mut out: Vec<String> = Vec::new();
    let mut i: usize = 0;
    while i < len
        invariant
            0 <= i <= len,
            json_of(*value) == JsonView::Array(items),
            items.len() == len,
            out@.len() == i,
            forall|j: int| 0 <= j < i ==> (#[trigger] items[j]) is Text,
            forall|j: int| 0 <= j < i ==> (#[trigger] out@[j])@ == items[j]->Text_0,
        decreases len - i,
    {
        let text = match item_of(value, i) {
            Some(item) => text_of(item),
            None => None,
        };
        match text {
            Some(t) => {
                out.push(t);
            },
            None => {
                assert(!(items[i as int] is Text));
                return None;
            },
        }
        i = i + 1;
    }
    assert(texts(out@) =~= items.map_values(|v: JsonView| v->Text_0));
    Some(out)
}

fn take_list(doc: &serde_json::Value, key: &str) -> (found: Option<Vec<String>>)
    requires
        json_of(*doc) is Object,
    ensures
        texts_of(found) == required_list(json_of(*doc)->Object_0, key@),
{
    match member_of(doc, key) {
        Some(value) => read_list(value),
        None => None,
    }
}

fn take_list_or_empty(doc: &serde_json::Value, key: &str) -> (found: Option<Vec<String>>)
    requires
        json_of(*doc) is Object,
    ensures
        texts_of(found) == optional_list(json_of(*doc)->Object_0, key@),
{
    match member_of(doc, key) {
        Some(value) => read_list(value),
        None => {
            let empty: Vec<String> = Vec::new();
            assert(texts(empty@) =~= Seq::empty());
            Some(empty)
        },
    }
}

fn read_dimensions(value: &serde_json::Value) -> (found: Option<Option<(u32, u32)>>)
    ensures
        found == dimensions_of(json_of(*value)),
{
    if is_null(value) {
        return Some(None);
    }
    match array_len(value) {
        Some(len) => {
            if len != 2 {
                return None;
            }
        },
        None => {
            return None;
        },
    }
    let width = match item_of(value, 0) {
        Some(item) => number_of(item),
        None => None,
    };
    let height = match item_of(value, 1) {
        Some(item) => number_of(item),
        None => None,
    };
    match (width, height) {
        (Some(w), Some(h)) => {
            if w <= 0xffff_ffff && h <= 0xffff_ffff {
                Some(Some((w as u32, h as u32)))
            } else {
                None
            }
        },
        _ => None,
    }
}

fn take_dimensions(doc: &serde_json::Value) -> (found: Option<Option<(u32, u32)>>)
    requires
        json_of(*doc) is Object,
    ensures
        found == optional_dimensions(json_of(*doc)->Object_0),
{
    match member_of(doc, "dimensions") {
        Some(value) => read_dimensions(value),
        None => Some(None),
    }
}

/// Reads a file size, which older sidecars hold as a byte count and newer
/// ones as text.
pub fn deserialize_file_size(value: &serde_json::Value) -> (size: Result<String, String>)
    ensures
        match size {
            Ok(text) => size_of_value(json_of(*value)) == Some(text@),
            Err(e) => size_of_value(json_of(*value)) is None && e@ == "Invalid file_size value"@,
        },
{
    match text_of(value) {
        Some(text) => Ok(text),
        None => match number_of(value) {
            Some(n) => Ok(human_size(n)),
            None => Err("Invalid file_size value".to_owned()),
        },
    }
}

fn take_size(doc: &serde_json::Value) -> (found: Option<String>)
    requires
        json_of(*doc) is Object,
    ensures
        opt_text(found) == required_size(json_of(*doc)->Object_0),
{
    match member_of(doc, "file_size") {
        Some(value) => match deserialize_file_size(value) {
            Ok(text) => Some(text),
            Err(_) => None,
        },
        None => None,
    }
}

fn decode_image(doc: &serde_json::Value) -> (found: Option<ImageMetadata>)
    requires
        json_of(*doc) is Object,
    ensures
        match found {
            Some(m) => decoded_members(RefKind::Image, json_of(*doc)->Object_0) == Some(m@),
            None => decoded_members(RefKind::Image, json_of(*doc)->Object_0) is None,
        },
{
    let id = take_text(doc, "id")?;
    let name = take_text(doc, "name")?;
    let ref_type = take_text(doc, "ref_type")?;
    let collection = take_text(doc, "collection")?;
    let created_at = take_text(doc, "created_at")?;
    let updated_at = take_text(doc, "updated_at")?;
    let note_text = take_text_or_empty(doc, "note_text")?;
    let tags = take_list_or_empty(doc, "tags")?;
    let file_name = take_text(doc, "file_name")?;
    let media_type = take_text(doc, "media_type")?;
    let dimensions = take_dimensions(doc)?;
    let file_size = take_size(doc)?;
    let colors = take_list(doc, "colors")?;
    Some(
        ImageMetadata {
            id,
            name,
            ref_type,
            collection,
            created_at,
            updated_at,
            note_text,
            tags,
            file_name,
            media_type,
            dimensions,
            file_size,
            colors,
        },
    )
}

fn decode_video(doc: &serde_json::Value) -> (found: Option<VideoMetadata>)
    requires
        json_of(*doc) is Object,
    ensures
        match found {
            Some(m) => decoded_members(RefKind::Video, json_of(*doc)->Object_0) == Some(m@),
            None => decoded_members(RefKind::Video, json_of(*doc)->Object_0) is None,
        },
{
    let id = take_text(doc, "id")?;
    let name = take_text(doc, "name")?;
    let ref_type = take_text(doc, "ref_type")?;
    let collection = take_text(doc, "collection")?;
    let created_at = take_text(doc, "created_at")?;
    let updated_at = take_text(doc, "updated_at")?;
    let note_text = take_text_or_empty(doc, "note_text")?;
    let tags = take_list_or_empty(doc, "tags")?;
    let file_name = take_text(doc, "file_name")?;
    let media_type = take_text(doc, "media_type")?;
    let file_size = take_size(doc)?;
    Some(
        VideoMetadata {
            id,
            name,
            ref_type,
            collection,
            created_at,
            updated_at,
            note_text,
            tags,
            file_name,
            media_type,
            file_size,
        },
    )
}

fn decode_audio(doc: &serde_json::Value) -> (found: Option<AudioMetadata>)
    requires
        json_of(*doc) is Object,
    ensures
        match found {
            Some(m) => decoded_members(RefKind::Audio, json_of(*doc)->Object_0) == Some(m@),
            None => decoded_members(RefKind::Audio, json_of(*doc)->Object_0) is None,
        },
{
    let id = take_text(doc, "id")?;
    let name = take_text(doc, "name")?;
    let ref_type = take_text(doc, "ref_type")?;
    let collection = take_text(doc, "collection")?;
    let created_at = take_text(doc, "created_at")?;
    let updated_at = take_text(doc, "updated_at")?;
    let note_text = take_text_or_empty(doc, "note_text")?;
    let tags = take_list_or_empty(doc, "tags")?;
    let file_name = take_text(doc, "file_name")?;
    let media_type = take_text(doc, "media_type")?;
    let file_size = take_size(doc)?;
    Some(
        AudioMetadata {
            id,
            name,
            ref_type,
            collection,
            created_at,
            updated_at,
            note_text,
            tags,
            file_name,
            media_type,
            file_size,
        },
    )
}

fn decode_note(doc: &serde_json::Value) -> (found: Option<NoteMetadata>)
    requires
        json_of(*doc) is Object,
    ensures
        match found {
            Some(m) => decoded_members(RefKind::Note, json_of(*doc)->Object_0) == Some(m@),
            None => decoded_members(RefKind::Note, json_of(*doc)->Object_0) is None,
        },
{
    let id = take_text(doc, "id")?;
    let name = take_text(doc, "name")?;
    let ref_type = take_text(doc, "ref_type")?;
    let collection = take_text(doc, "collection")?;
    let created_at = take_text(doc, "created_at")?;
    let updated_at = take_text(doc, "updated_at")?;
    let note_text = take_text(doc, "note_text")?;
    let tags = take_list_or_empty(doc, "tags")?;
    Some(
        NoteMetadata {
            id,
            name,
            ref_type,
            collection,
            created_at,
            updated_at,
            note_text,
            tags,
        },
    )
}

fn decode_link(doc: &serde_json::Value) -> (found: Option<LinkMetadata>)
    requires
        json_of(*doc) is Object,
    ensures
        match found {
            Some(m) => decoded_members(RefKind::Link, json_of(*doc)->Object_0) == Some(m@),
            None => decoded_members(RefKind::Link, json_of(*doc)->Object_0) is None,
        },
{
    let id = take_text(doc, "id")?;
    let name = take_text(doc, "name")?;
    let ref_type = take_text(doc, "ref_type")?;
    let collection = take_text(doc, "collection")?;
    let created_at = take_text(doc, "created_at")?;
    let updated_at = take_text(doc, "updated_at")?;
    let note_text = take_text(doc, "note_text")?;
    let tags = take_list_or_empty(doc, "tags")?;
    let source_uri = take_text(doc, "source_uri")?;
    Some(
        LinkMetadata {
            id,
            name,
            ref_type,
            collection,
            created_at,
            updated_at,
            note_text,
            tags,
            source_uri,
        },
    )
}

fn decode_doc(doc: &serde_json::Value) -> (found: Option<DocMetadata>)
    requires
        json_of(*doc) is Object,
    ensures
        match found {
            Some(m) => decoded_members(RefKind::Doc, json_of(*doc)->Object_0) == Some(m@),
            None => decoded_members(RefKind::Doc, json_of(*doc)->Object_0) is None,
        },
{
    let id = take_text(doc, "id")?;
    let name = take_text(doc, "name")?;
    let ref_type = take_text(doc, "ref_type")?;
    let collection = take_text(doc, "collection")?;
    let created_at = take_text(doc, "created_at")?;
    let updated_at = take_text(doc, "updated_at")?;
    let note_text = take_text(doc, "note_text")?;
    let tags = take_list_or_empty(doc, "tags")?;
    Some(
        DocMetadata {
            id,
            name,
            ref_type,
            collection,
            created_at,
            updated_at,
            note_text,
            tags,
        },
    )
}

/// The record of a metadata value, if there is one.
pub open spec fn record_of(meta: Option<RefMeta>) -> Option<MetaView> {
    match meta {
        Some(m) => Some(m@),
        None => None,
    }
}

/// Reads a metadata record of a kind from its sidecar document; nothing
/// where the document does not follow the schema of that kind.
pub fn decode(kind: RefKind, doc: &serde_json::Value) -> (found: Option<RefMeta>)
    ensures
        record_of(found) == decoded(kind, json_of(*doc)),
        found is Some ==> found->Some_0@.kind() == kind,
{
    if !is_object(doc) {
        return None;
    }
    match kind {
        RefKind::Image => match decode_image(doc) {
            Some(m) => Some(RefMeta::Image(m)),
            None => None,
        },
        RefKind::Video => match decode_video(doc) {
            Some(m) => Some(RefMeta::Video(m)),
            None => None,
        },
        RefKind::Audio => match decode_audio(doc) {
            Some(m) => Some(RefMeta::Audio(m)),
            None => None,
        },
        RefKind::Note => match decode_note(doc) {
            Some(m) => Some(RefMeta::Note(m)),
            None => None,
        },
        RefKind::Link => match decode_link(doc) {
            Some(m) => Some(RefMeta::Link(m)),
            None => None,
        },
        RefKind::Doc => match decode_doc(doc) {
            Some(m) => Some(RefMeta::Doc(m)),
            None => None,
        },
    }
}

/// The record that the text of a sidecar of a kind writes, if the text is a
/// JSON document that follows the schema of that kind.
pub open spec fn sidecar_record(kind: RefKind, text: Seq<char>) -> Option<MetaView> {
    match parsed_json(text) {
        Some(doc) => decoded(kind, doc),
        None => None,
    }
}

/// The text of the sidecar of a record.
pub open spec fn sidecar_text(m: MetaView) -> Seq<char> {
    pretty_json(encoded(m))
}

/// Reads a metadata record of a kind from the text of its sidecar; nothing
/// where the text is no JSON document or does not follow the schema of that
/// kind.
pub fn read_sidecar(kind: RefKind, text: &str) -> (found: Option<RefMeta>)
    ensures
        record_of(found) == sidecar_record(kind, text@),
        found is Some ==> found->Some_0@.kind() == kind,
{
    match parse_json(text) {
        Some(doc) => decode(kind, &doc),
        None => None,
    }
}

/// Writes the sidecar of a metadata record: the whole document, as indented
/// JSON text.
pub fn write_sidecar(meta: &RefMeta) -> (text: String)
    ensures
        text@ == sidecar_text(meta@),
{
    render_json(&encode(meta))
}

/// The name under which a reference of a kind hands out what it shows.
pub open spec fn primary_key(kind: RefKind) -> Seq<char> {
    match kind {
        RefKind::Image => "image_path"@,
        RefKind::Video => "video_path"@,
        RefKind::Audio => "audio_path"@,
        RefKind::Note => "content"@,
        RefKind::Link => "snapshoot"@,
        RefKind::Doc => "doc_path"@,
    }
}

/// The metadata of a reference as a document: the document of its sidecar,
/// or `null` where it has none.
pub open spec fn metadata_document(metadata: Option<MetaView>) -> JsonView {
    match metadata {
        Some(m) => encoded(m),
        None => JsonView::Null,
    }
}

/// A reference as the shell reads it: what it shows, for an image the link
/// of its derivative, its metadata and the path of its sidecar.
pub open spec fn ref_document(r: RefView) -> JsonView {
    if r.kind == RefKind::Image {
        JsonView::Object(
            seq![
                (primary_key(r.kind), JsonView::Text(r.primary)),
                ("low_res_imagepath"@, JsonView::Text(r.low_res)),
                ("metadata"@, metadata_document(r.metadata)),
                ("metapath"@, JsonView::Text(r.metapath)),
            ],
        )
    } else {
        JsonView::Object(
            seq![
                (primary_key(r.kind), JsonView::Text(r.primary)),
                ("metadata"@, metadata_document(r.metadata)),
                ("metapath"@, JsonView::Text(r.metapath)),
            ],
        )
    }
}

fn metadata_member(meta: Option<RefMeta>) -> (made: (String, serde_json::Value))
    ensures
        made.0@ == "metadata"@,
        json_of(made.1) == metadata_document(record_of(meta)),
{
    let value = match meta {
        Some(m) => encode(&m),
        None => null_value(),
    };
    ("metadata".to_owned(), value)
}

/// The document of a reference, for the shell.
pub fn encode_ref(r: &Ref) -> (doc: serde_json::Value)
    ensures
        json_of(doc) == ref_document(r@),
{
    let meta = match r.get_ref_meta() {
        Ok(m) => Some(m),
        Err(_) => None,
    };
    let members = match r {
        Ref::Image(image) => vec![
            text_member("image_path", &image.image_path),
            text_member("low_res_imagepath", &image.low_res_imagepath),
            metadata_member(meta),
            text_member("metapath", &image.metapath),
        ],
        Ref::Video(video) => vec![
            text_member("video_path", &video.video_path),
            metadata_member(meta),
            text_member("metapath", &video.metapath),
        ],
        Ref::Audio(audio) => vec![
            text_member("audio_path", &audio.audio_path),
            metadata_member(meta),
            text_member("metapath", &audio.metapath),
        ],
        Ref::Note(note) => vec![
            text_member("content", &note.content),
            metadata_member(meta),
            text_member("metapath", &note.metapath),
        ],
        Ref::Link(link) => vec![
            text_member("snapshoot", &link.snapshoot),
            metadata_member(meta),
            text_member("metapath", &link.metapath),
        ],
        Ref::Doc(doc) => vec![
            text_member("doc_path", &doc.doc_path),
            metadata_member(meta),
            text_member("metapath", &doc.metapath),
        ],
    };
    proof {
        lemma_ref_names_differ(r@);
        assert(members_of(members@) =~= ref_document(r@)->Object_0);
    }
    object_value(members)
}

/// Writes a reference for the shell, as indented JSON text.
pub fn write_ref(r: &Ref) -> (text: String)
    ensures
        text@ == pretty_json(ref_document(r@)),
{
    render_json(&encode_ref(r))
}

/// No two members of the document of a reference share a name.
proof fn lemma_ref_names_differ(r: RefView)
    ensures
        distinct_names(ref_document(r)->Object_0),
{
    reveal_strlit("image_path");
    reveal_strlit("video_path");
    reveal_strlit("audio_path");
    reveal_strlit("content");
    reveal_strlit("snapshoot");
    reveal_strlit("doc_path");
    reveal_strlit("low_res_imagepath");
    reveal_strlit("metadata");
    reveal_strlit("metapath");
    let members = ref_document(r)->Object_0;
    assert("image_path"@.len() == 10 && "video_path"@.len() == 10 && "audio_path"@.len() == 10
        && "content"@.len() == 7 && "snapshoot"@.len() == 9 && "doc_path"@.len() == 8
        && "low_res_imagepath"@.len() == 17 && "metadata"@.len() == 8 && "metapath"@.len() == 8);
    assert("metadata"@[4] == 'd' && "metapath"@[4] == 'p' && "doc_path"@[0] == 'd' && "metadata"@[0]
        == 'm' && "metapath"@[0] == 'm');
    assert(primary_key(r.kind) != "metadata"@ && primary_key(r.kind) != "metapath"@ && primary_key(
        r.kind,
    ) != "low_res_imagepath"@);
    if r.kind == RefKind::Image {
        assert(members.len() == 4);
    } else {
        assert(members.len() == 3);
    }
}

/// No two members of the sidecar document of a record share a name.
proof fn lemma_names_differ(m: MetaView)
    ensures
        distinct_names(encoded_members(m)),
{
    lemma_member_names();
    let members = encoded_members(m);
    match m.detail {
        DetailView::Image { .. } => {
            assert(members.len() == 13);
        },
        DetailView::Video { .. } => {
            assert(members.len() == 11);
        },
        DetailView::Audio { .. } => {
            assert(members.len() == 11);
        },
        DetailView::Note => {
            assert(members.len() == 8);
        },
        DetailView::Link { .. } => {
            assert(members.len() == 9);
        },
        DetailView::Doc => {
            assert(members.len() == 8);
        },
    }
}

/// The member names of the six schemas differ from one another.
proof fn lemma_member_names()
    ensures
        "id"@.len() == 2,
        "name"@.len() == 4,
        "tags"@.len() == 4,
        "colors"@.len() == 6,
        "ref_type"@.len() == 8,
        "file_name"@.len() == 9,
        "file_size"@.len() == 9,
        "note_text"@.len() == 9,
        "media_type"@.len() == 10,
        "dimensions"@.len() == 10,
        "collection"@.len() == 10,
        "created_at"@.len() == 10,
        "updated_at"@.len() == 10,
        "source_uri"@.len() == 10,
        "name"@[0] == 'n',
        "tags"@[0] == 't',
        "file_name"@[5] == 'n',
        "file_size"@[5] == 's',
        "note_text"@[5] == 't',
        "media_type"@[1] == 'e',
        "dimensions"@[1] == 'i',
        "collection"@[1] == 'o',
        "created_at"@[1] == 'r',
        "updated_at"@[1] == 'p',
        "source_uri"@[1] == 'o',
        "collection"@[0] == 'c',
        "source_uri"@[0] == 's',
{
    reveal_strlit("id");
    reveal_strlit("name");
    reveal_strlit("tags");
    reveal_strlit("colors");
    reveal_strlit("ref_type");
    reveal_strlit("file_name");
    reveal_strlit("file_size");
    reveal_strlit("note_text");
    reveal_strlit("media_type");
    reveal_strlit("dimensions");
    reveal_strlit("collection");
    reveal_strlit("created_at");
    reveal_strlit("updated_at");
    reveal_strlit("source_uri");
}

/// A list of strings is read back from the array that writes it.
proof fn lemma_list_round_trip(items: Seq<Seq<char>>)
    ensures
        list_of(list_json(items)) == Some(items),
{
    let written = items.map_values(|t: Seq<char>| JsonView::Text(t));
    assert(written.map_values(|v: JsonView| v->Text_0) =~= items);
}

/// Dimensions are read back from the value that writes them.
proof fn lemma_dimensions_round_trip(dimensions: Option<(u32, u32)>)
    ensures
        dimensions_of(dimensions_json(dimensions)) == Some(dimensions),
{
}

/// The member at `i` is the one that a lookup of its name finds, where no
/// earlier member has that name.
proof fn lemma_member_at(members: Seq<(Seq<char>, JsonView)>, key: Seq<char>, i: int)
    requires
        0 <= i < members.len(),
        members[i].0 == key,
        forall|j: int| 0 <= j < i ==> (#[trigger] members[j]).0 != key,
    ensures
        member(members, key) == Some(members[i].1),
    decreases i,
{
    if i > 0 {
        let rest = members.drop_first();
        assert(members[0].0 != key);
        assert forall|j: int| 0 <= j < i - 1 implies (#[trigger] rest[j]).0 != key by {
            assert(rest[j] == members[j + 1]);
        }
        lemma_member_at(rest, key, i - 1);
    }
}

proof fn lemma_round_trip_image(m: MetaView)
    requires
        m.detail is Image,
    ensures
        decoded(m.kind(), encoded(m)) == Some(m),
{
    lemma_member_names();
    lemma_list_round_trip(m.tags);
    lemma_list_round_trip(m.detail->Image_colors);
    lemma_dimensions_round_trip(m.detail->Image_dimensions);
    let members = encoded_members(m);
    assert(members.len() == 13);
    lemma_member_at(members, "id"@, 0);
    lemma_member_at(members, "name"@, 1);
    lemma_member_at(members, "file_name"@, 2);
    lemma_member_at(members, "ref_type"@, 3);
    lemma_member_at(members, "media_type"@, 4);
    lemma_member_at(members, "dimensions"@, 5);
    lemma_member_at(members, "file_size"@, 6);
    lemma_member_at(members, "collection"@, 7);
    lemma_member_at(members, "colors"@, 8);
    lemma_member_at(members, "created_at"@, 9);
    lemma_member_at(members, "updated_at"@, 10);
    lemma_member_at(members, "note_text"@, 11);
    lemma_member_at(members, "tags"@, 12);
    assert(decoded_members(m.kind(), members) == Some(m));
}

proof fn lemma_round_trip_video(m: MetaView)
    requires
        m.detail is Video,
    ensures
        decoded(m.kind(), encoded(m)) == Some(m),
{
    lemma_member_names();
    lemma_list_round_trip(m.tags);
    let members = encoded_members(m);
    assert(members.len() == 11);
    lemma_member_at(members, "id"@, 0);
    lemma_member_at(members, "name"@, 1);
    lemma_member_at(members, "file_name"@, 2);
    lemma_member_at(members, "ref_type"@, 3);
    lemma_member_at(members, "media_type"@, 4);
    lemma_member_at(members, "file_size"@, 5);
    lemma_member_at(members, "collection"@, 6);
    lemma_member_at(members, "created_at"@, 7);
    lemma_member_at(members, "updated_at"@, 8);
    lemma_member_at(members, "note_text"@, 9);
    lemma_member_at(members, "tags"@, 10);
    assert(decoded_members(m.kind(), members) == Some(m));
}

proof fn lemma_round_trip_audio(m: MetaView)
    requires
        m.detail is Audio,
    ensures
        decoded(m.kind(), encoded(m)) == Some(m),
{
    lemma_member_names();
    lemma_list_round_trip(m.tags);
    let members = encoded_members(m);
    assert(members.len() == 11);
    lemma_member_at(members, "id"@, 0);
    lemma_member_at(members, "name"@, 1);
    lemma_member_at(members, "file_name"@, 2);
    lemma_member_at(members, "ref_type"@, 3);
    lemma_member_at(members, "media_type"@, 4);
    lemma_member_at(members, "file_size"@, 5);
    lemma_member_at(members, "collection"@, 6);
    lemma_member_at(members, "created_at"@, 7);
    lemma_member_at(members, "updated_at"@, 8);
    lemma_member_at(members, "note_text"@, 9);
    lemma_member_at(members, "tags"@, 10);
    assert(decoded_members(m.kind(), members) == Some(m));
}

proof fn lemma_round_trip_note(m: MetaView)
    requires
        m.detail is Note,
    ensures
        decoded(m.kind(), encoded(m)) == Some(m),
{
    lemma_member_names();
    lemma_list_round_trip(m.tags);
    let members = encoded_members(m);
    assert(members.len() == 8);
    lemma_member_at(members, "id"@, 0);
    lemma_member_at(members, "name"@, 1);
    lemma_member_at(members, "ref_type"@, 2);
    lemma_member_at(members, "collection"@, 3);
    lemma_member_at(members, "created_at"@, 4);
    lemma_member_at(members, "updated_at"@, 5);
    lemma_member_at(members, "note_text"@, 6);
    lemma_member_at(members, "tags"@, 7);
    assert(decoded_members(m.kind(), members) == Some(m));
}

proof fn lemma_round_trip_link(m: MetaView)
    requires
        m.detail is Link,
    ensures
        decoded(m.kind(), encoded(m)) == Some(m),
{
    lemma_member_names();
    lemma_list_round_trip(m.tags);
    let members = encoded_members(m);
    assert(members.len() == 9);
    lemma_member_at(members, "id"@, 0);
    lemma_member_at(members, "name"@, 1);
    lemma_member_at(members, "ref_type"@, 2);
    lemma_member_at(members, "source_uri"@, 3);
    lemma_member_at(members, "collection"@, 4);
    lemma_member_at(members, "created_at"@, 5);
    lemma_member_at(members, "updated_at"@, 6);
    lemma_member_at(members, "note_text"@, 7);
    lemma_member_at(members, "tags"@, 8);
    assert(decoded_members(m.kind(), members) == Some(m));
}

proof fn lemma_round_trip_doc(m: MetaView)
    requires
        m.detail is Doc,
    ensures
        decoded(m.kind(), encoded(m)) == Some(m),
{
    lemma_member_names();
    lemma_list_round_trip(m.tags);
    let members = encoded_members(m);
    assert(members.len() == 8);
    lemma_member_at(members, "id"@, 0);
    lemma_member_at(members, "name"@, 1);
    lemma_member_at(members, "ref_type"@, 2);
    lemma_member_at(members, "collection"@, 3);
    lemma_member_at(members, "created_at"@, 4);
    lemma_member_at(members, "updated_at"@, 5);
    lemma_member_at(members, "note_text"@, 6);
    lemma_member_at(members, "tags"@, 7);
    assert(decoded_members(m.kind(), members) == Some(m));
}

/// Round trip: the sidecar document of a record, read under the schema of
/// the record's kind, gives the record back.
pub proof fn lemma_round_trip(m: MetaView)
    ensures
        decoded(m.kind(), encoded(m)) == Some(m),
{
    match m.detail {
        DetailView::Image { .. } => lemma_round_trip_image(m),
        DetailView::Video { .. } => lemma_round_trip_video(m),
        DetailView::Audio { .. } => lemma_round_trip_audio(m),
        DetailView::Note => lemma_round_trip_note(m),
        DetailView::Link { .. } => lemma_round_trip_link(m),
        DetailView::Doc => lemma_round_trip_doc(m),
    }
}

} // verus!
