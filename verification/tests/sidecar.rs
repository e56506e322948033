use onlyref::sidecar::{
    decode, deserialize_file_size, encode, encode_ref, read_sidecar, sidecar_kind, sidecar_name,
    write_ref, write_sidecar,
};
use onlyref::state::{
    AudioMetadata, DocMetadata, ImageMetadata, ImageRef, LinkMetadata, NoteMetadata, NoteRef, Ref,
    RefKind, RefMeta, VideoMetadata,
};

fn s(text: &str) -> String {
    text.to_string()
}

fn image() -> ImageMetadata {
    ImageMetadata {
        id: s("A1B2C3"),
        name: s("Harbour"),
        file_name: s("photo.png"),
        ref_type: s("image"),
        media_type: s("image/png"),
        dimensions: Some((800, 600)),
        file_size: s("2.00MB"),
        collection: s("trip"),
        colors: vec![s("#112233"), s("#ffffff")],
        created_at: s("2024-05-01 10:00:00.000000001 +02:00"),
        updated_at: s("2024-05-02 11:30:00.5 +02:00"),
        note_text: s("seen from the \"pier\"\nat dusk"),
        tags: vec![s("sea"), s("sea"), s("evening light")],
    }
}

fn video() -> VideoMetadata {
    VideoMetadata {
        id: s("V1"),
        name: s(""),
        file_name: s("clip.mp4"),
        ref_type: s("video"),
        media_type: s("video/mp4"),
        file_size: s("12.4MB"),
        collection: s("trip"),
        created_at: s("c"),
        updated_at: s("u"),
        note_text: s(""),
        tags: vec![],
    }
}

fn audio() -> AudioMetadata {
    AudioMetadata {
        id: s("AU"),
        name: s("Waves"),
        file_name: s("waves.ogg"),
        ref_type: s("audio"),
        media_type: s("audio/ogg"),
        file_size: s("999B"),
        collection: s("trip"),
        created_at: s("c"),
        updated_at: s("u"),
        note_text: s("n"),
        tags: vec![s("loop")],
    }
}

fn note() -> NoteMetadata {
    NoteMetadata {
        id: s("N1"),
        name: s("Ideas"),
        ref_type: s("note"),
        collection: s("work"),
        created_at: s("c"),
        updated_at: s("u"),
        note_text: s("first"),
        tags: vec![s("todo")],
    }
}

fn link() -> LinkMetadata {
    LinkMetadata {
        id: s("L1"),
        name: s("Docs"),
        ref_type: s("link"),
        source_uri: s("https://example.org/a?b=c&d=é"),
        collection: s("work"),
        created_at: s("c"),
        updated_at: s("u"),
        note_text: s(""),
        tags: vec![],
    }
}

fn doc() -> DocMetadata {
    DocMetadata {
        id: s("D1"),
        name: s("Paper"),
        ref_type: s("doc"),
        collection: s("work"),
        created_at: s("c"),
        updated_at: s("u"),
        note_text: s(""),
        tags: vec![s("pdf")],
    }
}

fn all_kinds() -> Vec<RefMeta> {
    vec![
        RefMeta::Image(image()),
        RefMeta::Video(video()),
        RefMeta::Audio(audio()),
        RefMeta::Note(note()),
        RefMeta::Link(link()),
        RefMeta::Doc(doc()),
    ]
}

#[test]
fn each_kind_has_its_sidecar_name() {
    assert_eq!(sidecar_name(RefKind::Image), "metadata.image.json");
    assert_eq!(sidecar_name(RefKind::Video), "metadata.video.json");
    assert_eq!(sidecar_name(RefKind::Audio), "metadata.audio.json");
    assert_eq!(sidecar_name(RefKind::Note), "metadata.note.json");
    assert_eq!(sidecar_name(RefKind::Link), "metadata.link.json");
    assert_eq!(sidecar_name(RefKind::Doc), "metadata.doc.json");
    for kind in [
        RefKind::Image,
        RefKind::Video,
        RefKind::Audio,
        RefKind::Note,
        RefKind::Link,
        RefKind::Doc,
    ] {
        assert_eq!(sidecar_kind(sidecar_name(kind)), Some(kind));
    }
}

#[test]
fn other_names_are_no_sidecars() {
    assert_eq!(sidecar_kind("metadata.json"), None);
    assert_eq!(sidecar_kind("Metadata.image.json"), None);
    assert_eq!(sidecar_kind("metadata.image.json.bak"), None);
    assert_eq!(sidecar_kind("lower_metadata.image.json"), None);
    assert_eq!(sidecar_kind("note.txt"), None);
    assert_eq!(sidecar_kind(""), None);
}

#[test]
fn the_sidecar_of_an_image_is_written_field_by_field() {
    let text = write_sidecar(&RefMeta::Image(image()));
    let expected = r##"{
  "id": "A1B2C3",
  "name": "Harbour",
  "file_name": "photo.png",
  "ref_type": "image",
  "media_type": "image/png",
  "dimensions": [
    800,
    600
  ],
  "file_size": "2.00MB",
  "collection": "trip",
  "colors": [
    "#112233",
    "#ffffff"
  ],
  "created_at": "2024-05-01 10:00:00.000000001 +02:00",
  "updated_at": "2024-05-02 11:30:00.5 +02:00",
  "note_text": "seen from the \"pier\"\nat dusk",
  "tags": [
    "sea",
    "sea",
    "evening light"
  ]
}"##;
    assert_eq!(text, expected);
}

#[test]
fn the_sidecar_of_a_link_is_written_field_by_field() {
    let text = write_sidecar(&RefMeta::Link(link()));
    let expected = r##"{
  "id": "L1",
  "name": "Docs",
  "ref_type": "link",
  "source_uri": "https://example.org/a?b=c&d=é",
  "collection": "work",
  "created_at": "c",
  "updated_at": "u",
  "note_text": "",
  "tags": []
}"##;
    assert_eq!(text, expected);
}

#[test]
fn an_image_without_dimensions_writes_null() {
    let mut meta = image();
    meta.dimensions = None;
    let text = write_sidecar(&RefMeta::Image(meta));
    assert!(text.contains("\"dimensions\": null,"));
    let value: serde_json::Value = serde_json::from_str(&text).expect("the sidecar is JSON");
    assert!(value["dimensions"].is_null());
    assert_eq!(value["tags"][2], "evening light");
}

#[test]
fn every_kind_reads_back_what_it_wrote() {
    for meta in all_kinds() {
        let kind = meta.kind();
        let text = write_sidecar(&meta);
        let back = read_sidecar(kind, &text).expect("a sidecar reads back");
        assert_eq!(back.kind(), kind);
        assert_eq!(write_sidecar(&back), text);
        let doc = encode(&meta);
        let again = decode(kind, &doc).expect("a document decodes");
        assert_eq!(write_sidecar(&again), text);
    }
}

#[test]
fn an_image_reads_back_field_by_field() {
    let text = write_sidecar(&RefMeta::Image(image()));
    match read_sidecar(RefKind::Image, &text) {
        Some(RefMeta::Image(back)) => {
            let meta = image();
            assert_eq!(back.id, meta.id);
            assert_eq!(back.name, meta.name);
            assert_eq!(back.file_name, meta.file_name);
            assert_eq!(back.ref_type, meta.ref_type);
            assert_eq!(back.media_type, meta.media_type);
            assert_eq!(back.dimensions, meta.dimensions);
            assert_eq!(back.file_size, meta.file_size);
            assert_eq!(back.collection, meta.collection);
            assert_eq!(back.colors, meta.colors);
            assert_eq!(back.created_at, meta.created_at);
            assert_eq!(back.updated_at, meta.updated_at);
            assert_eq!(back.note_text, meta.note_text);
            assert_eq!(back.tags, meta.tags);
        }
        _ => panic!("the sidecar of an image reads as an image"),
    }
}

#[test]
fn a_link_keeps_its_address_through_a_rewrite() {
    let text = write_sidecar(&RefMeta::Link(link()));
    match read_sidecar(RefKind::Link, &text) {
        Some(RefMeta::Link(back)) => assert_eq!(back.source_uri, "https://example.org/a?b=c&d=é"),
        _ => panic!("the sidecar of a link reads as a link"),
    }
}

#[test]
fn media_sidecars_may_lack_note_and_tags() {
    let text = r#"{"id":"X","name":"n","file_name":"f.png","ref_type":"image","media_type":"image/png",
        "file_size":"1B","collection":"c","colors":[],"created_at":"a","updated_at":"b","extra":{"k":[1,2.5,-3]}}"#;
    match read_sidecar(RefKind::Image, text) {
        Some(RefMeta::Image(meta)) => {
            assert_eq!(meta.note_text, "");
            assert!(meta.tags.is_empty());
            assert_eq!(meta.dimensions, None);
            assert_eq!(meta.id, "X");
        }
        _ => panic!("an older sidecar still reads"),
    }
    let video = r#"{"id":"X","name":"n","file_name":"f.mp4","ref_type":"video","media_type":"video/mp4",
        "file_size":"1B","collection":"c","created_at":"a","updated_at":"b"}"#;
    assert!(read_sidecar(RefKind::Video, video).is_some());
    assert!(read_sidecar(RefKind::Audio, video).is_some());
    assert!(read_sidecar(RefKind::Image, video).is_none());
}

#[test]
fn plain_sidecars_need_their_note_but_not_their_tags() {
    let full = r#"{"id":"X","name":"n","ref_type":"note","collection":"c","created_at":"a",
        "updated_at":"b","note_text":"t","tags":["x"]}"#;
    assert!(read_sidecar(RefKind::Note, full).is_some());
    assert!(read_sidecar(RefKind::Doc, full).is_some());
    assert!(read_sidecar(RefKind::Link, full).is_none());
    let no_tags = r#"{"id":"X","name":"n","ref_type":"note","collection":"c","created_at":"a",
        "updated_at":"b","note_text":"t"}"#;
    for kind in [RefKind::Note, RefKind::Doc] {
        match read_sidecar(kind, no_tags) {
            Some(RefMeta::Note(meta)) => assert!(meta.tags.is_empty() && meta.note_text == "t"),
            Some(RefMeta::Doc(meta)) => assert!(meta.tags.is_empty() && meta.id == "X"),
            _ => panic!("a sidecar without tags reads"),
        }
    }
    let link_no_tags = no_tags.replace("\"id\"", "\"source_uri\":\"u\",\"id\"");
    match read_sidecar(RefKind::Link, &link_no_tags) {
        Some(RefMeta::Link(meta)) => assert!(meta.tags.is_empty() && meta.source_uri == "u"),
        _ => panic!("a link sidecar without tags reads"),
    }
    let bad_tags = no_tags.replace("\"note_text\"", "\"tags\":null,\"note_text\"");
    assert!(read_sidecar(RefKind::Note, &bad_tags).is_none());
    let no_note = r#"{"id":"X","name":"n","ref_type":"note","collection":"c","created_at":"a",
        "updated_at":"b","tags":[]}"#;
    assert!(read_sidecar(RefKind::Note, no_note).is_none());
}

#[test]
fn a_file_size_given_as_a_number_is_written_out() {
    let text = r#"{"id":"X","name":"n","file_name":"f.mp4","ref_type":"video","media_type":"video/mp4",
        "file_size":2000000,"collection":"c","created_at":"a","updated_at":"b"}"#;
    match read_sidecar(RefKind::Video, text) {
        Some(RefMeta::Video(meta)) => assert_eq!(meta.file_size, "2.00MB"),
        _ => panic!("a numeric file size reads"),
    }
    let negative = text.replace("2000000", "-1");
    assert!(read_sidecar(RefKind::Video, &negative).is_none());
    let fraction = text.replace("2000000", "1.5");
    assert!(read_sidecar(RefKind::Video, &fraction).is_none());
    let flag = text.replace("2000000", "true");
    assert!(read_sidecar(RefKind::Video, &flag).is_none());
}

#[test]
fn dimensions_are_null_or_a_pair_of_whole_numbers() {
    let with = |dimensions: &str| {
        format!(
            r#"{{"id":"X","name":"n","file_name":"f.png","ref_type":"image","media_type":"image/png",
            "dimensions":{},"file_size":"1B","collection":"c","colors":[],"created_at":"a","updated_at":"b"}}"#,
            dimensions
        )
    };
    let read = |dimensions: &str| match read_sidecar(RefKind::Image, &with(dimensions)) {
        Some(RefMeta::Image(meta)) => Some(meta.dimensions),
        _ => None,
    };
    assert_eq!(read("null"), Some(None));
    assert_eq!(read("[1200, 900]"), Some(Some((1200, 900))));
    assert_eq!(read("[4294967295, 0]"), Some(Some((4294967295, 0))));
    assert_eq!(read("[4294967296, 0]"), None);
    assert_eq!(read("[1]"), None);
    assert_eq!(read("[1, 2, 3]"), None);
    assert_eq!(read("[1.5, 2]"), None);
    assert_eq!(read("[-1, 2]"), None);
    assert_eq!(read("\"800x600\""), None);
}

#[test]
fn what_is_no_sidecar_is_not_read() {
    assert!(read_sidecar(RefKind::Note, "").is_none());
    assert!(read_sidecar(RefKind::Note, "random stuff").is_none());
    assert!(read_sidecar(RefKind::Note, "[]").is_none());
    assert!(read_sidecar(RefKind::Note, "{}").is_none());
    assert!(read_sidecar(RefKind::Note, "null").is_none());
    let text = write_sidecar(&RefMeta::Note(note()));
    assert!(read_sidecar(RefKind::Note, &text[..text.len() - 1]).is_none());
    assert!(read_sidecar(RefKind::Note, &text.replace("\"Ideas\"", "null")).is_none());
    assert!(read_sidecar(RefKind::Note, &text.replace("\"todo\"", "7")).is_none());
    assert!(read_sidecar(RefKind::Image, &text).is_none());
}

#[test]
fn a_document_is_built_member_by_member() {
    let doc = encode(&RefMeta::Note(note()));
    let names: Vec<&String> = doc.as_object().expect("an object").keys().collect();
    assert_eq!(
        names,
        vec!["id", "name", "ref_type", "collection", "created_at", "updated_at", "note_text", "tags"]
    );
    assert_eq!(doc["id"], serde_json::Value::String(s("N1")));
    assert_eq!(doc["tags"], serde_json::Value::Array(vec![serde_json::Value::String(s("todo"))]));
    let image = encode(&RefMeta::Image(image()));
    assert_eq!(image["dimensions"][0].as_u64(), Some(800));
    assert_eq!(image["dimensions"][1].as_u64(), Some(600));
    assert_eq!(image["colors"].as_array().map(|a| a.len()), Some(2));
    assert_eq!(image.as_object().map(|o| o.len()), Some(13));
}

#[test]
fn a_document_is_read_whatever_the_order_of_its_members() {
    let doc: serde_json::Value = serde_json::from_str(
        r#"{"tags":["b","a"],"note_text":"t","updated_at":"u","created_at":"c","collection":"w",
            "ref_type":"note","name":"n","id":"N9","unknown":null}"#,
    )
    .expect("a document");
    match decode(RefKind::Note, &doc) {
        Some(RefMeta::Note(meta)) => {
            assert_eq!(meta.id, "N9");
            assert_eq!(meta.tags, vec!["b", "a"]);
            assert_eq!(meta.note_text, "t");
        }
        _ => panic!("a note decodes"),
    }
    assert!(decode(RefKind::Link, &doc).is_none());
    assert!(decode(RefKind::Note, &serde_json::Value::Null).is_none());
    assert!(decode(RefKind::Note, &serde_json::Value::Array(vec![doc])).is_none());
}

#[test]
fn a_file_size_is_text_or_a_byte_count() {
    assert_eq!(deserialize_file_size(&serde_json::Value::String(s("3.21GB"))), Ok(s("3.21GB")));
    assert_eq!(deserialize_file_size(&serde_json::Value::from(20u64)), Ok(s("20B")));
    assert_eq!(deserialize_file_size(&serde_json::Value::from(1_234_567u64)), Ok(s("1.24MB")));
    let invalid = Err(s("Invalid file_size value"));
    assert_eq!(deserialize_file_size(&serde_json::Value::Null), invalid);
    assert_eq!(deserialize_file_size(&serde_json::Value::Bool(true)), invalid);
    assert_eq!(deserialize_file_size(&serde_json::Value::from(-5i64)), invalid);
    assert_eq!(deserialize_file_size(&serde_json::Value::Array(vec![])), invalid);
}

#[test]
fn a_reference_is_written_for_the_shell_with_its_metadata() {
    let reference = Ref::Image(ImageRef {
        image_path: s("asset://localhost/a.png"),
        low_res_imagepath: s("asset://localhost/lower_a.png"),
        metadata: Some(image()),
        metapath: s("/c/X/metadata.image.json"),
    });
    let value: serde_json::Value =
        serde_json::from_str(&write_ref(&reference)).expect("the document is JSON");
    let members: Vec<&String> = value.as_object().expect("an object").keys().collect();
    assert_eq!(members, vec!["image_path", "low_res_imagepath", "metadata", "metapath"]);
    assert_eq!(value["image_path"], "asset://localhost/a.png");
    assert_eq!(value["low_res_imagepath"], "asset://localhost/lower_a.png");
    assert_eq!(value["metapath"], "/c/X/metadata.image.json");
    let sidecar: serde_json::Value =
        serde_json::from_str(&write_sidecar(&RefMeta::Image(image()))).expect("the sidecar is JSON");
    assert_eq!(value["metadata"], sidecar);

    assert_eq!(encode_ref(&reference), value);

    let bare = Ref::Note(NoteRef { content: s("body"), metadata: None, metapath: s("m") });
    assert_eq!(
        write_ref(&bare),
        "{\n  \"content\": \"body\",\n  \"metadata\": null,\n  \"metapath\": \"m\"\n}"
    );
}
