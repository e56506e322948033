use onlyref::parser::{find_sidecar, needs_text, parse_refs, ParseError, RefFile};
use onlyref::sidecar::write_sidecar;
use onlyref::state::{
    AudioMetadata, DocMetadata, ImageMetadata, LinkMetadata, NoteMetadata, Ref, RefKind, RefMeta,
    VideoMetadata,
};

fn s(text: &str) -> String {
    text.to_string()
}

fn file(path: &str, text: Option<String>) -> RefFile {
    let file_name = path.rsplit('/').next().unwrap_or(path).to_string();
    RefFile { path: s(path), file_name, text }
}

fn plain(path: &str) -> RefFile {
    file(path, None)
}

fn image_sidecar(id: &str) -> String {
    write_sidecar(&RefMeta::Image(ImageMetadata {
        id: s(id),
        name: s("Harbour"),
        file_name: s("photo.png"),
        ref_type: s("image"),
        media_type: s("image/png"),
        dimensions: Some((800, 600)),
        file_size: s("2.00MB"),
        collection: s("trip"),
        colors: vec![],
        created_at: s("c"),
        updated_at: s("u"),
        note_text: s(""),
        tags: vec![s("sea")],
    }))
}

fn video_sidecar() -> String {
    write_sidecar(&RefMeta::Video(VideoMetadata {
        id: s("V1"),
        name: s(""),
        file_name: s("clip.mp4"),
        ref_type: s("video"),
        media_type: s("video/mp4"),
        file_size: s("12.4MB"),
        collection: s("trip"),
        created_at: s("c"),
        updated_at: s("u"),
        note_text: s(""),
        tags: vec![],
    }))
}

fn audio_sidecar() -> String {
    write_sidecar(&RefMeta::Audio(AudioMetadata {
        id: s("AU"),
        name: s(""),
        file_name: s("waves.ogg"),
        ref_type: s("audio"),
        media_type: s("audio/ogg"),
        file_size: s("1B"),
        collection: s("trip"),
        created_at: s("c"),
        updated_at: s("u"),
        note_text: s(""),
        tags: vec![],
    }))
}

fn note_sidecar() -> String {
    write_sidecar(&RefMeta::Note(NoteMetadata {
        id: s("N1"),
        name: s("Ideas"),
        ref_type: s("note"),
        collection: s("work"),
        created_at: s("c"),
        updated_at: s("u"),
        note_text: s(""),
        tags: vec![],
    }))
}

fn link_sidecar() -> String {
    write_sidecar(&RefMeta::Link(LinkMetadata {
        id: s("L1"),
        name: s(""),
        ref_type: s("link"),
        source_uri: s("https://example.org"),
        collection: s("work"),
        created_at: s("c"),
        updated_at: s("u"),
        note_text: s(""),
        tags: vec![],
    }))
}

fn doc_sidecar() -> String {
    write_sidecar(&RefMeta::Doc(DocMetadata {
        id: s("D1"),
        name: s(""),
        ref_type: s("doc"),
        collection: s("work"),
        created_at: s("c"),
        updated_at: s("u"),
        note_text: s(""),
        tags: vec![],
    }))
}

#[test]
fn an_image_folder_gives_an_image_with_its_derivative() {
    let folder = vec![
        plain("/c/X/photo.png"),
        file("/c/X/metadata.image.json", Some(image_sidecar("X"))),
        plain("/c/X/lower_photo.png"),
    ];
    match parse_refs(&folder, "linux") {
        Ok(Ref::Image(image)) => {
            assert_eq!(image.image_path, "asset://localhost/%2Fc%2FX%2Fphoto.png");
            assert_eq!(image.low_res_imagepath, "asset://localhost/%2Fc%2FX%2Flower_photo.png");
            assert_eq!(image.metapath, "/c/X/metadata.image.json");
            let meta = image.metadata.expect("the sidecar gives the metadata");
            assert_eq!(meta.id, "X");
            assert_eq!(meta.tags, vec!["sea"]);
            assert_eq!(meta.dimensions, Some((800, 600)));
        }
        other => panic!("not an image: {:?}", other),
    }
}

#[test]
fn an_image_without_a_derivative_shows_itself() {
    let folder = vec![file("metadata.image.json", Some(image_sidecar("X"))), plain("photo.png")];
    match parse_refs(&folder, "windows") {
        Ok(Ref::Image(image)) => {
            assert_eq!(image.image_path, "https://asset.localhost/photo.png");
            assert_eq!(image.low_res_imagepath, "https://asset.localhost/photo.png");
        }
        other => panic!("not an image: {:?}", other),
    }
}

#[test]
fn an_image_folder_with_only_its_sidecar_has_no_links() {
    let folder = vec![file("metadata.image.json", Some(image_sidecar("X")))];
    match parse_refs(&folder, "linux") {
        Ok(Ref::Image(image)) => {
            assert_eq!(image.image_path, "");
            assert_eq!(image.low_res_imagepath, "");
            assert!(image.metadata.is_some());
        }
        other => panic!("not an image: {:?}", other),
    }
}

#[test]
fn the_last_file_of_a_role_counts() {
    let folder = vec![
        plain("a.png"),
        plain("lower_a.png"),
        file("metadata.image.json", Some(image_sidecar("X"))),
        plain("b.png"),
        plain("lower_b.png"),
    ];
    match parse_refs(&folder, "linux") {
        Ok(Ref::Image(image)) => {
            assert_eq!(image.image_path, "asset://localhost/b.png");
            assert_eq!(image.low_res_imagepath, "asset://localhost/lower_b.png");
        }
        other => panic!("not an image: {:?}", other),
    }
}

#[test]
fn every_kind_is_told_by_its_sidecar() {
    let parse = |sidecar: &str, text: String| {
        parse_refs(&vec![plain("asset.bin"), file(sidecar, Some(text))], "linux")
    };
    match parse("metadata.video.json", video_sidecar()) {
        Ok(Ref::Video(r)) => {
            assert_eq!(r.video_path, "asset://localhost/asset.bin");
            assert_eq!(r.metapath, "metadata.video.json");
            assert_eq!(r.metadata.map(|m| m.id), Some(s("V1")));
        }
        other => panic!("not a video: {:?}", other),
    }
    match parse("metadata.audio.json", audio_sidecar()) {
        Ok(Ref::Audio(r)) => {
            assert_eq!(r.audio_path, "asset://localhost/asset.bin");
            assert_eq!(r.metadata.map(|m| m.id), Some(s("AU")));
        }
        other => panic!("not an audio recording: {:?}", other),
    }
    match parse("metadata.link.json", link_sidecar()) {
        Ok(Ref::Link(r)) => {
            assert_eq!(r.snapshoot, "asset://localhost/asset.bin");
            assert_eq!(r.metadata.map(|m| m.source_uri), Some(s("https://example.org")));
        }
        other => panic!("not a link: {:?}", other),
    }
    match parse("metadata.doc.json", doc_sidecar()) {
        Ok(Ref::Doc(r)) => {
            assert_eq!(r.doc_path, "asset://localhost/asset.bin");
            assert_eq!(r.metadata.map(|m| m.id), Some(s("D1")));
        }
        other => panic!("not a document: {:?}", other),
    }
    match parse("metadata.note.json", note_sidecar()) {
        Ok(Ref::Note(r)) => {
            assert_eq!(r.content, "");
            assert_eq!(r.metadata.map(|m| m.id), Some(s("N1")));
        }
        other => panic!("not a note: {:?}", other),
    }
}

#[test]
fn a_note_takes_its_body_from_note_txt() {
    let folder = vec![
        file("/c/N1/note.txt", Some(s("remember the milk"))),
        plain("/c/N1/scribble.png"),
        file("/c/N1/metadata.note.json", Some(note_sidecar())),
    ];
    match parse_refs(&folder, "linux") {
        Ok(Ref::Note(note)) => {
            assert_eq!(note.content, "remember the milk");
            assert_eq!(note.metapath, "/c/N1/metadata.note.json");
        }
        other => panic!("not a note: {:?}", other),
    }
}

#[test]
fn a_folder_without_a_sidecar_is_unclassified() {
    assert_eq!(parse_refs(&Vec::new(), "linux").err(), Some(ParseError::Unclassified));
    let folder = vec![plain("photo.png"), plain("lower_photo.png"), file("note.txt", Some(s("x")))];
    assert_eq!(parse_refs(&folder, "linux").err(), Some(ParseError::Unclassified));
    let foreign = vec![file("metadata.json", Some(image_sidecar("X")))];
    assert_eq!(parse_refs(&foreign, "linux").err(), Some(ParseError::Unclassified));
    assert_eq!(
        ParseError::Unclassified.message(),
        "Invalid input: neither a media nor a note reference found"
    );
}

#[test]
fn a_sidecar_that_was_not_read_is_unreadable() {
    let folder = vec![plain("photo.png"), plain("metadata.image.json")];
    assert_eq!(parse_refs(&folder, "linux").err(), Some(ParseError::Unreadable));
    let note = vec![file("metadata.note.json", Some(note_sidecar())), plain("note.txt")];
    assert_eq!(parse_refs(&note, "linux").err(), Some(ParseError::Unreadable));
    assert!(!ParseError::Unreadable.message().is_empty());
}

#[test]
fn a_sidecar_off_its_schema_is_malformed() {
    let broken = vec![file("metadata.image.json", Some(s("random stuff")))];
    assert_eq!(parse_refs(&broken, "linux").err(), Some(ParseError::Malformed));
    let wrong_kind = vec![file("metadata.image.json", Some(note_sidecar()))];
    assert_eq!(parse_refs(&wrong_kind, "linux").err(), Some(ParseError::Malformed));
    assert!(!ParseError::Malformed.message().is_empty());
}

#[test]
fn the_first_failing_file_gives_the_error() {
    let folder = vec![
        file("metadata.note.json", Some(s("{}"))),
        plain("note.txt"),
    ];
    assert_eq!(parse_refs(&folder, "linux").err(), Some(ParseError::Malformed));
    let folder = vec![
        plain("note.txt"),
        file("metadata.note.json", Some(s("{}"))),
    ];
    assert_eq!(parse_refs(&folder, "linux").err(), Some(ParseError::Unreadable));
}

#[test]
fn the_first_sidecar_names_the_kind() {
    let folder = vec![
        plain("metadata.video.json"),
        file("metadata.image.json", Some(image_sidecar("X"))),
    ];
    assert_eq!(find_sidecar(&folder), Some(RefKind::Video));
    assert_eq!(parse_refs(&folder, "linux").err(), Some(ParseError::Unreadable));
    let folder = vec![
        file("metadata.image.json", Some(image_sidecar("X"))),
        plain("metadata.video.json"),
    ];
    assert_eq!(find_sidecar(&folder), Some(RefKind::Image));
    match parse_refs(&folder, "linux") {
        Ok(Ref::Image(image)) => assert_eq!(image.image_path, "asset://localhost/metadata.video.json"),
        other => panic!("not an image: {:?}", other),
    }
    assert_eq!(find_sidecar(&vec![plain("a"), plain("b")]), None);
}

#[test]
fn only_sidecars_and_note_bodies_are_read() {
    assert!(needs_text("metadata.image.json"));
    assert!(needs_text("metadata.doc.json"));
    assert!(needs_text("note.txt"));
    assert!(!needs_text("photo.png"));
    assert!(!needs_text("note.text"));
    assert!(!needs_text(""));
}
