use std::io::Cursor;

use onlyref::catalog::{Catalog, CatalogError};
use onlyref::commands::{
    generate_audio_metadata, generate_doc_metadata, generate_id, generate_image_metadata,
    generate_link_metadata, generate_note_metadata, generate_video_metadata, id_of_draws,
};
use onlyref::media::extract_colors;
use onlyref::parser::{ParseError, RefFile};
use onlyref::sidecar::{read_sidecar, write_sidecar};
use onlyref::state::{
    AudioMetadata, DocMetadata, ImageMetadata, LinkMetadata, NoteMetadata, Ref, RefKind, RefMeta,
    VideoMetadata,
};
use onlyref::utils::fetch_refs;

fn s(text: &str) -> String {
    text.to_string()
}

/// A picture of 800 by 600 in eight vertical bands, in a file of two million
/// bytes.
fn photo() -> Vec<u8> {
    let colors: [[u8; 3]; 8] = [
        [230, 25, 75],
        [60, 180, 75],
        [255, 225, 25],
        [0, 130, 200],
        [245, 130, 48],
        [145, 30, 180],
        [70, 240, 240],
        [10, 10, 10],
    ];
    let picture = image::RgbImage::from_fn(800, 600, |x, _| image::Rgb(colors[(x / 100) as usize]));
    let mut bytes = Cursor::new(Vec::new());
    image::DynamicImage::ImageRgb8(picture)
        .write_to(&mut bytes, image::ImageOutputFormat::Png)
        .expect("a picture in memory encodes");
    let mut bytes = bytes.into_inner();
    assert!(bytes.len() < 2_000_000);
    bytes.resize(2_000_000, 0);
    bytes
}

fn ids(catalog: &Catalog) -> Vec<String> {
    catalog.get_all_refs().iter().map(|r| r.get_id().to_string()).collect()
}

fn name_of(catalog: &Catalog, at: usize) -> String {
    match catalog.get_all_refs()[at].get_ref_meta().expect("metadata") {
        RefMeta::Image(m) => m.name,
        RefMeta::Video(m) => m.name,
        RefMeta::Audio(m) => m.name,
        RefMeta::Note(m) => m.name,
        RefMeta::Link(m) => m.name,
        RefMeta::Doc(m) => m.name,
    }
}

fn tags_of(catalog: &Catalog, at: usize) -> Vec<String> {
    match catalog.get_all_refs()[at].get_ref_meta().expect("metadata") {
        RefMeta::Image(m) => m.tags,
        RefMeta::Video(m) => m.tags,
        RefMeta::Audio(m) => m.tags,
        RefMeta::Note(m) => m.tags,
        RefMeta::Link(m) => m.tags,
        RefMeta::Doc(m) => m.tags,
    }
}

fn sample() -> Catalog {
    let mut catalog = Catalog::new();
    let video = VideoMetadata::new(s("V1"), "clip.mp4", 12_345_678, "trip").expect("metadata");
    generate_video_metadata(&mut catalog, video, "/c/V1/clip.mp4", "/c/V1/metadata.video.json", "linux");
    let note = NoteMetadata::new("N1", "work").expect("metadata");
    generate_note_metadata(&mut catalog, note, "body", "/c/N1/metadata.note.json");
    let link = LinkMetadata::new("L1", "https://example.org", "work").expect("metadata");
    generate_link_metadata(&mut catalog, link, "/c/L1/metadata.link.json");
    catalog
}

#[test]
fn ingesting_an_image_adds_one_record_and_the_patch_fills_its_colours() {
    let media = photo();
    let mut catalog = Catalog::new();
    let metadata = ImageMetadata::new(s("X"), "photo.png", &media, "trip").expect("metadata");
    assert_eq!(metadata.id, "X");
    assert_eq!(metadata.name, "");
    assert_eq!(metadata.file_name, "photo.png");
    assert_eq!(metadata.ref_type, "image");
    assert_eq!(metadata.media_type, "image/png");
    assert_eq!(metadata.dimensions, Some((800, 600)));
    assert_eq!(metadata.file_size, "2.00MB");
    assert_eq!(metadata.collection, "trip");
    assert!(metadata.colors.is_empty());
    assert!(metadata.tags.is_empty());
    assert!(!metadata.created_at.is_empty());

    let new_ref = generate_image_metadata(
        &mut catalog,
        metadata,
        "/c/X/photo.png",
        Some("/c/X/lower_photo.png"),
        "/c/X/metadata.image.json",
        "linux",
    );
    assert_eq!(new_ref.image_path, "asset://localhost/%2Fc%2FX%2Fphoto.png");
    assert_eq!(new_ref.low_res_imagepath, "asset://localhost/%2Fc%2FX%2Flower_photo.png");
    assert_eq!(catalog.len(), 1);
    match &catalog.get_all_refs()[0] {
        Ref::Image(image) => {
            assert_eq!(image.metapath, "/c/X/metadata.image.json");
            assert!(image.metadata.as_ref().expect("metadata").colors.is_empty());
        }
        other => panic!("not an image: {:?}", other),
    }

    let colors = extract_colors("/c/X/photo.png", &media);
    assert_eq!(colors.len(), 8);
    let write = catalog.set_colors("X", colors.clone()).expect("the record is there");
    assert_eq!(write.path, "/c/X/metadata.image.json");
    match read_sidecar(RefKind::Image, &write.text) {
        Some(RefMeta::Image(on_disk)) => assert_eq!(on_disk.colors, colors),
        _ => panic!("the sidecar of an image reads as an image"),
    }
    match &catalog.get_all_refs()[0] {
        Ref::Image(image) => assert_eq!(image.metadata.as_ref().expect("metadata").colors, colors),
        other => panic!("not an image: {:?}", other),
    }
    for color in &colors {
        assert_eq!(color.len(), 7);
        assert!(color.starts_with('#'));
    }
}

#[test]
fn an_image_without_a_derivative_shows_itself_in_lists() {
    let mut catalog = Catalog::new();
    let metadata = ImageMetadata::new(s("X"), "anim.gif", &[], "trip").expect("metadata");
    assert_eq!(metadata.file_size, "0B");
    assert_eq!(metadata.dimensions, None);
    assert_eq!(metadata.media_type, "image/gif");
    let new_ref =
        generate_image_metadata(&mut catalog, metadata, "/c/X/anim.gif", None, "/c/X/m.json", "linux");
    assert_eq!(new_ref.low_res_imagepath, new_ref.image_path);
    assert_eq!(new_ref.image_path, "asset://localhost/%2Fc%2FX%2Fanim.gif");
}

#[test]
fn renaming_a_record_shows_in_memory_and_in_its_sidecar() {
    let mut catalog = sample();
    let write = catalog.rename_ref("N1", "Sunset").expect("the record is there");
    assert_eq!(write.path, "/c/N1/metadata.note.json");
    let value: serde_json::Value = serde_json::from_str(&write.text).expect("the sidecar is JSON");
    assert_eq!(value["name"], "Sunset");
    assert_eq!(value["id"], "N1");
    assert_eq!(name_of(&catalog, 1), "Sunset");
    assert_eq!(name_of(&catalog, 0), "");
    assert_eq!(name_of(&catalog, 2), "");
    assert_eq!(ids(&catalog), vec!["V1", "N1", "L1"]);
}

#[test]
fn removing_a_record_drops_it_and_nothing_else() {
    let mut catalog = sample();
    catalog.remove_ref("N1");
    assert_eq!(ids(&catalog), vec!["V1", "L1"]);
    assert_eq!(catalog.find_by_id("N1"), None);
    catalog.remove_ref("N1");
    assert_eq!(ids(&catalog), vec!["V1", "L1"]);
    catalog.remove_ref("V1");
    catalog.remove_ref("L1");
    assert_eq!(catalog.len(), 0);
    catalog.remove_ref("L1");
    assert_eq!(catalog.len(), 0);
}

#[test]
fn removing_drops_every_record_with_the_identifier() {
    let mut catalog = sample();
    let twin = NoteMetadata::new("V1", "work").expect("metadata");
    generate_note_metadata(&mut catalog, twin, "", "/c/other/metadata.note.json");
    assert_eq!(ids(&catalog), vec!["V1", "N1", "L1", "V1"]);
    assert_eq!(catalog.find_by_id("V1"), Some(0));
    catalog.remove_ref("V1");
    assert_eq!(ids(&catalog), vec!["N1", "L1"]);
}

#[test]
fn records_are_found_by_identifier() {
    let catalog = sample();
    assert_eq!(catalog.find_by_id("V1"), Some(0));
    assert_eq!(catalog.find_by_id("N1"), Some(1));
    assert_eq!(catalog.find_by_id("L1"), Some(2));
    assert_eq!(catalog.find_by_id("l1"), None);
    assert_eq!(catalog.find_by_id(""), None);
    assert_eq!(Catalog::new().find_by_id("V1"), None);
}

#[test]
fn an_edit_of_a_missing_record_is_refused() {
    let mut catalog = sample();
    assert_eq!(catalog.rename_ref("nope", "x").err(), Some(CatalogError::NotFound));
    assert_eq!(catalog.add_tag("nope", "x").err(), Some(CatalogError::NotFound));
    assert_eq!(catalog.remove_tag("nope", "x").err(), Some(CatalogError::NotFound));
    assert_eq!(catalog.mutate_note("nope", "x").err(), Some(CatalogError::NotFound));
    assert_eq!(catalog.set_colors("nope", vec![]).err(), Some(CatalogError::NotFound));
    assert_eq!(catalog.change_note_content("nope", "x").err(), Some(CatalogError::NotFound));
    assert_eq!(catalog.set_snapshot("nope", "/p", "linux").err(), Some(CatalogError::NotFound));
    assert_eq!(ids(&catalog), vec!["V1", "N1", "L1"]);
    assert_eq!(CatalogError::NotFound.message("nope"), "Reference with ID 'nope' not found");
}

#[test]
fn an_edit_of_the_wrong_kind_is_refused() {
    let mut catalog = sample();
    assert_eq!(catalog.set_colors("V1", vec![s("#000000")]).err(), Some(CatalogError::WrongKind));
    assert_eq!(catalog.change_note_content("V1", "x").err(), Some(CatalogError::WrongKind));
    assert_eq!(catalog.set_snapshot("N1", "/p", "linux").err(), Some(CatalogError::WrongKind));
    assert_eq!(CatalogError::WrongKind.message("V1"), "Invalid reference type for 'V1'");
    match &catalog.get_all_refs()[1] {
        Ref::Note(note) => assert_eq!(note.content, "body"),
        other => panic!("not a note: {:?}", other),
    }
}

#[test]
fn tags_are_appended_and_removed_by_value() {
    let mut catalog = sample();
    let write = catalog.add_tag("V1", "sea").expect("the record is there");
    assert_eq!(write.path, "/c/V1/metadata.video.json");
    catalog.add_tag("V1", "sky").expect("the record is there");
    catalog.add_tag("V1", "sea").expect("the record is there");
    assert_eq!(tags_of(&catalog, 0), vec!["sea", "sky", "sea"]);
    let write = catalog.remove_tag("V1", "sea").expect("the record is there");
    assert_eq!(tags_of(&catalog, 0), vec!["sea", "sky"]);
    match read_sidecar(RefKind::Video, &write.text) {
        Some(RefMeta::Video(on_disk)) => assert_eq!(on_disk.tags, vec!["sea", "sky"]),
        _ => panic!("the sidecar of a video reads as a video"),
    }
    catalog.remove_tag("V1", "absent").expect("the record is there");
    assert_eq!(tags_of(&catalog, 0), vec!["sea", "sky"]);
    assert!(tags_of(&catalog, 1).is_empty());
}

#[test]
fn adding_a_tag_that_is_there_and_removing_it_restores_the_tags() {
    let mut catalog = sample();
    catalog.add_tag("L1", "a").expect("the record is there");
    catalog.add_tag("L1", "b").expect("the record is there");
    catalog.add_tag("L1", "a").expect("the record is there");
    catalog.remove_tag("L1", "a").expect("the record is there");
    assert_eq!(tags_of(&catalog, 2), vec!["a", "b"]);
}

#[test]
fn the_timed_edits_of_a_catalogue_stamp_the_time_given() {
    let mut catalog = sample();
    let stamp = |catalog: &Catalog, at: usize| -> String {
        match catalog.get_all_refs()[at].get_ref_meta().expect("metadata") {
            RefMeta::Video(m) => m.updated_at,
            RefMeta::Note(m) => m.updated_at,
            RefMeta::Link(m) => m.updated_at,
            _ => panic!("the sample holds a video, a note and a link"),
        }
    };
    let write = catalog.rename_ref_at("N1", "Sunset", s("t1")).expect("the record is there");
    assert_eq!(name_of(&catalog, 1), "Sunset");
    assert_eq!(stamp(&catalog, 1), "t1");
    match read_sidecar(RefKind::Note, &write.text) {
        Some(RefMeta::Note(on_disk)) => {
            assert_eq!(on_disk.name, "Sunset");
            assert_eq!(on_disk.updated_at, "t1");
        }
        _ => panic!("the sidecar of a note reads as a note"),
    }
    catalog.add_tag_at("N1", "a", s("t2")).expect("the record is there");
    assert_eq!(stamp(&catalog, 1), "t2");
    catalog.remove_tag_at("N1", "a", s("t3")).expect("the record is there");
    assert_eq!(stamp(&catalog, 1), "t3");
    assert!(tags_of(&catalog, 1).is_empty());
    let write = catalog.mutate_note_at("N1", "text", s("t4")).expect("the record is there");
    assert_eq!(stamp(&catalog, 1), "t4");
    assert!(write.text.contains("\"updated_at\": \"t4\""));
    assert_eq!(catalog.rename_ref_at("nope", "x", s("t")).err(), Some(CatalogError::NotFound));
    assert_eq!(catalog.mutate_note_at("nope", "x", s("t")).err(), Some(CatalogError::NotFound));
    assert_ne!(stamp(&catalog, 0), "t4");
}

#[test]
fn identifiers_are_written_from_the_numbers_drawn() {
    assert_eq!(id_of_draws(&vec![]), "");
    assert_eq!(id_of_draws(&vec![0, 25, 26, 35]), "AZ09");
    assert_eq!(id_of_draws(&vec![7, 4, 11, 11, 14, 27]), "HELLO1");
}

#[test]
fn adding_a_tag_and_removing_it_restores_the_tags() {
    let mut catalog = sample();
    catalog.add_tag("L1", "a").expect("the record is there");
    catalog.add_tag("L1", "b").expect("the record is there");
    let before = tags_of(&catalog, 2);
    catalog.add_tag("L1", "c").expect("the record is there");
    catalog.remove_tag("L1", "c").expect("the record is there");
    assert_eq!(tags_of(&catalog, 2), before);
}

#[test]
fn the_note_of_a_record_and_the_body_of_a_note_are_two_things() {
    let mut catalog = sample();
    let write = catalog.mutate_note("N1", "in the sidecar").expect("the record is there");
    match read_sidecar(RefKind::Note, &write.text) {
        Some(RefMeta::Note(on_disk)) => assert_eq!(on_disk.note_text, "in the sidecar"),
        _ => panic!("the sidecar of a note reads as a note"),
    }
    catalog.change_note_content("N1", "in the body").expect("the note is there");
    match &catalog.get_all_refs()[1] {
        Ref::Note(note) => {
            assert_eq!(note.content, "in the body");
            assert_eq!(note.metadata.as_ref().expect("metadata").note_text, "in the sidecar");
        }
        other => panic!("not a note: {:?}", other),
    }
}

#[test]
fn a_snapshot_is_linked_once_it_was_taken() {
    let mut catalog = sample();
    match &catalog.get_all_refs()[2] {
        Ref::Link(link) => assert_eq!(link.snapshoot, ""),
        other => panic!("not a link: {:?}", other),
    }
    catalog.set_snapshot("L1", "/c/snapshot.png", "linux").expect("the link is there");
    match &catalog.get_all_refs()[2] {
        Ref::Link(link) => assert_eq!(link.snapshoot, "asset://localhost/%2Fc%2Fsnapshot.png"),
        other => panic!("not a link: {:?}", other),
    }
}

#[test]
fn every_kind_can_be_entered() {
    let mut catalog = sample();
    let audio = AudioMetadata::new(s("A1"), "waves.ogg", 999, "trip").expect("metadata");
    assert_eq!(audio.file_size, "999B");
    assert_eq!(audio.media_type, "audio/ogg");
    assert_eq!(audio.ref_type, "audio");
    let audio = generate_audio_metadata(&mut catalog, audio, "/c/A1/waves.ogg", "/c/A1/m.json", "linux");
    assert_eq!(audio.audio_path, "asset://localhost/%2Fc%2FA1%2Fwaves.ogg");
    let doc = DocMetadata::new(s("D1"), "work").expect("metadata");
    assert_eq!(doc.ref_type, "doc");
    let doc = generate_doc_metadata(&mut catalog, doc, "/c/D1/paper.pdf", "/c/D1/m.json", "linux");
    assert_eq!(doc.doc_path, "asset://localhost/%2Fc%2FD1%2Fpaper.pdf");
    assert_eq!(ids(&catalog), vec!["V1", "N1", "L1", "A1", "D1"]);
    let kinds: Vec<RefKind> = catalog.get_all_refs().iter().map(|r| r.kind()).collect();
    assert_eq!(
        kinds,
        vec![RefKind::Video, RefKind::Note, RefKind::Link, RefKind::Audio, RefKind::Doc]
    );
}

#[test]
fn identifiers_are_letters_and_digits_of_the_length_asked_for() {
    assert_eq!(generate_id(0), "");
    for length in [1usize, 8, 64] {
        let id = generate_id(length);
        assert_eq!(id.chars().count(), length);
        assert!(id.chars().all(|c| c.is_ascii_uppercase() || c.is_ascii_digit()));
    }
    assert_ne!(generate_id(32), generate_id(32));
}

fn folder(id: &str, kind: RefKind) -> Vec<RefFile> {
    let meta = match kind {
        RefKind::Note => RefMeta::Note(NoteMetadata {
            id: s(id),
            name: s(""),
            ref_type: s("note"),
            collection: s("work"),
            created_at: s("2024-05-01 10:00:00 +02:00"),
            updated_at: s("2024-05-01 10:00:00 +02:00"),
            note_text: s(""),
            tags: vec![],
        }),
        _ => RefMeta::Video(VideoMetadata {
            id: s(id),
            name: s(""),
            file_name: s("clip.mp4"),
            ref_type: s("video"),
            media_type: s("video/mp4"),
            file_size: s("1B"),
            collection: s("trip"),
            created_at: s("2024-05-01 10:00:00 +02:00"),
            updated_at: s("2024-05-01 10:00:00 +02:00"),
            note_text: s(""),
            tags: vec![],
        }),
    };
    let name = match kind {
        RefKind::Note => "metadata.note.json",
        _ => "metadata.video.json",
    };
    vec![
        RefFile { path: format!("/c/{}/clip.mp4", id), file_name: s("clip.mp4"), text: None },
        RefFile {
            path: format!("/c/{}/{}", id, name),
            file_name: s(name),
            text: Some(write_sidecar(&meta)),
        },
    ]
}

fn stray() -> Vec<RefFile> {
    vec![RefFile { path: s("/c/stray/readme.md"), file_name: s("readme.md"), text: None }]
}

fn broken() -> Vec<RefFile> {
    vec![RefFile {
        path: s("/c/broken/metadata.doc.json"),
        file_name: s("metadata.doc.json"),
        text: Some(s("{")),
    }]
}

#[test]
fn loading_keeps_what_parses_and_collects_the_errors() {
    let folders = vec![
        folder("A", RefKind::Video),
        stray(),
        folder("B", RefKind::Note),
        broken(),
        Vec::new(),
    ];
    let loaded = fetch_refs(&folders, "linux");
    assert_eq!(ids(&loaded.catalog), vec!["A", "B"]);
    assert_eq!(
        loaded.errors,
        vec![ParseError::Unclassified, ParseError::Malformed, ParseError::Unclassified]
    );
    let nothing = fetch_refs(&Vec::new(), "linux");
    assert_eq!(nothing.catalog.len(), 0);
    assert!(nothing.errors.is_empty());
}

#[test]
fn loading_twice_gives_the_same_catalogue_up_to_order() {
    let forward = vec![folder("A", RefKind::Video), stray(), folder("B", RefKind::Note)];
    let backward = vec![folder("B", RefKind::Note), folder("A", RefKind::Video), stray()];
    let first = fetch_refs(&forward, "linux");
    let again = fetch_refs(&forward, "linux");
    let other = fetch_refs(&backward, "linux");
    let texts = |catalog: &Catalog| -> Vec<String> {
        let mut all: Vec<String> = catalog
            .get_all_refs()
            .iter()
            .map(|r| write_sidecar(&r.get_ref_meta().expect("metadata")))
            .collect();
        all.sort();
        all
    };
    assert_eq!(ids(&first.catalog), ids(&again.catalog));
    assert_eq!(texts(&first.catalog), texts(&again.catalog));
    assert_eq!(ids(&other.catalog), vec!["B", "A"]);
    assert_eq!(texts(&first.catalog), texts(&other.catalog));
}
