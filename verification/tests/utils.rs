use onlyref::utils::{convert_file_src, get_os_name, human_size};

#[test]
fn test_analyze_file_size() {
    let content = "This is a test file.";
    let file_size = human_size(content.len() as u64);
    assert_eq!(file_size, "20B");
}

#[test]
fn human_size_of_small_counts_is_in_bytes() {
    assert_eq!(human_size(0), "0B");
    assert_eq!(human_size(7), "7B");
    assert_eq!(human_size(999), "999B");
}

#[test]
fn human_size_rounds_up_in_the_largest_unit() {
    assert_eq!(human_size(1000), "1.00KB");
    assert_eq!(human_size(1001), "1.01KB");
    assert_eq!(human_size(9_990), "9.99KB");
    assert_eq!(human_size(9_991), "10.00KB");
    assert_eq!(human_size(10_000), "10.0KB");
    assert_eq!(human_size(99_901), "100.0KB");
    assert_eq!(human_size(100_000), "100KB");
    assert_eq!(human_size(999_001), "1000KB");
    assert_eq!(human_size(1_000_000), "1.00MB");
    assert_eq!(human_size(2_000_000), "2.00MB");
    assert_eq!(human_size(2_097_152), "2.10MB");
    assert_eq!(human_size(12_345_678), "12.4MB");
    assert_eq!(human_size(5_000_000_000), "5.00GB");
    assert_eq!(human_size(1_500_000_000_000), "1.50TB");
    assert_eq!(human_size(1_000_000_000_000_000), "1.00PB");
    assert_eq!(human_size(u64::MAX), "18.5EB");
}

#[test]
fn os_names_are_kept_but_for_macos() {
    assert_eq!(get_os_name("macos"), "darwin");
    assert_eq!(get_os_name("linux"), "linux");
    assert_eq!(get_os_name("windows"), "windows");
    assert_eq!(get_os_name(""), "");
}

#[test]
fn asset_links_percent_encode_the_path() {
    assert_eq!(
        convert_file_src("/home/me/My Pictures/a+b.png", "linux"),
        "asset://localhost/%2Fhome%2Fme%2FMy%20Pictures%2Fa%2Bb.png"
    );
    assert_eq!(convert_file_src("plain-Name_1.~x", "macos"), "asset://localhost/plain-Name_1.~x");
    assert_eq!(convert_file_src("", "linux"), "asset://localhost/");
    assert_eq!(convert_file_src("é/ü", "linux"), "asset://localhost/%C3%A9%2F%C3%BC");
}

#[test]
fn asset_links_are_https_on_windows_and_android() {
    assert_eq!(
        convert_file_src("C:\\refs\\a.png", "windows"),
        "https://asset.localhost/C%3A%5Crefs%5Ca.png"
    );
    assert_eq!(convert_file_src("/sdcard/a.png", "android"), "https://asset.localhost/%2Fsdcard%2Fa.png");
}

use onlyref::parser::ParseError;
use onlyref::sidecar::{read_sidecar, write_sidecar};
use onlyref::state::{ImageMetadata, NoteMetadata, RefKind, RefMeta};
use onlyref::utils::{
    add_tag, add_tag_at, change_name, change_name_at, mutate_note, mutate_note_at, remove_tag,
    remove_tag_at,
};

fn image_metadata_json() -> String {
    write_sidecar(&RefMeta::Image(ImageMetadata {
        id: "IMG".to_string(),
        name: "before".to_string(),
        file_name: "test_image.png".to_string(),
        ref_type: "image".to_string(),
        media_type: "image/png".to_string(),
        dimensions: Some((1200, 900)),
        file_size: "1.44MB".to_string(),
        collection: "tests".to_string(),
        colors: vec!["#000000".to_string()],
        created_at: "then".to_string(),
        updated_at: "then".to_string(),
        note_text: "old note".to_string(),
        tags: vec!["kept".to_string()],
    }))
}

fn note_metadata_json() -> String {
    write_sidecar(&RefMeta::Note(NoteMetadata {
        id: "NOTE".to_string(),
        name: "before".to_string(),
        ref_type: "note".to_string(),
        collection: "tests".to_string(),
        created_at: "then".to_string(),
        updated_at: "then".to_string(),
        note_text: "old note".to_string(),
        tags: vec!["kept".to_string()],
    }))
}

fn image_of(text: &str) -> ImageMetadata {
    match read_sidecar(RefKind::Image, text) {
        Some(RefMeta::Image(meta)) => meta,
        _ => panic!("the sidecar of an image reads as an image"),
    }
}

fn note_of(text: &str) -> NoteMetadata {
    match read_sidecar(RefKind::Note, text) {
        Some(RefMeta::Note(meta)) => meta,
        _ => panic!("the sidecar of a note reads as a note"),
    }
}

#[test]
fn test_change_name() {
    let new_name = "random stuff";

    let result = change_name(RefKind::Image, &image_metadata_json(), new_name).unwrap();
    let updated_metadata = image_of(&result);
    assert_eq!(updated_metadata.name, new_name);

    let result = change_name(RefKind::Note, &note_metadata_json(), new_name).unwrap();
    let updated_metadata = note_of(&result);
    assert_eq!(updated_metadata.name, new_name);
}

#[test]
fn test_add_remove_tags() {
    let new_name = "random stuff";

    let result = add_tag(RefKind::Image, &image_metadata_json(), new_name).unwrap();
    let updated_metadata = image_of(&result);
    assert!(updated_metadata.tags.contains(&new_name.to_string()));

    let result = remove_tag(RefKind::Image, &result, new_name).unwrap();
    let updated_metadata = image_of(&result);
    assert!(!updated_metadata.tags.contains(&new_name.to_string()));

    let result = add_tag(RefKind::Note, &note_metadata_json(), new_name).unwrap();
    let updated_metadata = note_of(&result);
    assert!(updated_metadata.tags.contains(&new_name.to_string()));

    let result = remove_tag(RefKind::Note, &result, new_name).unwrap();
    let updated_metadata = note_of(&result);
    assert!(!updated_metadata.tags.contains(&new_name.to_string()));
}

#[test]
fn test_mutate_note() {
    let new_content = "random stuff";

    let result = mutate_note(RefKind::Image, &image_metadata_json(), new_content).unwrap();
    let updated_metadata = image_of(&result);
    assert_eq!(updated_metadata.note_text, new_content);

    let result = mutate_note(RefKind::Note, &note_metadata_json(), new_content).unwrap();
    let updated_metadata = note_of(&result);
    assert_eq!(updated_metadata.note_text, new_content);
}

#[test]
fn an_edit_of_a_sidecar_changes_its_field_and_the_time_of_update_only() {
    let before = image_of(&image_metadata_json());
    let after = image_of(&change_name(RefKind::Image, &image_metadata_json(), "after").unwrap());
    assert_eq!(after.name, "after");
    assert_ne!(after.updated_at, "then");
    assert_eq!(after.created_at, before.created_at);
    assert_eq!(after.id, before.id);
    assert_eq!(after.tags, before.tags);
    assert_eq!(after.colors, before.colors);
    assert_eq!(after.dimensions, before.dimensions);
    assert_eq!(after.note_text, before.note_text);

    let after = image_of(&add_tag(RefKind::Image, &image_metadata_json(), "kept").unwrap());
    assert_eq!(after.tags, vec!["kept", "kept"]);
    assert_eq!(after.name, "before");
    let after =
        image_of(&remove_tag(RefKind::Image, &write_sidecar(&RefMeta::Image(after)), "kept").unwrap());
    assert_eq!(after.tags, vec!["kept"]);
    let after = note_of(&mutate_note(RefKind::Note, &note_metadata_json(), "").unwrap());
    assert_eq!(after.note_text, "");
    assert_ne!(after.updated_at, "then");
}

#[test]
fn an_edit_of_what_is_no_sidecar_of_the_kind_is_refused() {
    assert_eq!(change_name(RefKind::Image, "random stuff", "x"), Err(ParseError::Malformed));
    assert_eq!(add_tag(RefKind::Image, &note_metadata_json(), "x"), Err(ParseError::Malformed));
    assert_eq!(remove_tag(RefKind::Link, &note_metadata_json(), "x"), Err(ParseError::Malformed));
    assert_eq!(mutate_note(RefKind::Note, "", "x"), Err(ParseError::Malformed));
}

#[test]
fn a_timed_edit_of_a_sidecar_stamps_the_time_given() {
    let now = || "2024-05-01 10:00:00 +02:00".to_string();
    let after = image_of(&change_name_at(RefKind::Image, &image_metadata_json(), "after", now()).unwrap());
    assert_eq!(after.name, "after");
    assert_eq!(after.updated_at, now());
    assert_eq!(after.created_at, "then");
    let after = note_of(&mutate_note_at(RefKind::Note, &note_metadata_json(), "text", now()).unwrap());
    assert_eq!(after.note_text, "text");
    assert_eq!(after.updated_at, now());
    assert_eq!(after.name, "before");
    assert_eq!(after.tags, vec!["kept"]);
    assert_eq!(after.id, "NOTE");
    let text = add_tag_at(RefKind::Note, &note_metadata_json(), "kept", now()).unwrap();
    assert_eq!(note_of(&text).tags, vec!["kept", "kept"]);
    let text = remove_tag_at(RefKind::Note, &text, "kept", "later".to_string()).unwrap();
    assert_eq!(note_of(&text).tags, vec!["kept"]);
    assert_eq!(note_of(&text).updated_at, "later");
    assert_eq!(
        change_name_at(RefKind::Link, &note_metadata_json(), "x", now()),
        Err(ParseError::Malformed)
    );
    let twice = change_name_at(RefKind::Note, &note_metadata_json(), "n", now());
    assert_eq!(twice, change_name_at(RefKind::Note, &note_metadata_json(), "n", now()));
}
