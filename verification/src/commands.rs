//! What the shell asks of a catalogue when a reference is created: the
//! reference is built from what was written to disk, and appended.

use vstd::prelude::*;
use crate::catalog::Catalog;
use crate::state::{
    AudioMetadata, AudioRef, DocMetadata, DocRef, ImageMetadata, ImageRef, LinkMetadata, LinkRef,
    NoteMetadata, NoteRef, Ref, RefKind, RefView, VideoMetadata, VideoRef,
};
use crate::text::push_char;
use crate::utils::{asset_link, convert_file_src};

verus! {

/// Whether a character may stand in an identifier: an upper-case letter or
/// a digit.
pub open spec fn is_id_char(c: char) -> bool {
    ('A' <= c && c <= 'Z') || ('0' <= c && c <= '9')
}

/// A number below `bound`, drawn at random.
///
/// Trusted: `Rng::gen_range` on the thread's generator returns a value of
/// the range `0..bound`, and panics on an empty range.
#[verifier::external_body]
fn random_below(bound: usize) -> (n: usize)
    requires
        bound > 0,
    ensures
        n < bound,
{
    rand::Rng::gen_range(&mut rand::thread_rng(), 0..bound)
}

/// The character of an identifier that a drawn number stands for: the
/// letters `A` to `Z` for 0 to 25, the digits `0` to `9` for 26 to 35.
pub open spec fn id_char(draw: nat) -> char {
    "ABCDEFGHIJKLMNOPQRSTUVWXYZ0123456789"@[draw as int]
}

/// The identifier that drawn numbers stand for, character by character.
pub open spec fn id_text(draws: Seq<usize>) -> Seq<char> {
    draws.map_values(|draw: usize| id_char(draw as nat))
}

/// Writes the identifier that drawn numbers below 36 stand for.
pub fn id_of_draws(draws: &Vec<usize>) -> (id: String)
    requires
        forall|i: int| 0 <= i < draws@.len() ==> (#[trigger] draws@[i]) < 36,
    ensures
        id@ == id_text(draws@),
{
    let characters = "ABCDEFGHIJKLMNOPQRSTUVWXYZ0123456789";
    let mut id = String::new();
    let mut i: usize = 0;
    assert(id@ =~= id_text(draws@).take(0));
    while i < draws.len()
        invariant
            0 <= i <= draws.len(),
            characters@ == "ABCDEFGHIJKLMNOPQRSTUVWXYZ0123456789"@,
            forall|j: int| 0 <= j < draws@.len() ==> (#[trigger] draws@[j]) < 36,
            id@ == id_text(draws@).take(i as int),
        decreases draws.len() - i,
    {
        proof {
            reveal_strlit("ABCDEFGHIJKLMNOPQRSTUVWXYZ0123456789");
        }
        let c = characters.get_char(draws[i]);
        push_char(&mut id, c);
        assert(id@ =~= id_text(draws@).take(i as int + 1));
        i = i + 1;
    }
    assert(id_text(draws@).take(draws.len() as int) =~= id_text(draws@));
    id
}

/// Every character of an identifier is an upper-case letter or a digit.
pub proof fn lemma_id_text(draws: Seq<usize>)
    requires
        forall|i: int| 0 <= i < draws.len() ==> (#[trigger] draws[i]) < 36,
    ensures
        id_text(draws).len() == draws.len(),
        forall|i: int| 0 <= i < draws.len() ==> is_id_char(#[trigger] id_text(draws)[i]),
{
    reveal_strlit("ABCDEFGHIJKLMNOPQRSTUVWXYZ0123456789");
    assert forall|i: int| 0 <= i < draws.len() implies is_id_char(#[trigger] id_text(draws)[i]) by {
        let d = draws[i];
        assert(id_text(draws)[i] == id_char(d as nat));
    }
}

/// Makes an identifier of the given length out of upper-case letters and
/// digits drawn at random: one number below 36 is drawn for each character.
pub fn generate_id(lenght: usize) -> (id: String)
    ensures
        id@.len() == lenght,
        forall|i: int| 0 <= i < id@.len() ==> is_id_char(#[trigger] id@[i]),
        exists|draws: Seq<usize>| draws.len() == lenght && id@ == #[trigger] id_text(draws),
{
    let mut draws: Vec<usize> = Vec::new();
    let mut i: usize = 0;
    while i < lenght
        invariant
            0 <= i <= lenght,
            draws@.len() == i,
            forall|j: int| 0 <= j < draws@.len() ==> (#[trigger] draws@[j]) < 36,
        decreases lenght - i,
    {
        draws.push(random_below(36));
        i = i + 1;
    }
    proof {
        lemma_id_text(draws@);
    }
    id_of_draws(&draws)
}

/// The link under which an image shows in lists: its low-resolution
/// derivative where one was generated, otherwise the image itself.
pub open spec fn display_link(media_path: Seq<char>, low_res_path: Option<&str>, os: Seq<char>) -> Seq<
    char,
> {
    match low_res_path {
        Some(path) => asset_link(path@, os),
        None => asset_link(media_path, os),
    }
}

/// Enters a newly ingested image into the catalogue, after its sidecar was
/// written: `low_res_path` is the path of its low-resolution derivative
/// where one was generated and stored.
pub fn generate_image_metadata(
    catalog: &mut Catalog,
    metadata: ImageMetadata,
    media_path: &str,
    low_res_path: Option<&str>,
    meta_path: &str,
    os: &str,
) -> (new_ref: ImageRef)
    requires
        old(catalog).wf(),
    ensures
        final(catalog).wf(),
        final(catalog)@ == old(catalog)@.push(new_ref@),
        new_ref@ == (RefView {
            kind: RefKind::Image,
            primary: asset_link(media_path@, os@),
            low_res: display_link(media_path@, low_res_path, os@),
            metadata: Some(metadata@),
            metapath: meta_path@,
        }),
{
    let low_res_imagepath = match low_res_path {
        Some(path) => convert_file_src(path, os),
        None => convert_file_src(media_path, os),
    };
    let new_ref = ImageRef {
        image_path: convert_file_src(media_path, os),
        low_res_imagepath,
        metadata: Some(metadata),
        metapath: meta_path.to_owned(),
    };
    catalog.append(Ref::Image(new_ref.clone()));
    new_ref
}

/// Enters a newly ingested video into the catalogue, after its sidecar was
/// written.
pub fn generate_video_metadata(
    catalog: &mut Catalog,
    metadata: VideoMetadata,
    media_path: &str,
    meta_path: &str,
    os: &str,
) -> (new_ref: VideoRef)
    requires
        old(catalog).wf(),
    ensures
        final(catalog).wf(),
        final(catalog)@ == old(catalog)@.push(new_ref@),
        new_ref@ == (RefView {
            kind: RefKind::Video,
            primary: asset_link(media_path@, os@),
            low_res: Seq::empty(),
            metadata: Some(metadata@),
            metapath: meta_path@,
        }),
{
    let new_ref = VideoRef {
        video_path: convert_file_src(media_path, os),
        metadata: Some(metadata),
        metapath: meta_path.to_owned(),
    };
    catalog.append(Ref::Video(new_ref.clone()));
    new_ref
}

/// Enters a newly ingested audio recording into the catalogue, after its
/// sidecar was written.
pub fn generate_audio_metadata(
    catalog: &mut Catalog,
    metadata: AudioMetadata,
    media_path: &str,
    meta_path: &str,
    os: &str,
) -> (new_ref: AudioRef)
    requires
        old(catalog).wf(),
    ensures
        final(catalog).wf(),
        final(catalog)@ == old(catalog)@.push(new_ref@),
        new_ref@ == (RefView {
            kind: RefKind::Audio,
            primary: asset_link(media_path@, os@),
            low_res: Seq::empty(),
            metadata: Some(metadata@),
            metapath: meta_path@,
        }),
{
    let new_ref = AudioRef {
        audio_path: convert_file_src(media_path, os),
        metadata: Some(metadata),
        metapath: meta_path.to_owned(),
    };
    catalog.append(Ref::Audio(new_ref.clone()));
    new_ref
}

/// Enters a newly written note into the catalogue, after its sidecar was
/// written.
pub fn generate_note_metadata(
    catalog: &mut Catalog,
    metadata: NoteMetadata,
    note_content: &str,
    meta_path: &str,
) -> (new_ref: NoteRef)
    requires
        old(catalog).wf(),
    ensures
        final(catalog).wf(),
        final(catalog)@ == old(catalog)@.push(new_ref@),
        new_ref@ == (RefView {
            kind: RefKind::Note,
            primary: note_content@,
            low_res: Seq::empty(),
            metadata: Some(metadata@),
            metapath: meta_path@,
        }),
{
    let new_ref = NoteRef {
        content: note_content.to_owned(),
        metadata: Some(metadata),
        metapath: meta_path.to_owned(),
    };
    catalog.append(Ref::Note(new_ref.clone()));
    new_ref
}

/// Enters a newly ingested document into the catalogue, after its sidecar
/// was written.
pub fn generate_doc_metadata(
    catalog: &mut Catalog,
    metadata: DocMetadata,
    doc_path: &str,
    meta_path: &str,
    os: &str,
) -> (new_ref: DocRef)
    requires
        old(catalog).wf(),
    ensures
        final(catalog).wf(),
        final(catalog)@ == old(catalog)@.push(new_ref@),
        new_ref@ == (RefView {
            kind: RefKind::Doc,
            primary: asset_link(doc_path@, os@),
            low_res: Seq::empty(),
            metadata: Some(metadata@),
            metapath: meta_path@,
        }),
{
    let new_ref = DocRef {
        doc_path: convert_file_src(doc_path, os),
        metadata: Some(metadata),
        metapath: meta_path.to_owned(),
    };
    catalog.append(Ref::Doc(new_ref.clone()));
    new_ref
}

/// Enters a newly saved link into the catalogue, after its sidecar was
/// written; the snapshot of its page comes later, through
/// `Catalog::set_snapshot`.
pub fn generate_link_metadata(catalog: &mut Catalog, metadata: LinkMetadata, meta_path: &str) -> (new_ref:
    LinkRef)
    requires
        old(catalog).wf(),
    ensures
        final(catalog).wf(),
        final(catalog)@ == old(catalog)@.push(new_ref@),
        new_ref@ == (RefView {
            kind: RefKind::Link,
            primary: Seq::empty(),
            low_res: Seq::empty(),
            metadata: Some(metadata@),
            metapath: meta_path@,
        }),
{
    let new_ref = LinkRef {
        snapshoot: String::new(),
        metadata: Some(metadata),
        metapath: meta_path.to_owned(),
    };
    catalog.append(Ref::Link(new_ref.clone()));
    new_ref
}

} // verus!
