//! The typed reference records of a catalogue and their metadata.

use vstd::prelude::*;
use crate::media::{
    analyze_dimensions, decoded_dimensions, determine_media_type, guessed_media_type,
    media_type_text,
};
use crate::text::{str_eq, texts};
use crate::utils::{asset_link, convert_file_src, human_size, human_size_text};

verus! {

/// The six kinds of reference.
#[derive(Clone, Copy, Debug, PartialEq, Eq, Structural)]
pub enum RefKind {
    Image,
    Video,
    Audio,
    Note,
    Link,
    Doc,
}

/// What a metadata record holds beyond the fields that all kinds share.
#[verifier::ext_equal]
pub enum DetailView {
    Image {
        file_name: Seq<char>,
        media_type: Seq<char>,
        dimensions: Option<(u32, u32)>,
        file_size: Seq<char>,
        colors: Seq<Seq<char>>,
    },
    Video { file_name: Seq<char>, media_type: Seq<char>, file_size: Seq<char> },
    Audio { file_name: Seq<char>, media_type: Seq<char>, file_size: Seq<char> },
    Note,
    Link { source_uri: Seq<char> },
    Doc,
}

/// A metadata record as a mathematical value: the shared fields, and the
/// fields of its kind.
#[verifier::ext_equal]
pub struct MetaView {
    pub id: Seq<char>,
    pub name: Seq<char>,
    pub ref_type: Seq<char>,
    pub collection: Seq<char>,
    pub created_at: Seq<char>,
    pub updated_at: Seq<char>,
    pub note_text: Seq<char>,
    pub tags: Seq<Seq<char>>,
    pub detail: DetailView,
}

/// A tag list without the last occurrence of one tag; the list itself
/// where it does not hold the tag.
pub open spec fn without_tag(tags: Seq<Seq<char>>, tag: Seq<char>) -> Seq<Seq<char>>
    decreases tags.len(),
{
    if tags.len() == 0 {
        tags
    } else if tags.last() == tag {
        tags.drop_last()
    } else {
        without_tag(tags.drop_last(), tag).push(tags.last())
    }
}

impl MetaView {
    /// The kind of reference that the record describes.
    pub open spec fn kind(self) -> RefKind {
        match self.detail {
            DetailView::Image { .. } => RefKind::Image,
            DetailView::Video { .. } => RefKind::Video,
            DetailView::Audio { .. } => RefKind::Audio,
            DetailView::Note => RefKind::Note,
            DetailView::Link { .. } => RefKind::Link,
            DetailView::Doc => RefKind::Doc,
        }
    }

    /// The record under a new display name, updated at `stamp`.
    pub open spec fn renamed(self, name: Seq<char>, stamp: Seq<char>) -> MetaView {
        MetaView { name, updated_at: stamp, ..self }
    }

    /// The record with one more tag at the end of its list, updated at `stamp`.
    pub open spec fn tagged(self, tag: Seq<char>, stamp: Seq<char>) -> MetaView {
        MetaView { tags: self.tags.push(tag), updated_at: stamp, ..self }
    }

    /// The record without the last occurrence of a tag, updated at
    /// `stamp`.
    pub open spec fn untagged(self, tag: Seq<char>, stamp: Seq<char>) -> MetaView {
        MetaView { tags: without_tag(self.tags, tag), updated_at: stamp, ..self }
    }

    /// The record with a new note, updated at `stamp`.
    pub open spec fn noted(self, note: Seq<char>, stamp: Seq<char>) -> MetaView {
        MetaView { note_text: note, updated_at: stamp, ..self }
    }

    /// The record with a new colour list; a record that is not of an image
    /// has no colours and stays as it is.
    pub open spec fn recolored(self, colors: Seq<Seq<char>>) -> MetaView {
        match self.detail {
            DetailView::Image { file_name, media_type, dimensions, file_size, colors: _ } => MetaView {
                detail: DetailView::Image { file_name, media_type, dimensions, file_size, colors },
                ..self
            },
            _ => self,
        }
    }
}

/// The edits that every kind of metadata record takes. Each edit changes
/// its field and the time of the last update, and nothing else. The edits
/// whose names end in `_at` take the time as an argument; the others read
/// it off the clock.
pub trait Metadata: View<V = MetaView> {
    /// Gives the record a new display name, at the time `now`.
    fn set_name_at(&mut self, new_name: &str, now: String)
        ensures
            final(self)@ == old(self)@.renamed(new_name@, now@),
    ;

    /// Appends a tag, at the time `now`; a tag that the record already has
    /// is appended again.
    fn add_tag_at(&mut self, tag: &str, now: String)
        ensures
            final(self)@ == old(self)@.tagged(tag@, now@),
    ;

    /// Removes the last occurrence of a tag, at the time `now`.
    fn remove_tag_at(&mut self, tag: &str, now: String)
        ensures
            final(self)@ == old(self)@.untagged(tag@, now@),
    ;

    /// Replaces the note, at the time `now`.
    fn update_note_at(&mut self, note: &str, now: String)
        ensures
            final(self)@ == old(self)@.noted(note@, now@),
    ;

    /// Gives the record a new display name.
    fn set_name(&mut self, new_name: &str)
        ensures
            final(self)@ == old(self)@.renamed(new_name@, final(self)@.updated_at),
    ;

    /// Appends a tag; a tag that the record already has is appended again.
    fn add_tag(&mut self, tag: &str)
        ensures
            final(self)@ == old(self)@.tagged(tag@, final(self)@.updated_at),
    ;

    /// Removes the last occurrence of a tag.
    fn remove_tag(&mut self, tag: &str)
        ensures
            final(self)@ == old(self)@.untagged(tag@, final(self)@.updated_at),
    ;

    /// Replaces the note.
    fn update_note(&mut self, note: &str)
        ensures
            final(self)@ == old(self)@.noted(note@, final(self)@.updated_at),
    ;
}

/// The local time of the system clock, as text.
///
/// Trusted: `chrono::Local::now` reads the clock and the time zone of the
/// machine, so nothing is claimed of the text.
#[verifier::external_body]
pub(crate) fn now_text() -> String {
    chrono::Local::now().to_string()
}

/// Where the last occurrence of a tag stands, the list is without it once
/// that place is taken out.
proof fn lemma_without_tag_at(tags: Seq<Seq<char>>, tag: Seq<char>, j: int)
    requires
        0 <= j < tags.len(),
        tags[j] == tag,
        forall|t: int| j < t < tags.len() ==> (#[trigger] tags[t]) != tag,
    ensures
        without_tag(tags, tag) == tags.remove(j),
    decreases tags.len(),
{
    if j == tags.len() - 1 {
        assert(tags.remove(j) =~= tags.drop_last());
    } else {
        assert(tags[tags.len() - 1] != tag);
        lemma_without_tag_at(tags.drop_last(), tag, j);
        assert(tags.remove(j) =~= tags.drop_last().remove(j).push(tags.last()));
    }
}

/// Takes the last occurrence of a tag out of a list.
pub(crate) fn remove_last_tag(tags: &mut Vec<String>, tag: &str)
    ensures
        texts(final(tags)@) == without_tag(texts(old(tags)@), tag@),
{
    let ghost before = texts(tags@);
    let mut j: usize = tags.len();
    while j > 0
        invariant
            0 <= j <= tags.len(),
            tags@ == old(tags)@,
            before == texts(tags@),
            forall|t: int| j <= t < before.len() ==> (#[trigger] before[t]) != tag@,
        decreases j,
    {
        j = j - 1;
        if str_eq(tags[j].as_str(), tag) {
            proof {
                lemma_without_tag_at(before, tag@, j as int);
            }
            tags.remove(j);
            assert(texts(tags@) =~= before.remove(j as int));
            return ;
        }
    }
    proof {
        assert(!before.contains(tag@));
        lemma_without_absent_tag(before, tag@);
    }
}

/// The metadata of an image.
#[derive(Debug)]
pub struct ImageMetadata {
    pub id: String,
    pub name: String,
    pub file_name: String,
    pub ref_type: String,
    pub media_type: String,
    pub dimensions: Option<(u32, u32)>,
    pub file_size: String,
    pub collection: String,
    pub colors: Vec<String>,
    pub created_at: String,
    pub updated_at: String,
    pub note_text: String,
    pub tags: Vec<String>,
}

impl View for ImageMetadata {
    type V = MetaView;

    open spec fn view(&self) -> MetaView {
        MetaView {
            id: self.id@,
            name: self.name@,
            ref_type: self.ref_type@,
            collection: self.collection@,
            created_at: self.created_at@,
            updated_at: self.updated_at@,
            note_text: self.note_text@,
            tags: texts(self.tags@),
            detail: DetailView::Image {
                file_name: self.file_name@,
                media_type: self.media_type@,
                dimensions: self.dimensions,
                file_size: self.file_size@,
                colors: texts(self.colors@),
            },
        }
    }
}

impl Clone for ImageMetadata {
    fn clone(&self) -> (copy: Self)
        ensures
            copy@ == self@,
    {
        ImageMetadata {
            id: self.id.clone(),
            name: self.name.clone(),
            file_name: self.file_name.clone(),
            ref_type: self.ref_type.clone(),
            media_type: self.media_type.clone(),
            dimensions: self.dimensions,
            file_size: self.file_size.clone(),
            collection: self.collection.clone(),
            colors: self.colors.clone(),
            created_at: self.created_at.clone(),
            updated_at: self.updated_at.clone(),
            note_text: self.note_text.clone(),
            tags: self.tags.clone(),
        }
    }
}

impl Metadata for ImageMetadata {
    fn set_name_at(&mut self, new_name: &str, now: String) {
        self.name = new_name.to_owned();
        self.updated_at = now;
    }

    fn add_tag_at(&mut self, tag: &str, now: String) {
        self.tags.push(tag.to_owned());
        self.updated_at = now;
        assert(texts(self.tags@) =~= texts(old(self).tags@).push(tag@));
    }

    fn remove_tag_at(&mut self, tag: &str, now: String) {
        remove_last_tag(&mut self.tags, tag);
        self.updated_at = now;
    }

    fn update_note_at(&mut self, note: &str, now: String) {
        self.note_text = note.to_owned();
        self.updated_at = now;
    }

    fn set_name(&mut self, new_name: &str) {
        self.set_name_at(new_name, now_text());
    }

    fn add_tag(&mut self, tag: &str) {
        self.add_tag_at(tag, now_text());
    }

    fn remove_tag(&mut self, tag: &str) {
        self.remove_tag_at(tag, now_text());
    }

    fn update_note(&mut self, note: &str) {
        self.update_note_at(note, now_text());
    }
}

/// The metadata of a video.
#[derive(Debug)]
pub struct VideoMetadata {
    pub id: String,
    pub name: String,
    pub file_name: String,
    pub ref_type: String,
    pub media_type: String,
    pub file_size: String,
    pub collection: String,
    pub created_at: String,
    pub updated_at: String,
    pub note_text: String,
    pub tags: Vec<String>,
}

impl View for VideoMetadata {
    type V = MetaView;

    open spec fn view(&self) -> MetaView {
        MetaView {
            id: self.id@,
            name: self.name@,
            ref_type: self.ref_type@,
            collection: self.collection@,
            created_at: self.created_at@,
            updated_at: self.updated_at@,
            note_text: self.note_text@,
            tags: texts(self.tags@),
            detail: DetailView::Video {
                file_name: self.file_name@,
                media_type: self.media_type@,
                file_size: self.file_size@,
            },
        }
    }
}

impl Clone for VideoMetadata {
    fn clone(&self) -> (copy: Self)
        ensures
            copy@ == self@,
    {
        VideoMetadata {
            id: self.id.clone(),
            name: self.name.clone(),
            file_name: self.file_name.clone(),
            ref_type: self.ref_type.clone(),
            media_type: self.media_type.clone(),
            file_size: self.file_size.clone(),
            collection: self.collection.clone(),
            created_at: self.created_at.clone(),
            updated_at: self.updated_at.clone(),
            note_text: self.note_text.clone(),
            tags: self.tags.clone(),
        }
    }
}

impl Metadata for VideoMetadata {
    fn set_name_at(&mut self, new_name: &str, now: String) {
        self.name = new_name.to_owned();
        self.updated_at = now;
    }

    fn add_tag_at(&mut self, tag: &str, now: String) {
        self.tags.push(tag.to_owned());
        self.updated_at = now;
        assert(texts(self.tags@) =~= texts(old(self).tags@).push(tag@));
    }

    fn remove_tag_at(&mut self, tag: &str, now: String) {
        remove_last_tag(&mut self.tags, tag);
        self.updated_at = now;
    }

    fn update_note_at(&mut self, note: &str, now: String) {
        self.note_text = note.to_owned();
        self.updated_at = now;
    }

    fn set_name(&mut self, new_name: &str) {
        self.set_name_at(new_name, now_text());
    }

    fn add_tag(&mut self, tag: &str) {
        self.add_tag_at(tag, now_text());
    }

    fn remove_tag(&mut self, tag: &str) {
        self.remove_tag_at(tag, now_text());
    }

    fn update_note(&mut self, note: &str) {
        self.update_note_at(note, now_text());
    }
}

/// The metadata of an audio recording.
#[derive(Debug)]
pub struct AudioMetadata {
    pub id: String,
    pub name: String,
    pub file_name: String,
    pub ref_type: String,
    pub media_type: String,
    pub file_size: String,
    pub collection: String,
    pub created_at: String,
    pub updated_at: String,
    pub note_text: String,
    pub tags: Vec<String>,
}

impl View for AudioMetadata {
    type V = MetaView;

    open spec fn view(&self) -> MetaView {
        MetaView {
            id: self.id@,
            name: self.name@,
            ref_type: self.ref_type@,
            collection: self.collection@,
            created_at: self.created_at@,
            updated_at: self.updated_at@,
            note_text: self.note_text@,
            tags: texts(self.tags@),
            detail: DetailView::Audio {
                file_name: self.file_name@,
                media_type: self.media_type@,
                file_size: self.file_size@,
            },
        }
    }
}

impl Clone for AudioMetadata {
    fn clone(&self) -> (copy: Self)
        ensures
            copy@ == self@,
    {
        AudioMetadata {
            id: self.id.clone(),
            name: self.name.clone(),
            file_name: self.file_name.clone(),
            ref_type: self.ref_type.clone(),
            media_type: self.media_type.clone(),
            file_size: self.file_size.clone(),
            collection: self.collection.clone(),
            created_at: self.created_at.clone(),
            updated_at: self.updated_at.clone(),
            note_text: self.note_text.clone(),
            tags: self.tags.clone(),
        }
    }
}

impl Metadata for AudioMetadata {
    fn set_name_at(&mut self, new_name: &str, now: String) {
        self.name = new_name.to_owned();
        self.updated_at = now;
    }

    fn add_tag_at(&mut self, tag: &str, now: String) {
        self.tags.push(tag.to_owned());
        self.updated_at = now;
        assert(texts(self.tags@) =~= texts(old(self).tags@).push(tag@));
    }

    fn remove_tag_at(&mut self, tag: &str, now: String) {
        remove_last_tag(&mut self.tags, tag);
        self.updated_at = now;
    }

    fn update_note_at(&mut self, note: &str, now: String) {
        self.note_text = note.to_owned();
        self.updated_at = now;
    }

    fn set_name(&mut self, new_name: &str) {
        self.set_name_at(new_name, now_text());
    }

    fn add_tag(&mut self, tag: &str) {
        self.add_tag_at(tag, now_text());
    }

    fn remove_tag(&mut self, tag: &str) {
        self.remove_tag_at(tag, now_text());
    }

    fn update_note(&mut self, note: &str) {
        self.update_note_at(note, now_text());
    }
}

/// The metadata of a note.
#[derive(Debug)]
pub struct NoteMetadata {
    pub id: String,
    pub name: String,
    pub ref_type: String,
    pub collection: String,
    pub created_at: String,
    pub updated_at: String,
    pub note_text: String,
    pub tags: Vec<String>,
}

impl View for NoteMetadata {
    type V = MetaView;

    open spec fn view(&self) -> MetaView {
        MetaView {
            id: self.id@,
            name: self.name@,
            ref_type: self.ref_type@,
            collection: self.collection@,
            created_at: self.created_at@,
            updated_at: self.updated_at@,
            note_text: self.note_text@,
            tags: texts(self.tags@),
            detail: DetailView::Note,
        }
    }
}

impl Clone for NoteMetadata {
    fn clone(&self) -> (copy: Self)
        ensures
            copy@ == self@,
    {
        NoteMetadata {
            id: self.id.clone(),
            name: self.name.clone(),
            ref_type: self.ref_type.clone(),
            collection: self.collection.clone(),
            created_at: self.created_at.clone(),
            updated_at: self.updated_at.clone(),
            note_text: self.note_text.clone(),
            tags: self.tags.clone(),
        }
    }
}

impl Metadata for NoteMetadata {
    fn set_name_at(&mut self, new_name: &str, now: String) {
        self.name = new_name.to_owned();
        self.updated_at = now;
    }

    fn add_tag_at(&mut self, tag: &str, now: String) {
        self.tags.push(tag.to_owned());
        self.updated_at = now;
        assert(texts(self.tags@) =~= texts(old(self).tags@).push(tag@));
    }

    fn remove_tag_at(&mut self, tag: &str, now: String) {
        remove_last_tag(&mut self.tags, tag);
        self.updated_at = now;
    }

    fn update_note_at(&mut self, note: &str, now: String) {
        self.note_text = note.to_owned();
        self.updated_at = now;
    }

    fn set_name(&mut self, new_name: &str) {
        self.set_name_at(new_name, now_text());
    }

    fn add_tag(&mut self, tag: &str) {
        self.add_tag_at(tag, now_text());
    }

    fn remove_tag(&mut self, tag: &str) {
        self.remove_tag_at(tag, now_text());
    }

    fn update_note(&mut self, note: &str) {
        self.update_note_at(note, now_text());
    }
}

/// The metadata of a link.
#[derive(Debug)]
pub struct LinkMetadata {
    pub id: String,
    pub name: String,
    pub ref_type: String,
    pub source_uri: String,
    pub collection: String,
    pub created_at: String,
    pub updated_at: String,
    pub note_text: String,
    pub tags: Vec<String>,
}

impl View for LinkMetadata {
    type V = MetaView;

    open spec fn view(&self) -> MetaView {
        MetaView {
            id: self.id@,
            name: self.name@,
            ref_type: self.ref_type@,
            collection: self.collection@,
            created_at: self.created_at@,
            updated_at: self.updated_at@,
            note_text: self.note_text@,
            tags: texts(self.tags@),
            detail: DetailView::Link { source_uri: self.source_uri@ },
        }
    }
}

impl Clone for LinkMetadata {
    fn clone(&self) -> (copy: Self)
        ensures
            copy@ == self@,
    {
        LinkMetadata {
            id: self.id.clone(),
            name: self.name.clone(),
            ref_type: self.ref_type.clone(),
            source_uri: self.source_uri.clone(),
            collection: self.collection.clone(),
            created_at: self.created_at.clone(),
            updated_at: self.updated_at.clone(),
            note_text: self.note_text.clone(),
            tags: self.tags.clone(),
        }
    }
}

impl Metadata for LinkMetadata {
    fn set_name_at(&mut self, new_name: &str, now: String) {
        self.name = new_name.to_owned();
        self.updated_at = now;
    }

    fn add_tag_at(&mut self, tag: &str, now: String) {
        self.tags.push(tag.to_owned());
        self.updated_at = now;
        assert(texts(self.tags@) =~= texts(old(self).tags@).push(tag@));
    }

    fn remove_tag_at(&mut self, tag: &str, now: String) {
        remove_last_tag(&mut self.tags, tag);
        self.updated_at = now;
    }

    fn update_note_at(&mut self, note: &str, now: String) {
        self.note_text = note.to_owned();
        self.updated_at = now;
    }

    fn set_name(&mut self, new_name: &str) {
        self.set_name_at(new_name, now_text());
    }

    fn add_tag(&mut self, tag: &str) {
        self.add_tag_at(tag, now_text());
    }

    fn remove_tag(&mut self, tag: &str) {
        self.remove_tag_at(tag, now_text());
    }

    fn update_note(&mut self, note: &str) {
        self.update_note_at(note, now_text());
    }
}

/// The metadata of a document.
#[derive(Debug)]
pub struct DocMetadata {
    pub id: String,
    pub name: String,
    pub ref_type: String,
    pub collection: String,
    pub created_at: String,
    pub updated_at: String,
    pub note_text: String,
    pub tags: Vec<String>,
}

impl View for DocMetadata {
    type V = MetaView;

    open spec fn view(&self) -> MetaView {
        MetaView {
            id: self.id@,
            name: self.name@,
            ref_type: self.ref_type@,
            collection: self.collection@,
            created_at: self.created_at@,
            updated_at: self.updated_at@,
            note_text: self.note_text@,
            tags: texts(self.tags@),
            detail: DetailView::Doc,
        }
    }
}

impl Clone for DocMetadata {
    fn clone(&self) -> (copy: Self)
        ensures
            copy@ == self@,
    {
        DocMetadata {
            id: self.id.clone(),
            name: self.name.clone(),
            ref_type: self.ref_type.clone(),
            collection: self.collection.clone(),
            created_at: self.created_at.clone(),
            updated_at: self.updated_at.clone(),
            note_text: self.note_text.clone(),
            tags: self.tags.clone(),
        }
    }
}

impl Metadata for DocMetadata {
    fn set_name_at(&mut self, new_name: &str, now: String) {
        self.name = new_name.to_owned();
        self.updated_at = now;
    }

    fn add_tag_at(&mut self, tag: &str, now: String) {
        self.tags.push(tag.to_owned());
        self.updated_at = now;
        assert(texts(self.tags@) =~= texts(old(self).tags@).push(tag@));
    }

    fn remove_tag_at(&mut self, tag: &str, now: String) {
        remove_last_tag(&mut self.tags, tag);
        self.updated_at = now;
    }

    fn update_note_at(&mut self, note: &str, now: String) {
        self.note_text = note.to_owned();
        self.updated_at = now;
    }

    fn set_name(&mut self, new_name: &str) {
        self.set_name_at(new_name, now_text());
    }

    fn add_tag(&mut self, tag: &str) {
        self.add_tag_at(tag, now_text());
    }

    fn remove_tag(&mut self, tag: &str) {
        self.remove_tag_at(tag, now_text());
    }

    fn update_note(&mut self, note: &str) {
        self.update_note_at(note, now_text());
    }
}


/// A metadata record as it is when a reference is created: no name, no
/// note, no tags, and the two timestamps as given.
pub open spec fn fresh_record(
    id: Seq<char>,
    ref_type: Seq<char>,
    collection: Seq<char>,
    created_at: Seq<char>,
    updated_at: Seq<char>,
    detail: DetailView,
) -> MetaView {
    MetaView {
        id,
        name: Seq::empty(),
        ref_type,
        collection,
        created_at,
        updated_at,
        note_text: Seq::empty(),
        tags: Seq::empty(),
        detail,
    }
}

impl ImageMetadata {
    /// The metadata of an image ingested at the times given, from the name of
    /// its file and the file's content (empty where the file could not be
    /// read).
    pub fn new_at(
        id: String, file_name: &str, media: &[u8], collection: &str,
        created_at: String,
        updated_at: String,
    ) -> (made: Self)
        ensures
            made@ == fresh_record(
                id@,
                "image"@,
                collection@,
                created_at@,
                updated_at@,
                DetailView::Image {
                    file_name: file_name@,
                    media_type: media_type_text(guessed_media_type(file_name@)),
                    dimensions: decoded_dimensions(file_name@, media@),
                    file_size: human_size_text(media@.len()),
                    colors: Seq::empty(),
                },
            ),
    {
        let made = ImageMetadata {
            id,
            name: String::new(),
            file_name: file_name.to_owned(),
            ref_type: "image".to_owned(),
            media_type: determine_media_type(file_name),
            dimensions: analyze_dimensions(file_name, media),
            file_size: human_size(media.len() as u64),
            collection: collection.to_owned(),
            colors: Vec::new(),
            created_at,
            updated_at,
            note_text: String::new(),
            tags: Vec::new(),
        };
        assert(texts(made.tags@) =~= Seq::empty());
        assert(texts(made.colors@) =~= Seq::empty());
        made
    }

    /// The metadata of an image ingested now.
    pub fn new(id: String, file_name: &str, media: &[u8], collection: &str) -> (made: Result<Self, String>)
        ensures
            made is Ok,
            made->Ok_0@ == fresh_record(
                id@,
                "image"@,
                collection@,
                made->Ok_0@.created_at,
                made->Ok_0@.updated_at,
                DetailView::Image {
                    file_name: file_name@,
                    media_type: media_type_text(guessed_media_type(file_name@)),
                    dimensions: decoded_dimensions(file_name@, media@),
                    file_size: human_size_text(media@.len()),
                    colors: Seq::empty(),
                },
            ),
    {
        Ok(Self::new_at(id, file_name, media, collection, now_text(), now_text()))
    }

    /// Replaces the colour list.
    pub fn set_colors(&mut self, colors: Vec<String>)
        ensures
            final(self)@ == old(self)@.recolored(texts(colors@)),
    {
        self.colors = colors;
    }
}

impl VideoMetadata {
    /// The metadata of a video ingested at the times given, from the name
    /// of its file and the file's length in bytes (0 where the file could
    /// not be read).
    pub fn new_at(
        id: String, file_name: &str, file_size: u64, collection: &str,
        created_at: String,
        updated_at: String,
    ) -> (made: Self)
        ensures
            made@ == fresh_record(
                id@,
                "video"@,
                collection@,
                created_at@,
                updated_at@,
                DetailView::Video {
                    file_name: file_name@,
                    media_type: media_type_text(guessed_media_type(file_name@)),
                    file_size: human_size_text(file_size as nat),
                },
            ),
    {
        let made = VideoMetadata {
            id,
            name: String::new(),
            file_name: file_name.to_owned(),
            ref_type: "video".to_owned(),
            media_type: determine_media_type(file_name),
            file_size: human_size(file_size),
            collection: collection.to_owned(),
            created_at,
            updated_at,
            note_text: String::new(),
            tags: Vec::new(),
        };
        assert(texts(made.tags@) =~= Seq::empty());
        made
    }

    /// The metadata of a video ingested now.
    pub fn new(id: String, file_name: &str, file_size: u64, collection: &str) -> (made: Result<Self, String>)
        ensures
            made is Ok,
            made->Ok_0@ == fresh_record(
                id@,
                "video"@,
                collection@,
                made->Ok_0@.created_at,
                made->Ok_0@.updated_at,
                DetailView::Video {
                    file_name: file_name@,
                    media_type: media_type_text(guessed_media_type(file_name@)),
                    file_size: human_size_text(file_size as nat),
                },
            ),
    {
        Ok(Self::new_at(id, file_name, file_size, collection, now_text(), now_text()))
    }
}

impl AudioMetadata {
    /// The metadata of an audio recording ingested at the times given, from the name
    /// of its file and the file's length in bytes (0 where the file could
    /// not be read).
    pub fn new_at(
        id: String, file_name: &str, file_size: u64, collection: &str,
        created_at: String,
        updated_at: String,
    ) -> (made: Self)
        ensures
            made@ == fresh_record(
                id@,
                "audio"@,
                collection@,
                created_at@,
                updated_at@,
                DetailView::Audio {
                    file_name: file_name@,
                    media_type: media_type_text(guessed_media_type(file_name@)),
                    file_size: human_size_text(file_size as nat),
                },
            ),
    {
        let made = AudioMetadata {
            id,
            name: String::new(),
            file_name: file_name.to_owned(),
            ref_type: "audio".to_owned(),
            media_type: determine_media_type(file_name),
            file_size: human_size(file_size),
            collection: collection.to_owned(),
            created_at,
            updated_at,
            note_text: String::new(),
            tags: Vec::new(),
        };
        assert(texts(made.tags@) =~= Seq::empty());
        made
    }

    /// The metadata of an audio recording ingested now.
    pub fn new(id: String, file_name: &str, file_size: u64, collection: &str) -> (made: Result<Self, String>)
        ensures
            made is Ok,
            made->Ok_0@ == fresh_record(
                id@,
                "audio"@,
                collection@,
                made->Ok_0@.created_at,
                made->Ok_0@.updated_at,
                DetailView::Audio {
                    file_name: file_name@,
                    media_type: media_type_text(guessed_media_type(file_name@)),
                    file_size: human_size_text(file_size as nat),
                },
            ),
    {
        Ok(Self::new_at(id, file_name, file_size, collection, now_text(), now_text()))
    }
}

impl NoteMetadata {
    /// The metadata of a note written at the times given.
    pub fn new_at(
        id: &str, collection: &str,
        created_at: String,
        updated_at: String,
    ) -> (made: Self)
        ensures
            made@ == fresh_record(
                id@,
                "note"@,
                collection@,
                created_at@,
                updated_at@,
                DetailView::Note,
            ),
    {
        let made = NoteMetadata {
            id: id.to_owned(),
            name: String::new(),
            ref_type: "note".to_owned(),
            collection: collection.to_owned(),
            created_at,
            updated_at,
            note_text: String::new(),
            tags: Vec::new(),
        };
        assert(texts(made.tags@) =~= Seq::empty());
        made
    }

    /// The metadata of a note written now.
    pub fn new(id: &str, collection: &str) -> (made: Result<Self, String>)
        ensures
            made is Ok,
            made->Ok_0@ == fresh_record(
                id@,
                "note"@,
                collection@,
                made->Ok_0@.created_at,
                made->Ok_0@.updated_at,
                DetailView::Note,
            ),
    {
        Ok(Self::new_at(id, collection, now_text(), now_text()))
    }
}

impl LinkMetadata {
    /// The metadata of a link saved at the times given.
    pub fn new_at(
        id: &str, source_uri: &str, collection: &str,
        created_at: String,
        updated_at: String,
    ) -> (made: Self)
        ensures
            made@ == fresh_record(
                id@,
                "link"@,
                collection@,
                created_at@,
                updated_at@,
                DetailView::Link { source_uri: source_uri@ },
            ),
    {
        let made = LinkMetadata {
            id: id.to_owned(),
            name: String::new(),
            ref_type: "link".to_owned(),
            source_uri: source_uri.to_owned(),
            collection: collection.to_owned(),
            created_at,
            updated_at,
            note_text: String::new(),
            tags: Vec::new(),
        };
        assert(texts(made.tags@) =~= Seq::empty());
        made
    }

    /// The metadata of a link saved now.
    pub fn new(id: &str, source_uri: &str, collection: &str) -> (made: Result<Self, String>)
        ensures
            made is Ok,
            made->Ok_0@ == fresh_record(
                id@,
                "link"@,
                collection@,
                made->Ok_0@.created_at,
                made->Ok_0@.updated_at,
                DetailView::Link { source_uri: source_uri@ },
            ),
    {
        Ok(Self::new_at(id, source_uri, collection, now_text(), now_text()))
    }
}

impl DocMetadata {
    /// The metadata of a document ingested at the times given.
    pub fn new_at(
        id: String, collection: &str,
        created_at: String,
        updated_at: String,
    ) -> (made: Self)
        ensures
            made@ == fresh_record(
                id@,
                "doc"@,
                collection@,
                created_at@,
                updated_at@,
                DetailView::Doc,
            ),
    {
        let made = DocMetadata {
            id,
            name: String::new(),
            ref_type: "doc".to_owned(),
            collection: collection.to_owned(),
            created_at,
            updated_at,
            note_text: String::new(),
            tags: Vec::new(),
        };
        assert(texts(made.tags@) =~= Seq::empty());
        made
    }

    /// The metadata of a document ingested now.
    pub fn new(id: String, collection: &str) -> (made: Result<Self, String>)
        ensures
            made is Ok,
            made->Ok_0@ == fresh_record(
                id@,
                "doc"@,
                collection@,
                made->Ok_0@.created_at,
                made->Ok_0@.updated_at,
                DetailView::Doc,
            ),
    {
        Ok(Self::new_at(id, collection, now_text(), now_text()))
    }
}

/// A reference as a mathematical value.
#[verifier::ext_equal]
pub struct RefView {
    /// Which of the six kinds the reference is.
    pub kind: RefKind,
    /// What the reference shows: the link of its primary asset (image,
    /// video, audio, document), the link of its snapshot (link), or its body
    /// text (note).
    pub primary: Seq<char>,
    /// The link of an image's low-resolution derivative; empty for every
    /// other kind.
    pub low_res: Seq<char>,
    /// The metadata record, if the reference has one.
    pub metadata: Option<MetaView>,
    /// The path of the sidecar document.
    pub metapath: Seq<char>,
}

impl RefView {
    /// The reference with another metadata record.
    pub open spec fn with_metadata(self, m: MetaView) -> RefView {
        RefView { metadata: Some(m), ..self }
    }

    /// The reference showing something else.
    pub open spec fn with_primary(self, primary: Seq<char>) -> RefView {
        RefView { primary, ..self }
    }
}

/// An image, its low-resolution derivative and its metadata.
#[derive(Debug)]
pub struct ImageRef {
    pub image_path: String,
    pub low_res_imagepath: String,
    pub metadata: Option<ImageMetadata>,
    pub metapath: String,
}

impl View for ImageRef {
    type V = RefView;

    open spec fn view(&self) -> RefView {
        RefView {
            kind: RefKind::Image,
            primary: self.image_path@,
            low_res: self.low_res_imagepath@,
            metadata: match self.metadata {
                Some(m) => Some(m@),
                None => None,
            },
            metapath: self.metapath@,
        }
    }
}

impl Clone for ImageRef {
    fn clone(&self) -> (copy: Self)
        ensures
            copy@ == self@,
    {
        ImageRef {
            image_path: self.image_path.clone(),
            low_res_imagepath: self.low_res_imagepath.clone(),
            metadata: match &self.metadata {
                Some(m) => Some(m.clone()),
                None => None,
            },
            metapath: self.metapath.clone(),
        }
    }
}

/// A video and its metadata.
#[derive(Debug)]
pub struct VideoRef {
    pub video_path: String,
    pub metadata: Option<VideoMetadata>,
    pub metapath: String,
}

impl View for VideoRef {
    type V = RefView;

    open spec fn view(&self) -> RefView {
        RefView {
            kind: RefKind::Video,
            primary: self.video_path@,
            low_res: Seq::empty(),
            metadata: match self.metadata {
                Some(m) => Some(m@),
                None => None,
            },
            metapath: self.metapath@,
        }
    }
}

impl Clone for VideoRef {
    fn clone(&self) -> (copy: Self)
        ensures
            copy@ == self@,
    {
        VideoRef {
            video_path: self.video_path.clone(),
            metadata: match &self.metadata {
                Some(m) => Some(m.clone()),
                None => None,
            },
            metapath: self.metapath.clone(),
        }
    }
}

/// An audio recording and its metadata.
#[derive(Debug)]
pub struct AudioRef {
    pub audio_path: String,
    pub metadata: Option<AudioMetadata>,
    pub metapath: String,
}

impl View for AudioRef {
    type V = RefView;

    open spec fn view(&self) -> RefView {
        RefView {
            kind: RefKind::Audio,
            primary: self.audio_path@,
            low_res: Seq::empty(),
            metadata: match self.metadata {
                Some(m) => Some(m@),
                None => None,
            },
            metapath: self.metapath@,
        }
    }
}

impl Clone for AudioRef {
    fn clone(&self) -> (copy: Self)
        ensures
            copy@ == self@,
    {
        AudioRef {
            audio_path: self.audio_path.clone(),
            metadata: match &self.metadata {
                Some(m) => Some(m.clone()),
                None => None,
            },
            metapath: self.metapath.clone(),
        }
    }
}

/// A note: its body text and its metadata.
#[derive(Debug)]
pub struct NoteRef {
    pub content: String,
    pub metadata: Option<NoteMetadata>,
    pub metapath: String,
}

impl View for NoteRef {
    type V = RefView;

    open spec fn view(&self) -> RefView {
        RefView {
            kind: RefKind::Note,
            primary: self.content@,
            low_res: Seq::empty(),
            metadata: match self.metadata {
                Some(m) => Some(m@),
                None => None,
            },
            metapath: self.metapath@,
        }
    }
}

impl Clone for NoteRef {
    fn clone(&self) -> (copy: Self)
        ensures
            copy@ == self@,
    {
        NoteRef {
            content: self.content.clone(),
            metadata: match &self.metadata {
                Some(m) => Some(m.clone()),
                None => None,
            },
            metapath: self.metapath.clone(),
        }
    }
}

/// A link: the snapshot of its page, if one was taken, and its metadata.
#[derive(Debug)]
pub struct LinkRef {
    pub snapshoot: String,
    pub metadata: Option<LinkMetadata>,
    pub metapath: String,
}

impl View for LinkRef {
    type V = RefView;

    open spec fn view(&self) -> RefView {
        RefView {
            kind: RefKind::Link,
            primary: self.snapshoot@,
            low_res: Seq::empty(),
            metadata: match self.metadata {
                Some(m) => Some(m@),
                None => None,
            },
            metapath: self.metapath@,
        }
    }
}

impl Clone for LinkRef {
    fn clone(&self) -> (copy: Self)
        ensures
            copy@ == self@,
    {
        LinkRef {
            snapshoot: self.snapshoot.clone(),
            metadata: match &self.metadata {
                Some(m) => Some(m.clone()),
                None => None,
            },
            metapath: self.metapath.clone(),
        }
    }
}

/// A document and its metadata.
#[derive(Debug)]
pub struct DocRef {
    pub doc_path: String,
    pub metadata: Option<DocMetadata>,
    pub metapath: String,
}

impl View for DocRef {
    type V = RefView;

    open spec fn view(&self) -> RefView {
        RefView {
            kind: RefKind::Doc,
            primary: self.doc_path@,
            low_res: Seq::empty(),
            metadata: match self.metadata {
                Some(m) => Some(m@),
                None => None,
            },
            metapath: self.metapath@,
        }
    }
}

impl Clone for DocRef {
    fn clone(&self) -> (copy: Self)
        ensures
            copy@ == self@,
    {
        DocRef {
            doc_path: self.doc_path.clone(),
            metadata: match &self.metadata {
                Some(m) => Some(m.clone()),
                None => None,
            },
            metapath: self.metapath.clone(),
        }
    }
}

impl ImageRef {
    /// An image reference from the path of its file, the link of its
    /// low-resolution derivative, its metadata and the path of its sidecar.
    pub fn new(
        imagepath: &str,
        lw_rs_imagpath: String,
        metadata: ImageMetadata,
        metapath: &str,
        os: &str,
    ) -> (made: Result<Self, String>)
        ensures
            made is Ok,
            made->Ok_0@ == (RefView {
                kind: RefKind::Image,
                primary: asset_link(imagepath@, os@),
                low_res: lw_rs_imagpath@,
                metadata: Some(metadata@),
                metapath: metapath@,
            }),
    {
        Ok(
            ImageRef {
                image_path: convert_file_src(imagepath, os),
                low_res_imagepath: lw_rs_imagpath,
                metadata: Some(metadata),
                metapath: metapath.to_owned(),
            },
        )
    }
}

impl VideoRef {
    /// A video reference from the path of its file, its metadata and the path of its sidecar.
    pub fn new(videopath: &str, metadata: VideoMetadata, metapath: &str, os: &str) -> (made: Result<
        Self,
        String,
    >)
        ensures
            made is Ok,
            made->Ok_0@ == (RefView {
                kind: RefKind::Video,
                primary: asset_link(videopath@, os@),
                low_res: Seq::empty(),
                metadata: Some(metadata@),
                metapath: metapath@,
            }),
    {
        Ok(
            VideoRef {
                video_path: convert_file_src(videopath, os),
                metadata: Some(metadata),
                metapath: metapath.to_owned(),
            },
        )
    }
}

impl AudioRef {
    /// An audio reference from the path of its file, its metadata and the path of its sidecar.
    pub fn new(audiopath: &str, metadata: AudioMetadata, metapath: &str, os: &str) -> (made: Result<
        Self,
        String,
    >)
        ensures
            made is Ok,
            made->Ok_0@ == (RefView {
                kind: RefKind::Audio,
                primary: asset_link(audiopath@, os@),
                low_res: Seq::empty(),
                metadata: Some(metadata@),
                metapath: metapath@,
            }),
    {
        Ok(
            AudioRef {
                audio_path: convert_file_src(audiopath, os),
                metadata: Some(metadata),
                metapath: metapath.to_owned(),
            },
        )
    }
}

impl DocRef {
    /// A document reference from the path of its file, its metadata and the path of its sidecar.
    pub fn new(docpath: &str, metadata: DocMetadata, metapath: &str, os: &str) -> (made: Result<
        Self,
        String,
    >)
        ensures
            made is Ok,
            made->Ok_0@ == (RefView {
                kind: RefKind::Doc,
                primary: asset_link(docpath@, os@),
                low_res: Seq::empty(),
                metadata: Some(metadata@),
                metapath: metapath@,
            }),
    {
        Ok(
            DocRef {
                doc_path: convert_file_src(docpath, os),
                metadata: Some(metadata),
                metapath: metapath.to_owned(),
            },
        )
    }
}

/// The link of a snapshot, and nothing for no snapshot.
pub open spec fn snapshot_link(snapshoot: Option<&str>, os: Seq<char>) -> Seq<char> {
    match snapshoot {
        Some(path) => asset_link(path@, os),
        None => Seq::empty(),
    }
}

impl LinkRef {
    /// A link reference from the path of its snapshot, if it has one, its
    /// metadata and the path of its sidecar.
    pub fn new(snapshoot: Option<&str>, metadata: LinkMetadata, metapath: &str, os: &str) -> (made:
        Result<Self, String>)
        ensures
            made is Ok,
            made->Ok_0@ == (RefView {
                kind: RefKind::Link,
                primary: snapshot_link(snapshoot, os@),
                low_res: Seq::empty(),
                metadata: Some(metadata@),
                metapath: metapath@,
            }),
    {
        let snapshot_str = match snapshoot {
            Some(path) => convert_file_src(path, os),
            None => String::new(),
        };
        Ok(LinkRef { snapshoot: snapshot_str, metadata: Some(metadata), metapath: metapath.to_owned() })
    }
}

/// A metadata record of any of the six kinds.
#[derive(Debug)]
pub enum RefMeta {
    Image(ImageMetadata),
    Video(VideoMetadata),
    Audio(AudioMetadata),
    Note(NoteMetadata),
    Link(LinkMetadata),
    Doc(DocMetadata),
}

impl View for RefMeta {
    type V = MetaView;

    open spec fn view(&self) -> MetaView {
        match self {
            RefMeta::Image(m) => m@,
            RefMeta::Video(m) => m@,
            RefMeta::Audio(m) => m@,
            RefMeta::Note(m) => m@,
            RefMeta::Link(m) => m@,
            RefMeta::Doc(m) => m@,
        }
    }
}

impl Clone for RefMeta {
    fn clone(&self) -> (copy: Self)
        ensures
            copy@ == self@,
    {
        match self {
            RefMeta::Image(m) => RefMeta::Image(m.clone()),
            RefMeta::Video(m) => RefMeta::Video(m.clone()),
            RefMeta::Audio(m) => RefMeta::Audio(m.clone()),
            RefMeta::Note(m) => RefMeta::Note(m.clone()),
            RefMeta::Link(m) => RefMeta::Link(m.clone()),
            RefMeta::Doc(m) => RefMeta::Doc(m.clone()),
        }
    }
}

impl RefMeta {
    /// The kind of reference that the record describes.
    pub fn kind(&self) -> (kind: RefKind)
        ensures
            kind == self@.kind(),
    {
        match self {
            RefMeta::Image(_) => RefKind::Image,
            RefMeta::Video(_) => RefKind::Video,
            RefMeta::Audio(_) => RefKind::Audio,
            RefMeta::Note(_) => RefKind::Note,
            RefMeta::Link(_) => RefKind::Link,
            RefMeta::Doc(_) => RefKind::Doc,
        }
    }
}

impl Metadata for RefMeta {
    fn set_name_at(&mut self, new_name: &str, now: String) {
        match self {
            RefMeta::Image(m) => m.set_name_at(new_name, now),
            RefMeta::Video(m) => m.set_name_at(new_name, now),
            RefMeta::Audio(m) => m.set_name_at(new_name, now),
            RefMeta::Note(m) => m.set_name_at(new_name, now),
            RefMeta::Link(m) => m.set_name_at(new_name, now),
            RefMeta::Doc(m) => m.set_name_at(new_name, now),
        }
    }

    fn add_tag_at(&mut self, tag: &str, now: String) {
        match self {
            RefMeta::Image(m) => m.add_tag_at(tag, now),
            RefMeta::Video(m) => m.add_tag_at(tag, now),
            RefMeta::Audio(m) => m.add_tag_at(tag, now),
            RefMeta::Note(m) => m.add_tag_at(tag, now),
            RefMeta::Link(m) => m.add_tag_at(tag, now),
            RefMeta::Doc(m) => m.add_tag_at(tag, now),
        }
    }

    fn remove_tag_at(&mut self, tag: &str, now: String) {
        match self {
            RefMeta::Image(m) => m.remove_tag_at(tag, now),
            RefMeta::Video(m) => m.remove_tag_at(tag, now),
            RefMeta::Audio(m) => m.remove_tag_at(tag, now),
            RefMeta::Note(m) => m.remove_tag_at(tag, now),
            RefMeta::Link(m) => m.remove_tag_at(tag, now),
            RefMeta::Doc(m) => m.remove_tag_at(tag, now),
        }
    }

    fn update_note_at(&mut self, note: &str, now: String) {
        match self {
            RefMeta::Image(m) => m.update_note_at(note, now),
            RefMeta::Video(m) => m.update_note_at(note, now),
            RefMeta::Audio(m) => m.update_note_at(note, now),
            RefMeta::Note(m) => m.update_note_at(note, now),
            RefMeta::Link(m) => m.update_note_at(note, now),
            RefMeta::Doc(m) => m.update_note_at(note, now),
        }
    }

    fn set_name(&mut self, new_name: &str) {
        match self {
            RefMeta::Image(m) => m.set_name(new_name),
            RefMeta::Video(m) => m.set_name(new_name),
            RefMeta::Audio(m) => m.set_name(new_name),
            RefMeta::Note(m) => m.set_name(new_name),
            RefMeta::Link(m) => m.set_name(new_name),
            RefMeta::Doc(m) => m.set_name(new_name),
        }
    }

    fn add_tag(&mut self, tag: &str) {
        match self {
            RefMeta::Image(m) => m.add_tag(tag),
            RefMeta::Video(m) => m.add_tag(tag),
            RefMeta::Audio(m) => m.add_tag(tag),
            RefMeta::Note(m) => m.add_tag(tag),
            RefMeta::Link(m) => m.add_tag(tag),
            RefMeta::Doc(m) => m.add_tag(tag),
        }
    }

    fn remove_tag(&mut self, tag: &str) {
        match self {
            RefMeta::Image(m) => m.remove_tag(tag),
            RefMeta::Video(m) => m.remove_tag(tag),
            RefMeta::Audio(m) => m.remove_tag(tag),
            RefMeta::Note(m) => m.remove_tag(tag),
            RefMeta::Link(m) => m.remove_tag(tag),
            RefMeta::Doc(m) => m.remove_tag(tag),
        }
    }

    fn update_note(&mut self, note: &str) {
        match self {
            RefMeta::Image(m) => m.update_note(note),
            RefMeta::Video(m) => m.update_note(note),
            RefMeta::Audio(m) => m.update_note(note),
            RefMeta::Note(m) => m.update_note(note),
            RefMeta::Link(m) => m.update_note(note),
            RefMeta::Doc(m) => m.update_note(note),
        }
    }
}

/// A catalogued item of any of the six kinds.
#[derive(Debug)]
pub enum Ref {
    Image(ImageRef),
    Video(VideoRef),
    Audio(AudioRef),
    Note(NoteRef),
    Link(LinkRef),
    Doc(DocRef),
}

impl View for Ref {
    type V = RefView;

    open spec fn view(&self) -> RefView {
        match self {
            Ref::Image(r) => r@,
            Ref::Video(r) => r@,
            Ref::Audio(r) => r@,
            Ref::Note(r) => r@,
            Ref::Link(r) => r@,
            Ref::Doc(r) => r@,
        }
    }
}

impl Clone for Ref {
    fn clone(&self) -> (copy: Self)
        ensures
            copy@ == self@,
    {
        match self {
            Ref::Image(r) => Ref::Image(r.clone()),
            Ref::Video(r) => Ref::Video(r.clone()),
            Ref::Audio(r) => Ref::Audio(r.clone()),
            Ref::Note(r) => Ref::Note(r.clone()),
            Ref::Link(r) => Ref::Link(r.clone()),
            Ref::Doc(r) => Ref::Doc(r.clone()),
        }
    }
}

impl Ref {
    /// Whether the reference has its metadata record.
    pub fn has_metadata(&self) -> (has: bool)
        ensures
            has == self@.metadata is Some,
    {
        match self {
            Ref::Image(r) => r.metadata.is_some(),
            Ref::Video(r) => r.metadata.is_some(),
            Ref::Audio(r) => r.metadata.is_some(),
            Ref::Note(r) => r.metadata.is_some(),
            Ref::Link(r) => r.metadata.is_some(),
            Ref::Doc(r) => r.metadata.is_some(),
        }
    }

    /// The kind of the reference.
    pub fn kind(&self) -> (kind: RefKind)
        ensures
            kind == self@.kind,
    {
        match self {
            Ref::Image(_) => RefKind::Image,
            Ref::Video(_) => RefKind::Video,
            Ref::Audio(_) => RefKind::Audio,
            Ref::Note(_) => RefKind::Note,
            Ref::Link(_) => RefKind::Link,
            Ref::Doc(_) => RefKind::Doc,
        }
    }

    /// The identifier of the reference, from its metadata.
    pub fn get_id(&self) -> (id: &str)
        requires
            self@.metadata is Some,
        ensures
            id@ == self@.metadata->Some_0.id,
    {
        match self {
            Ref::Image(r) => r.metadata.as_ref().unwrap().id.as_str(),
            Ref::Video(r) => r.metadata.as_ref().unwrap().id.as_str(),
            Ref::Audio(r) => r.metadata.as_ref().unwrap().id.as_str(),
            Ref::Note(r) => r.metadata.as_ref().unwrap().id.as_str(),
            Ref::Link(r) => r.metadata.as_ref().unwrap().id.as_str(),
            Ref::Doc(r) => r.metadata.as_ref().unwrap().id.as_str(),
        }
    }

    /// A copy of the metadata record, or an error for a reference that has
    /// none.
    pub fn get_ref_meta(&self) -> (meta: Result<RefMeta, String>)
        ensures
            match meta {
                Ok(m) => self@.metadata == Some(m@) && m@.kind() == self@.kind,
                Err(e) => self@.metadata is None && e@ == "the reference has no metadata"@,
            },
    {
        if !self.has_metadata() {
            return Err("the reference has no metadata".to_owned());
        }
        Ok(
            match self {
                Ref::Image(r) => RefMeta::Image(r.metadata.as_ref().unwrap().clone()),
                Ref::Video(r) => RefMeta::Video(r.metadata.as_ref().unwrap().clone()),
                Ref::Audio(r) => RefMeta::Audio(r.metadata.as_ref().unwrap().clone()),
                Ref::Note(r) => RefMeta::Note(r.metadata.as_ref().unwrap().clone()),
                Ref::Link(r) => RefMeta::Link(r.metadata.as_ref().unwrap().clone()),
                Ref::Doc(r) => RefMeta::Doc(r.metadata.as_ref().unwrap().clone()),
            },
        )
    }

    /// Gives the reference a new display name, at the time `now`.
    pub fn set_name_at(&mut self, new_name: &str, now: String)
        requires
            old(self)@.metadata is Some,
        ensures
            final(self)@ == old(self)@.with_metadata(
                old(self)@.metadata->Some_0.renamed(new_name@, now@),
            ),
    {
        match self {
            Ref::Image(r) => r.metadata.as_mut().unwrap().set_name_at(new_name, now),
            Ref::Video(r) => r.metadata.as_mut().unwrap().set_name_at(new_name, now),
            Ref::Audio(r) => r.metadata.as_mut().unwrap().set_name_at(new_name, now),
            Ref::Note(r) => r.metadata.as_mut().unwrap().set_name_at(new_name, now),
            Ref::Link(r) => r.metadata.as_mut().unwrap().set_name_at(new_name, now),
            Ref::Doc(r) => r.metadata.as_mut().unwrap().set_name_at(new_name, now),
        }
    }

    /// Gives the reference a new display name.
    pub fn set_name(&mut self, new_name: &str)
        requires
            old(self)@.metadata is Some,
        ensures
            final(self)@.metadata is Some,
            final(self)@ == old(self)@.with_metadata(
                old(self)@.metadata->Some_0.renamed(new_name@, final(self)@.metadata->Some_0.updated_at),
            ),
    {
        self.set_name_at(new_name, now_text());
    }

    /// Appends a tag, which is appended again where the reference has it, at the time `now`.
    pub fn add_tag_at(&mut self, tag: &str, now: String)
        requires
            old(self)@.metadata is Some,
        ensures
            final(self)@ == old(self)@.with_metadata(
                old(self)@.metadata->Some_0.tagged(tag@, now@),
            ),
    {
        match self {
            Ref::Image(r) => r.metadata.as_mut().unwrap().add_tag_at(tag, now),
            Ref::Video(r) => r.metadata.as_mut().unwrap().add_tag_at(tag, now),
            Ref::Audio(r) => r.metadata.as_mut().unwrap().add_tag_at(tag, now),
            Ref::Note(r) => r.metadata.as_mut().unwrap().add_tag_at(tag, now),
            Ref::Link(r) => r.metadata.as_mut().unwrap().add_tag_at(tag, now),
            Ref::Doc(r) => r.metadata.as_mut().unwrap().add_tag_at(tag, now),
        }
    }

    /// Appends a tag; a tag that the reference already has is appended again.
    pub fn add_tag(&mut self, tag: &str)
        requires
            old(self)@.metadata is Some,
        ensures
            final(self)@.metadata is Some,
            final(self)@ == old(self)@.with_metadata(
                old(self)@.metadata->Some_0.tagged(tag@, final(self)@.metadata->Some_0.updated_at),
            ),
    {
        self.add_tag_at(tag, now_text());
    }

    /// Removes the last occurrence of a tag, at the time `now`.
    pub fn remove_tag_at(&mut self, tag: &str, now: String)
        requires
            old(self)@.metadata is Some,
        ensures
            final(self)@ == old(self)@.with_metadata(
                old(self)@.metadata->Some_0.untagged(tag@, now@),
            ),
    {
        match self {
            Ref::Image(r) => r.metadata.as_mut().unwrap().remove_tag_at(tag, now),
            Ref::Video(r) => r.metadata.as_mut().unwrap().remove_tag_at(tag, now),
            Ref::Audio(r) => r.metadata.as_mut().unwrap().remove_tag_at(tag, now),
            Ref::Note(r) => r.metadata.as_mut().unwrap().remove_tag_at(tag, now),
            Ref::Link(r) => r.metadata.as_mut().unwrap().remove_tag_at(tag, now),
            Ref::Doc(r) => r.metadata.as_mut().unwrap().remove_tag_at(tag, now),
        }
    }

    /// Removes the last occurrence of a tag.
    pub fn remove_tag(&mut self, tag: &str)
        requires
            old(self)@.metadata is Some,
        ensures
            final(self)@.metadata is Some,
            final(self)@ == old(self)@.with_metadata(
                old(self)@.metadata->Some_0.untagged(tag@, final(self)@.metadata->Some_0.updated_at),
            ),
    {
        self.remove_tag_at(tag, now_text());
    }

    /// Replaces the note kept in the metadata, at the time `now`.
    pub fn update_note_at(&mut self, note: &str, now: String)
        requires
            old(self)@.metadata is Some,
        ensures
            final(self)@ == old(self)@.with_metadata(
                old(self)@.metadata->Some_0.noted(note@, now@),
            ),
    {
        match self {
            Ref::Image(r) => r.metadata.as_mut().unwrap().update_note_at(note, now),
            Ref::Video(r) => r.metadata.as_mut().unwrap().update_note_at(note, now),
            Ref::Audio(r) => r.metadata.as_mut().unwrap().update_note_at(note, now),
            Ref::Note(r) => r.metadata.as_mut().unwrap().update_note_at(note, now),
            Ref::Link(r) => r.metadata.as_mut().unwrap().update_note_at(note, now),
            Ref::Doc(r) => r.metadata.as_mut().unwrap().update_note_at(note, now),
        }
    }

    /// Replaces the note kept in the metadata.
    pub fn update_note(&mut self, note: &str)
        requires
            old(self)@.metadata is Some,
        ensures
            final(self)@.metadata is Some,
            final(self)@ == old(self)@.with_metadata(
                old(self)@.metadata->Some_0.noted(note@, final(self)@.metadata->Some_0.updated_at),
            ),
    {
        self.update_note_at(note, now_text());
    }
}

/// How a catalogue is ordered on screen.
#[derive(Clone, Copy, Debug, PartialEq, Eq, Structural)]
pub enum SortBy {
    CreationTime,
    ModificationTime,
}

impl Default for SortBy {
    fn default() -> (sort_by: Self)
        ensures
            sort_by == SortBy::CreationTime,
    {
        SortBy::CreationTime
    }
}

/// Preferences on how references are shown.
#[derive(Clone, Copy, Debug, PartialEq, Eq, Structural)]
pub struct AppearanceSettings {
    pub show_media_info: bool,
    pub video_ref_autoplay: bool,
}

impl Default for AppearanceSettings {
    fn default() -> (appearance: Self)
        ensures
            appearance == (AppearanceSettings { show_media_info: false, video_ref_autoplay: false }),
    {
        AppearanceSettings { show_media_info: false, video_ref_autoplay: false }
    }
}

/// Preferences on how the catalogue behaves.
#[derive(Clone, Copy, Debug, PartialEq, Eq, Structural)]
pub struct BehaviorSettings {
    pub sort_by: SortBy,
}

impl Default for BehaviorSettings {
    fn default() -> (behavior: Self)
        ensures
            behavior == (BehaviorSettings { sort_by: SortBy::CreationTime }),
    {
        BehaviorSettings { sort_by: SortBy::CreationTime }
    }
}

/// The preferences document.
#[derive(Clone, Copy, Debug, PartialEq, Eq, Structural)]
pub struct Settings {
    pub appearance: AppearanceSettings,
    pub behavior: BehaviorSettings,
}

impl Default for Settings {
    fn default() -> (settings: Self)
        ensures
            settings == (Settings {
                appearance: AppearanceSettings { show_media_info: false, video_ref_autoplay: false },
                behavior: BehaviorSettings { sort_by: SortBy::CreationTime },
            }),
    {
        Settings {
            appearance: AppearanceSettings { show_media_info: false, video_ref_autoplay: false },
            behavior: BehaviorSettings { sort_by: SortBy::CreationTime },
        }
    }
}

/// Adding a tag always lengthens the list by that tag, whether the record
/// has it already or not; and removing the tag that was just added gives
/// the old list back.
pub proof fn lemma_add_then_remove_tag(
    m: MetaView,
    tag: Seq<char>,
    added_at: Seq<char>,
    removed_at: Seq<char>,
)
    ensures
        m.tagged(tag, added_at).tags == m.tags.push(tag),
        m.tagged(tag, added_at).untagged(tag, removed_at) == (MetaView {
            updated_at: removed_at,
            ..m
        }),
{
    assert(m.tags.push(tag).drop_last() =~= m.tags);
}

/// Removing a tag that a list does not hold leaves the list as it is.
pub proof fn lemma_without_absent_tag(tags: Seq<Seq<char>>, tag: Seq<char>)
    requires
        !tags.contains(tag),
    ensures
        without_tag(tags, tag) == tags,
    decreases tags.len(),
{
    if tags.len() > 0 {
        let rest = tags.drop_last();
        assert forall|i: int| 0 <= i < rest.len() implies rest[i] != tag by {
            assert(rest[i] == tags[i]);
        }
        assert(!rest.contains(tag));
        lemma_without_absent_tag(rest, tag);
        assert(tags[tags.len() - 1] != tag);
        assert(rest.push(tags.last()) =~= tags);
    }
}

/// Removing a tag that a list holds takes out one occurrence of it and
/// nothing else: the list is one shorter, holds the tag once less and every
/// other tag as often as before.
pub proof fn lemma_tag_removed(tags: Seq<Seq<char>>, tag: Seq<char>)
    requires
        tags.contains(tag),
    ensures
        without_tag(tags, tag).len() == tags.len() - 1,
        without_tag(tags, tag).to_multiset() == tags.to_multiset().remove(tag),
    decreases tags.len(),
{
    broadcast use vstd::seq_lib::to_multiset_build;

    let rest = tags.drop_last();
    assert(rest.push(tags.last()) =~= tags);
    if tags.last() == tag {
        assert(tags.to_multiset().remove(tag) =~= rest.to_multiset());
    } else {
        let i = choose|i: int| 0 <= i < tags.len() && tags[i] == tag;
        assert(rest[i] == tag);
        lemma_tag_removed(rest, tag);
        assert(without_tag(tags, tag).to_multiset() =~= tags.to_multiset().remove(tag));
    }
}

} // verus!