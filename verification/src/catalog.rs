//! The catalogue store: the references of one collection root, held in
//! memory in the order in which they were added, with the edits that the
//! shell asks for. Every edit hands back the sidecar to rewrite, so that
//! the caller, who holds the lock on the catalogue, writes it through.

use vstd::prelude::*;
use crate::sidecar::{sidecar_text, write_sidecar};
use crate::state::{now_text, MetaView, Ref, RefKind, RefMeta, RefView};
use crate::text::{str_eq, texts};
use crate::utils::{asset_link, convert_file_src};

verus! {

/// Why the catalogue did not carry out an edit.
#[derive(Clone, Copy, Debug, PartialEq, Eq, Structural)]
pub enum CatalogError {
    /// No reference of the catalogue has the identifier.
    NotFound,
    /// The reference is of a kind that the edit is not for.
    WrongKind,
}

impl CatalogError {
    /// The error in words, for the reference that was asked for.
    pub fn message(&self, ref_id: &str) -> (text: String)
        ensures
            text@ == match *self {
                CatalogError::NotFound => "Reference with ID '"@ + ref_id@ + "' not found"@,
                CatalogError::WrongKind => "Invalid reference type for '"@ + ref_id@ + "'"@,
            },
    {
        match self {
            CatalogError::NotFound => {
                let mut text = "Reference with ID '".to_owned();
                text.append(ref_id);
                text.append("' not found");
                text
            },
            CatalogError::WrongKind => {
                let mut text = "Invalid reference type for '".to_owned();
                text.append(ref_id);
                text.append("'");
                text
            },
        }
    }
}

/// A sidecar to rewrite: the whole new text of the file at `path`.
#[derive(Debug)]
pub struct SidecarWrite {
    pub path: String,
    pub text: String,
}

/// The identifier of a reference; the empty text for a reference without
/// metadata.
pub open spec fn id_of(r: RefView) -> Seq<char> {
    match r.metadata {
        Some(m) => m.id,
        None => Seq::empty(),
    }
}

/// Where the first reference with an identifier stands; the length of the
/// list where there is none.
pub open spec fn first_with_id(refs: Seq<RefView>, id: Seq<char>) -> int
    decreases refs.len(),
{
    if refs.len() == 0 {
        0
    } else if id_of(refs[0]) == id {
        0
    } else {
        1 + first_with_id(refs.drop_first(), id)
    }
}

/// Whether a reference of the list has the identifier.
pub open spec fn has_id(refs: Seq<RefView>, id: Seq<char>) -> bool {
    first_with_id(refs, id) < refs.len()
}

/// The list with the metadata of the reference at `i` replaced.
pub open spec fn with_record(refs: Seq<RefView>, i: int, m: MetaView) -> Seq<RefView> {
    refs.update(i, refs[i].with_metadata(m))
}

/// The list without the references that have the identifier.
pub open spec fn without_id(refs: Seq<RefView>, id: Seq<char>) -> Seq<RefView> {
    refs.filter(|r: RefView| id_of(r) != id)
}

/// What `first_with_id` finds: a reference with the identifier, before
/// which none has it.
pub proof fn lemma_first_with_id(refs: Seq<RefView>, id: Seq<char>)
    ensures
        0 <= first_with_id(refs, id) <= refs.len(),
        has_id(refs, id) ==> id_of(refs[first_with_id(refs, id)]) == id,
        forall|j: int| 0 <= j < first_with_id(refs, id) ==> id_of(#[trigger] refs[j]) != id,
    decreases refs.len(),
{
    if refs.len() > 0 && id_of(refs[0]) != id {
        let rest = refs.drop_first();
        lemma_first_with_id(rest, id);
        assert forall|j: int| 0 <= j < first_with_id(refs, id) implies id_of(#[trigger] refs[j])
            != id by {
            if j > 0 {
                assert(refs[j] == rest[j - 1]);
            }
        }
        if has_id(refs, id) {
            assert(refs[first_with_id(refs, id)] == rest[first_with_id(rest, id)]);
        }
    }
}

/// Whether an edit was carried out: the first reference with the identifier
/// has the new record `m`, every other reference is as it was, and `write`
/// rewrites the sidecar of the edited reference with `m`.
pub open spec fn edited(
    before: Seq<RefView>,
    after: Seq<RefView>,
    id: Seq<char>,
    m: MetaView,
    write: SidecarWrite,
) -> bool {
    let i = first_with_id(before, id);
    &&& has_id(before, id)
    &&& after == with_record(before, i, m)
    &&& write.path@ == before[i].metapath
    &&& write.text@ == sidecar_text(m)
}

/// The record of the first reference with the identifier.
pub open spec fn record_of_id(refs: Seq<RefView>, id: Seq<char>) -> MetaView {
    refs[first_with_id(refs, id)].metadata->Some_0
}

/// The time of the last update of the reference at the place where `before`
/// has its first reference with the identifier.
pub open spec fn stamp_after(before: Seq<RefView>, after: Seq<RefView>, id: Seq<char>) -> Seq<char> {
    after[first_with_id(before, id)].metadata->Some_0.updated_at
}

/// Whether an edit was refused because no reference has the identifier:
/// nothing changed.
pub open spec fn not_found(before: Seq<RefView>, after: Seq<RefView>, id: Seq<char>) -> bool {
    !has_id(before, id) && after == before
}

/// Whether an edit was refused because the first reference with the
/// identifier is not of the kind that the edit is for: nothing changed.
pub open spec fn wrong_kind(
    before: Seq<RefView>,
    after: Seq<RefView>,
    id: Seq<char>,
    kind: RefKind,
) -> bool {
    has_id(before, id) && before[first_with_id(before, id)].kind != kind && after == before
}

/// The references of one collection root.
pub struct Catalog {
    refs: Vec<Ref>,
}

impl View for Catalog {
    type V = Seq<RefView>;

    closed spec fn view(&self) -> Seq<RefView> {
        self.refs@.map_values(|r: Ref| r@)
    }
}

impl Catalog {
    /// Every reference of the catalogue has its metadata.
    pub open spec fn wf(&self) -> bool {
        forall|i: int| 0 <= i < self@.len() ==> (#[trigger] self@[i]).metadata is Some
    }

    /// An empty catalogue.
    pub fn new() -> (catalog: Catalog)
        ensures
            catalog.wf(),
            catalog@.len() == 0,
    {
        Catalog { refs: Vec::new() }
    }

    /// How many references the catalogue holds.
    pub fn len(&self) -> (n: usize)
        ensures
            n == self@.len(),
    {
        self.refs.len()
    }

    /// A copy of the whole list, for the shell to show.
    pub fn get_all_refs(&self) -> (all: Vec<Ref>)
        ensures
            all@.map_values(|r: Ref| r@) == self@,
    {
        let mut all: Vec<Ref> = Vec::new();
        let mut i: usize = 0;
        while i < self.refs.len()
            invariant
                0 <= i <= self.refs.len(),
                all@.len() == i,
                forall|j: int| 0 <= j < i ==> (#[trigger] all@[j])@ == self.refs@[j]@,
            decreases self.refs.len() - i,
        {
            all.push(self.refs[i].clone());
            i = i + 1;
        }
        assert(all@.map_values(|r: Ref| r@) =~= self@);
        all
    }

    /// Appends a newly created reference.
    pub fn append(&mut self, new_ref: Ref)
        requires
            old(self).wf(),
            new_ref@.metadata is Some,
        ensures
            final(self).wf(),
            final(self)@ == old(self)@.push(new_ref@),
    {
        self.refs.push(new_ref);
        assert(self@ =~= old(self)@.push(new_ref@));
    }

    /// Finds the first reference with an identifier.
    pub fn find_by_id(&self, ref_id: &str) -> (found: Option<usize>)
        requires
            self.wf(),
        ensures
            match found {
                Some(i) => has_id(self@, ref_id@) && i == first_with_id(self@, ref_id@),
                None => !has_id(self@, ref_id@),
            },
    {
        let ghost all = self@;
        let mut i: usize = 0;
        assert(all.skip(0) =~= all);
        while i < self.refs.len()
            invariant
                0 <= i <= self.refs.len(),
                all == self@,
                self.wf(),
                first_with_id(all, ref_id@) == i + first_with_id(all.skip(i as int), ref_id@),
            decreases self.refs.len() - i,
        {
            proof {
                assert(all.skip(i as int)[0] == all[i as int]);
                assert(all.skip(i as int).drop_first() =~= all.skip(i as int + 1));
                assert(all[i as int] == self.refs@[i as int]@);
                assert(all[i as int].metadata is Some);
            }
            if str_eq(self.refs[i].get_id(), ref_id) {
                return Some(i);
            }
            i = i + 1;
        }
        None
    }

    /// The sidecar of the reference at `i`, as it has to be on disk now.
    fn sidecar_of(&self, i: usize) -> (write: SidecarWrite)
        requires
            i < self@.len(),
            self@[i as int].metadata is Some,
        ensures
            write.path@ == self@[i as int].metapath,
            write.text@ == sidecar_text(self@[i as int].metadata->Some_0),
    {
        assert(self@[i as int] == self.refs@[i as int]@);
        let path = match &self.refs[i] {
            Ref::Image(r) => r.metapath.clone(),
            Ref::Video(r) => r.metapath.clone(),
            Ref::Audio(r) => r.metapath.clone(),
            Ref::Note(r) => r.metapath.clone(),
            Ref::Link(r) => r.metapath.clone(),
            Ref::Doc(r) => r.metapath.clone(),
        };
        let text = match self.refs[i].get_ref_meta() {
            Ok(meta) => write_sidecar(&meta),
            Err(_) => String::new(),
        };
        SidecarWrite { path, text }
    }

    /// Gives the first reference with the identifier a new display name, at the
    /// time `now`.
    pub fn rename_ref_at(&mut self, ref_id: &str, new_name: &str, now: String) -> (done: Result<
        SidecarWrite,
        CatalogError,
    >)
        requires
            old(self).wf(),
        ensures
            final(self).wf(),
            match done {
                Ok(write) => edited(
                    old(self)@,
                    final(self)@,
                    ref_id@,
                    record_of_id(old(self)@, ref_id@).renamed(new_name@, now@),
                    write,
                ),
                Err(e) => e == CatalogError::NotFound && not_found(old(self)@, final(self)@, ref_id@),
            },
    {
        let i = match self.find_by_id(ref_id) {
            Some(i) => i,
            None => {
                return Err(CatalogError::NotFound);
            },
        };
        assert(self@[i as int] == self.refs@[i as int]@);
        self.refs[i].set_name_at(new_name, now);
        assert(self@ =~= old(self)@.update(i as int, self.refs@[i as int]@));
        Ok(self.sidecar_of(i))
    }

    /// Gives the first reference with the identifier a new display name, now.
    pub fn rename_ref(&mut self, ref_id: &str, new_name: &str) -> (done: Result<
        SidecarWrite,
        CatalogError,
    >)
        requires
            old(self).wf(),
        ensures
            final(self).wf(),
            match done {
                Ok(write) => edited(
                    old(self)@,
                    final(self)@,
                    ref_id@,
                    record_of_id(old(self)@, ref_id@).renamed(
                        new_name@,
                        stamp_after(old(self)@, final(self)@, ref_id@),
                    ),
                    write,
                ),
                Err(e) => e == CatalogError::NotFound && not_found(old(self)@, final(self)@, ref_id@),
            },
    {
        let now = now_text();
        let ghost stamp = now@;
        let done = self.rename_ref_at(ref_id, new_name, now);
        proof {
            if done is Ok {
                lemma_first_with_id(old(self)@, ref_id@);
                assert(stamp_after(old(self)@, self@, ref_id@) == stamp);
            }
        }
        done
    }

    /// Appends a tag to the first reference with the identifier, at the time
    /// `now`; a tag that it already has is appended again.
    pub fn add_tag_at(&mut self, ref_id: &str, tag: &str, now: String) -> (done: Result<
        SidecarWrite,
        CatalogError,
    >)
        requires
            old(self).wf(),
        ensures
            final(self).wf(),
            match done {
                Ok(write) => edited(
                    old(self)@,
                    final(self)@,
                    ref_id@,
                    record_of_id(old(self)@, ref_id@).tagged(tag@, now@),
                    write,
                ),
                Err(e) => e == CatalogError::NotFound && not_found(old(self)@, final(self)@, ref_id@),
            },
    {
        let i = match self.find_by_id(ref_id) {
            Some(i) => i,
            None => {
                return Err(CatalogError::NotFound);
            },
        };
        assert(self@[i as int] == self.refs@[i as int]@);
        self.refs[i].add_tag_at(tag, now);
        assert(self@ =~= old(self)@.update(i as int, self.refs@[i as int]@));
        Ok(self.sidecar_of(i))
    }

    /// Appends a tag to the first reference with the identifier, now.
    pub fn add_tag(&mut self, ref_id: &str, tag: &str) -> (done: Result<
        SidecarWrite,
        CatalogError,
    >)
        requires
            old(self).wf(),
        ensures
            final(self).wf(),
            match done {
                Ok(write) => edited(
                    old(self)@,
                    final(self)@,
                    ref_id@,
                    record_of_id(old(self)@, ref_id@).tagged(
                        tag@,
                        stamp_after(old(self)@, final(self)@, ref_id@),
                    ),
                    write,
                ),
                Err(e) => e == CatalogError::NotFound && not_found(old(self)@, final(self)@, ref_id@),
            },
    {
        let now = now_text();
        let ghost stamp = now@;
        let done = self.add_tag_at(ref_id, tag, now);
        proof {
            if done is Ok {
                lemma_first_with_id(old(self)@, ref_id@);
                assert(stamp_after(old(self)@, self@, ref_id@) == stamp);
            }
        }
        done
    }

    /// Removes the last occurrence of a tag from the first reference with the
    /// identifier, at the time `now`.
    pub fn remove_tag_at(&mut self, ref_id: &str, tag: &str, now: String) -> (done: Result<
        SidecarWrite,
        CatalogError,
    >)
        requires
            old(self).wf(),
        ensures
            final(self).wf(),
            match done {
                Ok(write) => edited(
                    old(self)@,
                    final(self)@,
                    ref_id@,
                    record_of_id(old(self)@, ref_id@).untagged(tag@, now@),
                    write,
                ),
                Err(e) => e == CatalogError::NotFound && not_found(old(self)@, final(self)@, ref_id@),
            },
    {
        let i = match self.find_by_id(ref_id) {
            Some(i) => i,
            None => {
                return Err(CatalogError::NotFound);
            },
        };
        assert(self@[i as int] == self.refs@[i as int]@);
        self.refs[i].remove_tag_at(tag, now);
        assert(self@ =~= old(self)@.update(i as int, self.refs@[i as int]@));
        Ok(self.sidecar_of(i))
    }

    /// Removes the last occurrence of a tag from the first reference with the
    /// identifier, now.
    pub fn remove_tag(&mut self, ref_id: &str, tag: &str) -> (done: Result<
        SidecarWrite,
        CatalogError,
    >)
        requires
            old(self).wf(),
        ensures
            final(self).wf(),
            match done {
                Ok(write) => edited(
                    old(self)@,
                    final(self)@,
                    ref_id@,
                    record_of_id(old(self)@, ref_id@).untagged(
                        tag@,
                        stamp_after(old(self)@, final(self)@, ref_id@),
                    ),
                    write,
                ),
                Err(e) => e == CatalogError::NotFound && not_found(old(self)@, final(self)@, ref_id@),
            },
    {
        let now = now_text();
        let ghost stamp = now@;
        let done = self.remove_tag_at(ref_id, tag, now);
        proof {
            if done is Ok {
                lemma_first_with_id(old(self)@, ref_id@);
                assert(stamp_after(old(self)@, self@, ref_id@) == stamp);
            }
        }
        done
    }

    /// Replaces the note kept in the metadata of the first reference with
    /// the identifier, at the time `now`.
    pub fn mutate_note_at(&mut self, ref_id: &str, text: &str, now: String) -> (done: Result<
        SidecarWrite,
        CatalogError,
    >)
        requires
            old(self).wf(),
        ensures
            final(self).wf(),
            match done {
                Ok(write) => edited(
                    old(self)@,
                    final(self)@,
                    ref_id@,
                    record_of_id(old(self)@, ref_id@).noted(text@, now@),
                    write,
                ),
                Err(e) => e == CatalogError::NotFound && not_found(old(self)@, final(self)@, ref_id@),
            },
    {
        let i = match self.find_by_id(ref_id) {
            Some(i) => i,
            None => {
                return Err(CatalogError::NotFound);
            },
        };
        assert(self@[i as int] == self.refs@[i as int]@);
        self.refs[i].update_note_at(text, now);
        assert(self@ =~= old(self)@.update(i as int, self.refs@[i as int]@));
        Ok(self.sidecar_of(i))
    }

    /// Replaces the note kept in the metadata of the first reference with
    /// the identifier, now.
    pub fn mutate_note(&mut self, ref_id: &str, text: &str) -> (done: Result<
        SidecarWrite,
        CatalogError,
    >)
        requires
            old(self).wf(),
        ensures
            final(self).wf(),
            match done {
                Ok(write) => edited(
                    old(self)@,
                    final(self)@,
                    ref_id@,
                    record_of_id(old(self)@, ref_id@).noted(
                        text@,
                        stamp_after(old(self)@, final(self)@, ref_id@),
                    ),
                    write,
                ),
                Err(e) => e == CatalogError::NotFound && not_found(old(self)@, final(self)@, ref_id@),
            },
    {
        let now = now_text();
        let ghost stamp = now@;
        let done = self.mutate_note_at(ref_id, text, now);
        proof {
            if done is Ok {
                lemma_first_with_id(old(self)@, ref_id@);
                assert(stamp_after(old(self)@, self@, ref_id@) == stamp);
            }
        }
        done
    }

    /// Replaces the colour list of the first reference with the identifier,
    /// which has to be an image.
    pub fn set_colors(&mut self, ref_id: &str, colors: Vec<String>) -> (done: Result<
        SidecarWrite,
        CatalogError,
    >)
        requires
            old(self).wf(),
        ensures
            final(self).wf(),
            match done {
                Ok(write) => old(self)@[first_with_id(old(self)@, ref_id@)].kind == RefKind::Image
                    && edited(
                    old(self)@,
                    final(self)@,
                    ref_id@,
                    record_of_id(old(self)@, ref_id@).recolored(texts(colors@)),
                    write,
                ),
                Err(CatalogError::NotFound) => not_found(old(self)@, final(self)@, ref_id@),
                Err(CatalogError::WrongKind) => wrong_kind(
                    old(self)@,
                    final(self)@,
                    ref_id@,
                    RefKind::Image,
                ),
            },
    {
        let i = match self.find_by_id(ref_id) {
            Some(i) => i,
            None => {
                return Err(CatalogError::NotFound);
            },
        };
        assert(self@[i as int] == self.refs@[i as int]@);
        if self.refs[i].kind() != RefKind::Image {
            return Err(CatalogError::WrongKind);
        }
        match &mut self.refs[i] {
            Ref::Image(r) => {
                r.metadata.as_mut().unwrap().set_colors(colors);
            },
            _ => {},
        }
        assert(self@ =~= old(self)@.update(i as int, self.refs@[i as int]@));
        Ok(self.sidecar_of(i))
    }

    /// Replaces the body of the first reference with the identifier, which
    /// has to be a note.
    pub fn change_note_content(&mut self, ref_id: &str, note_content: &str) -> (done: Result<
        (),
        CatalogError,
    >)
        requires
            old(self).wf(),
        ensures
            final(self).wf(),
            match done {
                Ok(()) => {
                    let i = first_with_id(old(self)@, ref_id@);
                    &&& has_id(old(self)@, ref_id@)
                    &&& old(self)@[i].kind == RefKind::Note
                    &&& final(self)@ == old(self)@.update(i, old(self)@[i].with_primary(note_content@))
                },
                Err(CatalogError::NotFound) => not_found(old(self)@, final(self)@, ref_id@),
                Err(CatalogError::WrongKind) => wrong_kind(
                    old(self)@,
                    final(self)@,
                    ref_id@,
                    RefKind::Note,
                ),
            },
    {
        let i = match self.find_by_id(ref_id) {
            Some(i) => i,
            None => {
                return Err(CatalogError::NotFound);
            },
        };
        assert(self@[i as int] == self.refs@[i as int]@);
        if self.refs[i].kind() != RefKind::Note {
            return Err(CatalogError::WrongKind);
        }
        match &mut self.refs[i] {
            Ref::Note(r) => {
                r.content = note_content.to_owned();
            },
            _ => {},
        }
        assert(self@ =~= old(self)@.update(i as int, self.refs@[i as int]@));
        Ok(())
    }

    /// Gives the first reference with the identifier, which has to be a
    /// link, the snapshot at `img_path`.
    pub fn set_snapshot(&mut self, ref_id: &str, img_path: &str, os: &str) -> (done: Result<
        (),
        CatalogError,
    >)
        requires
            old(self).wf(),
        ensures
            final(self).wf(),
            match done {
                Ok(()) => {
                    let i = first_with_id(old(self)@, ref_id@);
                    &&& has_id(old(self)@, ref_id@)
                    &&& old(self)@[i].kind == RefKind::Link
                    &&& final(self)@ == old(self)@.update(
                        i,
                        old(self)@[i].with_primary(asset_link(img_path@, os@)),
                    )
                },
                Err(CatalogError::NotFound) => not_found(old(self)@, final(self)@, ref_id@),
                Err(CatalogError::WrongKind) => wrong_kind(
                    old(self)@,
                    final(self)@,
                    ref_id@,
                    RefKind::Link,
                ),
            },
    {
        let i = match self.find_by_id(ref_id) {
            Some(i) => i,
            None => {
                return Err(CatalogError::NotFound);
            },
        };
        assert(self@[i as int] == self.refs@[i as int]@);
        if self.refs[i].kind() != RefKind::Link {
            return Err(CatalogError::WrongKind);
        }
        match &mut self.refs[i] {
            Ref::Link(r) => {
                r.snapshoot = convert_file_src(img_path, os);
            },
            _ => {},
        }
        assert(self@ =~= old(self)@.update(i as int, self.refs@[i as int]@));
        Ok(())
    }

    /// Drops every reference with the identifier; the files of the
    /// reference stay where they are.
    pub fn remove_ref(&mut self, ref_id: &str)
        requires
            old(self).wf(),
        ensures
            final(self).wf(),
            final(self)@ == without_id(old(self)@, ref_id@),
    {
        let ghost before = self@;
        let ghost mut k: int = 0;
        let mut i: usize = 0;
        assert(before.take(0) =~= Seq::empty());
        assert(self@.take(0) =~= Seq::empty());
        assert(self@.skip(0) =~= before.skip(0));
        while i < self.refs.len()
            invariant
                0 <= i <= self.refs.len(),
                0 <= k <= before.len(),
                self.refs.len() - i == before.len() - k,
                before == old(self)@,
                forall|j: int| 0 <= j < before.len() ==> (#[trigger] before[j]).metadata is Some,
                self@.take(i as int) == without_id(before.take(k), ref_id@),
                self@.skip(i as int) == before.skip(k),
            decreases self.refs.len() - i,
        {
            let ghost current = self@;
            proof {
                assert(current[i as int] == current.skip(i as int)[0]);
                assert(before.skip(k)[0] == before[k]);
                assert(current[i as int] == self.refs@[i as int]@);
                assert(before.take(k + 1).drop_last() =~= before.take(k));
                assert(before.take(k + 1).last() == before[k]);
                reveal(Seq::filter);
            }
            if str_eq(self.refs[i].get_id(), ref_id) {
                self.refs.remove(i);
                proof {
                    assert(self@ =~= current.remove(i as int));
                    assert(self@.take(i as int) =~= current.take(i as int));
                    assert(self@.skip(i as int) =~= current.skip(i as int).drop_first());
                    assert(before.skip(k).drop_first() =~= before.skip(k + 1));
                }
            } else {
                proof {
                    assert(current.take(i as int + 1) =~= current.take(i as int).push(
                        current[i as int],
                    ));
                    assert(current.skip(i as int + 1) =~= current.skip(i as int).drop_first());
                    assert(before.skip(k).drop_first() =~= before.skip(k + 1));
                }
                i = i + 1;
            }
            proof {
                k = k + 1;
            }
        }
        proof {
            assert(self@.take(i as int) =~= self@);
            assert(before.take(k) =~= before);
            assert forall|j: int| 0 <= j < self@.len() implies (#[trigger] self@[j]).metadata is Some by {
                before.lemma_filter_contains_rev(|r: RefView| id_of(r) != ref_id@, self@[j]);
            }
        }
    }
}

/// The identifiers of a list of references, in its order.
pub open spec fn ids(refs: Seq<RefView>) -> Seq<Seq<char>> {
    refs.map_values(|r: RefView| id_of(r))
}

/// No two references of the list share an identifier.
pub open spec fn unique_ids(refs: Seq<RefView>) -> bool {
    ids(refs).no_duplicates()
}

/// Identifiers do not change: a list in which the metadata of one reference
/// was replaced by a record with the same identifier has the identifiers
/// that it had, each in its place.
pub proof fn lemma_edit_keeps_ids(refs: Seq<RefView>, i: int, m: MetaView)
    requires
        0 <= i < refs.len(),
        refs[i].metadata is Some,
        m.id == refs[i].metadata->Some_0.id,
    ensures
        ids(with_record(refs, i, m)) == ids(refs),
        unique_ids(refs) ==> unique_ids(with_record(refs, i, m)),
{
    assert(ids(with_record(refs, i, m)) =~= ids(refs));
}

/// Each of the edits keeps the identifier of the record that it edits.
pub proof fn lemma_edits_keep_id(m: MetaView, text: Seq<char>, colors: Seq<Seq<char>>, stamp: Seq<char>)
    ensures
        m.renamed(text, stamp).id == m.id,
        m.tagged(text, stamp).id == m.id,
        m.untagged(text, stamp).id == m.id,
        m.noted(text, stamp).id == m.id,
        m.recolored(colors).id == m.id,
{
}

/// A list without duplicate identifiers stays so when a reference with a
/// new identifier is appended.
pub proof fn lemma_append_keeps_unique(refs: Seq<RefView>, new_ref: RefView)
    requires
        unique_ids(refs),
        !has_id(refs, id_of(new_ref)),
    ensures
        unique_ids(refs.push(new_ref)),
{
    lemma_first_with_id(refs, id_of(new_ref));
    assert(ids(refs.push(new_ref)) =~= ids(refs).push(id_of(new_ref)));
    assert forall|j: int| 0 <= j < refs.len() implies ids(refs)[j] != id_of(new_ref) by {
        assert(id_of(refs[j]) != id_of(new_ref));
    }
}

/// After a removal no reference has the identifier, every other reference
/// is still there, and a list without duplicate identifiers stays so.
pub proof fn lemma_removed(refs: Seq<RefView>, id: Seq<char>)
    ensures
        !has_id(without_id(refs, id), id),
        forall|j: int|
            0 <= j < refs.len() && id_of(#[trigger] refs[j]) != id ==> without_id(refs, id).contains(
                refs[j],
            ),
        forall|r: RefView| without_id(refs, id).contains(r) ==> refs.contains(r),
        unique_ids(refs) ==> unique_ids(without_id(refs, id)),
    decreases refs.len(),
{
    let p = |r: RefView| id_of(r) != id;
    let kept = without_id(refs, id);
    lemma_first_with_id(kept, id);
    if has_id(kept, id) {
        let at = first_with_id(kept, id);
        assert(kept.contains(kept[at]));
        refs.lemma_filter_contains_rev(p, kept[at]);
    }
    assert forall|j: int| 0 <= j < refs.len() && id_of(#[trigger] refs[j]) != id implies kept.contains(
        refs[j],
    ) by {
        refs.lemma_filter_contains(p, j);
    }
    assert forall|r: RefView| kept.contains(r) implies refs.contains(r) by {
        refs.lemma_filter_contains_rev(p, r);
    }
    if unique_ids(refs) {
        lemma_filter_keeps_unique(refs, id);
    }
}

proof fn lemma_filter_keeps_unique(refs: Seq<RefView>, id: Seq<char>)
    requires
        unique_ids(refs),
    ensures
        unique_ids(without_id(refs, id)),
        forall|r: RefView| without_id(refs, id).contains(r) ==> refs.contains(r),
    decreases refs.len(),
{
    let p = |r: RefView| id_of(r) != id;
    reveal(Seq::filter);
    assert forall|r: RefView| without_id(refs, id).contains(r) implies refs.contains(r) by {
        refs.lemma_filter_contains_rev(p, r);
    }
    if refs.len() > 0 {
        let rest = refs.drop_last();
        assert(ids(rest) =~= ids(refs).drop_last());
        assert forall|a: int, b: int| 0 <= a < b < rest.len() implies ids(rest)[a] != ids(rest)[b] by {
            assert(ids(refs)[a] != ids(refs)[b]);
        }
        lemma_filter_keeps_unique(rest, id);
        let kept = without_id(rest, id);
        if id_of(refs.last()) != id {
            assert(without_id(refs, id) == kept.push(refs.last()));
            assert(ids(kept.push(refs.last())) =~= ids(kept).push(id_of(refs.last())));
            assert forall|a: int| 0 <= a < kept.len() implies ids(kept)[a] != id_of(refs.last()) by {
                assert(kept.contains(kept[a]));
                assert(rest.contains(kept[a]));
                let t = choose|t: int| 0 <= t < rest.len() && rest[t] == kept[a];
                assert(refs[t] == rest[t]);
                assert(ids(refs)[t] != ids(refs)[refs.len() - 1]);
            }
        }
    } else {
        assert(without_id(refs, id) =~= refs);
    }
}

} // verus!