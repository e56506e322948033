//! The reference parser: classifies the files of one item folder by the
//! name of its sidecar and builds the reference that they make up.

use vstd::prelude::*;
use crate::sidecar::{
    kind_of_name, read_sidecar, sidecar_kind, sidecar_name, sidecar_name_text, sidecar_record,
};
use crate::state::{
    AudioRef, DocRef, ImageRef, LinkRef, NoteRef, Ref, RefKind, RefMeta, RefView, VideoRef,
};
use crate::text::{starts_with, str_eq};
use crate::utils::{asset_link, convert_file_src};

verus! {

/// One file of an item folder: its path, its name, and its content as text
/// where the folder's reader took it in (see `needs_text`) and could read
/// it.
#[derive(Debug)]
pub struct RefFile {
    pub path: String,
    pub file_name: String,
    pub text: Option<String>,
}

/// A file of an item folder as a mathematical value.
#[verifier::ext_equal]
pub struct RefFileView {
    pub path: Seq<char>,
    pub file_name: Seq<char>,
    pub text: Option<Seq<char>>,
}

impl View for RefFile {
    type V = RefFileView;

    open spec fn view(&self) -> RefFileView {
        RefFileView {
            path: self.path@,
            file_name: self.file_name@,
            text: match self.text {
                Some(t) => Some(t@),
                None => None,
            },
        }
    }
}

/// The files of a folder as mathematical values.
pub open spec fn files_view(files: Seq<RefFile>) -> Seq<RefFileView> {
    files.map_values(|f: RefFile| f@)
}

/// Why a folder gave no reference.
#[derive(Clone, Copy, Debug, PartialEq, Eq, Structural)]
pub enum ParseError {
    /// No file of the folder bears the name of a sidecar.
    Unclassified,
    /// A file that the reference is built from could not be read.
    Unreadable,
    /// The sidecar is no JSON document of the schema of its kind.
    Malformed,
}

impl ParseError {
    /// The error in words.
    pub fn message(&self) -> (text: String)
        ensures
            text@ == match *self {
                ParseError::Unclassified => "Invalid input: neither a media nor a note reference found"@,
                ParseError::Unreadable => "Invalid input: a file of the reference could not be read"@,
                ParseError::Malformed => "Invalid data: the metadata file does not follow its schema"@,
            },
    {
        match self {
            ParseError::Unclassified => {
                "Invalid input: neither a media nor a note reference found".to_owned()
            },
            ParseError::Unreadable => {
                "Invalid input: a file of the reference could not be read".to_owned()
            },
            ParseError::Malformed => {
                "Invalid data: the metadata file does not follow its schema".to_owned()
            },
        }
    }
}

/// The name of the file that holds the body of a note.
pub const NOTE_BODY_NAME: &'static str = "note.txt";

/// Whether the parser reads the content of a file of this name: a sidecar
/// of any kind, or the body file of a note.
pub open spec fn text_needed(file_name: Seq<char>) -> bool {
    kind_of_name(file_name) is Some || file_name == "note.txt"@
}

/// Whether the parser reads the content of a file of this name.
pub fn needs_text(file_name: &str) -> (needed: bool)
    ensures
        needed == text_needed(file_name@),
{
    sidecar_kind(file_name).is_some() || str_eq(file_name, "note.txt")
}

/// The kind of a folder: the kind named by the first of its files that
/// bears a sidecar name.
pub open spec fn folder_kind(files: Seq<RefFileView>) -> Option<RefKind>
    decreases files.len(),
{
    if files.len() == 0 {
        None
    } else {
        match kind_of_name(files[0].file_name) {
            Some(kind) => Some(kind),
            None => folder_kind(files.drop_first()),
        }
    }
}

/// A reference of a kind before any file was placed in it.
pub open spec fn blank(kind: RefKind) -> RefView {
    RefView {
        kind,
        primary: Seq::empty(),
        low_res: Seq::empty(),
        metadata: None,
        metapath: Seq::empty(),
    }
}

/// What a file of a folder is to a reference of a kind, by its name.
#[derive(Clone, Copy, Debug, PartialEq, Eq, Structural)]
pub enum FileRole {
    /// The sidecar of the kind.
    Sidecar,
    /// The low-resolution derivative of an image: a name that starts with
    /// `lower_`.
    Derivative,
    /// The primary asset: any other file of an image, a video, an audio
    /// recording, a link or a document.
    Asset,
    /// The body of a note: the file `note.txt`.
    Body,
    /// A file that a note passes over.
    Other,
}

/// The role of a file name in a folder of a kind.
pub open spec fn role_of(kind: RefKind, file_name: Seq<char>) -> FileRole {
    if file_name == sidecar_name_text(kind) {
        FileRole::Sidecar
    } else if kind == RefKind::Image && "lower_"@.is_prefix_of(file_name) {
        FileRole::Derivative
    } else if kind == RefKind::Note {
        if file_name == "note.txt"@ {
            FileRole::Body
        } else {
            FileRole::Other
        }
    } else {
        FileRole::Asset
    }
}

/// A reference after one more file of its folder was placed in it.
///
/// The sidecar gives the metadata and its own path, the derivative the
/// low-resolution link, the asset the primary link, and the body its text.
/// A sidecar that cannot be read or does not follow its schema fails, and
/// so does a body that cannot be read.
pub open spec fn placed(acc: RefView, file: RefFileView, os: Seq<char>) -> Result<
    RefView,
    ParseError,
> {
    match role_of(acc.kind, file.file_name) {
        FileRole::Sidecar => match file.text {
            None => Err(ParseError::Unreadable),
            Some(text) => match sidecar_record(acc.kind, text) {
                None => Err(ParseError::Malformed),
                Some(m) => Ok(RefView { metadata: Some(m), metapath: file.path, ..acc }),
            },
        },
        FileRole::Derivative => Ok(RefView { low_res: asset_link(file.path, os), ..acc }),
        FileRole::Asset => Ok(RefView { primary: asset_link(file.path, os), ..acc }),
        FileRole::Body => match file.text {
            None => Err(ParseError::Unreadable),
            Some(text) => Ok(RefView { primary: text, ..acc }),
        },
        FileRole::Other => Ok(acc),
    }
}

/// A reference of a kind after the files of its folder were placed in it,
/// one after the other; the first file that fails ends it.
pub open spec fn scanned(kind: RefKind, files: Seq<RefFileView>, os: Seq<char>) -> Result<
    RefView,
    ParseError,
>
    decreases files.len(),
{
    if files.len() == 0 {
        Ok(blank(kind))
    } else {
        match scanned(kind, files.drop_last(), os) {
            Ok(acc) => placed(acc, files.last(), os),
            Err(e) => Err(e),
        }
    }
}

/// The reference as it leaves the parser: an image without a derivative
/// shows the image itself in its place.
pub open spec fn finished(acc: RefView) -> RefView {
    if acc.kind == RefKind::Image && acc.low_res.len() == 0 {
        RefView { low_res: acc.primary, ..acc }
    } else {
        acc
    }
}

/// The reference that the files of a folder make up.
pub open spec fn parsed(files: Seq<RefFileView>, os: Seq<char>) -> Result<RefView, ParseError> {
    match folder_kind(files) {
        None => Err(ParseError::Unclassified),
        Some(kind) => match scanned(kind, files, os) {
            Ok(acc) => Ok(finished(acc)),
            Err(e) => Err(e),
        },
    }
}

/// The view of an optional reference.
pub open spec fn outcome_view(made: Result<Ref, ParseError>) -> Result<RefView, ParseError> {
    match made {
        Ok(r) => Ok(r@),
        Err(e) => Err(e),
    }
}

/// Finds the kind of a folder.
pub fn find_sidecar(refs: &Vec<RefFile>) -> (kind: Option<RefKind>)
    ensures
        kind == folder_kind(files_view(refs@)),
{
    let ghost all = files_view(refs@);
    let mut i: usize = 0;
    assert(all.skip(0) =~= all);
    while i < refs.len()
        invariant
            0 <= i <= refs.len(),
            all == files_view(refs@),
            folder_kind(all) == folder_kind(all.skip(i as int)),
        decreases refs.len() - i,
    {
        proof {
            assert(all.skip(i as int)[0] == all[i as int]);
            assert(all.skip(i as int).drop_first() =~= all.skip(i as int + 1));
        }
        match sidecar_kind(refs[i].file_name.as_str()) {
            Some(kind) => {
                return Some(kind);
            },
            None => {},
        }
        i = i + 1;
    }
    None
}

/// A reference in the making.
struct Draft {
    kind: RefKind,
    primary: String,
    low_res: String,
    metadata: Option<RefMeta>,
    metapath: String,
}

impl View for Draft {
    type V = RefView;

    closed spec fn view(&self) -> RefView {
        RefView {
            kind: self.kind,
            primary: self.primary@,
            low_res: self.low_res@,
            metadata: match self.metadata {
                Some(m) => Some(m@),
                None => None,
            },
            metapath: self.metapath@,
        }
    }
}

impl Draft {
    /// The metadata, where there is any, is of the draft's kind, and only
    /// an image has a low-resolution link.
    closed spec fn wf(&self) -> bool {
        &&& self.metadata is Some ==> self.metadata->Some_0@.kind() == self.kind
        &&& self.kind != RefKind::Image ==> self.low_res@.len() == 0
    }
}

/// Places one file of the folder in the draft.
fn place_file(draft: &mut Draft, file: &RefFile, os: &str) -> (done: Result<(), ParseError>)
    requires
        old(draft).wf(),
    ensures
        final(draft).wf(),
        match done {
            Ok(()) => placed(old(draft)@, file@, os@) == Ok::<RefView, ParseError>(final(draft)@),
            Err(e) => placed(old(draft)@, file@, os@) == Err::<RefView, ParseError>(e),
        },
{
    let name = file.file_name.as_str();
    if str_eq(name, sidecar_name(draft.kind)) {
        match &file.text {
            None => Err(ParseError::Unreadable),
            Some(text) => match read_sidecar(draft.kind, text.as_str()) {
                None => Err(ParseError::Malformed),
                Some(m) => {
                    draft.metadata = Some(m);
                    draft.metapath = file.path.clone();
                    Ok(())
                },
            },
        }
    } else if draft.kind == RefKind::Image && starts_with(name, "lower_") {
        draft.low_res = convert_file_src(file.path.as_str(), os);
        Ok(())
    } else if draft.kind == RefKind::Note {
        if str_eq(name, "note.txt") {
            match &file.text {
                None => Err(ParseError::Unreadable),
                Some(text) => {
                    draft.primary = text.clone();
                    Ok(())
                },
            }
        } else {
            Ok(())
        }
    } else {
        draft.primary = convert_file_src(file.path.as_str(), os);
        Ok(())
    }
}

/// The low-resolution link of an image: its own, or the image's where it
/// has none.
fn shown_link(primary: &String, low_res: String) -> (link: String)
    ensures
        link@ == if low_res@.len() == 0 {
            primary@
        } else {
            low_res@
        },
{
    if low_res.as_str().is_empty() {
        primary.clone()
    } else {
        low_res
    }
}

/// The finished reference of a draft.
fn assemble(draft: Draft) -> (made: Ref)
    requires
        draft.wf(),
    ensures
        made@ == finished(draft@),
{
    let Draft { kind, primary, low_res, metadata, metapath } = draft;
    let made = match kind {
        RefKind::Image => {
            let low_res_imagepath = shown_link(&primary, low_res);
            let image = Ref::Image(
                ImageRef {
                    image_path: primary,
                    low_res_imagepath,
                    metadata: match metadata {
                        Some(RefMeta::Image(m)) => Some(m),
                        _ => None,
                    },
                    metapath,
                },
            );
            image
        },
        RefKind::Video => Ref::Video(
            VideoRef {
                video_path: primary,
                metadata: match metadata {
                    Some(RefMeta::Video(m)) => Some(m),
                    _ => None,
                },
                metapath,
            },
        ),
        RefKind::Audio => Ref::Audio(
            AudioRef {
                audio_path: primary,
                metadata: match metadata {
                    Some(RefMeta::Audio(m)) => Some(m),
                    _ => None,
                },
                metapath,
            },
        ),
        RefKind::Note => Ref::Note(
            NoteRef {
                content: primary,
                metadata: match metadata {
                    Some(RefMeta::Note(m)) => Some(m),
                    _ => None,
                },
                metapath,
            },
        ),
        RefKind::Link => Ref::Link(
            LinkRef {
                snapshoot: primary,
                metadata: match metadata {
                    Some(RefMeta::Link(m)) => Some(m),
                    _ => None,
                },
                metapath,
            },
        ),
        RefKind::Doc => Ref::Doc(
            DocRef {
                doc_path: primary,
                metadata: match metadata {
                    Some(RefMeta::Doc(m)) => Some(m),
                    _ => None,
                },
                metapath,
            },
        ),
    };
    made
}

/// Parses the files of one item folder into a reference.
///
/// The folder is of the kind named by its first sidecar. Without a sidecar
/// it is unclassified. Otherwise its files are placed one after the other,
/// and the first that cannot be read or does not follow its schema ends the
/// parse with that error.
pub fn parse_refs(refs: &Vec<RefFile>, os: &str) -> (made: Result<Ref, ParseError>)
    ensures
        outcome_view(made) == parsed(files_view(refs@), os@),
{
    let kind = match find_sidecar(refs) {
        Some(kind) => kind,
        None => {
            return Err(ParseError::Unclassified);
        },
    };
    let mut draft = Draft {
        kind,
        primary: String::new(),
        low_res: String::new(),
        metadata: None,
        metapath: String::new(),
    };
    let ghost all = files_view(refs@);
    let mut i: usize = 0;
    assert(draft@ =~= blank(kind));
    while i < refs.len()
        invariant
            0 <= i <= refs.len(),
            all == files_view(refs@),
            draft.wf(),
            draft.kind == kind,
            folder_kind(all) == Some(kind),
            scanned(kind, all.take(i as int), os@) == Ok::<RefView, ParseError>(draft@),
        decreases refs.len() - i,
    {
        proof {
            assert(all.take(i as int + 1).drop_last() =~= all.take(i as int));
            assert(all.take(i as int + 1).last() == refs@[i as int]@);
        }
        match place_file(&mut draft, &refs[i], os) {
            Ok(()) => {},
            Err(e) => {
                proof {
                    assert(scanned(kind, all.take(i as int + 1), os@) == Err::<RefView, ParseError>(e));
                    lemma_scan_fails(kind, all, i as int + 1, os@);
                }
                return Err(e);
            },
        }
        i = i + 1;
    }
    assert(all.take(refs.len() as int) =~= all);
    Ok(assemble(draft))
}

/// A scan that fails on the first `n` files fails in the same way on all of
/// them.
proof fn lemma_scan_fails(kind: RefKind, files: Seq<RefFileView>, n: int, os: Seq<char>)
    requires
        0 <= n <= files.len(),
        scanned(kind, files.take(n), os) is Err,
    ensures
        scanned(kind, files, os) == scanned(kind, files.take(n), os),
    decreases files.len() - n,
{
    if n < files.len() {
        assert(files.take(n + 1).drop_last() =~= files.take(n));
        lemma_scan_fails(kind, files, n + 1, os);
    } else {
        assert(files.take(n) =~= files);
    }
}

/// A file whose name marks it as a sidecar bears the sidecar name of its
/// kind.
pub proof fn lemma_kind_of_name(file_name: Seq<char>)
    ensures
        kind_of_name(file_name) is Some ==> file_name == sidecar_name_text(kind_of_name(file_name)->Some_0),
{
}

/// A folder of a kind holds a file with the sidecar name of that kind.
pub proof fn lemma_folder_kind(files: Seq<RefFileView>)
    ensures
        folder_kind(files) is Some ==> exists|i: int|
            0 <= i < files.len() && (#[trigger] files[i]).file_name == sidecar_name_text(
                folder_kind(files)->Some_0,
            ),
        folder_kind(files) is None ==> forall|i: int|
            0 <= i < files.len() ==> kind_of_name((#[trigger] files[i]).file_name) is None,
    decreases files.len(),
{
    if files.len() > 0 {
        lemma_kind_of_name(files[0].file_name);
        if kind_of_name(files[0].file_name) is None {
            let rest = files.drop_first();
            lemma_folder_kind(rest);
            if folder_kind(rest) is Some {
                let i = choose|i: int|
                    0 <= i < rest.len() && (#[trigger] rest[i]).file_name == sidecar_name_text(
                        folder_kind(rest)->Some_0,
                    );
                assert(files[i + 1] == rest[i]);
            } else {
                assert forall|i: int| 0 <= i < files.len() implies kind_of_name(
                    (#[trigger] files[i]).file_name,
                ) is None by {
                    if i > 0 {
                        assert(files[i] == rest[i - 1]);
                    }
                }
            }
        }
    }
}

/// A scan that succeeds gives a reference of the kind scanned for, with the
/// metadata of the sidecar where the folder holds one.
pub proof fn lemma_scanned(kind: RefKind, files: Seq<RefFileView>, os: Seq<char>)
    requires
        scanned(kind, files, os) is Ok,
    ensures
        scanned(kind, files, os)->Ok_0.kind == kind,
        (exists|i: int| 0 <= i < files.len() && (#[trigger] files[i]).file_name == sidecar_name_text(kind))
            ==> scanned(kind, files, os)->Ok_0.metadata is Some,
    decreases files.len(),
{
    if files.len() > 0 {
        let rest = files.drop_last();
        lemma_scanned(kind, rest, os);
        if exists|i: int| 0 <= i < files.len() && (#[trigger] files[i]).file_name == sidecar_name_text(kind) {
            let i = choose|i: int|
                0 <= i < files.len() && (#[trigger] files[i]).file_name == sidecar_name_text(kind);
            if i < files.len() - 1 {
                assert(rest[i] == files[i]);
            }
        }
    }
}

/// Every reference that the parser gives is of the kind of its folder and
/// has its metadata.
pub proof fn lemma_parsed(files: Seq<RefFileView>, os: Seq<char>)
    requires
        parsed(files, os) is Ok,
    ensures
        folder_kind(files) == Some(parsed(files, os)->Ok_0.kind),
        parsed(files, os)->Ok_0.metadata is Some,
{
    lemma_folder_kind(files);
    lemma_scanned(folder_kind(files)->Some_0, files, os);
}

/// Where the last file of a role stands in a folder, if there is one.
pub open spec fn last_with_role(kind: RefKind, files: Seq<RefFileView>, role: FileRole) -> Option<
    int,
>
    decreases files.len(),
{
    if files.len() == 0 {
        None
    } else if role_of(kind, files.last().file_name) == role {
        Some(files.len() - 1)
    } else {
        last_with_role(kind, files.drop_last(), role)
    }
}

/// Why a file of a folder of a kind cannot be placed, if it cannot.
pub open spec fn failure_of(kind: RefKind, file: RefFileView) -> Option<ParseError> {
    match role_of(kind, file.file_name) {
        FileRole::Sidecar => match file.text {
            None => Some(ParseError::Unreadable),
            Some(text) => if sidecar_record(kind, text) is None {
                Some(ParseError::Malformed)
            } else {
                None
            },
        },
        FileRole::Body => if file.text is None {
            Some(ParseError::Unreadable)
        } else {
            None
        },
        _ => None,
    }
}

/// What a folder of a kind shows: the text of its last body for a note,
/// the link of its last asset for the other kinds; nothing without one.
pub open spec fn primary_of(kind: RefKind, files: Seq<RefFileView>, os: Seq<char>) -> Seq<char> {
    if kind == RefKind::Note {
        match last_with_role(kind, files, FileRole::Body) {
            Some(j) => files[j].text->Some_0,
            None => Seq::empty(),
        }
    } else {
        match last_with_role(kind, files, FileRole::Asset) {
            Some(j) => asset_link(files[j].path, os),
            None => Seq::empty(),
        }
    }
}

/// The link of the last derivative of a folder; nothing without one.
pub open spec fn derivative_of(kind: RefKind, files: Seq<RefFileView>, os: Seq<char>) -> Seq<char> {
    match last_with_role(kind, files, FileRole::Derivative) {
        Some(j) => asset_link(files[j].path, os),
        None => Seq::empty(),
    }
}

/// The reference that the files of a folder of a kind make up, read off the
/// roles of the files.
pub open spec fn by_roles(kind: RefKind, files: Seq<RefFileView>, os: Seq<char>) -> RefView {
    RefView {
        kind,
        primary: primary_of(kind, files, os),
        low_res: derivative_of(kind, files, os),
        metadata: match last_with_role(kind, files, FileRole::Sidecar) {
            Some(j) => sidecar_record(kind, files[j].text->Some_0),
            None => None,
        },
        metapath: match last_with_role(kind, files, FileRole::Sidecar) {
            Some(j) => files[j].path,
            None => Seq::empty(),
        },
    }
}

/// What `last_with_role` finds: a file of the role, after which none has
/// it.
pub proof fn lemma_last_with_role(kind: RefKind, files: Seq<RefFileView>, role: FileRole)
    ensures
        match last_with_role(kind, files, role) {
            Some(j) => 0 <= j < files.len() && role_of(kind, files[j].file_name) == role && forall|t: int|
                j < t < files.len() ==> role_of(kind, (#[trigger] files[t]).file_name) != role,
            None => forall|t: int|
                0 <= t < files.len() ==> role_of(kind, (#[trigger] files[t]).file_name) != role,
        },
    decreases files.len(),
{
    if files.len() > 0 && role_of(kind, files.last().file_name) != role {
        let rest = files.drop_last();
        lemma_last_with_role(kind, rest, role);
        match last_with_role(kind, rest, role) {
            Some(j) => {
                assert(files[j] == rest[j]);
                assert forall|t: int| j < t < files.len() implies role_of(
                    kind,
                    (#[trigger] files[t]).file_name,
                ) != role by {
                    if t < files.len() - 1 {
                        assert(files[t] == rest[t]);
                    }
                }
            },
            None => {
                assert forall|t: int| 0 <= t < files.len() implies role_of(
                    kind,
                    (#[trigger] files[t]).file_name,
                ) != role by {
                    if t < files.len() - 1 {
                        assert(files[t] == rest[t]);
                    }
                }
            },
        }
    }
}

/// The naming convention: a scan succeeds exactly when every file of the
/// folder can be placed, and then gives the reference that is read off the
/// roles of the files, in which the last file of a role counts.
pub proof fn lemma_scan_by_roles(kind: RefKind, files: Seq<RefFileView>, os: Seq<char>)
    ensures
        scanned(kind, files, os) is Ok <==> forall|i: int|
            0 <= i < files.len() ==> failure_of(kind, #[trigger] files[i]) is None,
        scanned(kind, files, os) is Ok ==> scanned(kind, files, os)->Ok_0 == by_roles(kind, files, os),
    decreases files.len(),
{
    if files.len() == 0 {
        assert(blank(kind) =~= by_roles(kind, files, os));
    } else {
        let rest = files.drop_last();
        lemma_scan_by_roles(kind, rest, os);
        assert forall|i: int| 0 <= i < rest.len() implies rest[i] == files[i] by {}
        if scanned(kind, rest, os) is Ok {
            let acc = scanned(kind, rest, os)->Ok_0;
            assert(acc.kind == kind);
            if failure_of(kind, files.last()) is None {
                assert(placed(acc, files.last(), os) is Ok);
                assert forall|i: int| 0 <= i < files.len() implies failure_of(
                    kind,
                    #[trigger] files[i],
                ) is None by {
                    if i < rest.len() {
                        assert(rest[i] == files[i]);
                    }
                }
                lemma_last_with_role(kind, rest, FileRole::Sidecar);
                lemma_last_with_role(kind, rest, FileRole::Derivative);
                lemma_last_with_role(kind, rest, FileRole::Asset);
                lemma_last_with_role(kind, rest, FileRole::Body);
                let made = scanned(kind, files, os)->Ok_0;
                let goal = by_roles(kind, files, os);
                assert(made == placed(acc, files.last(), os)->Ok_0);
                assert(acc == by_roles(kind, rest, os));
                assert(made.primary == goal.primary);
                assert(made.low_res == goal.low_res);
                assert(made.metadata == goal.metadata);
                assert(made.metapath == goal.metapath);
                assert(made =~= goal);
            } else {
                assert(placed(acc, files.last(), os) is Err);
                assert(failure_of(kind, files[files.len() - 1]) is Some);
            }
        } else {
            let i = choose|i: int| 0 <= i < rest.len() && failure_of(kind, #[trigger] rest[i]) is Some;
            assert(rest[i] == files[i]);
            assert(failure_of(kind, files[i]) is Some);
        }
    }
}

/// A folder with one sidecar, at `i`, and no other file that bears a
/// sidecar name, all of whose files can be placed, parses into a reference
/// of the sidecar's kind, with the sidecar's record and path, whose links
/// follow the roles of the other files; an image without a derivative shows
/// itself in its place.
pub proof fn lemma_single_sidecar(files: Seq<RefFileView>, os: Seq<char>, i: int)
    requires
        0 <= i < files.len(),
        kind_of_name(files[i].file_name) is Some,
        forall|j: int|
            0 <= j < files.len() && j != i ==> kind_of_name((#[trigger] files[j]).file_name) is None,
        forall|j: int|
            0 <= j < files.len() ==> failure_of(
                kind_of_name(files[i].file_name)->Some_0,
                #[trigger] files[j],
            ) is None,
    ensures
        parsed(files, os) is Ok,
        parsed(files, os)->Ok_0 == finished(
            by_roles(kind_of_name(files[i].file_name)->Some_0, files, os),
        ),
        parsed(files, os)->Ok_0.kind == kind_of_name(files[i].file_name)->Some_0,
        parsed(files, os)->Ok_0.metadata == sidecar_record(
            kind_of_name(files[i].file_name)->Some_0,
            files[i].text->Some_0,
        ),
        parsed(files, os)->Ok_0.metadata is Some,
        parsed(files, os)->Ok_0.metapath == files[i].path,
{
    let kind = kind_of_name(files[i].file_name)->Some_0;
    lemma_kind_of_name(files[i].file_name);
    lemma_folder_kind(files);
    assert(folder_kind(files) is Some);
    let found = choose|t: int|
        0 <= t < files.len() && (#[trigger] files[t]).file_name == sidecar_name_text(
            folder_kind(files)->Some_0,
        );
    crate::sidecar::lemma_sidecar_names_differ(folder_kind(files)->Some_0);
    assert(kind_of_name(files[found].file_name) is Some);
    assert(found == i);
    crate::sidecar::lemma_sidecar_names_differ(kind);
    assert(folder_kind(files) == Some(kind));
    lemma_scan_by_roles(kind, files, os);
    lemma_last_with_role(kind, files, FileRole::Sidecar);
    assert(role_of(kind, files[i].file_name) == FileRole::Sidecar);
    match last_with_role(kind, files, FileRole::Sidecar) {
        Some(j) => {
            lemma_kind_of_name(files[j].file_name);
            assert(kind_of_name(files[j].file_name) is Some);
            assert(j == i);
        },
        None => {
            assert(false);
        },
    }
    assert(failure_of(kind, files[i]) is None);
}

/// A folder without a file that bears a sidecar name is unclassified.
pub proof fn lemma_unclassified(files: Seq<RefFileView>, os: Seq<char>)
    requires
        forall|i: int| 0 <= i < files.len() ==> kind_of_name((#[trigger] files[i]).file_name) is None,
    ensures
        parsed(files, os) == Err::<RefView, ParseError>(ParseError::Unclassified),
{
    lemma_folder_kind(files);
    if folder_kind(files) is Some {
        let i = choose|i: int|
            0 <= i < files.len() && (#[trigger] files[i]).file_name == sidecar_name_text(
                folder_kind(files)->Some_0,
            );
        crate::sidecar::lemma_sidecar_names_differ(folder_kind(files)->Some_0);
    }
}

} // verus!