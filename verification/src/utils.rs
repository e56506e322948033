//! Sizes as people read them, asset links, the load of a collection root and
//! the edits of a sidecar's text.

use vstd::prelude::*;
use vstd::multiset::Multiset;
use vstd::utf8::encode_utf8;
use crate::catalog::Catalog;
use crate::parser::{files_view, lemma_parsed, parse_refs, parsed, ParseError, RefFile, RefFileView};
use crate::sidecar::{read_sidecar, sidecar_record, sidecar_text, write_sidecar};
use crate::state::{now_text, Metadata, RefKind, RefView};
use crate::text::{decimal_text, padded_text, push_char, push_decimal, push_padded, str_eq};

verus! {

/// The largest `k` with `1000^k <= size`, and 0 below 1000.
pub open spec fn magnitude(size: nat) -> nat
    decreases size,
{
    if size < 1000 {
        0
    } else {
        1 + magnitude(size / 1000)
    }
}

/// `1000^k`.
pub open spec fn kilo_pow(k: nat) -> nat
    decreases k,
{
    if k == 0 {
        1
    } else {
        1000 * kilo_pow((k - 1) as nat)
    }
}

/// The name of the unit that is `1000^k` bytes.
pub open spec fn unit_name(k: nat) -> Seq<char> {
    if k == 0 {
        seq!['B']
    } else if k == 1 {
        seq!['K', 'B']
    } else if k == 2 {
        seq!['M', 'B']
    } else if k == 3 {
        seq!['G', 'B']
    } else if k == 4 {
        seq!['T', 'B']
    } else if k == 5 {
        seq!['P', 'B']
    } else if k == 6 {
        seq!['E', 'B']
    } else {
        seq!['Z', 'B']
    }
}

/// How many decimals a size is written with in the unit `1000^k`: two below
/// ten units, one below a hundred, none from there on.
pub open spec fn decimals(size: nat, k: nat) -> nat {
    if size < 10 * kilo_pow(k) {
        2
    } else if size < 100 * kilo_pow(k) {
        1
    } else {
        0
    }
}

/// `10^p` for the three precisions in use.
pub open spec fn ten_pow(p: nat) -> nat {
    if p == 0 {
        1
    } else if p == 1 {
        10
    } else {
        100
    }
}

/// The size in units of `1000^k / 10^p`, rounded up.
pub open spec fn rounded_up(size: nat, k: nat, p: nat) -> nat {
    ((size * ten_pow(p) + kilo_pow(k) - 1) / (kilo_pow(k) as int)) as nat
}

/// A byte count as people read it: plain bytes below 1000, otherwise the
/// count in the largest unit that it reaches, rounded up to two decimals
/// below ten, one below a hundred and none above.
pub open spec fn human_size_text(size: nat) -> Seq<char> {
    if size < 1000 {
        decimal_text(size) + unit_name(0)
    } else {
        let k = magnitude(size);
        let p = decimals(size, k);
        let n = rounded_up(size, k, p);
        if p == 0 {
            decimal_text(n) + unit_name(k)
        } else {
            decimal_text(n / ten_pow(p)) + seq!['.'] + padded_text(n % ten_pow(p), p) + unit_name(k)
        }
    }
}

proof fn lemma_kilo_pow_values()
    ensures
        kilo_pow(0) == 1,
        kilo_pow(1) == 1_000,
        kilo_pow(2) == 1_000_000,
        kilo_pow(3) == 1_000_000_000,
        kilo_pow(4) == 1_000_000_000_000,
        kilo_pow(5) == 1_000_000_000_000_000,
        kilo_pow(6) == 1_000_000_000_000_000_000,
{
    reveal_with_fuel(kilo_pow, 8);
}

proof fn lemma_magnitude_step(size: nat, scale: nat)
    requires
        scale > 0,
        size / scale >= 1000,
    ensures
        magnitude(size / scale) == 1 + magnitude(size / (scale * 1000)),
{
    vstd::arithmetic::div_mod::lemma_div_denominator(size as int, scale as int, 1000);
}

/// The unit in which a size of at least 1000 bytes is written: `k` with
/// `1000^k <= size < 1000^(k+1)`, and `1000^k` itself.
fn unit_of(size: u64) -> (unit: (u8, u128))
    requires
        size >= 1000,
    ensures
        unit.0 == magnitude(size as nat),
        unit.1 == kilo_pow(unit.0 as nat),
        1 <= unit.0 <= 6,
        0 < unit.1 <= size,
{
    let total: u128 = size as u128;
    let mut k: u8 = 1;
    let mut scale: u128 = 1000;
    proof {
        lemma_kilo_pow_values();
    }
    while total / scale >= 1000
        invariant
            total == size,
            1 <= k <= 6,
            scale == kilo_pow(k as nat),
            0 < scale <= total,
            magnitude(size as nat) == k + magnitude((total / scale) as nat),
        decreases total / scale,
    {
        proof {
            lemma_kilo_pow_values();
            lemma_magnitude_step(total as nat, scale as nat);
            vstd::arithmetic::div_mod::lemma_div_denominator(total as int, scale as int, 1000);
            assert(total >= scale * 1000) by (nonlinear_arith)
                requires
                    scale > 0,
                    total / scale >= 1000,
            ;
        }
        scale = scale * 1000;
        k = k + 1;
    }
    (k, scale)
}

/// Appends the name of the unit `1000^k`.
fn push_unit(out: &mut String, k: u8)
    requires
        1 <= k <= 6,
    ensures
        final(out)@ == old(out)@ + unit_name(k as nat),
{
    let first: char = if k == 1 {
        'K'
    } else if k == 2 {
        'M'
    } else if k == 3 {
        'G'
    } else if k == 4 {
        'T'
    } else if k == 5 {
        'P'
    } else {
        'E'
    };
    push_char(out, first);
    push_char(out, 'B');
    assert(out@ =~= old(out)@ + unit_name(k as nat));
}

/// Writes a byte count as people read it.
pub fn human_size(size: u64) -> (out: String)
    ensures
        out@ == human_size_text(size as nat),
{
    let mut out = String::new();
    if size < 1000 {
        push_decimal(&mut out, size as u128);
        push_char(&mut out, 'B');
        assert(out@ =~= decimal_text(size as nat) + unit_name(0));
        return out;
    }
    let (k, scale) = unit_of(size);
    let total: u128 = size as u128;
    let places: u8 = if total < 10 * scale {
        2
    } else if total < 100 * scale {
        1
    } else {
        0
    };
    let unit: u128 = if places == 2 {
        100
    } else if places == 1 {
        10
    } else {
        1
    };
    assert(places == decimals(size as nat, k as nat));
    assert(unit == ten_pow(places as nat));
    let n: u128 = (total * unit + scale - 1) / scale;
    assert(n == rounded_up(size as nat, k as nat, places as nat));
    if places == 0 {
        push_decimal(&mut out, n);
        assert(out@ =~= decimal_text(n as nat));
    } else {
        push_decimal(&mut out, n / unit);
        push_char(&mut out, '.');
        push_padded(&mut out, n % unit, places);
        assert(out@ =~= decimal_text((n / unit) as nat) + seq!['.'] + padded_text(
            (n % unit) as nat,
            places as nat,
        ));
    }
    push_unit(&mut out, k);
    out
}

/// Whether a byte stands for itself in a percent-encoded string: an ASCII
/// letter or digit, or one of `-`, `.`, `_`, `~`.
pub open spec fn is_unreserved(b: u8) -> bool {
    ||| 0x30 <= b <= 0x39
    ||| 0x41 <= b <= 0x5a
    ||| 0x61 <= b <= 0x7a
    ||| b == 0x2d
    ||| b == 0x2e
    ||| b == 0x5f
    ||| b == 0x7e
}

/// The upper-case hexadecimal digit of a value below 16.
pub open spec fn hex_upper(d: nat) -> char {
    if d < 10 {
        crate::text::digit_char(d)
    } else if d == 10 {
        'A'
    } else if d == 11 {
        'B'
    } else if d == 12 {
        'C'
    } else if d == 13 {
        'D'
    } else if d == 14 {
        'E'
    } else {
        'F'
    }
}

/// One byte, percent-encoded: itself where it is unreserved, otherwise `%`
/// and its two hexadecimal digits.
pub open spec fn percent_byte(b: u8) -> Seq<char> {
    if is_unreserved(b) {
        seq![b as char]
    } else {
        seq!['%', hex_upper((b / 16) as nat), hex_upper((b % 16) as nat)]
    }
}

/// A byte string, percent-encoded byte by byte.
pub open spec fn percent_encoded(bytes: Seq<u8>) -> Seq<char>
    decreases bytes.len(),
{
    if bytes.len() == 0 {
        Seq::empty()
    } else {
        percent_encoded(bytes.drop_last()) + percent_byte(bytes.last())
    }
}

/// Percent-encodes a string.
///
/// Trusted: `urlencoding::encode` walks the UTF-8 bytes of its argument,
/// copies ASCII letters, digits and `-`, `.`, `_`, `~`, and writes every
/// other byte as `%` followed by two upper-case hexadecimal digits.
#[verifier::external_body]
fn url_encode(s: &str) -> (out: String)
    ensures
        out@ == percent_encoded(encode_utf8(s@)),
{
    urlencoding::encode(s).into_owned()
}

/// The name under which a platform is known here: `macos` is `darwin`, every
/// other name stands for itself.
pub open spec fn os_name_text(os: Seq<char>) -> Seq<char> {
    if os == "macos"@ {
        "darwin"@
    } else {
        os
    }
}

/// The start of an asset link on a platform: an `https` address on Windows
/// and Android, the `asset` scheme elsewhere.
pub open spec fn asset_prefix(os: Seq<char>) -> Seq<char> {
    if os_name_text(os) == "windows"@ || os_name_text(os) == "android"@ {
        "https://asset.localhost/"@
    } else {
        "asset://localhost/"@
    }
}

/// The link under which the shell loads a local file.
pub open spec fn asset_link(file_path: Seq<char>, os: Seq<char>) -> Seq<char> {
    asset_prefix(os) + percent_encoded(encode_utf8(file_path))
}

/// Normalises a platform name as the operating system reports it.
pub fn get_os_name(os: &str) -> (name: String)
    ensures
        name@ == os_name_text(os@),
{
    if str_eq(os, "macos") {
        "darwin".to_owned()
    } else {
        os.to_owned()
    }
}

/// Turns a file path into the link under which the shell loads the file on
/// the platform named by `os`.
pub fn convert_file_src(file_path: &str, os: &str) -> (link: String)
    ensures
        link@ == asset_link(file_path@, os@),
{
    let encoded_path = url_encode(file_path);
    let os_name = get_os_name(os);
    let mut link = if str_eq(os_name.as_str(), "windows") || str_eq(os_name.as_str(), "android") {
        "https://asset.localhost/".to_owned()
    } else {
        "asset://localhost/".to_owned()
    };
    link.append(encoded_path.as_str());
    link
}

/// The folders of a collection root as mathematical values.
pub open spec fn folders_view(folders: Seq<Vec<RefFile>>) -> Seq<Seq<RefFileView>> {
    folders.map_values(|files: Vec<RefFile>| files_view(files@))
}

/// The references that the folders of a collection root make up: one for
/// each folder that parses, in the order of the folders.
pub open spec fn loaded_refs(folders: Seq<Seq<RefFileView>>, os: Seq<char>) -> Seq<RefView>
    decreases folders.len(),
{
    if folders.len() == 0 {
        Seq::empty()
    } else {
        match parsed(folders.last(), os) {
            Ok(r) => loaded_refs(folders.drop_last(), os).push(r),
            Err(_) => loaded_refs(folders.drop_last(), os),
        }
    }
}

/// The errors of the folders that do not parse, in the order of the
/// folders.
pub open spec fn load_errors(folders: Seq<Seq<RefFileView>>, os: Seq<char>) -> Seq<ParseError>
    decreases folders.len(),
{
    if folders.len() == 0 {
        Seq::empty()
    } else {
        match parsed(folders.last(), os) {
            Ok(_) => load_errors(folders.drop_last(), os),
            Err(e) => load_errors(folders.drop_last(), os).push(e),
        }
    }
}

/// A catalogue as loaded from a collection root, and the errors of the
/// folders that were left out.
pub struct Loaded {
    pub catalog: Catalog,
    pub errors: Vec<ParseError>,
}

/// Loads the catalogue of a collection root from the files of its folders:
/// every folder that parses gives a reference, and a folder that does not
/// leaves its error and nothing else.
pub fn fetch_refs(folders: &Vec<Vec<RefFile>>, os: &str) -> (loaded: Loaded)
    ensures
        loaded.catalog.wf(),
        loaded.catalog@ == loaded_refs(folders_view(folders@), os@),
        loaded.errors@ == load_errors(folders_view(folders@), os@),
{
    let mut catalog = Catalog::new();
    let mut errors: Vec<ParseError> = Vec::new();
    let ghost all = folders_view(folders@);
    let mut i: usize = 0;
    assert(catalog@ =~= loaded_refs(all.take(0), os@));
    while i < folders.len()
        invariant
            0 <= i <= folders.len(),
            all == folders_view(folders@),
            catalog.wf(),
            catalog@ == loaded_refs(all.take(i as int), os@),
            errors@ == load_errors(all.take(i as int), os@),
        decreases folders.len() - i,
    {
        proof {
            assert(all.take(i as int + 1).drop_last() =~= all.take(i as int));
            assert(all.take(i as int + 1).last() == files_view(folders@[i as int]@));
        }
        match parse_refs(&folders[i], os) {
            Ok(ref_data) => {
                proof {
                    lemma_parsed(files_view(folders@[i as int]@), os@);
                }
                catalog.append(ref_data);
            },
            Err(err) => {
                errors.push(err);
            },
        }
        i = i + 1;
    }
    assert(all.take(folders.len() as int) =~= all);
    Loaded { catalog, errors }
}

/// Gives the record of a sidecar a new display name, at the time `now`: the new text
/// of the sidecar, given its kind and its old text.
pub fn change_name_at(kind: RefKind, metadata_json: &str, new_name: &str, now: String) -> (done: Result<
    String,
    ParseError,
>)
    ensures
        match done {
            Ok(out) => sidecar_record(kind, metadata_json@) is Some && out@ == sidecar_text(
                sidecar_record(kind, metadata_json@)->Some_0.renamed(new_name@, now@),
            ),
            Err(e) => e == ParseError::Malformed && sidecar_record(kind, metadata_json@) is None,
        },
{
    match read_sidecar(kind, metadata_json) {
        Some(mut ref_data) => {
            ref_data.set_name_at(new_name, now);
            Ok(write_sidecar(&ref_data))
        },
        None => Err(ParseError::Malformed),
    }
}

/// Gives the record of a sidecar a new display name, now: the new text of the sidecar,
/// given its kind and its old text.
pub fn change_name(kind: RefKind, metadata_json: &str, new_name: &str) -> (done: Result<String, ParseError>)
    ensures
        match done {
            Ok(out) => sidecar_record(kind, metadata_json@) is Some && exists|stamp: Seq<char>|
                out@ == sidecar_text(
                    #[trigger] sidecar_record(kind, metadata_json@)->Some_0.renamed(new_name@, stamp),
                ),
            Err(e) => e == ParseError::Malformed && sidecar_record(kind, metadata_json@) is None,
        },
{
    let now = now_text();
    let done = change_name_at(kind, metadata_json, new_name, now.clone());
    proof {
        if done is Ok {
            assert(done->Ok_0@ == sidecar_text(
                sidecar_record(kind, metadata_json@)->Some_0.renamed(new_name@, now@),
            ));
        }
    }
    done
}

/// Appends a tag to the record of a sidecar, at the time `now`: the new text
/// of the sidecar, given its kind and its old text.
pub fn add_tag_at(kind: RefKind, metadata_json: &str, tag: &str, now: String) -> (done: Result<
    String,
    ParseError,
>)
    ensures
        match done {
            Ok(out) => sidecar_record(kind, metadata_json@) is Some && out@ == sidecar_text(
                sidecar_record(kind, metadata_json@)->Some_0.tagged(tag@, now@),
            ),
            Err(e) => e == ParseError::Malformed && sidecar_record(kind, metadata_json@) is None,
        },
{
    match read_sidecar(kind, metadata_json) {
        Some(mut ref_data) => {
            ref_data.add_tag_at(tag, now);
            Ok(write_sidecar(&ref_data))
        },
        None => Err(ParseError::Malformed),
    }
}

/// Appends a tag to the record of a sidecar, now: the new text of the sidecar,
/// given its kind and its old text.
pub fn add_tag(kind: RefKind, metadata_json: &str, tag: &str) -> (done: Result<String, ParseError>)
    ensures
        match done {
            Ok(out) => sidecar_record(kind, metadata_json@) is Some && exists|stamp: Seq<char>|
                out@ == sidecar_text(
                    #[trigger] sidecar_record(kind, metadata_json@)->Some_0.tagged(tag@, stamp),
                ),
            Err(e) => e == ParseError::Malformed && sidecar_record(kind, metadata_json@) is None,
        },
{
    let now = now_text();
    let done = add_tag_at(kind, metadata_json, tag, now.clone());
    proof {
        if done is Ok {
            assert(done->Ok_0@ == sidecar_text(
                sidecar_record(kind, metadata_json@)->Some_0.tagged(tag@, now@),
            ));
        }
    }
    done
}

/// Removes the last occurrence of a tag from the record of a sidecar, at the time `now`: the new text
/// of the sidecar, given its kind and its old text.
pub fn remove_tag_at(kind: RefKind, metadata_json: &str, tag: &str, now: String) -> (done: Result<
    String,
    ParseError,
>)
    ensures
        match done {
            Ok(out) => sidecar_record(kind, metadata_json@) is Some && out@ == sidecar_text(
                sidecar_record(kind, metadata_json@)->Some_0.untagged(tag@, now@),
            ),
            Err(e) => e == ParseError::Malformed && sidecar_record(kind, metadata_json@) is None,
        },
{
    match read_sidecar(kind, metadata_json) {
        Some(mut ref_data) => {
            ref_data.remove_tag_at(tag, now);
            Ok(write_sidecar(&ref_data))
        },
        None => Err(ParseError::Malformed),
    }
}

/// Removes the last occurrence of a tag from the record of a sidecar, now: the new text of the sidecar,
/// given its kind and its old text.
pub fn remove_tag(kind: RefKind, metadata_json: &str, tag: &str) -> (done: Result<String, ParseError>)
    ensures
        match done {
            Ok(out) => sidecar_record(kind, metadata_json@) is Some && exists|stamp: Seq<char>|
                out@ == sidecar_text(
                    #[trigger] sidecar_record(kind, metadata_json@)->Some_0.untagged(tag@, stamp),
                ),
            Err(e) => e == ParseError::Malformed && sidecar_record(kind, metadata_json@) is None,
        },
{
    let now = now_text();
    let done = remove_tag_at(kind, metadata_json, tag, now.clone());
    proof {
        if done is Ok {
            assert(done->Ok_0@ == sidecar_text(
                sidecar_record(kind, metadata_json@)->Some_0.untagged(tag@, now@),
            ));
        }
    }
    done
}

/// Replaces the note of the record of a sidecar, at the time `now`: the new text
/// of the sidecar, given its kind and its old text.
pub fn mutate_note_at(kind: RefKind, metadata_json: &str, text: &str, now: String) -> (done: Result<
    String,
    ParseError,
>)
    ensures
        match done {
            Ok(out) => sidecar_record(kind, metadata_json@) is Some && out@ == sidecar_text(
                sidecar_record(kind, metadata_json@)->Some_0.noted(text@, now@),
            ),
            Err(e) => e == ParseError::Malformed && sidecar_record(kind, metadata_json@) is None,
        },
{
    match read_sidecar(kind, metadata_json) {
        Some(mut ref_data) => {
            ref_data.update_note_at(text, now);
            Ok(write_sidecar(&ref_data))
        },
        None => Err(ParseError::Malformed),
    }
}

/// Replaces the note of the record of a sidecar, now: the new text of the sidecar,
/// given its kind and its old text.
pub fn mutate_note(kind: RefKind, metadata_json: &str, text: &str) -> (done: Result<String, ParseError>)
    ensures
        match done {
            Ok(out) => sidecar_record(kind, metadata_json@) is Some && exists|stamp: Seq<char>|
                out@ == sidecar_text(
                    #[trigger] sidecar_record(kind, metadata_json@)->Some_0.noted(text@, stamp),
                ),
            Err(e) => e == ParseError::Malformed && sidecar_record(kind, metadata_json@) is None,
        },
{
    let now = now_text();
    let done = mutate_note_at(kind, metadata_json, text, now.clone());
    proof {
        if done is Ok {
            assert(done->Ok_0@ == sidecar_text(
                sidecar_record(kind, metadata_json@)->Some_0.noted(text@, now@),
            ));
        }
    }
    done
}

/// The references of a folder, as a multiset: the one that it parses into,
/// or none.
pub open spec fn folder_refs(files: Seq<RefFileView>, os: Seq<char>) -> Multiset<RefView> {
    match parsed(files, os) {
        Ok(r) => Multiset::singleton(r),
        Err(_) => Multiset::empty(),
    }
}

/// A folder that does not parse adds nothing to a load, and one that parses
/// adds its reference at the end.
pub proof fn lemma_load_one_more(folders: Seq<Seq<RefFileView>>, files: Seq<RefFileView>, os: Seq<char>)
    ensures
        parsed(files, os) is Err ==> loaded_refs(folders.push(files), os) == loaded_refs(folders, os),
        parsed(files, os) is Ok ==> loaded_refs(folders.push(files), os) == loaded_refs(
            folders,
            os,
        ).push(parsed(files, os)->Ok_0),
{
    assert(folders.push(files).drop_last() =~= folders);
}

proof fn lemma_load_without(folders: Seq<Seq<RefFileView>>, i: int, os: Seq<char>)
    requires
        0 <= i < folders.len(),
    ensures
        loaded_refs(folders, os).to_multiset() == loaded_refs(folders.remove(i), os).to_multiset().add(
            folder_refs(folders[i], os),
        ),
    decreases folders.len(),
{
    broadcast use vstd::seq_lib::to_multiset_build;

    let rest = folders.drop_last();
    if i == folders.len() - 1 {
        assert(folders.remove(i) =~= rest);
        match parsed(folders.last(), os) {
            Ok(r) => {
                assert(loaded_refs(folders, os).to_multiset() =~= loaded_refs(rest, os).to_multiset().add(
                    Multiset::singleton(r),
                ));
            },
            Err(_) => {
                assert(loaded_refs(folders, os).to_multiset() =~= loaded_refs(rest, os).to_multiset().add(
                    Multiset::empty(),
                ));
            },
        }
    } else {
        lemma_load_without(rest, i, os);
        assert(rest[i] == folders[i]);
        assert(folders.remove(i).drop_last() =~= rest.remove(i));
        assert(folders.remove(i).last() == folders.last());
        match parsed(folders.last(), os) {
            Ok(r) => {
                assert(loaded_refs(folders, os).to_multiset() =~= loaded_refs(
                    folders.remove(i),
                    os,
                ).to_multiset().add(folder_refs(folders[i], os)));
            },
            Err(_) => {},
        }
    }
}

/// Loading is idempotent up to order: two lists of the same folders, in
/// whatever order each, load into the same references, each as often in
/// the one catalogue as in the other.
pub proof fn lemma_load_order(a: Seq<Seq<RefFileView>>, b: Seq<Seq<RefFileView>>, os: Seq<char>)
    requires
        a.to_multiset() == b.to_multiset(),
    ensures
        loaded_refs(a, os).to_multiset() == loaded_refs(b, os).to_multiset(),
    decreases a.len(),
{
    broadcast use vstd::seq_lib::to_multiset_build;

    a.to_multiset_ensures();
    b.to_multiset_ensures();
    if a.len() == 0 {
        assert(b.len() == 0);
        assert(a =~= b);
    } else {
        let x = a.last();
        assert(a.contains(x));
        assert(b.to_multiset().count(x) > 0);
        assert(b.contains(x));
        let j = choose|j: int| 0 <= j < b.len() && b[j] == x;
        let a2 = a.drop_last();
        let b2 = b.remove(j);
        assert(a2 =~= a.remove(a.len() - 1));
        assert(a2.to_multiset() =~= a.to_multiset().remove(x));
        assert(b2.to_multiset() =~= b.to_multiset().remove(x));
        lemma_load_order(a2, b2, os);
        lemma_load_without(a, a.len() - 1, os);
        lemma_load_without(b, j, os);
        assert(a.remove(a.len() - 1) =~= a2);
    }
}

} // verus!