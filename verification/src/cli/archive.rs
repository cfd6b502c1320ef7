//! Provider packages as archives: which of their files are unpacked, and where.
use crate::text;
use vstd::prelude::*;
use vstd::string::*;

verus! {

/// An entry of an archive: its path as the archive holds it, and what it is.
#[derive(Debug, Clone, PartialEq, Eq)]
pub struct ArchiveEntry {
    pub path: Vec<u8>,
    pub is_file: bool,
    pub is_dir: bool,
}

pub struct EntryView {
    pub path: Seq<u8>,
    pub is_file: bool,
    pub is_dir: bool,
}

impl View for ArchiveEntry {
    type V = EntryView;

    open spec fn view(&self) -> EntryView {
        EntryView { path: self.path@, is_file: self.is_file, is_dir: self.is_dir }
    }
}

pub open spec fn entry_views(v: Seq<ArchiveEntry>) -> Seq<EntryView> {
    v.map_values(|e: ArchiveEntry| e@)
}

/// What of an archive could not be read.
#[derive(Debug, Clone, Copy, PartialEq, Eq, Structural)]
pub enum ListingFault {
    Archive,
    Entry,
}

/// The entries that `tar` finds in the bytes that `flate2` unpacks.
pub uninterp spec fn archive_listing(data: Seq<u8>) -> Result<Seq<EntryView>, ListingFault>;

pub open spec fn listing_view(r: Result<Vec<ArchiveEntry>, ListingFault>) -> Result<
    Seq<EntryView>,
    ListingFault,
> {
    match r {
        Ok(v) => Ok(entry_views(v@)),
        Err(f) => Err(f),
    }
}

/// `tar::Archive::entries` over `flate2::read::GzDecoder`: of each entry its
/// `path_bytes` and whether its type `is_file` or `is_dir`.
#[verifier::external_body]
fn list_archive(data: &Vec<u8>) -> (r: Result<Vec<ArchiveEntry>, ListingFault>)
    ensures
        listing_view(r) == archive_listing(data@),
{
    let mut archive = tar::Archive::new(flate2::read::GzDecoder::new(data.as_slice()));
    let mut listed = Vec::new();
    for entry in archive.entries().map_err(|_| ListingFault::Archive)? {
        let entry = entry.map_err(|_| ListingFault::Entry)?;
        let kind = entry.header().entry_type();
        listed.push(
            ArchiveEntry {
                path: entry.path_bytes().to_vec(),
                is_file: kind.is_file(),
                is_dir: kind.is_dir(),
            },
        );
    }
    Ok(listed)
}

/// The slash that separates the names in an archive's paths, and the other one, which
/// does so on Windows too.
pub const SLASH: u8 = 0x2f;

pub const BACKSLASH: u8 = 0x5c;

pub const COLON: u8 = 0x3a;

pub open spec fn separates(b: u8, windows: bool) -> bool {
    b == SLASH || (windows && b == BACKSLASH)
}

fn is_separator(b: u8, windows: bool) -> (r: bool)
    ensures
        r == separates(b, windows),
{
    b == SLASH || (windows && b == BACKSLASH)
}

/// On Windows, a letter and a colon at the front name a drive.
pub open spec fn names_drive(name: Seq<u8>, windows: bool) -> bool {
    windows && name.len() >= 2 && name[1] == COLON && (0x41 <= name[0] <= 0x5a || 0x61 <= name[0]
        <= 0x7a)
}

fn is_on_drive(name: &Vec<u8>, windows: bool) -> (r: bool)
    ensures
        r == names_drive(name@, windows),
{
    windows && name.len() >= 2 && name[1] == COLON && ((0x41 <= name[0] && name[0] <= 0x5a) || (
    0x61 <= name[0] && name[0] <= 0x7a))
}

/// The names between the separators of a path, empty ones among them.
pub open spec fn path_pieces(s: Seq<u8>, windows: bool) -> Seq<Seq<u8>>
    decreases s.len(),
{
    if s.len() == 0 {
        seq![s]
    } else if separates(s.last(), windows) {
        path_pieces(s.drop_last(), windows).push(Seq::<u8>::empty())
    } else {
        let before = path_pieces(s.drop_last(), windows);
        before.drop_last().push(before.last().push(s.last()))
    }
}

proof fn lemma_some_piece(s: Seq<u8>, windows: bool)
    ensures
        path_pieces(s, windows).len() >= 1,
    decreases s.len(),
{
    if s.len() > 0 {
        lemma_some_piece(s.drop_last(), windows);
    }
}

pub open spec fn byte_texts(v: Seq<Vec<u8>>) -> Seq<Seq<u8>> {
    v.map_values(|b: Vec<u8>| b@)
}

fn split_path(path: &Vec<u8>, windows: bool) -> (r: Vec<Vec<u8>>)
    ensures
        byte_texts(r@) == path_pieces(path@, windows),
        r.len() >= 1,
{
    let mut done: Vec<Vec<u8>> = Vec::new();
    let mut piece: Vec<u8> = Vec::new();
    let n: usize = path.len();
    let mut i: usize = 0;
    assert(path@.take(0) =~= piece@);
    assert(byte_texts(done@).push(piece@) =~= path_pieces(path@.take(0), windows));
    while i < n
        invariant
            n == path.len(),
            i <= n,
            byte_texts(done@).push(piece@) == path_pieces(path@.take(i as int), windows),
        decreases n - i,
    {
        let ghost more = path@.take(i + 1);
        assert(more.drop_last() =~= path@.take(i as int));
        let b: u8 = path[i];
        let ghost before = byte_texts(done@);
        let ghost held = piece@;
        assert(before.push(held).drop_last() =~= before);
        if is_separator(b, windows) {
            done.push(piece);
            piece = Vec::new();
            assert(byte_texts(done@) =~= before.push(held));
            assert(byte_texts(done@).push(piece@) =~= path_pieces(more, windows));
        } else {
            piece.push(b);
            assert(byte_texts(done@).push(piece@) =~= path_pieces(more, windows));
        }
        i = i + 1;
    }
    assert(path@.take(n as int) =~= path@);
    let ghost before = byte_texts(done@);
    done.push(piece);
    assert(byte_texts(done@) =~= before.push(piece@));
    done
}

pub open spec fn is_up(name: Seq<u8>) -> bool {
    name == text::utf8(".."@)
}

pub open spec fn is_here(name: Seq<u8>) -> bool {
    name == text::utf8("."@)
}

/// The names that lead somewhere.
pub open spec fn leading(names: Seq<Seq<u8>>) -> Seq<Seq<u8>>
    decreases names.len(),
{
    if names.len() == 0 {
        names
    } else if names.last().len() == 0 || is_here(names.last()) {
        leading(names.drop_last())
    } else {
        leading(names.drop_last()).push(names.last())
    }
}

/// The names below the `package` directory that a packed package begins with.
pub open spec fn inner_names(pieces: Seq<Seq<u8>>) -> Seq<Seq<u8>> {
    if pieces[0] == text::utf8("package"@) {
        pieces.subrange(1, pieces.len() as int)
    } else {
        pieces
    }
}

/// A name that leads out of the place that an archive is unpacked to.
pub open spec fn leads_out(name: Seq<u8>, windows: bool) -> bool {
    is_up(name) || names_drive(name, windows)
}

/// Where an entry is unpacked, below the place that it is unpacked to: nowhere, where its
/// path is absolute, leads upwards, goes to a drive or names nothing.
pub open spec fn clean_path(path: Seq<u8>, windows: bool) -> Option<Seq<Seq<u8>>> {
    let names = inner_names(path_pieces(path, windows));
    if path.len() > 0 && separates(path[0], windows) {
        None
    } else if exists|i: int| 0 <= i < names.len() && leads_out(#[trigger] names[i], windows) {
        None
    } else if leading(names).len() == 0 {
        None
    } else {
        Some(leading(names))
    }
}

pub open spec fn clean_of(r: Option<Vec<Vec<u8>>>) -> Option<Seq<Seq<u8>>> {
    match r {
        Some(v) => Some(byte_texts(v@)),
        None => None,
    }
}

fn same_bytes(a: &Vec<u8>, b: &[u8]) -> (r: bool)
    ensures
        r == (a@ == b@),
{
    if a.len() != b.len() {
        return false;
    }
    let n: usize = a.len();
    let mut i: usize = 0;
    while i < n
        invariant
            n == a.len(),
            n == b@.len(),
            i <= n,
            forall|k: int| 0 <= k < i ==> a@[k] == b@[k],
        decreases n - i,
    {
        if a[i] != b[i] {
            return false;
        }
        i = i + 1;
    }
    assert(a@ =~= b@);
    true
}

fn copy_bytes(a: &Vec<u8>) -> (r: Vec<u8>)
    ensures
        r@ == a@,
{
    let mut r: Vec<u8> = Vec::new();
    let n: usize = a.len();
    let mut i: usize = 0;
    while i < n
        invariant
            n == a.len(),
            i <= n,
            r@ == a@.take(i as int),
        decreases n - i,
    {
        r.push(a[i]);
        i = i + 1;
        assert(r@ =~= a@.take(i as int));
    }
    assert(a@.take(n as int) =~= a@);
    r
}

pub fn sanitize_provider_archive_path(path: &Vec<u8>, windows: bool) -> (r: Option<Vec<Vec<u8>>>)
    ensures
        clean_of(r) == clean_path(path@, windows),
{
    if path.len() > 0 && is_separator(path[0], windows) {
        return None;
    }
    let pieces = split_path(path, windows);
    assert(byte_texts(pieces@)[0] == pieces@[0]@);
    let start: usize = if same_bytes(&pieces[0], "package".as_bytes()) {
        1
    } else {
        0
    };
    let n: usize = pieces.len();
    let ghost names = inner_names(byte_texts(pieces@));
    assert(names.len() == n - start);
    assert(forall|k: int| 0 <= k < names.len() ==> #[trigger] names[k] == pieces@[k + start]@);
    let mut clean: Vec<Vec<u8>> = Vec::new();
    let mut i: usize = start;
    assert(byte_texts(clean@) =~= leading(names.take(0)));
    while i < n
        invariant
            n == pieces.len(),
            start <= i <= n,
            start <= 1,
            names == inner_names(path_pieces(path@, windows)),
            !(path@.len() > 0 && separates(path@[0], windows)),
            names.len() == n - start,
            forall|k: int| 0 <= k < names.len() ==> #[trigger] names[k] == pieces@[k + start]@,
            forall|k: int| 0 <= k < i - start ==> !leads_out(#[trigger] names[k], windows),
            byte_texts(clean@) == leading(names.take(i - start)),
        decreases n - i,
    {
        let name = &pieces[i];
        assert(names[i - start] == name@);
        if same_bytes(name, "..".as_bytes()) || is_on_drive(name, windows) {
            return None;
        }
        let ghost more = names.take(i + 1 - start);
        assert(more.drop_last() =~= names.take(i - start));
        assert(more.last() == name@);
        if name.len() > 0 && !same_bytes(name, ".".as_bytes()) {
            let ghost before = byte_texts(clean@);
            clean.push(copy_bytes(name));
            assert(byte_texts(clean@) =~= before.push(name@));
        }
        i = i + 1;
    }
    assert(names.take(n - start) =~= names);
    if clean.len() == 0 {
        assert(byte_texts(clean@).len() == 0);
        return None;
    }
    assert(byte_texts(clean@).len() == clean.len());
    Some(clean)
}

/// No byte of a name separates names.
pub open spec fn unseparated(name: Seq<u8>, windows: bool) -> bool {
    forall|k: int| 0 <= k < name.len() ==> !separates(#[trigger] name[k], windows)
}

proof fn lemma_pieces_are_unseparated(s: Seq<u8>, windows: bool)
    ensures
        forall|i: int|
            0 <= i < path_pieces(s, windows).len() ==> unseparated(
                #[trigger] path_pieces(s, windows)[i],
                windows,
            ),
    decreases s.len(),
{
    let all = path_pieces(s, windows);
    if s.len() > 0 {
        lemma_pieces_are_unseparated(s.drop_last(), windows);
        lemma_some_piece(s.drop_last(), windows);
        let before = path_pieces(s.drop_last(), windows);
        assert forall|i: int| 0 <= i < all.len() implies unseparated(#[trigger] all[i], windows) by {
            if separates(s.last(), windows) {
                if i < before.len() {
                    assert(all[i] == before[i]);
                }
            } else if i < before.len() - 1 {
                assert(all[i] == before[i]);
            } else {
                assert(unseparated(before[before.len() - 1], windows));
                assert(all[i] == before.last().push(s.last()));
            }
        }
    } else {
        assert(all[0] =~= Seq::<u8>::empty());
    }
}

proof fn lemma_leading_names(names: Seq<Seq<u8>>)
    ensures
        forall|i: int|
            0 <= i < leading(names).len() ==> {
                &&& (#[trigger] leading(names)[i]).len() > 0
                &&& !is_here(leading(names)[i])
                &&& exists|k: int| 0 <= k < names.len() && #[trigger] names[k] == leading(names)[i]
            },
    decreases names.len(),
{
    if names.len() > 0 {
        let rest = names.drop_last();
        lemma_leading_names(rest);
        assert forall|i: int| 0 <= i < leading(names).len() implies {
            &&& (#[trigger] leading(names)[i]).len() > 0
            &&& !is_here(leading(names)[i])
            &&& exists|k: int| 0 <= k < names.len() && #[trigger] names[k] == leading(names)[i]
        } by {
            if i < leading(rest).len() {
                assert(leading(names)[i] == leading(rest)[i]);
                let k = choose|k: int|
                    0 <= k < rest.len() && #[trigger] rest[k] == leading(rest)[i];
                assert(names[k] == rest[k]);
            } else {
                assert(names[names.len() - 1] == leading(names)[i]);
            }
        }
    }
}

/// What an archive holds is unpacked below the place that it is unpacked to: every step of
/// the way there is a name of its own, without a separator, and none of them leads out.
pub proof fn law_unpacked_below(path: Seq<u8>, windows: bool)
    requires
        clean_path(path, windows) is Some,
    ensures
        clean_path(path, windows)->0.len() > 0,
        forall|i: int|
            0 <= i < clean_path(path, windows)->0.len() ==> {
                let name = #[trigger] clean_path(path, windows)->0[i];
                &&& name.len() > 0
                &&& unseparated(name, windows)
                &&& !is_here(name)
                &&& !is_up(name)
                &&& !names_drive(name, windows)
            },
{
    let pieces = path_pieces(path, windows);
    let names = inner_names(pieces);
    lemma_pieces_are_unseparated(path, windows);
    lemma_some_piece(path, windows);
    lemma_leading_names(names);
    assert forall|i: int| 0 <= i < leading(names).len() implies {
        let name = #[trigger] leading(names)[i];
        &&& name.len() > 0
        &&& unseparated(name, windows)
        &&& !is_here(name)
        &&& !is_up(name)
        &&& !names_drive(name, windows)
    } by {
        let k = choose|k: int| 0 <= k < names.len() && #[trigger] names[k] == leading(names)[i];
        assert(!leads_out(names[k], windows));
        if pieces[0] == text::utf8("package"@) {
            assert(names[k] == pieces[k + 1]);
        } else {
            assert(names[k] == pieces[k]);
        }
    }
}

/// Where each entry of an archive goes; nowhere, where it is left out.
pub open spec fn unpack_targets(entries: Seq<EntryView>, windows: bool) -> Seq<
    Option<Seq<Seq<u8>>>,
> {
    entries.map_values(
        |e: EntryView|
            if e.is_file || e.is_dir {
                clean_path(e.path, windows)
            } else {
                None
            },
    )
}

/// Whether the paths can be had: on Windows each has to be a text.
pub open spec fn nameable(entries: Seq<EntryView>, windows: bool) -> bool {
    windows ==> forall|i: int| 0 <= i < entries.len() ==> text::is_utf8((#[trigger] entries[i]).path)
}

pub open spec fn targets(v: Seq<Option<Vec<Vec<u8>>>>) -> Seq<Option<Seq<Seq<u8>>>> {
    v.map_values(|t: Option<Vec<Vec<u8>>>| clean_of(t))
}

/// The plan for a listing, or why there is none.
pub open spec fn planned(
    r: Result<Vec<Option<Vec<Vec<u8>>>>, String>,
    entries: Seq<EntryView>,
    windows: bool,
) -> bool {
    if nameable(entries, windows) {
        r is Ok && targets(r->Ok_0@) == unpack_targets(entries, windows)
    } else {
        r is Err && r->Err_0@ == "failed to read provider package entry path"@
    }
}

/// Plans where the entries of a listing go.
pub fn plan_entries(entries: &Vec<ArchiveEntry>, windows: bool) -> (r: Result<
    Vec<Option<Vec<Vec<u8>>>>,
    String,
>)
    ensures
        planned(r, entry_views(entries@), windows),
{
    let ghost all = unpack_targets(entry_views(entries@), windows);
    let mut plan: Vec<Option<Vec<Vec<u8>>>> = Vec::new();
    let n: usize = entries.len();
    let mut i: usize = 0;
    assert(targets(plan@) =~= all.take(0));
    while i < n
        invariant
            n == entries.len(),
            all == unpack_targets(entry_views(entries@), windows),
            i <= n,
            windows ==> forall|k: int|
                0 <= k < i ==> text::is_utf8((#[trigger] entry_views(entries@)[k]).path),
            targets(plan@) == all.take(i as int),
        decreases n - i,
    {
        let e = &entries[i];
        assert(entry_views(entries@)[i as int] == e@);
        if windows && text::of_utf8(copy_bytes(&e.path)).is_err() {
            return Err(text::copy("failed to read provider package entry path"));
        }
        let target = if e.is_file || e.is_dir {
            sanitize_provider_archive_path(&e.path, windows)
        } else {
            None
        };
        assert(all[i as int] == clean_of(target));
        let ghost before = targets(plan@);
        plan.push(target);
        assert(targets(plan@) =~= before.push(all[i as int]));
        assert(all.take(i + 1) =~= all.take(i as int).push(all[i as int]));
        i = i + 1;
    }
    assert(all.take(n as int) =~= all);
    Ok(plan)
}

/// Plans where the entries of a packed package go, in the order of the archive.
pub fn plan_unpacking(data: &Vec<u8>, windows: bool) -> (r: Result<
    Vec<Option<Vec<Vec<u8>>>>,
    String,
>)
    ensures
        match archive_listing(data@) {
            Ok(entries) => planned(r, entries, windows),
            Err(ListingFault::Archive) => r is Err && r->Err_0@
                == "failed to read provider package archive"@,
            Err(ListingFault::Entry) => r is Err && r->Err_0@
                == "failed to read provider package entry"@,
        },
{
    match list_archive(data) {
        Ok(entries) => plan_entries(&entries, windows),
        Err(ListingFault::Archive) => Err(text::copy("failed to read provider package archive")),
        Err(ListingFault::Entry) => Err(text::copy("failed to read provider package entry")),
    }
}

/// The names with a slash between neighbours.
pub open spec fn slashed(names: Seq<Seq<u8>>) -> Seq<u8>
    decreases names.len(),
{
    if names.len() == 0 {
        Seq::empty()
    } else if names.len() == 1 {
        names[0]
    } else {
        slashed(names.drop_last()) + seq![SLASH] + names.last()
    }
}

proof fn lemma_one_piece(name: Seq<u8>, windows: bool)
    requires
        unseparated(name, windows),
    ensures
        path_pieces(name, windows) == seq![name],
    decreases name.len(),
{
    if name.len() > 0 {
        let front = name.drop_last();
        assert forall|k: int| 0 <= k < front.len() implies !separates(#[trigger] front[k], windows) by {
            assert(front[k] == name[k]);
        }
        lemma_one_piece(front, windows);
        assert(name.last() == name[name.len() - 1]);
        assert(front.push(name.last()) =~= name);
        assert(path_pieces(name, windows) =~= seq![name]);
    }
}

proof fn lemma_last_piece(front: Seq<u8>, name: Seq<u8>, windows: bool)
    requires
        unseparated(name, windows),
    ensures
        path_pieces(front + seq![SLASH] + name, windows) == path_pieces(front, windows).push(name),
    decreases name.len(),
{
    let s = front + seq![SLASH] + name;
    if name.len() == 0 {
        assert(s.drop_last() =~= front);
        assert(s.last() == SLASH);
        assert(name =~= Seq::empty());
    } else {
        let shorter = name.drop_last();
        assert forall|k: int| 0 <= k < shorter.len() implies !separates(
            #[trigger] shorter[k],
            windows,
        ) by {
            assert(shorter[k] == name[k]);
        }
        lemma_last_piece(front, shorter, windows);
        assert(s.drop_last() =~= front + seq![SLASH] + shorter);
        assert(s.last() == name[name.len() - 1]);
        assert(shorter.push(name.last()) =~= name);
        let before = path_pieces(front, windows).push(shorter);
        assert(before.drop_last().push(before.last().push(s.last())) =~= path_pieces(
            front,
            windows,
        ).push(name));
    }
}

proof fn lemma_slashed_pieces(names: Seq<Seq<u8>>, windows: bool)
    requires
        names.len() > 0,
        forall|i: int| 0 <= i < names.len() ==> unseparated(#[trigger] names[i], windows),
    ensures
        path_pieces(slashed(names), windows) == names,
    decreases names.len(),
{
    if names.len() == 1 {
        lemma_one_piece(names[0], windows);
        assert(seq![names[0]] =~= names);
    } else {
        lemma_slashed_pieces(names.drop_last(), windows);
        assert(unseparated(names[names.len() - 1], windows));
        lemma_last_piece(slashed(names.drop_last()), names.last(), windows);
        assert(names.drop_last().push(names.last()) =~= names);
    }
}

proof fn lemma_slashed_front(names: Seq<Seq<u8>>)
    requires
        names.len() > 0,
        names[0].len() > 0,
    ensures
        slashed(names).len() > 0,
        slashed(names)[0] == names[0][0],
    decreases names.len(),
{
    if names.len() > 1 {
        lemma_slashed_front(names.drop_last());
    }
}

proof fn lemma_all_lead(names: Seq<Seq<u8>>)
    requires
        forall|i: int|
            0 <= i < names.len() ==> (#[trigger] names[i]).len() > 0 && !is_here(names[i]),
    ensures
        leading(names) == names,
    decreases names.len(),
{
    if names.len() > 0 {
        assert(names.last() == names[names.len() - 1]);
        lemma_all_lead(names.drop_last());
        assert(names.drop_last().push(names.last()) =~= names);
    }
}

/// A name that stays in the directory where it is unpacked, and is one part of a path.
pub open spec fn plain_name(name: Seq<u8>, windows: bool) -> bool {
    name.len() > 0 && unseparated(name, windows) && !is_here(name) && !leads_out(name, windows)
}

proof fn lemma_package_is_plain(windows: bool)
    ensures
        plain_name(text::utf8("package"@), windows),
{
    reveal_strlit("package");
    reveal_strlit(".");
    reveal_strlit("..");
    let p = "package"@;
    assert(vstd::utf8::is_ascii_chars(p));
    vstd::utf8::is_ascii_chars_encode_utf8(p);
    assert(vstd::utf8::is_ascii_chars("."@));
    vstd::utf8::is_ascii_chars_encode_utf8("."@);
    assert(vstd::utf8::is_ascii_chars(".."@));
    vstd::utf8::is_ascii_chars_encode_utf8(".."@);
    let name = text::utf8(p);
    assert(name.len() == 7);
    assert forall|k: int| 0 <= k < name.len() implies !separates(#[trigger] name[k], windows) by {
        assert(p[k] as u8 == name[k]);
        assert('p' as u8 == 0x70 && 'a' as u8 == 0x61 && 'c' as u8 == 0x63 && 'k' as u8 == 0x6b
            && 'g' as u8 == 0x67 && 'e' as u8 == 0x65);
    }
    assert(p[1] as u8 == name[1]);
}

/// A path of plain names is unpacked name by name, whether or not it stands in the directory
/// that packages are packed in.
pub proof fn law_plain_paths_are_unpacked(names: Seq<Seq<u8>>, windows: bool)
    requires
        names.len() > 0,
        forall|i: int| 0 <= i < names.len() ==> plain_name(#[trigger] names[i], windows),
    ensures
        names[0] != text::utf8("package"@) ==> clean_path(slashed(names), windows) == Some(names),
        clean_path(slashed(seq![text::utf8("package"@)] + names), windows) == Some(names),
{
    lemma_package_is_plain(windows);
    lemma_slashed_pieces(names, windows);
    lemma_slashed_front(names);
    lemma_all_lead(names);
    assert(plain_name(names[0], windows));
    assert(!separates(names[0][0], windows));
    let packed = seq![text::utf8("package"@)] + names;
    assert forall|i: int| 0 <= i < packed.len() implies plain_name(#[trigger] packed[i], windows) by {
        if i > 0 {
            assert(packed[i] == names[i - 1]);
        }
    }
    assert(plain_name(packed[0], windows));
    lemma_slashed_pieces(packed, windows);
    lemma_slashed_front(packed);
    assert(!separates(packed[0][0], windows));
    assert(packed.subrange(1, packed.len() as int) =~= names);
}

/// A path that goes up anywhere behind its first name, or that starts at a root, is left out.
pub proof fn law_outward_paths_are_left_out(names: Seq<Seq<u8>>, windows: bool, at: int)
    requires
        forall|i: int| 0 <= i < names.len() ==> unseparated(#[trigger] names[i], windows),
        0 < at < names.len(),
        is_up(names[at]),
    ensures
        clean_path(slashed(names), windows) is None,
        clean_path(seq![SLASH] + slashed(names), windows) is None,
{
    lemma_slashed_pieces(names, windows);
    let inner = inner_names(names);
    if names[0] == text::utf8("package"@) {
        assert(inner[at - 1] == names[at]);
        assert(leads_out(inner[at - 1], windows));
    } else {
        assert(leads_out(inner[at], windows));
    }
    assert((seq![SLASH] + slashed(names))[0] == SLASH);
}

/// What is neither a file nor a directory is not unpacked; the rest goes where its path says.
pub proof fn law_only_files_and_directories(entries: Seq<EntryView>, windows: bool, i: int)
    requires
        0 <= i < entries.len(),
    ensures
        unpack_targets(entries, windows).len() == entries.len(),
        entries[i].is_file || entries[i].is_dir ==> unpack_targets(entries, windows)[i]
            == clean_path(entries[i].path, windows),
        !entries[i].is_file && !entries[i].is_dir ==> unpack_targets(entries, windows)[i] is None,
{
}

} // verus!
