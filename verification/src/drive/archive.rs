//! Folders as ZIP archives.

use std::io::{Cursor, Write};
use vstd::prelude::*;
use vstd::utf8::encode_utf8;

use crate::text::characters;

verus! {

/// An archive that entries are added to, with `zip::ZipWriter`.
#[verifier::external_body]
pub struct Archive {
    writer: zip::ZipWriter<Cursor<Vec<u8>>>,
}

/// The entries that were added to an archive, in order: the name and the content of each.
pub uninterp spec fn added_entries(archive: Archive) -> Seq<(Seq<char>, Seq<u8>)>;

/// The entries that the directory of a finished archive lists, in order: the name of each, and the
/// content it points to.
pub uninterp spec fn archive_entries(bytes: Seq<u8>) -> Seq<(Seq<char>, Seq<u8>)>;

/// The numbers of the methods by which the entries of an archive are compressed, in order.
pub uninterp spec fn added_methods(archive: Archive) -> Seq<u16>;

/// The numbers of the methods that the directory of a finished archive lists for its entries, in
/// order.
pub uninterp spec fn archive_methods(bytes: Seq<u8>) -> Seq<u16>;

/// The number of the method that leaves content as it is.
pub const STORED: u16 = 0;

/// The number of the method that deflates content.
pub const DEFLATED: u16 = 8;

/// Whether the last entry that was added to an archive is a file, whose content can go on.
pub uninterp spec fn takes_content(archive: Archive) -> bool;

/// Whether one of `entries` has the name `name`.
pub open spec fn has_entry(entries: Seq<(Seq<char>, Seq<u8>)>, name: Seq<char>) -> bool {
    exists|i: int| 0 <= i < entries.len() && (#[trigger] entries[i]).0 == name
}

/// The name of the entry of a directory: it ends with a slash, unless the name of the directory ends
/// with a slash or a backslash.
pub open spec fn directory_name(name: Seq<char>) -> Seq<char> {
    if name.len() > 0 && (name.last() == '/' || name.last() == '\\') {
        name
    } else {
        name + "/"@
    }
}

/// How many bytes the name of an entry may have.
pub const ENTRY_NAME_LIMIT: usize = 65535;

/// How many bytes the content of a file may have so that building an archive of it is sure not to
/// fail. Neither the content nor what is made of it by compression then comes to the size from which
/// on an entry needs another layout; how much an archive holds in all does not matter.
pub const CONTENT_LIMIT: u64 = 4_000_000_000;

/// How many bytes the content of a file may have at most: with more it is sure to be refused. Between
/// the two limits it is refused if compression makes it longer than this.
pub const CONTENT_MAXIMUM: u64 = 4_294_967_295;

/// Whether the content of every entry is within the limit.
pub open spec fn contents_fit(entries: Seq<(Seq<char>, Seq<u8>)>) -> bool {
    forall|i: int| 0 <= i < entries.len() ==> (#[trigger] entries[i]).1.len() <= CONTENT_LIMIT
}

/// Whether it is sure of the content of every entry that it is taken, or that it is refused.
pub open spec fn contents_clear(entries: Seq<(Seq<char>, Seq<u8>)>) -> bool {
    forall|i: int|
        0 <= i < entries.len() ==> (#[trigger] entries[i]).1.len() <= CONTENT_LIMIT
            || entries[i].1.len() > CONTENT_MAXIMUM
}

/// What is said of an entry whose name another entry has.
pub open spec fn repeated(name: Seq<char>) -> Seq<char> {
    "invalid Zip archive: Duplicate filename: "@ + name
}

/// What is said of content that is over the maximum.
pub open spec fn too_large() -> Seq<char> {
    "Large file option has not been set"@
}

/// What is said of the first of `entries` that cannot be added to those before it: another has its
/// name, or its content is over the maximum.
pub open spec fn failure_of(entries: Seq<(Seq<char>, Seq<u8>)>) -> Option<Seq<char>>
    decreases entries.len(),
{
    if entries.len() == 0 {
        None
    } else {
        match failure_of(entries.drop_last()) {
            Some(failure) => Some(failure),
            None => if has_entry(entries.drop_last(), entries.last().0) {
                Some(repeated(entries.last().0))
            } else if entries.last().1.len() > CONTENT_MAXIMUM {
                Some(too_large())
            } else {
                None
            },
        }
    }
}

/// Calls `zip::ZipWriter::new` over an empty buffer. Claimed of it: no entry is added.
#[verifier::external_body]
fn new_archive() -> (archive: Archive)
    ensures
        added_entries(archive) == Seq::<(Seq<char>, Seq<u8>)>::empty(),
        added_methods(archive) == Seq::<u16>::empty(),
{
    Archive { writer: zip::ZipWriter::new(Cursor::new(Vec::new())) }
}

/// Calls `zip::ZipWriter::add_directory`. Claimed of it: it fails if there is an entry of that name,
/// and says so where the content of every entry is within the limit; it does not fail otherwise as long
/// as that is so; and where it succeeds it adds an entry for the directory, stored without content. It
/// panics on a name whose length does not fit 16 bits.
#[verifier::external_body]
fn add_directory(archive: &mut Archive, name: &str) -> (added: Result<(), String>)
    requires
        encode_utf8(directory_name(name@)).len() <= ENTRY_NAME_LIMIT,
    ensures
        has_entry(added_entries(*old(archive)), directory_name(name@)) ==> (added matches Err(error)
            && (contents_fit(added_entries(*old(archive))) ==> error@ == repeated(
            directory_name(name@),
        ))),
        !has_entry(added_entries(*old(archive)), directory_name(name@)) && contents_fit(
            added_entries(*old(archive)),
        ) ==> added is Ok,
        added is Ok ==> added_entries(*final(archive)) == added_entries(*old(archive)).push(
            (directory_name(name@), Seq::empty()),
        ) && added_methods(*final(archive)) == added_methods(*old(archive)).push(STORED)
            && !takes_content(*final(archive)),
{
    let options = zip::write::SimpleFileOptions::default();
    archive.writer.add_directory(name, options).map_err(|error| error.to_string())
}

/// Calls `zip::ZipWriter::start_file`, with a method by its number. Claimed of it: it fails if there is
/// an entry of that name, and says so where the content of every entry is within the limit; it does not
/// fail otherwise as long as that is so; and where it succeeds it adds an entry of that name, to be
/// compressed by that method, without content so far. It panics on a name whose length does not fit 16
/// bits.
#[allow(deprecated)]
#[verifier::external_body]
fn start_file(archive: &mut Archive, name: &str, method: u16) -> (started: Result<(), String>)
    requires
        encode_utf8(name@).len() <= ENTRY_NAME_LIMIT,
        method == STORED || method == DEFLATED,
    ensures
        has_entry(added_entries(*old(archive)), name@) ==> (started matches Err(error) && (
        contents_fit(added_entries(*old(archive))) ==> error@ == repeated(name@))),
        !has_entry(added_entries(*old(archive)), name@) && contents_fit(
            added_entries(*old(archive)),
        ) ==> started is Ok,
        started is Ok ==> added_entries(*final(archive)) == added_entries(*old(archive)).push(
            (name@, Seq::empty()),
        ) && added_methods(*final(archive)) == added_methods(*old(archive)).push(method)
            && takes_content(*final(archive)),
{
    let options = zip::write::SimpleFileOptions::default().compression_method(
        zip::CompressionMethod::from_u16(method),
    );
    archive.writer.start_file(name, options).map_err(|error| error.to_string())
}

/// The entries once the content of the last one has gone on with `bytes`.
pub open spec fn continued(entries: Seq<(Seq<char>, Seq<u8>)>, bytes: Seq<u8>) -> Seq<
    (Seq<char>, Seq<u8>),
> {
    entries.drop_last().push((entries.last().0, entries.last().1 + bytes))
}

/// Calls `write_all` on a `zip::ZipWriter`. Claimed of it: it does not fail as long as the content of
/// every entry stays within the limit; it fails, and says why, if the content of the last entry comes
/// to be over the maximum; and where it succeeds the content of the last entry goes on with `bytes`.
#[verifier::external_body]
fn write_content(archive: &mut Archive, bytes: &[u8]) -> (written: Result<(), String>)
    requires
        added_entries(*old(archive)).len() > 0,
        takes_content(*old(archive)),
    ensures
        contents_fit(continued(added_entries(*old(archive)), bytes@)) ==> written is Ok,
        continued(added_entries(*old(archive)), bytes@).last().1.len() > CONTENT_MAXIMUM ==> (
        written matches Err(error) && error@ == too_large()),
        written is Ok ==> added_entries(*final(archive)) == continued(
            added_entries(*old(archive)),
            bytes@,
        ) && added_methods(*final(archive)) == added_methods(*old(archive)) && takes_content(
            *final(archive),
        ),
{
    archive.writer.write_all(bytes).map_err(|error| error.to_string())
}

/// Calls `zip::ZipWriter::finish`. Claimed of it: it does not fail as long as the content of
/// every entry is within the limit, and where it succeeds the bytes of the archive hold the entries
/// that were added, in order, by the methods they were added with.
#[verifier::external_body]
fn finish_archive(archive: Archive) -> (finished: Result<Vec<u8>, String>)
    ensures
        match finished {
            Ok(bytes) => archive_entries(bytes@) == added_entries(archive) && archive_methods(
                bytes@,
            ) == added_methods(archive),
            Err(_) => !contents_fit(added_entries(archive)),
        },
{
    archive.writer.finish().map(Cursor::into_inner).map_err(|error| error.to_string())
}

/// A file of an archive: its path in the archive, and its content.
pub struct ArchiveFile {
    pub path: String,
    pub content: Vec<u8>,
}

/// The paths and contents of files.
pub open spec fn file_entries(files: Seq<ArchiveFile>) -> Seq<(Seq<char>, Seq<u8>)> {
    files.map_values(|file: ArchiveFile| (file.path@, file.content@))
}

/// The entries of directories.
pub open spec fn directory_entries(dirs: Seq<String>) -> Seq<(Seq<char>, Seq<u8>)> {
    dirs.map_values(|dir: String| (directory_name(dir@), Seq::<u8>::empty()))
}

/// Whether every entry has a name that an archive can hold.
pub open spec fn names_fit(dirs: Seq<String>, files: Seq<ArchiveFile>) -> bool {
    &&& forall|i: int|
        0 <= i < dirs.len() ==> encode_utf8(directory_name((#[trigger] dirs[i])@)).len()
            <= ENTRY_NAME_LIMIT
    &&& forall|i: int|
        0 <= i < files.len() ==> encode_utf8((#[trigger] files[i]).path@).len() <= ENTRY_NAME_LIMIT
}

/// The number of bytes of a text.
fn byte_count(text: &str) -> (count: usize)
    ensures
        count == encode_utf8(text@).len(),
{
    text.as_bytes().len()
}

/// Whether every entry has a name that an archive can hold.
pub fn check_names(dirs: &Vec<String>, files: &Vec<ArchiveFile>) -> (fit: bool)
    ensures
        fit == names_fit(dirs@, files@),
{
    let mut i: usize = 0;
    while i < dirs.len()
        invariant
            i <= dirs@.len(),
            forall|j: int|
                0 <= j < i ==> encode_utf8(directory_name((#[trigger] dirs@[j])@)).len()
                    <= ENTRY_NAME_LIMIT,
        decreases dirs@.len() - i,
    {
        if byte_count(name_of_directory(dirs[i].as_str()).as_str()) > ENTRY_NAME_LIMIT {
            proof {
                assert(encode_utf8(directory_name(dirs@[i as int]@)).len() > ENTRY_NAME_LIMIT);
            }
            return false;
        }
        i = i + 1;
    }
    let mut k: usize = 0;
    while k < files.len()
        invariant
            k <= files@.len(),
            forall|j: int|
                0 <= j < k ==> encode_utf8((#[trigger] files@[j]).path@).len() <= ENTRY_NAME_LIMIT,
        decreases files@.len() - k,
    {
        if byte_count(files[k].path.as_str()) > ENTRY_NAME_LIMIT {
            return false;
        }
        k = k + 1;
    }
    true
}

/// The name of the entry of a directory.
fn name_of_directory(name: &str) -> (entry: String)
    ensures
        entry@ == directory_name(name@),
{
    let list = characters(name);
    let length: usize = list.len();
    if length > 0 && (list[length - 1] == '/' || list[length - 1] == '\\') {
        name.to_owned()
    } else {
        name.to_owned().concat("/")
    }
}

/// The entries of an archive of directories and files.
pub open spec fn entries_of(dirs: Seq<String>, files: Seq<ArchiveFile>) -> Seq<
    (Seq<char>, Seq<u8>),
> {
    directory_entries(dirs) + file_entries(files)
}

/// Whether no two entries have the same name.
pub open spec fn distinct_names(entries: Seq<(Seq<char>, Seq<u8>)>) -> bool {
    forall|i: int, j: int|
        0 <= i < j < entries.len() ==> (#[trigger] entries[i]).0 != (#[trigger] entries[j]).0
}

/// An entry whose name none of the first entries has leaves the names distinct.
proof fn lemma_next_distinct(entries: Seq<(Seq<char>, Seq<u8>)>, count: int)
    requires
        0 <= count < entries.len(),
        distinct_names(entries.take(count)),
        !has_entry(entries.take(count), entries[count].0),
    ensures
        distinct_names(entries.take(count + 1)),
{
    let first = entries.take(count);
    assert forall|i: int, j: int| 0 <= i < j < count + 1 implies (#[trigger] entries.take(
        count + 1,
    )[i]).0 != (#[trigger] entries.take(count + 1)[j]).0 by {
        assert(first[i] == entries[i]);
        if j < count {
            assert(first[j] == entries[j]);
        }
    }
}

/// The first entry that cannot be added is the first one of any longer list, too.
proof fn lemma_failure_stays(entries: Seq<(Seq<char>, Seq<u8>)>, count: int)
    requires
        0 <= count <= entries.len(),
        failure_of(entries.take(count)) is Some,
    ensures
        failure_of(entries) == failure_of(entries.take(count)),
    decreases entries.len(),
{
    if count < entries.len() {
        assert(entries.drop_last().take(count) =~= entries.take(count));
        lemma_failure_stays(entries.drop_last(), count);
    } else {
        assert(entries.take(count) =~= entries);
    }
}

/// Where entries can all be added, their contents are within the maximum.
proof fn lemma_contents_within(entries: Seq<(Seq<char>, Seq<u8>)>)
    requires
        failure_of(entries) is None,
    ensures
        forall|i: int|
            0 <= i < entries.len() ==> (#[trigger] entries[i]).1.len() <= CONTENT_MAXIMUM,
        contents_clear(entries) ==> contents_fit(entries),
    decreases entries.len(),
{
    if entries.len() > 0 {
        let rest = entries.drop_last();
        lemma_contents_within(rest);
        assert forall|i: int| 0 <= i < entries.len() implies (#[trigger] entries[i]).1.len()
            <= CONTENT_MAXIMUM by {
            if i < rest.len() {
                assert(rest[i] == entries[i]);
            }
        }
    }
}

/// The methods of the entries of an archive of directories and files: directories are stored, and
/// files deflated.
pub open spec fn methods_of(dirs: nat, files: nat) -> Seq<u16> {
    Seq::new(dirs, |i: int| STORED) + Seq::new(files, |i: int| DEFLATED)
}

/// Assembles a ZIP archive from directories and files. What is said of the first entry that cannot be
/// added comes back.
pub fn build_zip(dirs: &Vec<String>, files: &Vec<ArchiveFile>) -> (built: Result<Vec<u8>, String>)
    requires
        names_fit(dirs@, files@),
    ensures
        match built {
            Ok(bytes) => {
                &&& failure_of(entries_of(dirs@, files@)) is None
                &&& distinct_names(entries_of(dirs@, files@))
                &&& archive_entries(bytes@) == entries_of(dirs@, files@)
                &&& archive_methods(bytes@) == methods_of(dirs@.len(), files@.len())
            },
            Err(error) => contents_clear(entries_of(dirs@, files@)) ==> failure_of(
                entries_of(dirs@, files@),
            ) == Some(error@),
        },
{
    let ghost all = entries_of(dirs@, files@);
    let mut archive = new_archive();
    let mut i: usize = 0;
    proof {
        assert(all.take(0) =~= Seq::empty());
        assert(methods_of(0, 0) =~= Seq::empty());
    }
    while i < dirs.len()
        invariant
            i <= dirs@.len(),
            names_fit(dirs@, files@),
            all == entries_of(dirs@, files@),
            added_entries(archive) == all.take(i as int),
            added_methods(archive) == methods_of(i as nat, 0),
            distinct_names(all.take(i as int)),
            failure_of(all.take(i as int)) is None,
        decreases dirs@.len() - i,
    {
        proof {
            let next = all.take(i + 1);
            assert(all[i as int] == (directory_name(dirs@[i as int]@), Seq::<u8>::empty()));
            assert(next =~= all.take(i as int).push(all[i as int]));
            assert(next.drop_last() =~= all.take(i as int));
            assert(contents_clear(all) ==> contents_clear(all.take(i as int)));
            lemma_contents_within(all.take(i as int));
            assert(methods_of((i + 1) as nat, 0) =~= methods_of(i as nat, 0).push(STORED));
            if has_entry(all.take(i as int), all[i as int].0) {
                lemma_failure_stays(all, i + 1);
            } else {
                lemma_next_distinct(all, i as int);
            }
        }
        match add_directory(&mut archive, dirs[i].as_str()) {
            Ok(()) => {},
            Err(error) => {
                return Err(error);
            },
        }
        i = i + 1;
    }
    let mut k: usize = 0;
    while k < files.len()
        invariant
            k <= files@.len(),
            names_fit(dirs@, files@),
            all == entries_of(dirs@, files@),
            added_entries(archive) == all.take(dirs@.len() + k),
            added_methods(archive) == methods_of(dirs@.len(), k as nat),
            distinct_names(all.take(dirs@.len() + k)),
            failure_of(all.take(dirs@.len() + k)) is None,
        decreases files@.len() - k,
    {
        let file: &ArchiveFile = &files[k];
        let ghost at: int = dirs@.len() + k;
        let ghost opened = all.take(at).push((file.path@, Seq::<u8>::empty()));
        proof {
            let next = all.take(at + 1);
            assert(all[at] == (file.path@, file.content@));
            assert(next =~= all.take(at).push(all[at]));
            assert(next.drop_last() =~= all.take(at));
            assert(contents_clear(all) ==> contents_clear(all.take(at)) && contents_clear(next));
            lemma_contents_within(all.take(at));
            assert(methods_of(dirs@.len(), (k + 1) as nat) =~= methods_of(
                dirs@.len(),
                k as nat,
            ).push(DEFLATED));
            if has_entry(all.take(at), all[at].0) {
                lemma_failure_stays(all, at + 1);
            } else {
                lemma_next_distinct(all, at);
                if failure_of(next) is Some {
                    lemma_failure_stays(all, at + 1);
                } else {
                    lemma_contents_within(next);
                }
            }
            assert(opened.drop_last() =~= all.take(at));
            assert(Seq::<u8>::empty() + file.content@ =~= file.content@);
            assert(continued(opened, file.content@) =~= next);
        }
        match start_file(&mut archive, file.path.as_str(), DEFLATED) {
            Ok(()) => {},
            Err(error) => {
                return Err(error);
            },
        }
        match write_content(&mut archive, file.content.as_slice()) {
            Ok(()) => {},
            Err(error) => {
                return Err(error);
            },
        }
        k = k + 1;
    }
    proof {
        assert(all.take(all.len() as int) =~= all);
        lemma_contents_within(all);
    }
    finish_archive(archive)
}

} // verus!
