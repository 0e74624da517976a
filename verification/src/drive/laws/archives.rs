//! What the archive of a folder is made of.

use vstd::prelude::*;
use vstd::utf8::encode_utf8;

use super::super::archive::{
    contents_clear, contents_fit, directory_name, distinct_names, entries_of, failure_of, has_entry, methods_of,
    names_fit, ArchiveFile,
};

verus! {

/// The entry of a directory is named like the directory, with a slash behind the name unless it ends
/// with one, or with a backslash.
pub proof fn a_directory_is_named_with_a_slash(name: Seq<char>)
    ensures
        directory_name(name).len() > 0,
        directory_name(name).last() == '/' || directory_name(name).last() == '\\',
        directory_name(name).take(name.len() as int) == name,
        directory_name(name).len() <= name.len() + 1,
        name.len() > 0 && (name.last() == '/' || name.last() == '\\') ==> directory_name(name)
            == name,
        name.len() == 0 || (name.last() != '/' && name.last() != '\\') ==> directory_name(name)
            == name + seq!['/'],
{
    reveal_strlit("/");
    assert("/"@ =~= seq!['/']);
    assert(directory_name(name).take(name.len() as int) =~= name);
}

/// An archive holds the directories first, each empty, and then the files, each with its content; the
/// directories are stored as they are and the files are deflated.
pub proof fn an_archive_holds_directories_and_files(
    dirs: Seq<String>,
    files: Seq<ArchiveFile>,
    at: int,
)
    requires
        0 <= at < dirs.len() + files.len(),
    ensures
        entries_of(dirs, files).len() == dirs.len() + files.len(),
        methods_of(dirs.len(), files.len()).len() == dirs.len() + files.len(),
        at < dirs.len() ==> entries_of(dirs, files)[at].0 == directory_name(dirs[at]@)
            && entries_of(dirs, files)[at].1.len() == 0 && methods_of(
            dirs.len(),
            files.len(),
        )[at] == 0,
        at >= dirs.len() ==> entries_of(dirs, files)[at] == (
            files[at - dirs.len()].path@,
            files[at - dirs.len()].content@,
        ) && methods_of(dirs.len(), files.len())[at] == 8,
{
}

/// Names fit in an archive where each has at most 65,535 bytes, that of a directory with its slash.
pub proof fn a_name_fits_within_its_limit(dirs: Seq<String>, files: Seq<ArchiveFile>, at: int)
    ensures
        names_fit(dirs, files) && 0 <= at < dirs.len() ==> encode_utf8(
            directory_name(dirs[at]@),
        ).len() <= 65535,
        names_fit(dirs, files) && 0 <= at < files.len() ==> encode_utf8(files[at].path@).len()
            <= 65535,
        0 <= at < dirs.len() && encode_utf8(directory_name(dirs[at]@)).len() > 65535 ==> !names_fit(
            dirs,
            files,
        ),
        0 <= at < files.len() && encode_utf8(files[at].path@).len() > 65535 ==> !names_fit(
            dirs,
            files,
        ),
        (forall|i: int|
            0 <= i < dirs.len() ==> encode_utf8(directory_name((#[trigger] dirs[i])@)).len()
                <= 65535) && (forall|i: int|
            0 <= i < files.len() ==> encode_utf8((#[trigger] files[i]).path@).len() <= 65535)
            ==> names_fit(dirs, files),
{
}

/// An archive is refused just where two of its entries have the same name, or the content of one has
/// more than 4,294,967,295 bytes: the first entry that is so is told.
pub proof fn an_archive_is_refused_for_its_first_bad_entry(entries: Seq<(Seq<char>, Seq<u8>)>)
    ensures
        failure_of(entries) is None <==> distinct_names(entries) && forall|i: int|
            0 <= i < entries.len() ==> (#[trigger] entries[i]).1.len() <= 4_294_967_295,
        forall|count: int|
            0 <= count < entries.len() && failure_of(entries.take(count)) is None && failure_of(
                #[trigger] entries.take(count + 1),
            ) is Some ==> {
                let repeats = exists|i: int| 0 <= i < count && (#[trigger] entries[i]).0
                    == entries[count].0;
                failure_of(entries.take(count + 1)) == Some(
                    if repeats {
                        "invalid Zip archive: Duplicate filename: "@ + entries[count].0
                    } else {
                        "Large file option has not been set"@
                    },
                )
            },
{
    lemma_failure(entries);
    assert forall|count: int|
        0 <= count < entries.len() && failure_of(entries.take(count)) is None && failure_of(
            #[trigger] entries.take(count + 1),
        ) is Some implies {
        let repeats = exists|i: int| 0 <= i < count && (#[trigger] entries[i]).0
            == entries[count].0;
        failure_of(entries.take(count + 1)) == Some(
            if repeats {
                "invalid Zip archive: Duplicate filename: "@ + entries[count].0
            } else {
                "Large file option has not been set"@
            },
        )
    } by {
        let all = entries.take(count + 1);
        let before = entries.take(count);
        assert(all.drop_last() =~= before);
        assert(all.last() == entries[count]);
        if has_entry(before, entries[count].0) {
            let i = choose|i: int|
                0 <= i < before.len() && (#[trigger] before[i]).0 == entries[count].0;
            assert(entries[i].0 == entries[count].0);
        } else {
            assert forall|i: int| 0 <= i < count implies (#[trigger] entries[i]).0
                != entries[count].0 by {
                assert(before[i] == entries[i]);
            }
        }
    }
}

proof fn lemma_failure(entries: Seq<(Seq<char>, Seq<u8>)>)
    ensures
        failure_of(entries) is None <==> distinct_names(entries) && forall|i: int|
            0 <= i < entries.len() ==> (#[trigger] entries[i]).1.len() <= 4_294_967_295,
    decreases entries.len(),
{
    if entries.len() > 0 {
        let before = entries.drop_last();
        let last = entries.last();
        lemma_failure(before);
        assert(forall|i: int| 0 <= i < before.len() ==> before[i] == entries[i]);
        if has_entry(before, last.0) {
            let i = choose|i: int| 0 <= i < before.len() && (#[trigger] before[i]).0 == last.0;
            assert(entries[i].0 == entries[entries.len() - 1].0);
        } else if failure_of(before) is None && last.1.len() <= 4_294_967_295 {
            assert forall|i: int, j: int| 0 <= i < j < entries.len() implies (
            #[trigger] entries[i]).0 != (#[trigger] entries[j]).0 by {
                assert(before[i] == entries[i]);
                if j < before.len() {
                    assert(before[j] == entries[j]);
                }
            }
        } else if failure_of(before) is Some {
            if distinct_names(entries) && forall|i: int|
                0 <= i < entries.len() ==> (#[trigger] entries[i]).1.len() <= 4_294_967_295 {
                assert forall|i: int, j: int| 0 <= i < j < before.len() implies (
                #[trigger] before[i]).0 != (#[trigger] before[j]).0 by {
                    assert(entries[i].0 != entries[j].0);
                }
                assert(distinct_names(before));
            }
        }
    }
}

/// Only between 4,000,000,000 and 4,294,967,295 bytes is it open whether content can be archived.
pub proof fn content_is_clear_outside_the_open_range(
    entries: Seq<(Seq<char>, Seq<u8>)>,
    at: int,
)
    ensures
        contents_fit(entries) <==> forall|i: int|
            0 <= i < entries.len() ==> (#[trigger] entries[i]).1.len() <= 4_000_000_000,
        contents_clear(entries) && 0 <= at < entries.len() ==> !(4_000_000_000 < entries[at].1.len()
            <= 4_294_967_295),
        (forall|i: int|
            0 <= i < entries.len() ==> !(4_000_000_000 < (#[trigger] entries[i]).1.len()
                <= 4_294_967_295)) ==> contents_clear(entries),
{
}

} // verus!
