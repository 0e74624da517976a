//! What the paths and names of a tree are.

use vstd::prelude::*;

use super::super::path::{
    is_below, is_valid_name, joined, joined_all, last_part, lemma_last_part, relative,
    safe_segments, segments_of,
};
use crate::text::trimmed;

verus! {

/// A name is valid unless it is empty, one of the two that lead nowhere or up, or holds a slash, a
/// backslash or a NUL.
pub proof fn a_valid_name_names_one_entry(name: Seq<char>, at: int)
    ensures
        is_valid_name(name) ==> name.len() > 0 && name != seq!['.'] && name != seq!['.', '.'],
        is_valid_name(name) && 0 <= at < name.len() ==> name[at] != '/' && name[at] != '\\'
            && name[at] != '\0',
        name.len() > 0 && name != seq!['.'] && name != seq!['.', '.'] && (forall|i: int|
            0 <= i < name.len() ==> (#[trigger] name[i]) != '/' && name[i] != '\\' && name[i]
                != '\0') ==> is_valid_name(name),
{
    reveal_strlit(".");
    reveal_strlit("..");
    assert("."@ =~= seq!['.']);
    assert(".."@ =~= seq!['.', '.']);
    if 0 <= at < name.len() {
        assert(name.contains(name[at]));
    }
}

/// The segments of a path are what stands between its slashes, in order, without what is empty: those of
/// two paths with a slash between them are those of the one and those of the other.
pub proof fn segments_stand_between_slashes(front: Seq<char>, back: Seq<char>)
    ensures
        segments_of(front + seq!['/'] + back) == segments_of(front) + segments_of(back),
        front.len() == 0 ==> segments_of(front).len() == 0,
        front.len() > 0 && !front.contains('/') ==> segments_of(front) == seq![front],
{
    lemma_segments(front, back);
    if front.len() > 0 && !front.contains('/') {
        lemma_whole_part(front);
        assert(front.contains(front.last()));
        assert(front.take(0) =~= Seq::empty());
        assert(segments_of(Seq::<char>::empty()) =~= Seq::empty());
        assert(segments_of(front) =~= seq![front]);
    }
}

/// The last part of a text without a slash is the text.
proof fn lemma_whole_part(text: Seq<char>)
    requires
        !text.contains('/'),
    ensures
        last_part(text) == text,
    decreases text.len(),
{
    if text.len() > 0 {
        assert(text.contains(text.last()));
        assert forall|i: int| 0 <= i < text.len() - 1 implies text.drop_last()[i] != '/' by {
            assert(text.contains(text[i]));
        }
        lemma_whole_part(text.drop_last());
        assert(last_part(text) =~= text);
    } else {
        assert(last_part(text) =~= text);
    }
}

/// What comes before a slash does not count for the last part.
proof fn lemma_part_behind(front: Seq<char>, back: Seq<char>)
    ensures
        last_part(front + seq!['/'] + back) == last_part(back),
    decreases back.len(),
{
    let text = front + seq!['/'] + back;
    if back.len() == 0 {
        assert(text.last() == '/');
    } else {
        assert(text.last() == back.last());
        assert(text.drop_last() =~= front + seq!['/'] + back.drop_last());
        lemma_part_behind(front, back.drop_last());
    }
}

proof fn lemma_segments(front: Seq<char>, back: Seq<char>)
    ensures
        segments_of(front + seq!['/'] + back) == segments_of(front) + segments_of(back),
    decreases back.len(),
{
    let text = front + seq!['/'] + back;
    if back.len() == 0 {
        assert(text.last() == '/');
        assert(text.drop_last() =~= front);
        assert(segments_of(front) + segments_of(back) =~= segments_of(front));
    } else if back.last() == '/' {
        assert(text.last() == '/');
        assert(text.drop_last() =~= front + seq!['/'] + back.drop_last());
        lemma_segments(front, back.drop_last());
    } else {
        let part = last_part(back);
        lemma_part_behind(front, back);
        lemma_last_part(back);
        lemma_last_part(text);
        assert(text.last() == back.last());
        let rest = back.take(back.len() - part.len());
        assert(text.take(text.len() - part.len()) =~= front + seq!['/'] + rest);
        lemma_segments(front, rest);
        assert(segments_of(front) + segments_of(rest).push(part) =~= (segments_of(front)
            + segments_of(rest)).push(part));
    }
}

/// A file name of an upload is taken where, without white space around it, it does not start at the root
/// and has segments, each a valid name; it then stands for those segments. Any other is refused.
pub proof fn a_file_name_is_taken_for_its_segments(raw: Seq<char>)
    ensures
        ({
            let name = trimmed(raw);
            let segments = segments_of(name);
            safe_segments(raw) == (if name.len() > 0 && name[0] != '/' && segments.len() > 0 && (
            forall|i: int| 0 <= i < segments.len() ==> is_valid_name(#[trigger] segments[i])) {
                Some(segments)
            } else {
                None
            })
        }),
{
}

/// The path of an entry is the path of its directory, a slash and its name, and in the root a slash and
/// its name.
pub proof fn a_path_is_its_directory_and_its_name(folder: Seq<char>, name: Seq<char>)
    ensures
        folder == seq!['/'] ==> joined(folder, name) == seq!['/'] + name,
        folder != seq!['/'] ==> joined(folder, name) == folder + seq!['/'] + name,
        joined(folder, name).len() > name.len(),
        joined(folder, name).skip(joined(folder, name).len() - name.len()) == name,
        joined(folder, name)[joined(folder, name).len() - name.len() - 1] == '/',
{
    reveal_strlit("/");
    assert("/"@ =~= seq!['/']);
    assert(joined(folder, name).skip(joined(folder, name).len() - name.len()) =~= name);
}

/// Segments are joined one by one: those of two lists lead to where those of the second lead from where
/// those of the first do.
pub proof fn segments_are_joined_one_by_one(
    folder: Seq<char>,
    first: Seq<Seq<char>>,
    second: Seq<Seq<char>>,
)
    ensures
        first.len() == 0 ==> joined_all(folder, first) == folder,
        first.len() == 1 ==> joined_all(folder, first) == joined(folder, first[0]),
        joined_all(folder, first + second) == joined_all(joined_all(folder, first), second),
    decreases second.len(),
{
    if first.len() == 1 {
        assert(joined_all(folder, first.drop_last()) == folder);
    }
    if second.len() == 0 {
        assert(first + second =~= first);
    } else {
        assert((first + second).drop_last() =~= first + second.drop_last());
        segments_are_joined_one_by_one(folder, first, second.drop_last());
    }
}

/// A relative path is a path without the slashes that it starts with.
pub proof fn a_relative_path_starts_with_no_slash(path: Seq<char>)
    ensures
        relative(path).len() > 0 ==> relative(path)[0] != '/',
        relative(seq!['/'] + path) == relative(path),
        path.len() > 0 && path[0] != '/' ==> relative(path) == path,
        relative(relative(path)) == relative(path),
    decreases path.len(),
{
    assert((seq!['/'] + path).drop_first() =~= path);
    if path.len() > 0 && path[0] == '/' {
        a_relative_path_starts_with_no_slash(path.drop_first());
    }
}

/// What is in a directory is below it, and so is what is below that; the directory itself is not, nor is
/// another whose name only starts alike.
pub proof fn what_is_in_a_directory_is_below_it(
    folder: Seq<char>,
    name: Seq<char>,
    other: Seq<char>,
)
    ensures
        folder != seq!['/'] ==> is_below(joined(folder, name), folder),
        !is_below(folder, folder),
        is_below(other, joined(folder, name)) && folder != seq!['/'] ==> is_below(other, folder),
        other.len() > 0 && other[0] != '/' ==> !is_below(folder + other, folder),
        is_below(other, folder) <==> other.len() > folder.len() && other.take(folder.len() as int)
            == folder && other[folder.len() as int] == '/',
{
    reveal_strlit("/");
    assert("/"@ =~= seq!['/']);
    let path = joined(folder, name);
    let mark = folder + "/"@;
    if folder != seq!['/'] {
        assert(path.subrange(0, mark.len() as int) =~= mark);
    }
    assert(other.len() > folder.len() && other.take(folder.len() as int) == folder
        && other[folder.len() as int] == '/' ==> is_below(other, folder)) by {
        if other.len() > folder.len() && other.take(folder.len() as int) == folder
            && other[folder.len() as int] == '/' {
            assert forall|i: int| 0 <= i < folder.len() implies other[i] == folder[i] by {
                assert(other.take(folder.len() as int)[i] == other[i]);
            }
            assert(other.subrange(0, mark.len() as int) =~= mark);
        }
    }
    if is_below(other, folder) {
        let start = other.subrange(0, mark.len() as int);
        assert forall|i: int| 0 <= i < mark.len() implies other[i] == mark[i] by {
            assert(start[i] == other[i]);
        }
        assert(other.take(folder.len() as int) =~= folder);
    }
    if is_below(other, path) && folder != seq!['/'] {
        let long = path + "/"@;
        let start = other.subrange(0, long.len() as int);
        assert forall|i: int| 0 <= i < mark.len() implies other[i] == mark[i] by {
            assert(start[i] == other[i]);
            assert(long[i] == mark[i]);
        }
        assert(other.subrange(0, mark.len() as int) =~= mark);
    }
    if other.len() > 0 && is_below(folder + other, folder) {
        let start = (folder + other).subrange(0, mark.len() as int);
        assert(start[folder.len() as int] == other[0]);
        assert(mark[folder.len() as int] == '/');
    }
}

} // verus!
