//! Names and paths: `/`-prefixed virtual paths, and paths relative to the workspace.

use vstd::prelude::*;

use crate::text::{
    characters, joined_texts, lemma_trimmed, part_at, same_text, starts_with, text_of, texts, trim,
    trimmed,
};

verus! {

/// Whether `name` is one component of a path: neither empty, nor `.` or `..`, and without a slash, a
/// backslash or a NUL.
pub open spec fn is_valid_name(name: Seq<char>) -> bool {
    &&& name.len() > 0
    &&& name != "."@
    &&& name != ".."@
    &&& !name.contains('/')
    &&& !name.contains('\\')
    &&& !name.contains('\0')
}

/// Whether `name` is one component of a path.
pub fn valid_name(name: &str) -> (valid: bool)
    ensures
        valid == is_valid_name(name@),
{
    if name.is_empty() || same_text(name, ".") || same_text(name, "..") {
        return false;
    }
    let list = characters(name);
    let length: usize = list.len();
    let mut i: usize = 0;
    while i < length
        invariant
            i <= length == list@.len(),
            list@ == name@,
            forall|j: int|
                0 <= j < i ==> #[trigger] list@[j] != '/' && list@[j] != '\\' && list@[j] != '\0',
        decreases length - i,
    {
        if list[i] == '/' || list[i] == '\\' || list[i] == '\0' {
            proof {
                assert(name@.contains(list@[i as int]));
            }
            return false;
        }
        i = i + 1;
    }
    true
}

/// The parts of `text` between slashes, those that are empty left out.
pub open spec fn segments_of(text: Seq<char>) -> Seq<Seq<char>>
    decreases text.len(),
{
    if text.len() == 0 {
        Seq::empty()
    } else if text.last() == '/' {
        segments_of(text.drop_last())
    } else {
        let part = last_part(text);
        proof {
            lemma_last_part(text);
        }
        segments_of(text.take(text.len() - part.len())).push(part)
    }
}

/// The part of `text` after its last slash, all of it if it holds none.
pub open spec fn last_part(text: Seq<char>) -> Seq<char>
    decreases text.len(),
{
    if text.len() == 0 || text.last() == '/' {
        Seq::empty()
    } else {
        last_part(text.drop_last()).push(text.last())
    }
}

/// The last part of a text is its end, holds no slash, and comes after a slash if after anything.
pub proof fn lemma_last_part(text: Seq<char>)
    ensures
        last_part(text).len() <= text.len(),
        text.skip(text.len() - last_part(text).len()) == last_part(text),
        !last_part(text).contains('/'),
        last_part(text).len() < text.len() ==> text[text.len() - last_part(text).len() - 1] == '/',
    decreases text.len(),
{
    if text.len() == 0 || text.last() == '/' {
        assert(text.skip(text.len() as int) =~= last_part(text));
    } else {
        lemma_last_part(text.drop_last());
        let shorter = last_part(text.drop_last());
        assert(text.skip(text.len() - last_part(text).len()) =~= last_part(text));
        assert(!shorter.contains('/'));
        assert(!shorter.push(text.last()).contains('/')) by {
            if shorter.push(text.last()).contains('/') {
                let i = choose|i: int|
                    0 <= i < shorter.len() + 1 && shorter.push(text.last())[i] == '/';
                if i < shorter.len() {
                    assert(shorter[i] == '/');
                }
            }
        }
    }
}

/// The relative path that a file name in an upload stands for: its parts between slashes, if it is
/// one that may be written. White space around the name does not count.
pub open spec fn safe_segments(raw: Seq<char>) -> Option<Seq<Seq<char>>> {
    let name = trimmed(raw);
    let segments = segments_of(name);
    if name.len() == 0 || name[0] == '/' || segments.len() == 0 || exists|i: int|
        0 <= i < segments.len() && !is_valid_name(#[trigger] segments[i]) {
        None
    } else {
        Some(segments)
    }
}

/// What [`safe_segments`] says of a file name in an upload.
pub fn sanitize_rel_path(raw: &str) -> (segments: Option<Vec<String>>)
    ensures
        match segments {
            Some(segments) => safe_segments(raw@) == Some(texts(segments@)),
            None => safe_segments(raw@) is None,
        },
{
    let name = trim(raw);
    let list = characters(name.as_str());
    let length: usize = list.len();
    if length == 0 || list[0] == '/' {
        return None;
    }
    let mut segments: Vec<String> = Vec::new();
    let mut start: usize = 0;
    let mut i: usize = 0;
    proof {
        assert(list@.take(0) =~= Seq::empty());
        assert(texts(segments@) =~= Seq::empty());
        assert(list@.subrange(0, 0) =~= Seq::empty());
    }
    while i < length
        invariant
            start <= i <= length == list@.len(),
            texts(segments@) == segments_of(list@.take(start as int)),
            last_part(list@.take(i as int)) == list@.subrange(start as int, i as int),
        decreases length - i,
    {
        let ghost before = list@.take(i as int);
        let ghost after = list@.take(i + 1);
        proof {
            assert(after.drop_last() =~= before);
            assert(before.take(before.len() - (i - start)) =~= list@.take(start as int));
        }
        if list[i] == '/' {
            if start < i {
                let segment = text_of(list.as_slice(), start, i);
                let ghost so_far = texts(segments@);
                segments.push(segment);
                proof {
                    assert(before.last() != '/') by {
                        if before.last() == '/' {
                            assert(last_part(before).len() == 0);
                        }
                    }
                    assert(segments_of(before) == so_far.push(segment@));
                    assert(texts(segments@) =~= so_far.push(segment@));
                }
            } else {
                assert(before =~= list@.take(start as int));
            }
            start = i + 1;
            proof {
                assert(segments_of(after) == segments_of(before));
                assert(list@.subrange(start as int, start as int) =~= Seq::empty());
            }
        } else {
            proof {
                assert(list@.subrange(start as int, i + 1) =~= list@.subrange(
                    start as int,
                    i as int,
                ).push(list@[i as int]));
            }
        }
        i = i + 1;
    }
    proof {
        assert(list@.take(length as int) =~= list@);
    }
    if start < length {
        let segment = text_of(list.as_slice(), start, length);
        let ghost so_far = texts(segments@);
        segments.push(segment);
        proof {
            assert(texts(segments@) =~= so_far.push(segment@));
            assert(list@.last() != '/') by {
                if list@.last() == '/' {
                    assert(last_part(list@).len() == 0);
                }
            }
            assert(list@.take(list@.len() - (length - start)) =~= list@.take(start as int));
        }
    } else {
        assert(list@.take(start as int) =~= list@);
    }
    assert(texts(segments@) == segments_of(name@));
    if segments.len() == 0 {
        return None;
    }
    let count: usize = segments.len();
    let mut k: usize = 0;
    while k < count
        invariant
            k <= count == segments@.len(),
            texts(segments@) == segments_of(trimmed(raw@)),
            forall|j: int| 0 <= j < k ==> is_valid_name(#[trigger] texts(segments@)[j]),
        decreases count - k,
    {
        if !valid_name(segments[k].as_str()) {
            proof {
                assert(!is_valid_name(segments_of(trimmed(raw@))[k as int]));
            }
            return None;
        }
        k = k + 1;
    }
    Some(segments)
}

/// The virtual path of `name` in the directory at the virtual path `parent`.
pub open spec fn joined(parent: Seq<char>, name: Seq<char>) -> Seq<char> {
    if parent == "/"@ {
        "/"@ + name
    } else {
        parent + "/"@ + name
    }
}

/// The virtual path of `name` in the directory at the virtual path `parent`.
pub fn join_virtual(parent: &str, name: &str) -> (path: String)
    ensures
        path@ == joined(parent@, name@),
{
    if same_text(parent, "/") {
        "/".to_owned().concat(name)
    } else {
        parent.to_owned().concat("/").concat(name)
    }
}

/// The virtual path that `segments` lead to from the directory at `parent`.
pub open spec fn joined_all(parent: Seq<char>, segments: Seq<Seq<char>>) -> Seq<char>
    decreases segments.len(),
{
    if segments.len() == 0 {
        parent
    } else {
        joined(joined_all(parent, segments.drop_last()), segments.last())
    }
}

/// The virtual path that `segments` lead to from the directory at `parent`.
pub fn join_all(parent: &str, segments: &Vec<String>) -> (path: String)
    ensures
        path@ == joined_all(parent@, texts(segments@)),
{
    let count: usize = segments.len();
    let mut path = parent.to_owned();
    let mut i: usize = 0;
    proof {
        assert(texts(segments@).take(0) =~= Seq::empty());
    }
    while i < count
        invariant
            i <= count == segments@.len(),
            path@ == joined_all(parent@, texts(segments@).take(i as int)),
        decreases count - i,
    {
        path = join_virtual(path.as_str(), segments[i].as_str());
        proof {
            assert(texts(segments@).take(i + 1).drop_last() =~= texts(segments@).take(i as int));
        }
        i = i + 1;
    }
    proof {
        assert(texts(segments@).take(count as int) =~= texts(segments@));
    }
    path
}

/// A virtual path without its leading slashes: the path relative to the workspace, empty for the
/// root.
pub open spec fn relative(path: Seq<char>) -> Seq<char>
    decreases path.len(),
{
    if path.len() > 0 && path[0] == '/' {
        relative(path.drop_first())
    } else {
        path
    }
}

/// The path relative to the workspace of a virtual path, empty for the root.
pub fn rel_of(virtual_path: &str) -> (path: String)
    ensures
        path@ == relative(virtual_path@),
{
    let list = characters(virtual_path);
    let length: usize = list.len();
    let mut start: usize = 0;
    proof {
        assert(list@.skip(0) =~= list@);
    }
    while start < length && list[start] == '/'
        invariant
            start <= length == list@.len(),
            relative(list@) == relative(list@.skip(start as int)),
        decreases length - start,
    {
        proof {
            assert(list@.skip(start as int).drop_first() =~= list@.skip(start + 1));
        }
        start = start + 1;
    }
    proof {
        assert(list@.skip(start as int) =~= list@.subrange(start as int, length as int));
    }
    text_of(list.as_slice(), start, length)
}

/// Whether a virtual path lies below another.
pub open spec fn is_below(path: Seq<char>, ancestor: Seq<char>) -> bool {
    part_at(path, ancestor + "/"@, 0)
}

/// Whether a virtual path lies below another.
pub fn lies_below(path: &str, ancestor: &str) -> (below: bool)
    ensures
        below == is_below(path@, ancestor@),
{
    starts_with(path, ancestor.to_owned().concat("/").as_str())
}

/// What an upload holds stays inside the directory it is uploaded to: the path of each part lies below
/// that of the directory, and each segment of it is a plain name, so that none leads up or to the
/// root.
pub proof fn uploads_stay_inside_their_directory(parent: Seq<char>, raw: Seq<char>)
    ensures
        match safe_segments(raw) {
            Some(segments) => {
                &&& segments.len() > 0
                &&& forall|i: int|
                    0 <= i < segments.len() ==> is_valid_name(#[trigger] segments[i])
                &&& part_at(
                    joined_all(parent, segments),
                    if parent == "/"@ {
                        "/"@
                    } else {
                        parent + "/"@
                    },
                    0,
                )
            },
            None => true,
        },
{
    if let Some(segments) = safe_segments(raw) {
        lemma_joined_below(parent, segments);
    }
}

/// The path that names lead to from a directory lies below the directory.
proof fn lemma_joined_below(parent: Seq<char>, segments: Seq<Seq<char>>)
    requires
        segments.len() > 0,
        forall|i: int| 0 <= i < segments.len() ==> is_valid_name(#[trigger] segments[i]),
    ensures
        joined_all(parent, segments).len() > 1,
        part_at(
            joined_all(parent, segments),
            if parent == "/"@ {
                "/"@
            } else {
                parent + "/"@
            },
            0,
        ),
    decreases segments.len(),
{
    reveal_strlit("/");
    let start = if parent == "/"@ {
        "/"@
    } else {
        parent + "/"@
    };
    let inner = joined_all(parent, segments.drop_last());
    let whole = joined_all(parent, segments);
    assert(is_valid_name(segments.last()));
    if segments.len() == 1 {
        assert(inner == parent);
        assert(whole.subrange(0, start.len() as int) =~= start);
    } else {
        lemma_joined_below(parent, segments.drop_last());
        assert(whole == inner + "/"@ + segments.last());
        assert(whole.subrange(0, start.len() as int) =~= inner.subrange(0, start.len() as int));
    }
}

/// The parts between slashes of names joined by slashes are those names.
proof fn lemma_segments_of_joined(segments: Seq<Seq<char>>)
    requires
        segments.len() > 0,
        forall|i: int| 0 <= i < segments.len() ==> is_valid_name(#[trigger] segments[i]),
    ensures
        segments_of(joined_texts(segments, "/"@)) == segments,
        joined_texts(segments, "/"@).len() > 0,
        joined_texts(segments, "/"@)[0] == segments[0][0],
        joined_texts(segments, "/"@).last() == segments.last().last(),
    decreases segments.len(),
{
    reveal_strlit("/");
    let text = joined_texts(segments, "/"@);
    let last = segments.last();
    assert(is_valid_name(segments[segments.len() - 1]));
    assert(last.contains(last.last()));
    if segments.len() == 1 {
        assert(text == last);
        lemma_last_part_of(Seq::empty(), last);
        assert(Seq::<char>::empty() + last =~= last);
        assert(text.take(text.len() - last.len()) =~= Seq::empty());
        assert(segments_of(Seq::<char>::empty()) =~= Seq::empty());
        assert(segments_of(text) =~= segments);
    } else {
        let rest = segments.drop_last();
        assert forall|i: int| 0 <= i < rest.len() implies is_valid_name(#[trigger] rest[i]) by {
            assert(is_valid_name(segments[i]));
        }
        lemma_segments_of_joined(rest);
        let front = joined_texts(rest, "/"@) + "/"@;
        assert(text == front + last);
        lemma_last_part_of(front, last);
        assert(text.take(text.len() - last.len()) =~= front);
        assert(front.drop_last() =~= joined_texts(rest, "/"@));
        assert(segments_of(front) == rest);
        assert(segments_of(text) =~= segments);
    }
}

/// The last part of a text that ends with a name, which comes after a slash if after anything, is the
/// name.
proof fn lemma_last_part_of(front: Seq<char>, name: Seq<char>)
    requires
        !name.contains('/'),
        front.len() > 0 ==> front.last() == '/',
    ensures
        last_part(front + name) == name,
    decreases name.len(),
{
    let text = front + name;
    if name.len() == 0 {
        assert(text =~= front);
    } else {
        assert(name.contains(name.last()));
        assert(!name.drop_last().contains('/')) by {
            if name.drop_last().contains('/') {
                let i = choose|i: int| 0 <= i < name.len() - 1 && name.drop_last()[i] == '/';
                assert(name[i] == '/');
            }
        }
        assert(text.drop_last() =~= front + name.drop_last());
        lemma_last_part_of(front, name.drop_last());
        assert(last_part(text) =~= name);
    }
}

/// The first part of a text that does not start with a slash starts as the text does.
proof fn lemma_first_segment(text: Seq<char>)
    requires
        text.len() > 0,
        text[0] != '/',
    ensures
        segments_of(text).len() > 0,
        segments_of(text)[0].len() > 0,
        segments_of(text)[0][0] == text[0],
    decreases text.len(),
{
    if text.last() == '/' {
        lemma_first_segment(text.drop_last());
    } else {
        let part = last_part(text);
        lemma_last_part(text);
        let front = text.take(text.len() - part.len());
        assert(part.len() > 0);
        if front.len() > 0 {
            lemma_first_segment(front);
        } else {
            assert(text.skip(0) =~= text);
        }
    }
}

/// What a file name in an upload stands for is in normal form: the parts, joined by slashes again,
/// stand for the same parts. Left out is a name that ends with a slash: what comes before the slash
/// may end with white space, which then does not count.
pub proof fn sanitizing_again_changes_nothing(raw: Seq<char>)
    requires
        safe_segments(raw) is Some,
        trimmed(raw).last() != '/',
    ensures
        safe_segments(joined_texts(safe_segments(raw)->0, "/"@)) == safe_segments(raw),
{
    let name = trimmed(raw);
    let segments = segments_of(name);
    let text = joined_texts(segments, "/"@);
    lemma_trimmed(raw);
    lemma_segments_of_joined(segments);
    lemma_first_segment(name);
    lemma_last_part(name);
    assert(segments.last() == last_part(name));
    assert(last_part(name).last() == name.last());
    lemma_trimmed(text);
    assert(trimmed(text) == text);
}

/// The path of a valid name in the root, or in a directory below it, without leading slashes leads
/// back to the name in the directory.
pub proof fn relative_undoes_joined(parent: Seq<char>, name: Seq<char>)
    requires
        is_valid_name(name),
        parent == "/"@ || (parent.len() > 1 && parent[0] == '/' && parent[1] != '/'),
    ensures
        relative(joined(parent, name)) == if parent == "/"@ {
            name
        } else {
            parent.drop_first() + "/"@ + name
        },
{
    reveal_strlit("/");
    let path = joined(parent, name);
    assert("/"@ =~= seq!['/']);
    assert(name.contains(name[0]));
    if parent == "/"@ {
        assert(path.drop_first() =~= name);
    } else {
        assert(path.drop_first() =~= parent.drop_first() + "/"@ + name);
    }
    assert(relative(path.drop_first()) == path.drop_first());
}

} // verus!
