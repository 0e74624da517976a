//! The directory and the name of a build profile, from the directory that a build script writes to.

use vstd::prelude::*;

use crate::text::same_text;

verus! {

/// One component of a path: a name, or anything else, such as the root.
#[derive(Debug)]
pub enum PathPart {
    Name(String),
    Other,
}

/// Whether a component is the name `build`.
pub open spec fn is_build(part: PathPart) -> bool {
    part matches PathPart::Name(name) && name@ == "build"@
}

/// Whether the last name `build` of a path is at `index`, with only names behind it.
pub open spec fn is_last_build(parts: Seq<PathPart>, index: int) -> bool {
    &&& 0 <= index < parts.len()
    &&& is_build(parts[index])
    &&& forall|i: int|
        index < i < parts.len() ==> (#[trigger] parts[i]) is Name && !is_build(parts[i])
}

/// How many components of the output directory lead to the directory of the profile: those before the
/// last name `build`. `None` if there is no such name, or something other than a name comes behind it.
pub fn profile_dir(parts: &Vec<PathPart>) -> (count: Option<usize>)
    ensures
        match count {
            Some(count) => is_last_build(parts@, count as int),
            None => forall|index: int| !is_last_build(parts@, index),
        },
{
    let mut i: usize = parts.len();
    while i > 0
        invariant
            i <= parts@.len(),
            forall|j: int|
                i <= j < parts@.len() ==> (#[trigger] parts@[j]) is Name && !is_build(parts@[j]),
        decreases i,
    {
        i = i - 1;
        match &parts[i] {
            PathPart::Name(name) => {
                if same_text(name.as_str(), "build") {
                    return Some(i);
                }
            },
            PathPart::Other => {
                proof {
                    assert forall|index: int| !is_last_build(parts@, index) by {
                        if is_last_build(parts@, index) {
                            assert(parts@[i as int] is Other);
                            assert(parts@[index] is Name);
                        }
                    }
                }
                return None;
            },
        }
    }
    None
}

/// The name of the profile: the last component of its directory, if that is a name.
pub fn profile_name(parts: &Vec<PathPart>) -> (name: Option<String>)
    ensures
        match name {
            Some(name) => exists|index: int| #[trigger]
                is_last_build(parts@, index) && index > 0 && (
                parts@[index - 1] matches PathPart::Name(text) && text@ == name@),
            None => forall|index: int| #[trigger]
                is_last_build(parts@, index) ==> index == 0 || parts@[index - 1] is Other,
        },
{
    match profile_dir(parts) {
        Some(count) => {
            proof {
                assert forall|index: int| #[trigger] is_last_build(parts@, index) implies index
                    == count by {
                    if index < count {
                        assert(is_build(parts@[count as int]));
                    } else if index > count {
                        assert(is_build(parts@[index]));
                    }
                }
            }
            if count == 0 {
                return None;
            }
            match &parts[count - 1] {
                PathPart::Name(name) => Some(name.clone()),
                PathPart::Other => None,
            }
        },
        None => None,
    }
}

} // verus!
