//! Paths as lists of components, and where an entry is to be written.
//!
//! A path is the list of its components, in order. Nothing here touches a
//! file system: the driver turns a list into a path of its platform.

use vstd::prelude::*;
use vstd::string::*;

verus! {

/// The components of a path, each as its characters.
pub open spec fn names(path: Seq<String>) -> Seq<Seq<char>> {
    Seq::new(path.len(), |i: int| path[i]@)
}

/// The position of the last `.` in a name, or -1 where it has none.
pub open spec fn last_dot(name: Seq<char>) -> int
    decreases name.len(),
{
    if name.len() == 0 {
        -1
    } else if name.last() == '.' {
        name.len() - 1
    } else {
        last_dot(name.drop_last())
    }
}

/// A file name without its extension: what stands before the last `.`,
/// unless that dot is the name's first character or there is none.
pub open spec fn stem_of(name: Seq<char>) -> Seq<char> {
    if last_dot(name) <= 0 {
        name
    } else {
        name.take(last_dot(name))
    }
}

/// The extension of a file name: what stands after the last `.`, unless
/// that dot is the name's first character or there is none.
pub open spec fn extension_of(name: Seq<char>) -> Option<Seq<char>> {
    if last_dot(name) <= 0 {
        None
    } else {
        Some(name.skip(last_dot(name) + 1))
    }
}

/// The names the traversal takes for archives: those with the extension
/// `zip`, in lower case.
pub open spec fn is_archive_name(name: Seq<char>) -> bool {
    extension_of(name) == Some(seq!['z', 'i', 'p'])
}

/// A component that names a file: not empty, neither `.` nor `..`, and
/// without a separator in it.
pub open spec fn is_file_name(name: Seq<char>) -> bool {
    &&& name.len() > 0
    &&& name != seq!['.']
    &&& name != seq!['.', '.']
    &&& !name.contains('/')
}

/// A component that steps out of its directory.
pub open spec fn is_parent_segment(name: Seq<char>) -> bool {
    name == seq!['.', '.']
}

/// A relative path none of whose components steps out of its directory.
pub open spec fn is_enclosed(path: Seq<Seq<char>>) -> bool {
    forall|i: int| 0 <= i < path.len() ==> !is_parent_segment(#[trigger] path[i])
}

/// The directory of an archive below the root that the traversal started
/// from: the archive's path without the root's components and without its
/// own file name.
pub open spec fn archive_dir(zip_root: Seq<Seq<char>>, zip_path: Seq<Seq<char>>) -> Seq<
    Seq<char>,
>
    recommends
        zip_root.len() < zip_path.len(),
{
    zip_path.subrange(zip_root.len() as int, zip_path.len() - 1)
}

/// Where an entry goes: the output root, the archive's directory below the
/// traversal root, a directory named after the archive unless the output is
/// flattened, and the entry's own path.
pub open spec fn output_path(
    outdir: Seq<Seq<char>>,
    zip_root: Seq<Seq<char>>,
    zip_path: Seq<Seq<char>>,
    flatten: bool,
    entry: Seq<Seq<char>>,
) -> Seq<Seq<char>>
    recommends
        zip_root.len() < zip_path.len(),
{
    outdir + archive_dir(zip_root, zip_path) + (if flatten {
        Seq::<Seq<char>>::empty()
    } else {
        seq![stem_of(zip_path.last())]
    }) + entry
}

/// What `last_dot` finds is a dot, and no dot stands after it.
pub proof fn lemma_last_dot(name: Seq<char>)
    ensures
        -1 <= last_dot(name) < name.len(),
        last_dot(name) >= 0 ==> name[last_dot(name)] == '.',
        forall|i: int| last_dot(name) < i < name.len() ==> name[i] != '.',
    decreases name.len(),
{
    if name.len() > 0 && name.last() != '.' {
        lemma_last_dot(name.drop_last());
        assert forall|i: int| last_dot(name) < i < name.len() implies name[i] != '.' by {
            if i < name.len() - 1 {
                assert(name.drop_last()[i] == name[i]);
            }
        }
    }
}

/// If position `dot` holds a dot and none follows it, it is the last dot.
pub proof fn lemma_last_dot_is(name: Seq<char>, dot: int)
    requires
        -1 <= dot < name.len(),
        dot >= 0 ==> name[dot] == '.',
        forall|i: int| dot < i < name.len() ==> name[i] != '.',
    ensures
        last_dot(name) == dot,
{
    lemma_last_dot(name);
}

/// The name of a file without its extension.
pub fn file_stem(name: &str) -> (stem: String)
    ensures
        stem@ == stem_of(name@),
{
    let len: usize = name.unicode_len();
    let mut i: usize = len;
    while i > 0
        invariant
            len == name@.len(),
            i <= len,
            forall|j: int| i <= j < len ==> name@[j] != '.',
        decreases i,
    {
        if name.get_char(i - 1) == '.' {
            proof {
                lemma_last_dot_is(name@, i as int - 1);
            }
            if i - 1 == 0 {
                return name.to_owned();
            }
            let head = name.substring_char(0, i - 1);
            assert(head@ == name@.take(i as int - 1));
            return head.to_owned();
        }
        i = i - 1;
    }
    proof {
        lemma_last_dot_is(name@, -1);
    }
    name.to_owned()
}

/// Whether a file name has the extension of an archive.
pub fn names_archive(name: &str) -> (yes: bool)
    ensures
        yes == is_archive_name(name@),
{
    let len: usize = name.unicode_len();
    proof {
        lemma_last_dot(name@);
    }
    if len < 5 || name.get_char(len - 4) != '.' || name.get_char(len - 3) != 'z' || name.get_char(
        len - 2,
    ) != 'i' || name.get_char(len - 1) != 'p' {
        proof {
            if is_archive_name(name@) {
                let dot = last_dot(name@);
                let tail = name@.skip(dot + 1);
                assert(tail == seq!['z', 'i', 'p']);
                assert(tail.len() == 3);
                assert(tail[0] == 'z' && tail[1] == 'i' && tail[2] == 'p');
                assert(name@[dot + 1] == tail[0]);
                assert(name@[dot + 2] == tail[1]);
                assert(name@[dot + 3] == tail[2]);
                assert(false);
            }
        }
        return false;
    }
    proof {
        lemma_last_dot_is(name@, len as int - 4);
        assert(name@.skip(len as int - 3) =~= seq!['z', 'i', 'p']);
    }
    true
}

/// Whether a component names a file.
pub fn names_file(name: &str) -> (yes: bool)
    ensures
        yes == is_file_name(name@),
{
    let len: usize = name.unicode_len();
    if len == 0 {
        return false;
    }
    if len == 1 && name.get_char(0) == '.' {
        assert(name@ =~= seq!['.']);
        return false;
    }
    if len == 2 && name.get_char(0) == '.' && name.get_char(1) == '.' {
        assert(name@ =~= seq!['.', '.']);
        return false;
    }
    assert(name@ != seq!['.']) by {
        if name@ == seq!['.'] {
            assert(seq!['.'].len() == 1);
            assert(seq!['.'][0] == '.');
        }
    }
    assert(name@ != seq!['.', '.']) by {
        if name@ == seq!['.', '.'] {
            assert(seq!['.', '.'].len() == 2);
            assert(seq!['.', '.'][0] == '.');
            assert(seq!['.', '.'][1] == '.');
        }
    }
    let mut i: usize = 0;
    while i < len
        invariant
            len == name@.len(),
            i <= len,
            forall|j: int| 0 <= j < i ==> name@[j] != '/',
        decreases len - i,
    {
        if name.get_char(i) == '/' {
            assert(name@.contains('/'));
            return false;
        }
        i = i + 1;
    }
    true
}

/// Whether a component is `..`.
pub fn steps_out(name: &str) -> (yes: bool)
    ensures
        yes == is_parent_segment(name@),
{
    let len: usize = name.unicode_len();
    if len == 2 && name.get_char(0) == '.' && name.get_char(1) == '.' {
        assert(name@ =~= seq!['.', '.']);
        true
    } else {
        assert(name@ != seq!['.', '.']) by {
            if name@ == seq!['.', '.'] {
                assert(seq!['.', '.'].len() == 2);
                assert(seq!['.', '.'][0] == '.');
                assert(seq!['.', '.'][1] == '.');
            }
        }
        false
    }
}

/// Whether no component of a relative path steps out of its directory.
pub fn stays_inside(path: &Vec<String>) -> (yes: bool)
    ensures
        yes == is_enclosed(names(path@)),
{
    let mut i: usize = 0;
    while i < path.len()
        invariant
            i <= path@.len(),
            forall|j: int| 0 <= j < i ==> !is_parent_segment(#[trigger] names(path@)[j]),
        decreases path@.len() - i,
    {
        if steps_out(path[i].as_str()) {
            assert(is_parent_segment(names(path@)[i as int]));
            return false;
        }
        i = i + 1;
    }
    true
}

/// Appends copies of `source[from..to]` to `target`.
pub fn append_components(target: &mut Vec<String>, source: &Vec<String>, from: usize, to: usize)
    requires
        from <= to <= source@.len(),
    ensures
        names(final(target)@) == names(old(target)@) + names(source@).subrange(
            from as int,
            to as int,
        ),
{
    let mut i: usize = from;
    assert(names(target@) =~= names(old(target)@) + names(source@).subrange(
        from as int,
        from as int,
    ));
    while i < to
        invariant
            from <= i <= to <= source@.len(),
            names(target@) == names(old(target)@) + names(source@).subrange(
                from as int,
                i as int,
            ),
        decreases to - i,
    {
        let ghost before = target@;
        target.push(source[i].clone());
        assert(names(target@) =~= names(before).push(source@[i as int]@));
        assert(names(source@).subrange(from as int, i as int + 1) =~= names(source@).subrange(
            from as int,
            i as int,
        ).push(source@[i as int]@));
        i = i + 1;
    }
}

/// The path an entry is written to, as `output_path` defines it.
pub fn join_output_path(
    outdir: &Vec<String>,
    zip_root: &Vec<String>,
    zip_path: &Vec<String>,
    flatten: bool,
    entry: &Vec<String>,
) -> (path: Vec<String>)
    requires
        zip_root@.len() < zip_path@.len(),
    ensures
        names(path@) == output_path(
            names(outdir@),
            names(zip_root@),
            names(zip_path@),
            flatten,
            names(entry@),
        ),
{
    let mut path: Vec<String> = Vec::new();
    assert(names(path@) =~= Seq::<Seq<char>>::empty());
    append_components(&mut path, outdir, 0, outdir.len());
    assert(names(outdir@).subrange(0, outdir@.len() as int) =~= names(outdir@));
    assert(names(path@) =~= names(outdir@));
    let last: usize = zip_path.len() - 1;
    append_components(&mut path, zip_path, zip_root.len(), last);
    if !flatten {
        let ghost before = path@;
        let stem = file_stem(zip_path[last].as_str());
        path.push(stem);
        assert(names(path@) =~= names(before) + seq![stem_of(names(zip_path@).last())]);
    } else {
        assert(names(path@) =~= names(path@) + Seq::<Seq<char>>::empty());
    }
    append_components(&mut path, entry, 0, entry.len());
    assert(names(entry@).subrange(0, entry@.len() as int) =~= names(entry@));
    path
}

} // verus!
