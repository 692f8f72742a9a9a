//! The directory of a module, from the module's path as the system
//! reports it: UTF-16 units, with a drive, a network share or a literal
//! prefix in front, or none.

use vstd::prelude::*;

verus! {

/// Does the path start with `\\?\`? Such a path is taken literally.
pub open spec fn is_verbatim(path: Seq<u16>) -> bool {
    path.len() >= 4 && path[0] == 0x5c && path[1] == 0x5c && path[2] == 0x3f && path[3] == 0x5c
}

/// Does the path start with a drive letter and a colon?
pub open spec fn has_drive(path: Seq<u16>) -> bool {
    path.len() >= 2 && (0x41 <= path[0] <= 0x5a || 0x61 <= path[0] <= 0x7a) && path[1] == 0x3a
}

/// Is this unit of a path a separator? Literal paths have only one kind.
pub open spec fn is_path_separator(unit: u16, verbatim: bool) -> bool {
    unit == 0x5c || (unit == 0x2f && !verbatim)
}

/// Where the component that starts at `from` ends.
pub open spec fn component_end(path: Seq<u16>, from: int, verbatim: bool) -> int
    decreases path.len() - from,
{
    if from >= path.len() {
        path.len() as int
    } else if is_path_separator(path[from], verbatim) {
        from
    } else {
        component_end(path, from + 1, verbatim)
    }
}

/// Do the letters `UNC` and a separator stand at `at`?
pub open spec fn has_unc(path: Seq<u16>, at: int) -> bool {
    path.len() >= at + 4 && path[at] == 0x55 && path[at + 1] == 0x4e && path[at + 2] == 0x43
        && path[at + 3] == 0x5c
}

/// Length of the prefix that names a drive or a share: `C:`,
/// `\\server\share`, `\\?\C:` or `\\?\UNC\server\share`.
pub open spec fn prefix_len(path: Seq<u16>) -> int {
    if is_verbatim(path) {
        if has_unc(path, 4) {
            let server = component_end(path, 8, true);
            let share = component_end(path, server + 1, true);
            if share > server + 1 {
                share
            } else {
                server
            }
        } else {
            component_end(path, 4, true)
        }
    } else if path.len() >= 2 && is_path_separator(path[0], false) && is_path_separator(
        path[1],
        false,
    ) {
        let server = component_end(path, 2, false);
        let share = component_end(path, server + 1, false);
        if server > 2 && share > server + 1 {
            share
        } else {
            0
        }
    } else if has_drive(path) {
        2
    } else {
        0
    }
}

/// Length of the prefix together with the root's separator, if there is
/// one.
pub open spec fn root_len(path: Seq<u16>) -> int {
    let prefix = prefix_len(path);
    if prefix < path.len() && is_path_separator(path[prefix], is_verbatim(path)) {
        prefix + 1
    } else {
        prefix
    }
}

/// Does the path start at the current directory, written as a dot?
pub open spec fn starts_with_dot(path: Seq<u16>) -> bool {
    let root = root_len(path);
    &&& root == 0 || (root == 2 && has_drive(path))
    &&& root < path.len() && path[root] == 0x2e
    &&& root + 1 < path.len() ==> is_path_separator(path[root + 1], false)
}

/// Where the components of the path start: behind the prefix, the root
/// and the dot for the current directory.
pub open spec fn body_start(path: Seq<u16>) -> int {
    if starts_with_dot(path) {
        root_len(path) + 1
    } else {
        root_len(path)
    }
}

/// Where the last component behind `from` starts.
pub open spec fn name_start(path: Seq<u16>, from: int, verbatim: bool) -> int
    decreases path.len(),
{
    if path.len() <= from || path.len() == 0 || is_path_separator(path.last(), verbatim) {
        path.len() as int
    } else {
        name_start(path.drop_last(), from, verbatim)
    }
}

/// Length of a path without the component that starts at `start` and the
/// separator before it.
pub open spec fn cut_at(start: int, from: int) -> int {
    if start > from {
        start - 1
    } else {
        from
    }
}

/// Does a component that starts at `start` say nothing? Empty ones do
/// not, and neither do dots, unless the path is taken literally.
pub open spec fn says_nothing(path: Seq<u16>, start: int, verbatim: bool) -> bool {
    path.len() == start || (!verbatim && path.len() == start + 1 && path[start] == 0x2e)
}

/// Length of a path without the components at its end that say nothing.
/// What stands before `from` stays.
pub open spec fn trimmed_len(path: Seq<u16>, from: int, verbatim: bool) -> int
    decreases path.len(),
{
    if from < 0 || path.len() <= from {
        path.len() as int
    } else {
        let start = name_start(path, from, verbatim);
        if from <= start <= path.len() && says_nothing(path, start, verbatim) {
            trimmed_len(path.take(cut_at(start, from)), from, verbatim)
        } else {
            path.len() as int
        }
    }
}

/// Length of what is left of a path when its last component is taken
/// away. A drive, a share or a root has none and stays as it is.
pub open spec fn parent_len(path: Seq<u16>) -> int {
    let verbatim = is_verbatim(path);
    let from = body_start(path);
    let end = trimmed_len(path, from, verbatim);
    if end <= from {
        if starts_with_dot(path) {
            from - 1
        } else {
            path.len() as int
        }
    } else {
        let start = name_start(path.take(end), from, verbatim);
        trimmed_len(path.take(cut_at(start, from)), from, verbatim)
    }
}

/// A path in which separators behind `from` do not follow on each other.
pub open spec fn collapsed(path: Seq<u16>, from: int) -> Seq<u16>
    decreases path.len(),
{
    if path.len() == 0 || path.len() <= from + 1 {
        path
    } else {
        let shorter = collapsed(path.drop_last(), from);
        if path.last() == 0x5c && path[path.len() - 2] == 0x5c {
            shorter
        } else {
            shorter.push(path.last())
        }
    }
}

/// Can a name be put behind this path without a separator? It can behind
/// nothing, behind a separator and behind a bare drive.
pub open spec fn takes_name(path: Seq<u16>) -> bool {
    path.len() == 0 || is_path_separator(path.last(), false) || (path.len() == 2 && has_drive(path))
}

/// The directory of a module, up to where the name of a file in it goes.
pub open spec fn directory(path: Seq<u16>) -> Seq<u16> {
    let parent = path.take(parent_len(path));
    let kept = if is_verbatim(path) {
        collapsed(parent, prefix_len(path))
    } else {
        parent
    };
    if takes_name(kept) {
        kept
    } else {
        kept.push(0x5c)
    }
}

proof fn lemma_component_end(path: Seq<u16>, from: int, verbatim: bool)
    requires
        0 <= from,
    ensures
        component_end(path, from, verbatim) <= path.len(),
        from <= path.len() ==> from <= component_end(path, from, verbatim),
    decreases path.len() - from,
{
    if from < path.len() && !is_path_separator(path[from], verbatim) {
        lemma_component_end(path, from + 1, verbatim);
    }
}

proof fn lemma_prefix_len(path: Seq<u16>)
    ensures
        0 <= prefix_len(path) <= root_len(path) <= body_start(path) <= path.len(),
{
    if is_verbatim(path) {
        lemma_component_end(path, 4, true);
        if has_unc(path, 4) {
            lemma_component_end(path, 8, true);
            lemma_component_end(path, component_end(path, 8, true) + 1, true);
        }
    } else if path.len() >= 2 {
        lemma_component_end(path, 2, false);
        lemma_component_end(path, component_end(path, 2, false) + 1, false);
    }
}

proof fn lemma_name_start(path: Seq<u16>, from: int, verbatim: bool)
    requires
        0 <= from <= path.len(),
    ensures
        from <= name_start(path, from, verbatim) <= path.len(),
        forall|k: int|
            name_start(path, from, verbatim) <= k < path.len() ==> !is_path_separator(
                #[trigger] path[k],
                verbatim,
            ),
        name_start(path, from, verbatim) > from ==> is_path_separator(
            path[name_start(path, from, verbatim) - 1],
            verbatim,
        ),
    decreases path.len(),
{
    if path.len() > from && !is_path_separator(path.last(), verbatim) {
        let shorter = path.drop_last();
        let start = name_start(shorter, from, verbatim);
        lemma_name_start(shorter, from, verbatim);
        assert forall|k: int| start <= k < path.len() implies !is_path_separator(
            #[trigger] path[k],
            verbatim,
        ) by {
            if k < shorter.len() {
                assert(path[k] == shorter[k]);
            }
        }
        if start > from {
            assert(path[start - 1] == shorter[start - 1]);
        }
    } else if path.len() > from {
        assert(path[path.len() - 1] == path.last());
    }
}

proof fn lemma_trimmed_len(path: Seq<u16>, from: int, verbatim: bool)
    requires
        0 <= from <= path.len(),
    ensures
        from <= trimmed_len(path, from, verbatim) <= path.len(),
        forall|k: int|
            trimmed_len(path, from, verbatim) <= k < path.len() ==> is_path_separator(
                #[trigger] path[k],
                verbatim,
            ) || path[k] == 0x2e,
    decreases path.len(),
{
    if path.len() > from {
        let start = name_start(path, from, verbatim);
        lemma_name_start(path, from, verbatim);
        if says_nothing(path, start, verbatim) {
            let cut = cut_at(start, from);
            let shorter = path.take(cut);
            lemma_trimmed_len(shorter, from, verbatim);
            assert forall|k: int|
                trimmed_len(path, from, verbatim) <= k < path.len() implies is_path_separator(
                #[trigger] path[k],
                verbatim,
            ) || path[k] == 0x2e by {
                if k < cut {
                    assert(shorter[k] == path[k]);
                }
            }
        }
    }
}

fn find_component_end(path: &[u16], from: usize, verbatim: bool) -> (end: usize)
    ensures
        end == component_end(path@, from as int, verbatim),
{
    if from >= path.len() {
        return path.len();
    }
    let mut end: usize = from;
    while end < path.len() && path[end] != 0x5c && (verbatim || path[end] != 0x2f)
        invariant
            end <= path.len(),
            component_end(path@, end as int, verbatim) == component_end(
                path@,
                from as int,
                verbatim,
            ),
        decreases path.len() - end,
    {
        end += 1;
    }
    end
}

fn find_prefix_len(path: &[u16], verbatim: bool) -> (len: usize)
    requires
        verbatim == is_verbatim(path@),
        path@.len() < usize::MAX,
    ensures
        len == prefix_len(path@),
{
    proof {
        lemma_component_end(path@, 2, false);
        lemma_component_end(path@, 8, true);
    }
    if verbatim {
        if path.len() >= 8 && path[4] == 0x55 && path[5] == 0x4e && path[6] == 0x43 && path[7]
            == 0x5c {
            let server: usize = find_component_end(path, 8, true);
            let share: usize = find_component_end(path, server + 1, true);
            if share > server + 1 {
                share
            } else {
                server
            }
        } else {
            find_component_end(path, 4, true)
        }
    } else if path.len() >= 2 && (path[0] == 0x5c || path[0] == 0x2f) && (path[1] == 0x5c || path[1]
        == 0x2f) {
        let server: usize = find_component_end(path, 2, false);
        let share: usize = find_component_end(path, server + 1, false);
        if server > 2 && share > server + 1 {
            share
        } else {
            0
        }
    } else if drive_first(path) {
        2
    } else {
        0
    }
}

fn drive_first(path: &[u16]) -> (drive: bool)
    ensures
        drive == has_drive(path@),
{
    path.len() >= 2 && ((0x41 <= path[0] && path[0] <= 0x5a) || (0x61 <= path[0] && path[0]
        <= 0x7a)) && path[1] == 0x3a
}

fn find_name_start(path: &[u16], len: usize, from: usize, verbatim: bool) -> (start: usize)
    requires
        from <= len <= path@.len(),
    ensures
        start == name_start(path@.take(len as int), from as int, verbatim),
        from <= start <= len,
{
    let mut start: usize = len;
    proof {
        lemma_name_start(path@.take(len as int), from as int, verbatim);
    }
    while start > from && path[start - 1] != 0x5c && (verbatim || path[start - 1] != 0x2f)
        invariant
            from <= start <= len <= path@.len(),
            name_start(path@.take(start as int), from as int, verbatim) == name_start(
                path@.take(len as int),
                from as int,
                verbatim,
            ),
        decreases start,
    {
        proof {
            assert(path@.take(start as int).drop_last() =~= path@.take(start - 1));
            assert(path@.take(start as int).last() == path@[start - 1]);
        }
        start -= 1;
    }
    proof {
        if start > from {
            assert(path@.take(start as int).last() == path@[start - 1]);
        }
    }
    start
}

fn find_trimmed_len(path: &[u16], len: usize, from: usize, verbatim: bool) -> (trimmed: usize)
    requires
        from <= len <= path@.len(),
    ensures
        trimmed == trimmed_len(path@.take(len as int), from as int, verbatim),
        from <= trimmed <= len,
    decreases len,
{
    proof {
        lemma_trimmed_len(path@.take(len as int), from as int, verbatim);
    }
    if len <= from {
        return len;
    }
    let start: usize = find_name_start(path, len, from, verbatim);
    if start == len || (!verbatim && len == start + 1 && path[start] == 0x2e) {
        let cut: usize = if start > from {
            start - 1
        } else {
            from
        };
        proof {
            assert(path@.take(len as int).take(cut as int) =~= path@.take(cut as int));
        }
        find_trimmed_len(path, cut, from, verbatim)
    } else {
        len
    }
}

fn find_parent_len(path: &[u16], verbatim: bool, prefix: usize) -> (len: usize)
    requires
        verbatim == is_verbatim(path@),
        prefix == prefix_len(path@),
    ensures
        len == parent_len(path@),
        len <= path@.len(),
{
    proof {
        lemma_prefix_len(path@);
        assert(path@.take(path@.len() as int) =~= path@);
    }
    let root: usize = if prefix < path.len() && (path[prefix] == 0x5c || (!verbatim && path[prefix]
        == 0x2f)) {
        prefix + 1
    } else {
        prefix
    };
    let dot = (root == 0 || (root == 2 && drive_first(path))) && root < path.len() && path[root]
        == 0x2e && (root + 1 >= path.len() || path[root + 1] == 0x5c || path[root + 1] == 0x2f);
    let from: usize = if dot {
        root + 1
    } else {
        root
    };
    let end: usize = find_trimmed_len(path, path.len(), from, verbatim);
    if end <= from {
        if dot {
            from - 1
        } else {
            path.len()
        }
    } else {
        let start: usize = find_name_start(path, end, from, verbatim);
        let cut: usize = if start > from {
            start - 1
        } else {
            from
        };
        find_trimmed_len(path, cut, from, verbatim)
    }
}

/// The directory of a module, up to where the name of a file in it goes.
pub fn directory_of(path: &[u16]) -> (dir: Vec<u16>)
    requires
        path@.len() < usize::MAX,
    ensures
        dir@ == directory(path@),
{
    let verbatim = path.len() >= 4 && path[0] == 0x5c && path[1] == 0x5c && path[2] == 0x3f
        && path[3] == 0x5c;
    let prefix: usize = find_prefix_len(path, verbatim);
    let len: usize = find_parent_len(path, verbatim, prefix);
    let ghost parent = path@.take(len as int);
    proof {
        lemma_prefix_len(path@);
    }
    let mut dir: Vec<u16> = Vec::new();
    let mut k: usize = 0;
    while k < len
        invariant
            k <= len <= path@.len(),
            dir@ == if verbatim {
                collapsed(path@.take(k as int), prefix as int)
            } else {
                path@.take(k as int)
            },
        decreases len - k,
    {
        let repeated = verbatim && k > prefix && path[k] == 0x5c && path[k - 1] == 0x5c;
        proof {
            let longer = path@.take(k + 1);
            assert(longer.drop_last() =~= path@.take(k as int));
            assert(longer.last() == path@[k as int]);
            if k > 0 {
                assert(longer[k - 1] == path@[k - 1]);
            }
            assert(longer =~= path@.take(k as int).push(path@[k as int]));
            if k <= prefix {
                lemma_collapsed_short(path@.take(k as int), prefix as int);
                lemma_collapsed_short(longer, prefix as int);
            }
        }
        if !repeated {
            dir.push(path[k]);
        }
        k += 1;
    }
    let joined = dir.len() == 0 || dir[dir.len() - 1] == 0x5c || dir[dir.len() - 1] == 0x2f || (
    dir.len() == 2 && drive_first(dir.as_slice()));
    if !joined {
        dir.push(0x5c);
    }
    dir
}

proof fn lemma_collapsed_short(path: Seq<u16>, from: int)
    requires
        path.len() <= from + 1,
    ensures
        collapsed(path, from) == path,
{
}

/// The directory is the beginning of the module's own path, with at most
/// one separator added; in a literal path, repeated separators become
/// one. What is cut off is a single component and what says nothing
/// around it: separators and dots.
pub proof fn directory_comes_from_the_module(path: Seq<u16>)
    ensures
        0 <= parent_len(path) <= path.len(),
        !is_verbatim(path) ==> directory(path) == path.take(parent_len(path)) || directory(path)
            == path.take(parent_len(path)).push(0x5c),
        exists|start: int, end: int|
            #![trigger path.subrange(start, end)]
            {
                let verbatim = is_verbatim(path);
                &&& parent_len(path) <= start <= end <= path.len()
                &&& forall|k: int|
                    start <= k < end ==> !is_path_separator(#[trigger] path[k], verbatim)
                &&& forall|k: int|
                    parent_len(path) <= k < start || end <= k < path.len() ==> is_path_separator(
                        #[trigger] path[k],
                        verbatim,
                    ) || path[k] == 0x2e
            },
{
    let verbatim = is_verbatim(path);
    let from = body_start(path);
    let end = trimmed_len(path, from, verbatim);
    lemma_prefix_len(path);
    lemma_trimmed_len(path, from, verbatim);
    if end <= from {
        if starts_with_dot(path) {
            let cut = path.subrange(from - 1, from);
            assert(path.subrange(from - 1, from) == cut);
            assert forall|k: int| from <= k < path.len() implies is_path_separator(
                #[trigger] path[k],
                verbatim,
            ) || path[k] == 0x2e by {}
        } else {
            let nothing = path.subrange(path.len() as int, path.len() as int);
            assert(path.subrange(path.len() as int, path.len() as int) == nothing);
        }
    } else {
        let shorter = path.take(end);
        let start = name_start(shorter, from, verbatim);
        lemma_name_start(shorter, from, verbatim);
        let cut = cut_at(start, from);
        let rest = path.take(cut);
        lemma_trimmed_len(rest, from, verbatim);
        let name = path.subrange(start, end);
        assert(path.subrange(start, end) == name);
        assert forall|k: int| start <= k < end implies !is_path_separator(
            #[trigger] path[k],
            verbatim,
        ) by {
            assert(shorter[k] == path[k]);
        }
        assert forall|k: int|
            parent_len(path) <= k < start || end <= k < path.len() implies is_path_separator(
            #[trigger] path[k],
            verbatim,
        ) || path[k] == 0x2e by {
            if k < cut {
                assert(rest[k] == path[k]);
            } else if k < start {
                assert(shorter[k] == path[k]);
            }
        }
    }
}

proof fn lemma_component_end_is(path: Seq<u16>, from: int, end: int, verbatim: bool)
    requires
        0 <= from <= end <= path.len(),
        forall|k: int| from <= k < end ==> !is_path_separator(#[trigger] path[k], verbatim),
        end < path.len() ==> is_path_separator(path[end], verbatim),
    ensures
        component_end(path, from, verbatim) == end,
    decreases end - from,
{
    if from < end {
        assert(!is_path_separator(path[from], verbatim));
        lemma_component_end_is(path, from + 1, end, verbatim);
    }
}

/// Is `d` the length of a directory and the rest of the path, but for a
/// separator, the name of a file in it? The directory starts at `from` or
/// goes on from there, and ends with neither a separator nor a dot.
spec fn splits_at(path: Seq<u16>, from: int, d: int, verbatim: bool) -> bool {
    let start = if d > from {
        d + 1
    } else {
        d
    };
    &&& 0 <= from <= d
    &&& start < path.len()
    &&& d > from ==> is_path_separator(path[d], verbatim)
    &&& d > from ==> !is_path_separator(path[d - 1], verbatim) && path[d - 1] != 0x2e
    &&& forall|k: int| start <= k < path.len() ==> !is_path_separator(#[trigger] path[k], verbatim)
    &&& path.len() == start + 1 ==> path[start] != 0x2e
}

proof fn lemma_parent_is(path: Seq<u16>, d: int)
    requires
        splits_at(path, body_start(path), d, is_verbatim(path)),
    ensures
        parent_len(path) == d,
{
    let verbatim = is_verbatim(path);
    let from = body_start(path);
    let start = if d > from {
        d + 1
    } else {
        d
    };
    lemma_name_start(path, from, verbatim);
    let found = name_start(path, from, verbatim);
    if found < start {
        assert(!is_path_separator(path[start - 1], verbatim));
    }
    if found > start {
        assert(is_path_separator(path[found - 1], verbatim));
    }
    assert(trimmed_len(path, from, verbatim) == path.len());
    assert(path.take(path.len() as int) =~= path);
    let dir = path.take(d);
    if d > from {
        lemma_name_start(dir, from, verbatim);
        let inner = name_start(dir, from, verbatim);
        assert(dir[d - 1] == path[d - 1]);
        assert(inner < d);
        assert(trimmed_len(dir, from, verbatim) == d);
    }
}

proof fn lemma_collapsed_keeps(path: Seq<u16>, from: int)
    requires
        0 <= from,
        forall|k: int|
            from <= k < path.len() - 1 ==> !(#[trigger] path[k] == 0x5c && path[k + 1]
                == 0x5c),
    ensures
        collapsed(path, from) == path,
    decreases path.len(),
{
    if path.len() > 0 && path.len() > from + 1 {
        let shorter = path.drop_last();
        assert forall|k: int| from <= k < shorter.len() - 1 implies !(
        #[trigger] shorter[k] == 0x5c && shorter[k + 1] == 0x5c) by {
            assert(shorter[k] == path[k]);
        }
        lemma_collapsed_keeps(shorter, from);
        assert(path[path.len() - 2] != 0x5c || path.last() != 0x5c);
        assert(shorter.push(path.last()) =~= path);
    }
}

/// Is this the name of a file: without a separator, and more than a dot?
pub open spec fn is_file_name(name: Seq<u16>) -> bool {
    &&& name.len() > 0
    &&& name.len() == 1 ==> name[0] != 0x2e
    &&& forall|k: int| 0 <= k < name.len() ==> (#[trigger] name[k]) != 0x5c && name[k] != 0x2f
}

/// The directory of a file on a drive is all that stands before the
/// file's name, with a backslash at the end. `dir` is the directory
/// without the separator; in the root there is nothing but the root.
pub proof fn directory_on_a_drive(letter: u16, dir: Seq<u16>, separator: u16, name: Seq<u16>)
    requires
        0x41 <= letter <= 0x5a || 0x61 <= letter <= 0x7a,
        separator == 0x5c || separator == 0x2f,
        is_file_name(name),
        dir.len() > 0 ==> dir.last() != 0x5c && dir.last() != 0x2f && dir.last() != 0x2e,
    ensures
        ({
            let root = seq![letter, 0x3au16, separator];
            &&& directory(root + name) == root
            &&& dir.len() > 0 ==> directory(root + dir + seq![separator] + name) == root + dir
                + seq![0x5cu16]
        }),
{
    let root = seq![letter, 0x3au16, separator];
    let first = root + name;
    assert forall|k: int| 3 <= k < first.len() implies !is_path_separator(
        #[trigger] first[k],
        false,
    ) by {
        assert(first[k] == name[k - 3]);
    }
    assert(body_start(first) == 3);
    if first.len() == 4 {
        assert(first[3] == name[0]);
    }
    lemma_parent_is(first, 3);
    assert(first.take(3) =~= root);
    assert(root.last() == separator);
    assert(directory(first) =~= root);
    if dir.len() > 0 {
        let path = root + dir + seq![separator] + name;
        let d = 3 + dir.len() as int;
        assert(path[d] == separator);
        assert(path[d - 1] == dir.last());
        assert forall|k: int| d + 1 <= k < path.len() implies !is_path_separator(
            #[trigger] path[k],
            false,
        ) by {
            assert(path[k] == name[k - d - 1]);
        }
        assert(body_start(path) == 3);
        if path.len() == d + 2 {
            assert(path[d + 1] == name[0]);
        }
        lemma_parent_is(path, d);
        assert(path.take(d) =~= root + dir);
        assert(directory(path) =~= root + dir + seq![0x5cu16]);
    }
}

/// The directory of a file on a network share, likewise. The name of the
/// server starts with neither a dot nor a question mark: those stand for
/// something else.
pub proof fn directory_on_a_share(
    server: Seq<u16>,
    share: Seq<u16>,
    dir: Seq<u16>,
    name: Seq<u16>,
)
    requires
        is_file_name(server),
        server[0] != 0x2e && server[0] != 0x3f,
        is_file_name(share),
        is_file_name(name),
        dir.len() > 0 ==> dir.last() != 0x5c && dir.last() != 0x2f && dir.last() != 0x2e,
    ensures
        ({
            let root = seq![0x5cu16, 0x5cu16] + server + seq![0x5cu16] + share + seq![0x5cu16];
            &&& directory(root + name) == root
            &&& dir.len() > 0 ==> directory(root + dir + seq![0x5cu16] + name) == root + dir
                + seq![0x5cu16]
        }),
{
    let root = seq![0x5cu16, 0x5cu16] + server + seq![0x5cu16] + share + seq![0x5cu16];
    let first = root + name;
    lemma_share_root(server, share, name);
    let r = root.len() as int;
    assert forall|k: int| r <= k < first.len() implies !is_path_separator(
        #[trigger] first[k],
        false,
    ) by {
        assert(first[k] == name[k - r]);
    }
    if first.len() == r + 1 {
        assert(first[r] == name[0]);
    }
    lemma_parent_is(first, r);
    assert(first.take(r) =~= root);
    assert(root.last() == 0x5c);
    assert(directory(first) =~= root);
    if dir.len() > 0 {
        let tail = dir + seq![0x5cu16] + name;
        let path = root + dir + seq![0x5cu16] + name;
        assert(path =~= root + tail);
        lemma_share_root(server, share, tail);
        let d = r + dir.len();
        assert(path[d] == 0x5c);
        assert(path[d - 1] == dir.last());
        assert forall|k: int| d + 1 <= k < path.len() implies !is_path_separator(
            #[trigger] path[k],
            false,
        ) by {
            assert(path[k] == name[k - d - 1]);
        }
        if path.len() == d + 2 {
            assert(path[d + 1] == name[0]);
        }
        lemma_parent_is(path, d);
        assert(path.take(d) =~= root + dir);
        assert((root + dir).last() == dir.last());
        assert(directory(path) =~= root + dir + seq![0x5cu16]);
    }
}

proof fn lemma_share_root(server: Seq<u16>, share: Seq<u16>, tail: Seq<u16>)
    requires
        is_file_name(server),
        server[0] != 0x2e && server[0] != 0x3f,
        is_file_name(share),
    ensures
        ({
            let root = seq![0x5cu16, 0x5cu16] + server + seq![0x5cu16] + share + seq![0x5cu16];
            &&& !is_verbatim(root + tail)
            &&& body_start(root + tail) == root.len()
        }),
{
    let root = seq![0x5cu16, 0x5cu16] + server + seq![0x5cu16] + share + seq![0x5cu16];
    let path = root + tail;
    assert(path[0] == 0x5c && path[1] == 0x5c);
    assert(path[2] == server[0]);
    let a = 2 + server.len() as int;
    assert forall|k: int| 2 <= k < a implies !is_path_separator(#[trigger] path[k], false) by {
        assert(path[k] == server[k - 2]);
    }
    assert(path[a] == 0x5c);
    lemma_component_end_is(path, 2, a, false);
    let b = a + 1 + share.len() as int;
    assert forall|k: int| a + 1 <= k < b implies !is_path_separator(#[trigger] path[k], false) by {
        assert(path[k] == share[k - a - 1]);
    }
    assert(path[b] == 0x5c);
    lemma_component_end_is(path, a + 1, b, false);
    assert(prefix_len(path) == b);
}

/// The directory of a file under a literal path such as `\\?\C:\`,
/// likewise. A slash is part of a name there, and a directory without
/// repeated backslashes is kept as it is.
pub proof fn directory_under_a_literal_path(volume: Seq<u16>, dir: Seq<u16>, name: Seq<u16>)
    requires
        volume.len() > 0,
        forall|k: int| 0 <= k < volume.len() ==> #[trigger] volume[k] != 0x5c,
        volume != seq![0x55u16, 0x4eu16, 0x43u16],
        name.len() > 0,
        forall|k: int| 0 <= k < name.len() ==> #[trigger] name[k] != 0x5c,
        name.len() == 1 ==> name[0] != 0x2e,
        dir.len() > 0 ==> dir[0] != 0x5c && dir.last() != 0x5c && dir.last() != 0x2f && dir.last()
            != 0x2e,
        forall|k: int| 0 <= k < dir.len() - 1 ==> !(#[trigger] dir[k] == 0x5c && dir[k + 1] == 0x5c),
    ensures
        ({
            let root = seq![0x5cu16, 0x5cu16, 0x3fu16, 0x5cu16] + volume + seq![0x5cu16];
            &&& directory(root + name) == root
            &&& dir.len() > 0 ==> directory(root + dir + seq![0x5cu16] + name) == root + dir
                + seq![0x5cu16]
        }),
{
    let root = seq![0x5cu16, 0x5cu16, 0x3fu16, 0x5cu16] + volume + seq![0x5cu16];
    let r = root.len() as int;
    let first = root + name;
    lemma_literal_root(volume, name);
    assert forall|k: int| r <= k < first.len() implies !is_path_separator(
        #[trigger] first[k],
        true,
    ) by {
        assert(first[k] == name[k - r]);
    }
    if first.len() == r + 1 {
        assert(first[r] == name[0]);
    }
    lemma_parent_is(first, r);
    assert(first.take(r) =~= root);
    assert(root.last() == 0x5c);
    lemma_collapsed_short(root, r - 1);
    assert(directory(first) =~= root);
    if dir.len() > 0 {
        let tail = dir + seq![0x5cu16] + name;
        let path = root + dir + seq![0x5cu16] + name;
        assert(path =~= root + tail);
        lemma_literal_root(volume, tail);
        let d = r + dir.len();
        assert(path[d] == 0x5c);
        assert(path[d - 1] == dir.last());
        assert forall|k: int| d + 1 <= k < path.len() implies !is_path_separator(
            #[trigger] path[k],
            true,
        ) by {
            assert(path[k] == name[k - d - 1]);
        }
        if path.len() == d + 2 {
            assert(path[d + 1] == name[0]);
        }
        lemma_parent_is(path, d);
        let parent = root + dir;
        assert(path.take(d) =~= parent);
        assert forall|k: int| r - 1 <= k < parent.len() - 1 implies !(
        #[trigger] parent[k] == 0x5c && parent[k + 1] == 0x5c) by {
            if k >= r {
                assert(parent[k] == dir[k - r]);
                assert(parent[k + 1] == dir[k - r + 1]);
            } else {
                assert(parent[k + 1] == dir[0]);
            }
        }
        lemma_collapsed_keeps(parent, r - 1);
        assert(parent.last() == dir.last());
        assert(directory(path) =~= root + dir + seq![0x5cu16]);
    }
}

proof fn lemma_literal_root(volume: Seq<u16>, tail: Seq<u16>)
    requires
        volume.len() > 0,
        forall|k: int| 0 <= k < volume.len() ==> #[trigger] volume[k] != 0x5c,
        volume != seq![0x55u16, 0x4eu16, 0x43u16],
    ensures
        ({
            let root = seq![0x5cu16, 0x5cu16, 0x3fu16, 0x5cu16] + volume + seq![0x5cu16];
            &&& is_verbatim(root + tail)
            &&& prefix_len(root + tail) == root.len() - 1
            &&& body_start(root + tail) == root.len()
        }),
{
    let root = seq![0x5cu16, 0x5cu16, 0x3fu16, 0x5cu16] + volume + seq![0x5cu16];
    let path = root + tail;
    let a = 4 + volume.len() as int;
    assert forall|k: int| 4 <= k < a implies !is_path_separator(#[trigger] path[k], true) by {
        assert(path[k] == volume[k - 4]);
    }
    assert(path[a] == 0x5c);
    if has_unc(path, 4) {
        assert(a == 7) by {
            if a < 7 {
                assert(path[a] == 0x5c);
            }
            if a > 7 {
                assert(!is_path_separator(path[7], true));
            }
        }
        assert(volume[0] == path[4] && volume[1] == path[5] && volume[2] == path[6]);
        assert(volume =~= seq![0x55u16, 0x4eu16, 0x43u16]);
    }
    lemma_component_end_is(path, 4, a, true);
}

/// A bare file name has no directory, and one below a relative directory
/// has that directory.
pub proof fn directory_of_a_relative_path(dir: Seq<u16>, separator: u16, name: Seq<u16>)
    requires
        separator == 0x5c || separator == 0x2f,
        is_file_name(name),
        name[0] != 0x2e,
        name.len() > 1 ==> name[1] != 0x3a,
        dir.len() > 0 ==> dir[0] != 0x5c && dir[0] != 0x2f && dir[0] != 0x2e && dir.last() != 0x5c
            && dir.last() != 0x2f && dir.last() != 0x2e,
        dir.len() > 1 ==> dir[1] != 0x3a,
    ensures
        directory(name) == Seq::<u16>::empty(),
        dir.len() > 0 ==> directory(dir + seq![separator] + name) == dir + seq![0x5cu16],
{
    assert(!is_path_separator(name[0], false));
    assert(body_start(name) == 0);
    assert forall|k: int| 0 <= k < name.len() implies !is_path_separator(
        #[trigger] name[k],
        false,
    ) by {}
    lemma_parent_is(name, 0);
    assert(name.take(0) =~= Seq::<u16>::empty());
    assert(directory(name) =~= Seq::<u16>::empty());
    if dir.len() > 0 {
        let path = dir + seq![separator] + name;
        let d = dir.len() as int;
        assert(path[0] == dir[0]);
        assert(path[d] == separator);
        assert(path[d - 1] == dir.last());
        if d > 1 {
            assert(path[1] == dir[1]);
        }
        assert(body_start(path) == 0);
        assert forall|k: int| d + 1 <= k < path.len() implies !is_path_separator(
            #[trigger] path[k],
            false,
        ) by {
            assert(path[k] == name[k - d - 1]);
        }
        if path.len() == d + 2 {
            assert(path[d + 1] == name[0]);
        }
        lemma_parent_is(path, d);
        assert(path.take(d) =~= dir);
        assert(directory(path) =~= dir + seq![0x5cu16]);
    }
}

proof fn lemma_trim_separator(path: Seq<u16>, unit: u16, from: int, verbatim: bool)
    requires
        0 <= from <= path.len(),
        is_path_separator(unit, verbatim),
    ensures
        trimmed_len(path.push(unit), from, verbatim) == trimmed_len(path, from, verbatim),
{
    let longer = path.push(unit);
    assert(name_start(longer, from, verbatim) == longer.len());
    assert(longer.take(path.len() as int) =~= path);
}

proof fn lemma_trim_dot(path: Seq<u16>, unit: u16, from: int)
    requires
        0 <= from <= path.len(),
        is_path_separator(unit, false),
    ensures
        trimmed_len(path.push(unit).push(0x2e), from, false) == trimmed_len(path, from, false),
{
    let longer = path.push(unit).push(0x2e);
    let start = path.len() + 1;
    assert(longer.drop_last() =~= path.push(unit));
    assert(name_start(path.push(unit), from, false) == start);
    assert(name_start(longer, from, false) == start);
    assert(longer.take(path.len() as int) =~= path);
}

proof fn lemma_untrimmed(path: Seq<u16>, from: int, verbatim: bool)
    requires
        0 <= from < path.len(),
        !is_path_separator(path.last(), verbatim),
        path.last() != 0x2e,
    ensures
        trimmed_len(path, from, verbatim) == path.len(),
{
    lemma_name_start(path, from, verbatim);
    let start = name_start(path, from, verbatim);
    if start == path.len() {
        assert(is_path_separator(path[start - 1], verbatim));
    }
}

/// On a drive, repeated separators and dots for the current directory say
/// nothing, whether they stand before the name of the file or behind it.
pub proof fn noise_in_a_path_says_nothing(
    letter: u16,
    dir: Seq<u16>,
    separator: u16,
    name: Seq<u16>,
)
    requires
        0x41 <= letter <= 0x5a || 0x61 <= letter <= 0x7a,
        separator == 0x5c || separator == 0x2f,
        is_file_name(name),
        name.last() != 0x2e,
        dir.len() > 0,
        dir.last() != 0x5c && dir.last() != 0x2f && dir.last() != 0x2e,
    ensures
        ({
            let place = seq![letter, 0x3au16, separator] + dir;
            let expected = place + seq![0x5cu16];
            &&& directory(place + seq![separator, separator] + name) == expected
            &&& directory(place + seq![separator, 0x2eu16, separator] + name) == expected
            &&& directory(place + seq![separator] + name + seq![separator]) == expected
            &&& directory(place + seq![separator] + name + seq![separator, 0x2eu16]) == expected
        }),
{
    let root = seq![letter, 0x3au16, separator];
    let place = root + dir;
    let expected = place + seq![0x5cu16];
    assert(place.last() == dir.last());
    lemma_untrimmed(place, 3, false);
    let spaced = place.push(separator);
    lemma_trim_separator(place, separator, 3, false);
    assert(place + seq![separator, separator] + name =~= spaced.push(separator) + name);
    assert(spaced.take(place.len() as int) =~= place);
    lemma_noise_before(spaced, separator, name, place);
    let dotted = place.push(separator).push(0x2e);
    lemma_trim_dot(place, separator, 3);
    assert(place + seq![separator, 0x2eu16, separator] + name =~= dotted.push(separator) + name);
    assert(dotted.take(place.len() as int) =~= place);
    lemma_noise_before(dotted, separator, name, place);
    let path = place + seq![separator] + name;
    assert(path =~= place.push(separator) + name);
    assert(path.last() == name.last());
    lemma_untrimmed(path, 3, false);
    lemma_trim_separator(path, separator, 3, false);
    lemma_trim_dot(path, separator, 3);
    assert(path + seq![separator] =~= path.push(separator));
    assert(path + seq![separator, 0x2eu16] =~= path.push(separator).push(0x2e));
    let len = path.len() as int;
    assert(path.push(separator).take(len) =~= path);
    assert(path.push(separator).push(0x2e).take(len) =~= path);
    lemma_noise_behind(place, separator, name, path.push(separator));
    lemma_noise_behind(place, separator, name, path.push(separator).push(0x2e));
    assert(expected =~= place.push(0x5c));
}

proof fn lemma_on_drive(path: Seq<u16>)
    requires
        path.len() >= 3,
        0x41 <= path[0] <= 0x5a || 0x61 <= path[0] <= 0x7a,
        path[1] == 0x3a,
        path[2] == 0x5c || path[2] == 0x2f,
    ensures
        !is_verbatim(path),
        body_start(path) == 3,
        !starts_with_dot(path),
{
}

proof fn lemma_noise_before(front: Seq<u16>, separator: u16, name: Seq<u16>, place: Seq<u16>)
    requires
        front.len() > 3,
        0x41 <= front[0] <= 0x5a || 0x61 <= front[0] <= 0x7a,
        front[1] == 0x3a,
        front[2] == 0x5c || front[2] == 0x2f,
        separator == 0x5c || separator == 0x2f,
        is_file_name(name),
        name.last() != 0x2e,
        3 < place.len() <= front.len(),
        front.take(place.len() as int) == place,
        !is_path_separator(place.last(), false),
        trimmed_len(front, 3, false) == place.len(),
    ensures
        directory(front.push(separator) + name) == place.push(0x5c),
{
    let path = front.push(separator) + name;
    lemma_on_drive(path);
    assert(path.last() == name.last());
    assert(!is_path_separator(name[name.len() - 1], false));
    lemma_untrimmed(path, 3, false);
    assert(path.take(path.len() as int) =~= path);
    let start = front.len() + 1;
    lemma_name_start(path, 3, false);
    let found = name_start(path, 3, false);
    if found < start {
        assert(!is_path_separator(path[start - 1], false));
        assert(path[start - 1] == separator);
    }
    if found > start {
        assert(path[found - 1] == name[found - 1 - start]);
    }
    assert(path.take(front.len() as int) =~= front);
    assert(parent_len(path) == place.len());
    assert(path.take(place.len() as int) =~= front.take(place.len() as int));
}

proof fn lemma_noise_behind(place: Seq<u16>, separator: u16, name: Seq<u16>, path: Seq<u16>)
    requires
        place.len() > 3,
        0x41 <= place[0] <= 0x5a || 0x61 <= place[0] <= 0x7a,
        place[1] == 0x3a,
        place[2] == 0x5c || place[2] == 0x2f,
        separator == 0x5c || separator == 0x2f,
        is_file_name(name),
        !is_path_separator(place.last(), false),
        place.last() != 0x2e,
        path.len() >= place.len() + 1 + name.len(),
        path.take((place.len() + 1 + name.len()) as int) == place.push(separator) + name,
        trimmed_len(path, 3, false) == place.len() + 1 + name.len(),
    ensures
        directory(path) == place.push(0x5c),
{
    let inner = place.push(separator) + name;
    assert(path[0] == inner[0] && path[1] == inner[1] && path[2] == inner[2]);
    lemma_on_drive(path);
    let start = place.len() + 1;
    lemma_name_start(inner, 3, false);
    let found = name_start(inner, 3, false);
    if found < start {
        assert(!is_path_separator(inner[start - 1], false));
        assert(inner[start - 1] == separator);
    }
    if found > start {
        assert(inner[found - 1] == name[found - 1 - start]);
    }
    assert(path.take(place.len() as int) =~= place) by {
        assert(inner.take(place.len() as int) =~= place);
        assert(path.take(place.len() as int) =~= inner.take(place.len() as int));
    }
    lemma_untrimmed(place, 3, false);
    assert(parent_len(path) == place.len());
}

/// Under a literal path a dot is a name like any other, so it stays in
/// the directory.
pub proof fn literal_paths_keep_dots(volume: Seq<u16>, dir: Seq<u16>, name: Seq<u16>)
    requires
        volume.len() > 0,
        forall|k: int| 0 <= k < volume.len() ==> #[trigger] volume[k] != 0x5c,
        volume != seq![0x55u16, 0x4eu16, 0x43u16],
        name.len() > 0,
        forall|k: int| 0 <= k < name.len() ==> #[trigger] name[k] != 0x5c,
        dir.len() > 0,
        dir[0] != 0x5c && dir.last() != 0x5c,
        forall|k: int| 0 <= k < dir.len() - 1 ==> !(#[trigger] dir[k] == 0x5c && dir[k + 1] == 0x5c),
    ensures
        ({
            let root = seq![0x5cu16, 0x5cu16, 0x3fu16, 0x5cu16] + volume + seq![0x5cu16];
            let dotted = dir + seq![0x5cu16, 0x2eu16];
            directory((root + dotted).push(0x5c) + name) == (root + dotted).push(0x5c)
        }),
{
    let root = seq![0x5cu16, 0x5cu16, 0x3fu16, 0x5cu16] + volume + seq![0x5cu16];
    let dotted = dir + seq![0x5cu16, 0x2eu16];
    assert forall|k: int| 0 <= k < dotted.len() - 1 implies !(#[trigger] dotted[k] == 0x5c
        && dotted[k + 1] == 0x5c) by {
        if k < dir.len() - 1 {
            assert(dotted[k] == dir[k] && dotted[k + 1] == dir[k + 1]);
        } else if k == dir.len() - 1 {
            assert(dotted[k] == dir.last());
        } else {
            assert(dotted[k + 1] == 0x2e);
        }
    }
    assert(dotted[0] == dir[0]);
    assert(dotted.last() == 0x2e);
    lemma_literal_parent(volume, dotted, name);
    let place = root + dotted;
    lemma_collapsed_short(root, root.len() - 1);
    lemma_collapsed_tail(root, dotted, root.len() - 1);
    assert(place.last() == 0x2e);
}

/// Under a literal path, of repeated backslashes within a directory one
/// stays.
pub proof fn literal_paths_keep_one_backslash(
    volume: Seq<u16>,
    outer: Seq<u16>,
    inner: Seq<u16>,
    name: Seq<u16>,
)
    requires
        volume.len() > 0,
        forall|k: int| 0 <= k < volume.len() ==> #[trigger] volume[k] != 0x5c,
        volume != seq![0x55u16, 0x4eu16, 0x43u16],
        name.len() > 0,
        forall|k: int| 0 <= k < name.len() ==> #[trigger] name[k] != 0x5c,
        outer.len() > 0,
        forall|k: int| 0 <= k < outer.len() ==> #[trigger] outer[k] != 0x5c,
        inner.len() > 0,
        forall|k: int| 0 <= k < inner.len() ==> #[trigger] inner[k] != 0x5c,
        inner.last() != 0x2f,
    ensures
        ({
            let root = seq![0x5cu16, 0x5cu16, 0x3fu16, 0x5cu16] + volume + seq![0x5cu16];
            let twice = outer.push(0x5c).push(0x5c) + inner;
            directory((root + twice).push(0x5c) + name) == (root + outer.push(0x5c) + inner).push(
                0x5c,
            )
        }),
{
    let root = seq![0x5cu16, 0x5cu16, 0x3fu16, 0x5cu16] + volume + seq![0x5cu16];
    let r = root.len() as int;
    let once = outer.push(0x5c);
    let twice = once.push(0x5c) + inner;
    assert(twice.last() == inner[inner.len() - 1]);
    lemma_literal_parent(volume, twice, name);
    assert forall|k: int| 0 <= k < once.len() - 1 implies !(#[trigger] once[k] == 0x5c && once[k
        + 1] == 0x5c) by {
        assert(once[k] == outer[k]);
    }
    assert(once[0] == outer[0]);
    lemma_collapsed_short(root, r - 1);
    lemma_collapsed_tail(root, once, r - 1);
    let one = root + once;
    let two = one.push(0x5c);
    assert(two.drop_last() =~= one);
    assert(two[two.len() - 2] == 0x5c);
    assert(collapsed(two, r - 1) == one);
    assert(root + twice =~= two + inner);
    lemma_collapsed_tail(two, inner, r - 1);
    assert((one + inner).last() == inner.last());
}

proof fn lemma_collapsed_tail(path: Seq<u16>, tail: Seq<u16>, from: int)
    requires
        0 <= from < path.len(),
        tail.len() > 0 ==> tail[0] != 0x5c,
        forall|k: int|
            0 <= k < tail.len() - 1 ==> !(#[trigger] tail[k] == 0x5c && tail[k + 1] == 0x5c),
    ensures
        collapsed(path + tail, from) == collapsed(path, from) + tail,
    decreases tail.len(),
{
    if tail.len() == 0 {
        assert(path + tail =~= path);
        assert(collapsed(path, from) + tail =~= collapsed(path, from));
    } else {
        let shorter = tail.drop_last();
        assert forall|k: int| 0 <= k < shorter.len() - 1 implies !(#[trigger] shorter[k] == 0x5c
            && shorter[k + 1] == 0x5c) by {
            assert(shorter[k] == tail[k] && shorter[k + 1] == tail[k + 1]);
        }
        if shorter.len() > 0 {
            assert(shorter[0] == tail[0]);
        }
        lemma_collapsed_tail(path, shorter, from);
        let all = path + tail;
        assert(all.drop_last() =~= path + shorter);
        assert(all.last() == tail.last());
        if tail.len() > 1 {
            assert(all[all.len() - 2] == tail[tail.len() - 2]);
            assert(!(tail[tail.len() - 2] == 0x5c && tail[tail.len() - 1] == 0x5c));
        }
        assert((collapsed(path, from) + shorter).push(tail.last()) =~= collapsed(path, from)
            + tail);
    }
}

proof fn lemma_literal_parent(volume: Seq<u16>, dir: Seq<u16>, name: Seq<u16>)
    requires
        volume.len() > 0,
        forall|k: int| 0 <= k < volume.len() ==> #[trigger] volume[k] != 0x5c,
        volume != seq![0x55u16, 0x4eu16, 0x43u16],
        name.len() > 0,
        forall|k: int| 0 <= k < name.len() ==> #[trigger] name[k] != 0x5c,
        dir.len() > 0,
        dir.last() != 0x5c,
    ensures
        ({
            let root = seq![0x5cu16, 0x5cu16, 0x3fu16, 0x5cu16] + volume + seq![0x5cu16];
            let path = (root + dir).push(0x5c) + name;
            &&& is_verbatim(path)
            &&& prefix_len(path) == root.len() - 1
            &&& parent_len(path) == root.len() + dir.len()
            &&& path.take(parent_len(path)) == root + dir
        }),
{
    let root = seq![0x5cu16, 0x5cu16, 0x3fu16, 0x5cu16] + volume + seq![0x5cu16];
    let r = root.len() as int;
    let path = (root + dir).push(0x5c) + name;
    assert(path =~= root + (dir.push(0x5c) + name));
    lemma_literal_root(volume, dir.push(0x5c) + name);
    let d = r + dir.len();
    let start = d + 1;
    lemma_name_start(path, r, true);
    let found = name_start(path, r, true);
    if found < start {
        assert(!is_path_separator(path[start - 1], true));
        assert(path[start - 1] == 0x5c);
    }
    if found > start {
        assert(path[found - 1] == name[found - 1 - start]);
    }
    assert(trimmed_len(path, r, true) == path.len());
    assert(path.take(path.len() as int) =~= path);
    let place = path.take(d);
    assert(place =~= root + dir);
    lemma_name_start(place, r, true);
    let inner = name_start(place, r, true);
    if inner == place.len() {
        assert(place[inner - 1] == dir.last());
    }
    assert(trimmed_len(place, r, true) == d);
}

/// The directory of a file on a network share that is written literally,
/// as `\\?\UNC\server\share`.
pub proof fn directory_on_a_literal_share(
    server: Seq<u16>,
    share: Seq<u16>,
    dir: Seq<u16>,
    name: Seq<u16>,
)
    requires
        server.len() > 0,
        forall|k: int| 0 <= k < server.len() ==> #[trigger] server[k] != 0x5c,
        share.len() > 0,
        forall|k: int| 0 <= k < share.len() ==> #[trigger] share[k] != 0x5c,
        name.len() > 0,
        forall|k: int| 0 <= k < name.len() ==> #[trigger] name[k] != 0x5c,
        name.len() == 1 ==> name[0] != 0x2e,
        dir.len() > 0 ==> dir[0] != 0x5c && dir.last() != 0x5c && dir.last() != 0x2f && dir.last()
            != 0x2e,
        forall|k: int| 0 <= k < dir.len() - 1 ==> !(#[trigger] dir[k] == 0x5c && dir[k + 1] == 0x5c),
    ensures
        ({
            let root = seq![0x5cu16, 0x5cu16, 0x3fu16, 0x5cu16, 0x55u16, 0x4eu16, 0x43u16, 0x5cu16]
                + server + seq![0x5cu16] + share + seq![0x5cu16];
            &&& directory(root + name) == root
            &&& dir.len() > 0 ==> directory(root + dir + seq![0x5cu16] + name) == root + dir
                + seq![0x5cu16]
        }),
{
    let root = seq![0x5cu16, 0x5cu16, 0x3fu16, 0x5cu16, 0x55u16, 0x4eu16, 0x43u16, 0x5cu16]
        + server + seq![0x5cu16] + share + seq![0x5cu16];
    let r = root.len() as int;
    let first = root + name;
    lemma_literal_share_root(server, share, name);
    assert forall|k: int| r <= k < first.len() implies !is_path_separator(
        #[trigger] first[k],
        true,
    ) by {
        assert(first[k] == name[k - r]);
    }
    if first.len() == r + 1 {
        assert(first[r] == name[0]);
    }
    lemma_parent_is(first, r);
    assert(first.take(r) =~= root);
    assert(root.last() == 0x5c);
    lemma_collapsed_short(root, r - 1);
    assert(directory(first) =~= root);
    if dir.len() > 0 {
        let tail = dir + seq![0x5cu16] + name;
        let path = root + dir + seq![0x5cu16] + name;
        assert(path =~= root + tail);
        lemma_literal_share_root(server, share, tail);
        let d = r + dir.len();
        assert(path[d] == 0x5c);
        assert(path[d - 1] == dir.last());
        assert forall|k: int| d + 1 <= k < path.len() implies !is_path_separator(
            #[trigger] path[k],
            true,
        ) by {
            assert(path[k] == name[k - d - 1]);
        }
        if path.len() == d + 2 {
            assert(path[d + 1] == name[0]);
        }
        lemma_parent_is(path, d);
        let parent = root + dir;
        assert(path.take(d) =~= parent);
        assert forall|k: int| r - 1 <= k < parent.len() - 1 implies !(#[trigger] parent[k] == 0x5c
            && parent[k + 1] == 0x5c) by {
            if k >= r {
                assert(parent[k] == dir[k - r]);
                assert(parent[k + 1] == dir[k - r + 1]);
            } else {
                assert(parent[k + 1] == dir[0]);
            }
        }
        lemma_collapsed_keeps(parent, r - 1);
        assert(parent.last() == dir.last());
        assert(directory(path) =~= root + dir + seq![0x5cu16]);
    }
}

proof fn lemma_literal_share_root(server: Seq<u16>, share: Seq<u16>, tail: Seq<u16>)
    requires
        server.len() > 0,
        forall|k: int| 0 <= k < server.len() ==> #[trigger] server[k] != 0x5c,
        share.len() > 0,
        forall|k: int| 0 <= k < share.len() ==> #[trigger] share[k] != 0x5c,
    ensures
        ({
            let root = seq![0x5cu16, 0x5cu16, 0x3fu16, 0x5cu16, 0x55u16, 0x4eu16, 0x43u16, 0x5cu16]
                + server + seq![0x5cu16] + share + seq![0x5cu16];
            &&& is_verbatim(root + tail)
            &&& prefix_len(root + tail) == root.len() - 1
            &&& body_start(root + tail) == root.len()
        }),
{
    let root = seq![0x5cu16, 0x5cu16, 0x3fu16, 0x5cu16, 0x55u16, 0x4eu16, 0x43u16, 0x5cu16]
        + server + seq![0x5cu16] + share + seq![0x5cu16];
    let path = root + tail;
    assert(is_verbatim(path));
    assert(has_unc(path, 4));
    let a = 8 + server.len() as int;
    assert forall|k: int| 8 <= k < a implies !is_path_separator(#[trigger] path[k], true) by {
        assert(path[k] == server[k - 8]);
    }
    assert(path[a] == 0x5c);
    lemma_component_end_is(path, 8, a, true);
    let b = a + 1 + share.len() as int;
    assert forall|k: int| a + 1 <= k < b implies !is_path_separator(#[trigger] path[k], true) by {
        assert(path[k] == share[k - a - 1]);
    }
    assert(path[b] == 0x5c);
    lemma_component_end_is(path, a + 1, b, true);
    assert(prefix_len(path) == b);
}

} // verus!
