//! Paths as text: components are separated by `/`, and the last component
//! that is neither empty nor `.` is the one a path names.
//!
//! Every function here is pure: it reads and builds strings and never
//! touches a file system.

use vstd::prelude::*;

use crate::text::chars_of;

verus! {

/// The character that separates the components of a path.
pub const SEPARATOR: char = '/';

/// The character that separates a file's stem from its extension.
pub const DOT: char = '.';

/// Index of the last occurrence of `c` in `s`, or `-1` when `c` does not occur.
pub open spec fn last_index_of(s: Seq<char>, c: char) -> int
    decreases s.len(),
{
    if s.len() == 0 {
        -1
    } else if s.last() == c {
        s.len() - 1
    } else {
        last_index_of(s.drop_last(), c)
    }
}

/// Length of `path` once the separators and `.` components at its end are
/// left out. They name nothing: `a/b/`, `a/b/.` and `a/b` end in the same
/// component.
pub open spec fn trimmed_len(path: Seq<char>) -> nat
    decreases path.len(),
{
    if path.len() > 0 && path.last() == SEPARATOR {
        trimmed_len(path.drop_last())
    } else if path.len() >= 2 && path.last() == DOT && path[path.len() - 2] == SEPARATOR {
        trimmed_len(path.drop_last())
    } else {
        path.len()
    }
}

/// Where the final component of `path` starts.
pub open spec fn name_start(path: Seq<char>) -> int {
    last_index_of(path.take(trimmed_len(path) as int), SEPARATOR) + 1
}

/// The final component of `path`, whatever it is: possibly empty, `.` or `..`.
pub open spec fn final_component(path: Seq<char>) -> Seq<char> {
    path.subrange(name_start(path), trimmed_len(path) as int)
}

/// Whether `name` can be the name of a file: one component, not empty, and
/// neither `.` nor `..`.
pub open spec fn is_file_name(name: Seq<char>) -> bool {
    &&& name.len() > 0
    &&& !name.contains(SEPARATOR)
    &&& name != seq![DOT]
    &&& name != seq![DOT, DOT]
}

/// The file name of `path`: its final component, unless the path is empty,
/// is only a root, or ends in `..` or in a lone `.`.
pub open spec fn spec_file_name(path: Seq<char>) -> Option<Seq<char>> {
    let name = final_component(path);
    if name.len() == 0 || name == seq![DOT] || name == seq![DOT, DOT] {
        None
    } else {
        Some(name)
    }
}

/// Length of the stem of the file name `name`: everything before its last
/// dot, or all of it when it has no dot or only a leading one.
pub open spec fn stem_len(name: Seq<char>) -> int {
    let dot = last_index_of(name, DOT);
    if dot <= 0 {
        name.len() as int
    } else {
        dot
    }
}

/// The stem of the file name of `path`.
pub open spec fn spec_file_stem(path: Seq<char>) -> Option<Seq<char>> {
    match spec_file_name(path) {
        Some(name) => Some(name.take(stem_len(name))),
        None => None,
    }
}

/// The extension of the file name of `path`: what follows its last dot,
/// where that dot is not its first character.
pub open spec fn spec_extension(path: Seq<char>) -> Option<Seq<char>> {
    match spec_file_name(path) {
        Some(name) => if last_index_of(name, DOT) > 0 {
            Some(name.skip(last_index_of(name, DOT) + 1))
        } else {
            None
        },
        None => None,
    }
}

/// `name` adjoined to `base`. A `name` that starts at the root replaces
/// `base`; otherwise one separator stands between the two, unless `base` is
/// empty or brings its own.
pub open spec fn spec_join(base: Seq<char>, name: Seq<char>) -> Seq<char> {
    if name.len() > 0 && name[0] == SEPARATOR {
        name
    } else if base.len() > 0 && base.last() != SEPARATOR {
        base + seq![SEPARATOR] + name
    } else {
        base + name
    }
}

/// `path` with the extension of its file name replaced by `ext`: the path
/// is cut right after the stem of its file name, then a dot and `ext`
/// follow, or nothing when `ext` is empty. A path without a file name stays
/// as it is.
pub open spec fn spec_with_extension(path: Seq<char>, ext: Seq<char>) -> Seq<char> {
    match spec_file_name(path) {
        Some(name) => {
            let kept = path.take(name_start(path) + stem_len(name));
            if ext.len() == 0 {
                kept
            } else {
                kept + seq![DOT] + ext
            }
        },
        None => path,
    }
}

/// What `last_index_of` finds is an occurrence, and nothing occurs after it.
pub proof fn lemma_last_index_of(s: Seq<char>, c: char)
    ensures
        -1 <= last_index_of(s, c) < s.len(),
        last_index_of(s, c) >= 0 ==> s[last_index_of(s, c)] == c,
        forall|j: int| last_index_of(s, c) < j < s.len() ==> s[j] != c,
        last_index_of(s, c) == -1 <==> !s.contains(c),
    decreases s.len(),
{
    if s.len() > 0 && s.last() != c {
        lemma_last_index_of(s.drop_last(), c);
        let r = last_index_of(s.drop_last(), c);
        assert(r >= 0 ==> s[r] == s.drop_last()[r]);
        assert forall|j: int| r < j < s.len() implies s[j] != c by {
            if j < s.len() - 1 {
                assert(s[j] == s.drop_last()[j]);
            }
        }
        if r == -1 {
            assert forall|j: int| 0 <= j < s.len() implies s[j] != c by {}
        }
    }
}

/// The trimmed length is a length of a prefix, and that prefix ends in
/// neither a separator nor a `.` component, unless it is `.` itself.
pub proof fn lemma_trimmed_len(path: Seq<char>)
    ensures
        trimmed_len(path) <= path.len(),
        trimmed_len(path) > 0 ==> path[trimmed_len(path) - 1] != SEPARATOR,
        trimmed_len(path) >= 2 && path[trimmed_len(path) - 1] == DOT ==> path[trimmed_len(path)
            - 2] != SEPARATOR,
    decreases path.len(),
{
    if path.len() > 0 && path.last() == SEPARATOR {
        lemma_trimmed_len(path.drop_last());
    } else if path.len() >= 2 && path.last() == DOT && path[path.len() - 2] == SEPARATOR {
        lemma_trimmed_len(path.drop_last());
    }
}

/// The final component holds no separator, and a separator or the start of
/// the path stands before it.
pub proof fn lemma_final_component(path: Seq<char>)
    ensures
        0 <= name_start(path) <= trimmed_len(path) <= path.len(),
        !final_component(path).contains(SEPARATOR),
        name_start(path) > 0 ==> path[name_start(path) - 1] == SEPARATOR,
        spec_file_name(path) is Some ==> is_file_name(spec_file_name(path)->0),
{
    lemma_trimmed_len(path);
    let end = trimmed_len(path) as int;
    let head = path.take(end);
    lemma_last_index_of(head, SEPARATOR);
    let start = name_start(path);
    let name = final_component(path);
    assert forall|j: int| 0 <= j < name.len() implies name[j] != SEPARATOR by {
        assert(name[j] == head[start + j]);
    }
    if start > 0 {
        assert(head[start - 1] == path[start - 1]);
    }
}

/// The index that `last_index_of` returns is the only one at which `c`
/// occurs with no `c` after it.
pub proof fn lemma_last_index_of_unique(s: Seq<char>, c: char, at: int)
    requires
        -1 <= at < s.len(),
        at >= 0 ==> s[at] == c,
        forall|j: int| at < j < s.len() ==> s[j] != c,
    ensures
        last_index_of(s, c) == at,
{
    lemma_last_index_of(s, c);
}

/// A path that ends in a character that is neither a separator nor a dot
/// has nothing to trim.
pub proof fn lemma_trimmed_len_of_plain_end(path: Seq<char>)
    requires
        path.len() > 0,
        path.last() != SEPARATOR,
        path.last() != DOT || path.len() == 1 || path[path.len() - 2] != SEPARATOR,
    ensures
        trimmed_len(path) == path.len(),
{
}

/// A file name adjoined to any base is the file name of the result, and
/// the result ends with it.
pub proof fn lemma_file_name_of_join(base: Seq<char>, name: Seq<char>)
    requires
        is_file_name(name),
    ensures
        spec_file_name(spec_join(base, name)) == Some(name),
        trimmed_len(spec_join(base, name)) == spec_join(base, name).len(),
        name_start(spec_join(base, name)) == spec_join(base, name).len() - name.len(),
        base.is_prefix_of(spec_join(base, name)),
{
    let joined = spec_join(base, name);
    let start = joined.len() - name.len();
    assert(name[0] != SEPARATOR) by {
        assert(name.contains(name[0]));
    }
    assert forall|j: int| start <= j < joined.len() implies joined[j] != SEPARATOR by {
        assert(joined[j] == name[j - start]);
        assert(name.contains(name[j - start]));
    }
    assert(joined.last() == name.last());
    if name.last() == DOT {
        lemma_dot_components(name);
        assert(name.len() >= 2 ==> joined[joined.len() - 2] == name[name.len() - 2]);
    }
    lemma_trimmed_len_of_plain_end(joined);
    assert(joined.take(joined.len() as int) == joined);
    lemma_last_index_of_unique(joined, SEPARATOR, start - 1);
    assert(joined.subrange(start, joined.len() as int) == name);
}

/// Replacing the extension keeps the directory and the stem of a path, and
/// makes `ext` its extension, for an `ext` that is one plain word.
pub proof fn lemma_with_extension(path: Seq<char>, ext: Seq<char>)
    requires
        spec_file_name(path) is Some,
        ext.len() > 0,
        !ext.contains(SEPARATOR),
        !ext.contains(DOT),
    ensures
        spec_file_stem(spec_with_extension(path, ext)) == spec_file_stem(path),
        spec_extension(spec_with_extension(path, ext)) == Some(ext),
        name_start(spec_with_extension(path, ext)) == name_start(path),
        spec_with_extension(path, ext).take(name_start(path)) == path.take(name_start(path)),
        spec_file_name(spec_with_extension(path, ext)) == Some(
            spec_file_stem(path)->0 + seq![DOT] + ext,
        ),
{
    lemma_final_component(path);
    let name = spec_file_name(path)->0;
    let start = name_start(path);
    lemma_last_index_of(name, DOT);
    let stem = name.take(stem_len(name));
    let replaced = spec_with_extension(path, ext);
    let new_name = stem + seq![DOT] + ext;
    assert(replaced == path.take(start) + new_name);
    assert(ext.contains(ext.last()));
    assert(replaced.last() == ext.last());
    lemma_trimmed_len_of_plain_end(replaced);
    assert(replaced.take(replaced.len() as int) == replaced);
    assert forall|j: int| start <= j < replaced.len() implies replaced[j] != SEPARATOR by {
        let k = j - start;
        if k < stem.len() {
            assert(replaced[j] == name[k]);
            assert(name.contains(name[k]));
        } else if k > stem.len() {
            assert(replaced[j] == ext[k - stem.len() - 1]);
            assert(ext.contains(ext[k - stem.len() - 1]));
        }
    }
    if start > 0 {
        assert(replaced[start - 1] == path[start - 1]);
    }
    lemma_last_index_of_unique(replaced, SEPARATOR, start - 1);
    assert(replaced.subrange(start, replaced.len() as int) == new_name);
    lemma_dot_components(new_name);
    assert forall|j: int| stem.len() < j < new_name.len() implies new_name[j] != DOT by {
        assert(new_name[j] == ext[j - stem.len() - 1]);
        assert(ext.contains(ext[j - stem.len() - 1]));
    }
    assert(new_name[stem.len() as int] == DOT);
    lemma_last_index_of_unique(new_name, DOT, stem.len() as int);
    assert(new_name.take(stem.len() as int) == stem);
    assert(new_name.skip(stem.len() as int + 1) == ext);
    assert(replaced.take(start) == path.take(start));
}

/// The two components that are not names, told by their characters.
proof fn lemma_dot_components(name: Seq<char>)
    ensures
        name == seq![DOT] <==> name.len() == 1 && name[0] == DOT,
        name == seq![DOT, DOT] <==> name.len() == 2 && name[0] == DOT && name[1] == DOT,
{
    if name.len() == 1 && name[0] == DOT {
        assert(name =~= seq![DOT]);
    }
    if name.len() == 2 && name[0] == DOT && name[1] == DOT {
        assert(name =~= seq![DOT, DOT]);
    }
}

/// Index of the last `c` among `chars[from..to]`, counted from `from`.
fn find_last(chars: &Vec<char>, from: usize, to: usize, c: char) -> (found: Option<usize>)
    requires
        from <= to <= chars.len(),
    ensures
        match found {
            Some(i) => i == last_index_of(chars@.subrange(from as int, to as int), c),
            None => last_index_of(chars@.subrange(from as int, to as int), c) == -1,
        },
{
    let mut i: usize = to;
    while i > from
        invariant
            from <= i <= to <= chars.len(),
            last_index_of(chars@.subrange(from as int, to as int), c) == last_index_of(
                chars@.subrange(from as int, i as int),
                c,
            ),
        decreases i,
    {
        if chars[i - 1] == c {
            return Some(i - 1 - from);
        }
        assert(chars@.subrange(from as int, i as int).drop_last() == chars@.subrange(
            from as int,
            i - 1,
        ));
        i = i - 1;
    }
    None
}

/// Where the final component of `chars` starts and ends.
fn name_bounds(chars: &Vec<char>) -> (bounds: (usize, usize))
    ensures
        bounds.0 == name_start(chars@),
        bounds.1 == trimmed_len(chars@),
        bounds.0 <= bounds.1 <= chars.len(),
{
    let mut end: usize = chars.len();
    assert(chars@.take(end as int) == chars@);
    while end > 0 && (chars[end - 1] == SEPARATOR || (end >= 2 && chars[end - 1] == DOT && chars[end
        - 2] == SEPARATOR))
        invariant
            end <= chars.len(),
            trimmed_len(chars@) == trimmed_len(chars@.take(end as int)),
        decreases end,
    {
        assert(chars@.take(end as int).drop_last() == chars@.take(end - 1));
        end = end - 1;
    }
    proof {
        lemma_final_component(chars@);
        assert(chars@.take(end as int) == chars@.subrange(0, end as int));
    }
    let start: usize = match find_last(chars, 0, end, SEPARATOR) {
        Some(i) => i + 1,
        None => 0,
    };
    (start, end)
}

/// The file name of `path`, as a part of it.
///
/// `None` when `path` names no file: it is empty, is only a root, or ends
/// in `..` or in a lone `.`.
pub fn file_name(path: &str) -> (name: Option<&str>)
    ensures
        name is Some == spec_file_name(path@) is Some,
        name is Some ==> name->0@ == spec_file_name(path@)->0,
{
    let chars = chars_of(path);
    let (start, end) = name_bounds(&chars);
    let len: usize = end - start;
    proof {
        let name = final_component(path@);
        assert(name.len() == len);
        lemma_dot_components(name);
        if len >= 1 {
            assert(name[0] == chars@[start as int]);
        }
        if len >= 2 {
            assert(name[1] == chars@[start + 1]);
        }
    }
    if len == 0 {
        None
    } else if len == 1 && chars[start] == DOT {
        None
    } else if len == 2 && chars[start] == DOT && chars[start + 1] == DOT {
        None
    } else {
        Some(path.substring_char(start, end))
    }
}

/// `name` adjoined to `base`.
///
/// A `name` that starts at the root replaces `base`. Otherwise the result
/// is `base`, one separator unless `base` is empty or ends in one, and
/// `name`.
pub fn join(base: &str, name: &str) -> (joined: String)
    ensures
        joined@ == spec_join(base@, name@),
{
    let base_chars = chars_of(base);
    let name_chars = chars_of(name);
    if name_chars.len() > 0 && name_chars[0] == SEPARATOR {
        return String::from_str(name);
    }
    let mut joined = String::from_str(base);
    if base_chars.len() > 0 && base_chars[base_chars.len() - 1] != SEPARATOR {
        proof {
            reveal_strlit("/");
            assert("/"@ == seq![SEPARATOR]);
        }
        joined.append("/");
    }
    joined.append(name);
    joined
}

/// `path` with the extension of its file name replaced by `ext`.
///
/// The path is cut right after the stem of its file name, so a former
/// extension goes, and with it any separators after the name. Then a dot
/// and `ext` follow, or nothing when `ext` is empty. A path without a file
/// name is returned as it is.
pub fn with_extension(path: &str, ext: &str) -> (replaced: String)
    ensures
        replaced@ == spec_with_extension(path@, ext@),
{
    let chars = chars_of(path);
    let (start, end) = name_bounds(&chars);
    let len: usize = end - start;
    proof {
        let name = final_component(path@);
        assert(name.len() == len);
        lemma_dot_components(name);
        assert(name == chars@.subrange(start as int, end as int));
        if len >= 1 {
            assert(name[0] == chars@[start as int]);
        }
        if len >= 2 {
            assert(name[1] == chars@[start + 1]);
        }
    }
    if len == 0 || (len == 1 && chars[start] == DOT) || (len == 2 && chars[start] == DOT
        && chars[start + 1] == DOT) {
        return String::from_str(path);
    }
    let stem: usize = match find_last(&chars, start, end, DOT) {
        Some(dot) => if dot == 0 {
            len
        } else {
            dot
        },
        None => len,
    };
    proof {
        lemma_last_index_of(final_component(path@), DOT);
    }
    let mut replaced = String::from_str(path.substring_char(0, start + stem));
    if !ext.is_empty() {
        proof {
            reveal_strlit(".");
            assert("."@ == seq![DOT]);
        }
        replaced.append(".");
        replaced.append(ext);
    }
    replaced
}

} // verus!
