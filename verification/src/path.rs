//! How a path names a file, read the way Windows reads paths: an optional prefix
//! (a disk `C:`, a share `\\server\share`, a device `\\.\name`, or a verbatim
//! `\\?\...` form), then components split at separators. Verbatim paths split only
//! at `\`; the others at `\` and `/`.
use vstd::prelude::*;
use crate::text::{
    chars_of, string_from_chars, ascii_upper, ascii_upper_char, is_ascii_text, lemma_ascii_case_chars,
};

verus! {

/// Path separators outside verbatim paths: `/` and `\`.
pub open spec fn is_separator(c: char) -> bool {
    c == '/' || c == '\\'
}

/// The separators of a path's components: only `\` in verbatim paths.
pub open spec fn is_component_separator(c: char, verbatim: bool) -> bool {
    if verbatim {
        c == '\\'
    } else {
        is_separator(c)
    }
}

pub open spec fn is_drive_letter(c: char) -> bool {
    ('A' <= c && c <= 'Z') || ('a' <= c && c <= 'z')
}

/// The index of the first component separator of `s` at or after `from`, or the
/// length of `s` when there is none.
pub open spec fn component_end(s: Seq<char>, from: int, verbatim: bool) -> int
    decreases s.len() - from,
{
    if from >= s.len() {
        s.len() as int
    } else if is_component_separator(s[from], verbatim) {
        from
    } else {
        component_end(s, from + 1, verbatim)
    }
}

pub proof fn lemma_component_end_bounds(s: Seq<char>, from: int, verbatim: bool)
    requires
        0 <= from,
    ensures
        from <= component_end(s, from, verbatim) <= s.len() || (from > s.len()
            && component_end(s, from, verbatim) == s.len()),
        component_end(s, from, verbatim) < s.len() ==> is_component_separator(
            s[component_end(s, from, verbatim)],
            verbatim,
        ),
    decreases s.len() - from,
{
    if from < s.len() && !is_component_separator(s[from], verbatim) {
        lemma_component_end_bounds(s, from + 1, verbatim);
    }
}

/// The length of the path's prefix (0 when it has none) and whether the path is
/// verbatim:
/// - `\\?\UNC\server\share`, `\\?\C:` and `\\?\name` are verbatim prefixes (the four
///   leading characters exactly so);
/// - `\\.\name` names a device;
/// - `\\server\share` names a share, when both parts are non-empty;
/// - `C:` names a disk.
/// Outside verbatim prefixes, `/` may stand for each `\`.
pub open spec fn path_prefix(p: Seq<char>) -> (int, bool) {
    if p.len() >= 2 && is_separator(p[0]) && is_separator(p[1]) {
        if p.len() >= 4 && p[0] == '\\' && p[1] == '\\' && p[2] == '?' && p[3] == '\\' {
            if p.len() >= 8 && p[4] == 'U' && p[5] == 'N' && p[6] == 'C' && is_separator(p[7]) {
                let server_end = component_end(p, 8, true);
                if server_end < p.len() && component_end(p, server_end + 1, true) > server_end + 1 {
                    (component_end(p, server_end + 1, true), true)
                } else {
                    (server_end, true)
                }
            } else if p.len() >= 6 && is_drive_letter(p[4]) && p[5] == ':' && (p.len() == 6 || p[6]
                == '\\') {
                (6, true)
            } else {
                (component_end(p, 4, true), true)
            }
        } else if p.len() >= 4 && p[2] == '.' && is_separator(p[3]) {
            (component_end(p, 4, false), false)
        } else {
            let server_end = component_end(p, 2, false);
            if server_end > 2 && server_end < p.len() && component_end(p, server_end + 1, false)
                > server_end + 1 {
                (component_end(p, server_end + 1, false), false)
            } else {
                (0, false)
            }
        }
    } else if p.len() >= 2 && is_drive_letter(p[0]) && p[1] == ':' {
        (2, false)
    } else {
        (0, false)
    }
}

pub proof fn lemma_path_prefix_bounds(p: Seq<char>)
    ensures
        0 <= path_prefix(p).0 <= p.len(),
{
    lemma_component_end_bounds(p, 2, false);
    lemma_component_end_bounds(p, 4, false);
    lemma_component_end_bounds(p, 4, true);
    lemma_component_end_bounds(p, 8, true);
    let a = component_end(p, 8, true);
    let b = component_end(p, 2, false);
    if a < p.len() {
        lemma_component_end_bounds(p, a + 1, true);
    }
    if b < p.len() {
        lemma_component_end_bounds(p, b + 1, false);
    }
}

/// The index just past the last component separator of `s`, or 0 when it has none.
pub open spec fn last_separator_end(s: Seq<char>, verbatim: bool) -> int
    decreases s.len(),
{
    if s.len() == 0 {
        0
    } else if is_component_separator(s.last(), verbatim) {
        s.len() as int
    } else {
        last_separator_end(s.drop_last(), verbatim)
    }
}

pub proof fn lemma_last_separator_end_bounds(s: Seq<char>, verbatim: bool)
    ensures
        0 <= last_separator_end(s, verbatim) <= s.len(),
        s.len() > 0 && !is_component_separator(s.last(), verbatim) ==> last_separator_end(
            s,
            verbatim,
        ) < s.len(),
    decreases s.len(),
{
    if s.len() > 0 && !is_component_separator(s.last(), verbatim) {
        lemma_last_separator_end_bounds(s.drop_last(), verbatim);
    }
}

/// The name that the last component of the path's part after its prefix gives:
/// trailing separators and (outside verbatim paths) `.` components are passed
/// over; a final `.` or `..`, or no component at all, gives no name.
pub open spec fn final_name(s: Seq<char>, verbatim: bool) -> Option<Seq<char>>
    decreases s.len(),
{
    if s.len() == 0 {
        None
    } else if is_component_separator(s.last(), verbatim) {
        final_name(s.drop_last(), verbatim)
    } else {
        let k = last_separator_end(s, verbatim);
        let comp = s.subrange(k, s.len() as int);
        if comp == seq!['.'] {
            if verbatim || k == 0 {
                None
            } else {
                proof {
                    lemma_last_separator_end_bounds(s, verbatim);
                }
                final_name(s.subrange(0, k), verbatim)
            }
        } else if comp == seq!['.', '.'] {
            None
        } else {
            Some(comp)
        }
    }
}

/// The file name of a path: the name its last component gives, after its prefix.
pub open spec fn file_name(p: Seq<char>) -> Option<Seq<char>> {
    let (n, verbatim) = path_prefix(p);
    final_name(p.subrange(n, p.len() as int), verbatim)
}

/// The index of the last `.` in `s`, or -1 when it has none.
pub open spec fn last_dot(s: Seq<char>) -> int
    decreases s.len(),
{
    if s.len() == 0 {
        -1
    } else if s.last() == '.' {
        s.len() - 1
    } else {
        last_dot(s.drop_last())
    }
}

/// The extension of a file name: what follows its last `.`, unless the name has no
/// `.` or its only `.` is its first character.
pub open spec fn name_extension(name: Seq<char>) -> Option<Seq<char>> {
    if last_dot(name) <= 0 {
        None
    } else {
        Some(name.subrange(last_dot(name) + 1, name.len() as int))
    }
}

/// The stem of a file name: what comes before its last `.`, or the whole name
/// when it has no extension.
pub open spec fn name_stem(name: Seq<char>) -> Seq<char> {
    if last_dot(name) <= 0 {
        name
    } else {
        name.subrange(0, last_dot(name))
    }
}

/// The extension of a path's file name, or the empty text when there is none.
pub open spec fn extension_text(p: Seq<char>) -> Seq<char> {
    match file_name(p) {
        Some(n) => match name_extension(n) {
            Some(e) => e,
            None => Seq::empty(),
        },
        None => Seq::empty(),
    }
}

/// The stem of a path's file name, or `img` when it has no file name.
pub open spec fn stem_text(p: Seq<char>) -> Seq<char> {
    match file_name(p) {
        Some(n) => name_stem(n),
        None => "img"@,
    }
}

proof fn lemma_last_separator_end_of_joined(x: Seq<char>, sep: char, f: Seq<char>, verbatim: bool)
    requires
        is_component_separator(sep, verbatim),
        forall|i: int| 0 <= i < f.len() ==> !is_separator(#[trigger] f[i]),
    ensures
        last_separator_end(x + seq![sep] + f, verbatim) == x.len() + 1,
    decreases f.len(),
{
    let p = x + seq![sep] + f;
    if f.len() == 0 {
        assert(p.last() == sep);
    } else {
        assert(p.last() == f[f.len() - 1]);
        assert(p.drop_last() =~= x + seq![sep] + f.drop_last());
        lemma_last_separator_end_of_joined(x, sep, f.drop_last(), verbatim);
    }
}

proof fn lemma_last_separator_end_of_name(f: Seq<char>, verbatim: bool)
    requires
        forall|i: int| 0 <= i < f.len() ==> !is_separator(#[trigger] f[i]),
    ensures
        last_separator_end(f, verbatim) == 0,
    decreases f.len(),
{
    if f.len() > 0 {
        assert(f.last() == f[f.len() - 1]);
        lemma_last_separator_end_of_name(f.drop_last(), verbatim);
    }
}

/// The directory part does not change a file's name: a name `f` (non-empty, without
/// separators, neither `.` nor `..`, and not starting with a disk such as `C:`) keeps
/// its name when a directory `d` and a separator come before it, unless the joined
/// path's prefix reaches past `d` (as `\\srv` followed by `\x.png` makes the share
/// `\\srv\x.png`) or the path is verbatim and joined with `/`, which verbatim
/// paths do not split at.
pub proof fn lemma_directory_keeps_file_name(d: Seq<char>, sep: char, f: Seq<char>)
    requires
        is_separator(sep),
        f.len() > 0,
        forall|i: int| 0 <= i < f.len() ==> !is_separator(#[trigger] f[i]),
        f != seq!['.'],
        f != seq!['.', '.'],
        !(f.len() >= 2 && is_drive_letter(f[0]) && f[1] == ':'),
        path_prefix(d + seq![sep] + f).0 <= d.len(),
        path_prefix(d + seq![sep] + f).1 ==> sep == '\\',
    ensures
        file_name(d + seq![sep] + f) == Some(f),
        file_name(f) == Some(f),
{
    let p = d + seq![sep] + f;
    let (n, verbatim) = path_prefix(p);
    lemma_path_prefix_bounds(p);
    let x = d.subrange(n, d.len() as int);
    let rest = p.subrange(n, p.len() as int);
    assert(rest =~= x + seq![sep] + f);
    assert(rest.last() == f[f.len() - 1]);
    lemma_last_separator_end_of_joined(x, sep, f, verbatim);
    assert(rest.subrange(x.len() + 1int, rest.len() as int) =~= f);
    lemma_name_alone(f);
}

/// A name on its own (non-empty, without separators, neither `.` nor `..`, not
/// starting with a disk such as `C:`) is its own file name.
pub proof fn lemma_name_alone(f: Seq<char>)
    requires
        f.len() > 0,
        forall|i: int| 0 <= i < f.len() ==> !is_separator(#[trigger] f[i]),
        f != seq!['.'],
        f != seq!['.', '.'],
        !(f.len() >= 2 && is_drive_letter(f[0]) && f[1] == ':'),
    ensures
        file_name(f) == Some(f),
{
    assert(!is_separator(f[0]));
    assert(f.len() >= 2 ==> !is_separator(f[1]));
    assert(path_prefix(f) == (0int, false));
    assert(f.subrange(0, f.len() as int) =~= f);
    assert(f.last() == f[f.len() - 1]);
    lemma_last_separator_end_of_name(f, false);
    assert(f.subrange(0, f.len() as int) =~= f);
}

proof fn lemma_last_dot_bounds(s: Seq<char>)
    ensures
        -1 <= last_dot(s) < s.len(),
    decreases s.len(),
{
    if s.len() > 0 && s.last() != '.' {
        lemma_last_dot_bounds(s.drop_last());
    }
}

proof fn lemma_last_dot_of_upper(n: Seq<char>)
    ensures
        last_dot(ascii_upper(n)) == last_dot(n),
    decreases n.len(),
{
    if n.len() > 0 {
        assert(ascii_upper(n).drop_last() =~= ascii_upper(n.drop_last()));
        assert(ascii_upper(n).last() == ascii_upper_char(n.last()));
        lemma_ascii_case_chars(n.last());
        lemma_last_dot_of_upper(n.drop_last());
    }
}

/// Changing the case of ASCII letters in a name changes its extension the same way.
pub proof fn lemma_extension_of_upper(n: Seq<char>)
    ensures
        name_extension(ascii_upper(n)) == match name_extension(n) {
            Some(e) => Some(ascii_upper(e)),
            None => None,
        },
{
    lemma_last_dot_of_upper(n);
    lemma_last_dot_bounds(n);
    if last_dot(n) > 0 {
        assert(ascii_upper(n).subrange(last_dot(n) + 1, n.len() as int) =~= ascii_upper(
            n.subrange(last_dot(n) + 1, n.len() as int),
        ));
    }
}

/// Changing the case of ASCII letters in a name (as above) changes its extension
/// the same way, and ASCII stays ASCII.
pub proof fn lemma_name_upper(f: Seq<char>)
    requires
        f.len() > 0,
        forall|i: int| 0 <= i < f.len() ==> !is_separator(#[trigger] f[i]),
        f != seq!['.'],
        f != seq!['.', '.'],
        !(f.len() >= 2 && is_drive_letter(f[0]) && f[1] == ':'),
        is_ascii_text(f),
    ensures
        extension_text(ascii_upper(f)) == ascii_upper(extension_text(f)),
        is_ascii_text(extension_text(f)),
        is_ascii_text(extension_text(ascii_upper(f))),
{
    let u = ascii_upper(f);
    assert forall|i: int| 0 <= i < u.len() implies !is_separator(#[trigger] u[i]) by {
        lemma_ascii_case_chars(f[i]);
    }
    assert(u != seq!['.']) by {
        if u.len() == 1 {
            lemma_ascii_case_chars(f[0]);
            assert(f[0] != '.') by {
                if f[0] == '.' {
                    assert(f =~= seq!['.']);
                }
            }
            assert(u[0] != seq!['.'][0]);
        }
    }
    assert(u != seq!['.', '.']) by {
        if u.len() == 2 {
            lemma_ascii_case_chars(f[0]);
            lemma_ascii_case_chars(f[1]);
            if f[0] == '.' && f[1] == '.' {
                assert(f =~= seq!['.', '.']);
            }
            assert(u[0] != seq!['.', '.'][0] || u[1] != seq!['.', '.'][1]);
        }
    }
    if f.len() >= 2 {
        lemma_ascii_case_chars(f[0]);
        lemma_ascii_case_chars(f[1]);
    }
    lemma_name_alone(f);
    lemma_name_alone(u);
    lemma_extension_of_upper(f);
    assert(ascii_upper(Seq::<char>::empty()) =~= Seq::<char>::empty());
    lemma_last_dot_bounds(f);
    if last_dot(f) > 0 {
        let e = f.subrange(last_dot(f) + 1, f.len() as int);
        assert forall|i: int| 0 <= i < e.len() implies (#[trigger] e[i]) as u32 <= 0x7F by {
            assert(e[i] == f[last_dot(f) + 1 + i]);
        }
        let ue = ascii_upper(e);
        assert forall|i: int| 0 <= i < ue.len() implies (#[trigger] ue[i]) as u32 <= 0x7F by {
            lemma_ascii_case_chars(e[i]);
        }
    }
}

proof fn lemma_component_end_at(s: Seq<char>, from: int, j: int, verbatim: bool)
    requires
        0 <= from <= j <= s.len(),
        forall|i: int| from <= i < j ==> !is_component_separator(#[trigger] s[i], verbatim),
        j == s.len() || is_component_separator(s[j], verbatim),
    ensures
        component_end(s, from, verbatim) == j,
    decreases j - from,
{
    if from < j {
        lemma_component_end_at(s, from + 1, j, verbatim);
    }
}

/// A share on its own, `\\server\share` (both parts non-empty and without
/// separators), names no file: it is all prefix.
pub proof fn lemma_share_names_no_file(server: Seq<char>, share: Seq<char>)
    requires
        server.len() > 0,
        share.len() > 0,
        forall|i: int| 0 <= i < server.len() ==> !is_separator(#[trigger] server[i]),
        forall|i: int| 0 <= i < share.len() ==> !is_separator(#[trigger] share[i]),
    ensures
        path_prefix(seq!['\\', '\\'] + server + seq!['\\'] + share).0 == server.len() + share.len()
            + 3,
        file_name(seq!['\\', '\\'] + server + seq!['\\'] + share) is None,
{
    let p = seq!['\\', '\\'] + server + seq!['\\'] + share;
    let n = server.len() as int;
    let m = share.len() as int;
    assert(p.len() == n + m + 3);
    assert forall|i: int| 2 <= i < 2 + n implies p[i] == server[i - 2] by {}
    assert(p[2 + n] == '\\');
    assert forall|i: int| 3 + n <= i < 3 + n + m implies p[i] == share[i - 3 - n] by {}
    assert forall|i: int| 2 <= i < 2 + n implies !is_separator(#[trigger] p[i]) by {
        assert(p[i] == server[i - 2]);
    }
    assert forall|i: int| 3 + n <= i < 3 + n + m implies !is_separator(#[trigger] p[i]) by {
        assert(p[i] == share[i - 3 - n]);
    }
    // The forms a share can take the shape of all reach the end of the path.
    lemma_component_end_at(p, 2, 2 + n, false);
    lemma_component_end_at(p, 3 + n, 3 + n + m, false);
    lemma_component_end_at(p, 3 + n, 3 + n + m, true);
    if n == 1 {
        assert forall|i: int| 4 <= i < p.len() implies !is_component_separator(#[trigger] p[i], true)
            by {}
        assert forall|i: int| 4 <= i < p.len() implies !is_component_separator(#[trigger] p[i], false)
            by {}
        lemma_component_end_at(p, 4, p.len() as int, true);
        lemma_component_end_at(p, 4, p.len() as int, false);
        if p.len() >= 8 {
            assert(!is_separator(p[7]));
        }
    } else {
        assert(!is_separator(p[3]));
    }
    assert(path_prefix(p).0 == p.len());
    assert(p.subrange(p.len() as int, p.len() as int) =~= Seq::<char>::empty());
}

fn separator_in(c: char, verbatim: bool) -> (r: bool)
    ensures
        r == is_component_separator(c, verbatim),
{
    if verbatim {
        c == '\\'
    } else {
        c == '/' || c == '\\'
    }
}

fn drive_letter(c: char) -> (r: bool)
    ensures
        r == is_drive_letter(c),
{
    ('A' <= c && c <= 'Z') || ('a' <= c && c <= 'z')
}

fn component_end_at(v: &Vec<char>, from: usize, verbatim: bool) -> (r: usize)
    requires
        from <= v.len(),
    ensures
        r as int == component_end(v@, from as int, verbatim),
        from <= r <= v.len(),
{
    let mut i = from;
    while i < v.len() && !separator_in(v[i], verbatim)
        invariant
            from <= i <= v.len(),
            component_end(v@, from as int, verbatim) == component_end(v@, i as int, verbatim),
        decreases v.len() - i,
    {
        i = i + 1;
    }
    i
}

/// The length of the path's prefix and whether it is verbatim (see `path_prefix`).
fn prefix_of(v: &Vec<char>) -> (r: (usize, bool))
    ensures
        (r.0 as int, r.1) == path_prefix(v@),
        r.0 <= v.len(),
{
    let n = v.len();
    if n >= 2 && (v[0] == '/' || v[0] == '\\') && (v[1] == '/' || v[1] == '\\') {
        if n >= 4 && v[0] == '\\' && v[1] == '\\' && v[2] == '?' && v[3] == '\\' {
            if n >= 8 && v[4] == 'U' && v[5] == 'N' && v[6] == 'C' && (v[7] == '/' || v[7] == '\\') {
                let server_end = component_end_at(v, 8, true);
                if server_end < n {
                    let share_end = component_end_at(v, server_end + 1, true);
                    if share_end > server_end + 1 {
                        return (share_end, true);
                    }
                }
                (server_end, true)
            } else if n >= 6 && drive_letter(v[4]) && v[5] == ':' && (n == 6 || v[6] == '\\') {
                (6, true)
            } else {
                (component_end_at(v, 4, true), true)
            }
        } else if n >= 4 && v[2] == '.' && (v[3] == '/' || v[3] == '\\') {
            (component_end_at(v, 4, false), false)
        } else {
            let server_end = component_end_at(v, 2, false);
            if server_end > 2 && server_end < n {
                let share_end = component_end_at(v, server_end + 1, false);
                if share_end > server_end + 1 {
                    return (share_end, false);
                }
            }
            (0, false)
        }
    } else if n >= 2 && drive_letter(v[0]) && v[1] == ':' {
        (2, false)
    } else {
        (0, false)
    }
}

/// The bounds in `v` of the name that `v[start..end]` gives (see `final_name`).
fn final_name_bounds(v: &Vec<char>, start: usize, end: usize, verbatim: bool) -> (r: Option<
    (usize, usize),
>)
    requires
        start <= end <= v.len(),
    ensures
        match r {
            Some((a, b)) => start <= a <= b <= end && final_name(
                v@.subrange(start as int, end as int),
                verbatim,
            ) == Some(v@.subrange(a as int, b as int)),
            None => final_name(v@.subrange(start as int, end as int), verbatim) is None,
        },
    decreases end,
{
    let ghost s = v@.subrange(start as int, end as int);
    if end == start {
        return None;
    }
    if separator_in(v[end - 1], verbatim) {
        assert(s.drop_last() =~= v@.subrange(start as int, end - 1));
        return final_name_bounds(v, start, end - 1, verbatim);
    }
    let mut k: usize = end;
    while k > start && !separator_in(v[k - 1], verbatim)
        invariant
            start <= k <= end <= v.len(),
            s == v@.subrange(start as int, end as int),
            last_separator_end(s, verbatim) == last_separator_end(
                v@.subrange(start as int, k as int),
                verbatim,
            ),
        decreases k,
    {
        assert(v@.subrange(start as int, k as int).drop_last() =~= v@.subrange(
            start as int,
            k - 1,
        ));
        k = k - 1;
    }
    assert(last_separator_end(s, verbatim) == k - start);
    let ghost comp = v@.subrange(k as int, end as int);
    assert(s.subrange(k - start, s.len() as int) =~= comp);
    if end - k == 1 && v[k] == '.' {
        assert(comp =~= seq!['.']);
        if verbatim || k == start {
            return None;
        }
        assert(s.subrange(0, k - start) =~= v@.subrange(start as int, k as int));
        return final_name_bounds(v, start, k, verbatim);
    }
    if end - k == 2 && v[k] == '.' && v[k + 1] == '.' {
        assert(comp =~= seq!['.', '.']);
        return None;
    }
    assert(comp != seq!['.']) by {
        if comp.len() == 1 {
            assert(comp[0] == v@[k as int]);
            assert(seq!['.'][0] == '.');
        } else {
            assert(seq!['.'].len() == 1);
        }
    }
    assert(comp != seq!['.', '.']) by {
        if comp.len() == 2 {
            assert(comp[0] == v@[k as int]);
            assert(comp[1] == v@[k + 1]);
            assert(seq!['.', '.'][0] == '.');
            assert(seq!['.', '.'][1] == '.');
        } else {
            assert(seq!['.', '.'].len() == 2);
        }
    }
    Some((k, end))
}

/// The bounds of the path's file name in `v`, if it has one.
fn file_name_bounds(v: &Vec<char>) -> (r: Option<(usize, usize)>)
    ensures
        match r {
            Some((a, b)) => a <= b <= v.len() && file_name(v@) == Some(
                v@.subrange(a as int, b as int),
            ),
            None => file_name(v@) is None,
        },
{
    let (n, verbatim) = prefix_of(v);
    final_name_bounds(v, n, v.len(), verbatim)
}

/// The position of the last `.` in `v[a..b]`, relative to `a`, if there is one.
fn last_dot_in(v: &Vec<char>, a: usize, b: usize) -> (r: Option<usize>)
    requires
        a <= b <= v.len(),
    ensures
        match r {
            Some(d) => d as int == last_dot(v@.subrange(a as int, b as int)) && d < b - a,
            None => last_dot(v@.subrange(a as int, b as int)) == -1,
        },
{
    let mut j: usize = b;
    while j > a
        invariant
            a <= j <= b <= v.len(),
            last_dot(v@.subrange(a as int, b as int)) == last_dot(v@.subrange(a as int, j as int)),
        decreases j,
    {
        if v[j - 1] == '.' {
            return Some(j - 1 - a);
        }
        assert(v@.subrange(a as int, j as int).drop_last() =~= v@.subrange(a as int, j - 1));
        j = j - 1;
    }
    None
}

/// The extension of `path`'s file name (the empty text when there is none),
/// before any change of case.
pub fn extension_of(path: &str) -> (r: String)
    ensures
        r@ == extension_text(path@),
{
    let v = chars_of(path);
    match file_name_bounds(&v) {
        Some((a, b)) => {
            match last_dot_in(&v, a, b) {
                Some(d) => {
                    if d == 0 {
                        String::new()
                    } else {
                        assert(v@.subrange(a as int, b as int).subrange(d + 1, b - a) =~= v@.subrange(
                            a + d + 1,
                            b as int,
                        ));
                        string_from_chars(&v, a + d + 1, b)
                    }
                },
                None => String::new(),
            }
        },
        None => String::new(),
    }
}

/// The stem of `path`'s file name, or `img` when it has no file name.
pub fn stem_of(path: &str) -> (r: String)
    ensures
        r@ == stem_text(path@),
{
    let v = chars_of(path);
    match file_name_bounds(&v) {
        Some((a, b)) => {
            match last_dot_in(&v, a, b) {
                Some(d) => {
                    if d == 0 {
                        string_from_chars(&v, a, b)
                    } else {
                        assert(v@.subrange(a as int, b as int).subrange(0, d as int) =~= v@.subrange(
                            a as int,
                            a + d,
                        ));
                        string_from_chars(&v, a, a + d)
                    }
                },
                None => string_from_chars(&v, a, b),
            }
        },
        None => "img".to_owned(),
    }
}

} // verus!
