//! Character-level helpers for names and `/`-separated paths.
use vstd::prelude::*;

verus! {

/// Whether `s` begins with `p`.
pub open spec fn is_prefix_of(p: Seq<char>, s: Seq<char>) -> bool {
    p.len() <= s.len() && s.subrange(0, p.len() as int) == p
}

/// Appending `part` to `base` the way a path is pushed: an absolute `part`
/// replaces `base`, and a separator is put in between unless `base` is empty
/// or already ends with one.
pub open spec fn join_spec(base: Seq<char>, part: Seq<char>) -> Seq<char> {
    if part.len() > 0 && part[0] == '/' {
        part
    } else if base.len() == 0 {
        part
    } else if base.last() == '/' {
        base + part
    } else {
        base + seq!['/'] + part
    }
}

/// Joins each of `parts`, in order, onto `base`.
pub open spec fn join_all_spec(base: Seq<char>, parts: Seq<Seq<char>>) -> Seq<char>
    decreases parts.len(),
{
    if parts.len() == 0 {
        base
    } else {
        join_spec(join_all_spec(base, parts.drop_last()), parts.last())
    }
}

/// Character-wise equality of two strings.
pub fn same_text(a: &str, b: &str) -> (r: bool)
    ensures
        r == (a@ == b@),
{
    let n = a.unicode_len();
    if n != b.unicode_len() {
        return false;
    }
    let mut i: usize = 0;
    while i < n
        invariant
            n == a@.len(),
            n == b@.len(),
            i <= n,
            a@.subrange(0, i as int) == b@.subrange(0, i as int),
        decreases n - i,
    {
        if a.get_char(i) != b.get_char(i) {
            assert(a@[i as int] != b@[i as int]);
            return false;
        }
        assert(a@.subrange(0, i + 1) == a@.subrange(0, i as int).push(a@[i as int]));
        assert(b@.subrange(0, i + 1) == b@.subrange(0, i as int).push(b@[i as int]));
        i = i + 1;
    }
    assert(a@ == a@.subrange(0, n as int));
    assert(b@ == b@.subrange(0, n as int));
    true
}

/// Whether `s` begins with `p`.
pub fn starts_with(s: &str, p: &str) -> (r: bool)
    ensures
        r == is_prefix_of(p@, s@),
{
    let n = p.unicode_len();
    if n > s.unicode_len() {
        return false;
    }
    let mut i: usize = 0;
    while i < n
        invariant
            n == p@.len(),
            n <= s@.len(),
            i <= n,
            s@.subrange(0, i as int) == p@.subrange(0, i as int),
        decreases n - i,
    {
        if s.get_char(i) != p.get_char(i) {
            assert(s@.subrange(0, n as int)[i as int] != p@[i as int]);
            return false;
        }
        assert(s@.subrange(0, i + 1) == s@.subrange(0, i as int).push(s@[i as int]));
        assert(p@.subrange(0, i + 1) == p@.subrange(0, i as int).push(p@[i as int]));
        i = i + 1;
    }
    assert(p@ == p@.subrange(0, n as int));
    true
}

/// `part` pushed onto `base` as a path component.
pub fn join(base: &str, part: &str) -> (r: String)
    ensures
        r@ == join_spec(base@, part@),
{
    let pn = part.unicode_len();
    if pn > 0 && part.get_char(0) == '/' {
        return String::from_str(part);
    }
    let bn = base.unicode_len();
    if bn == 0 {
        return String::from_str(part);
    }
    let mut r = String::from_str(base);
    if base.get_char(bn - 1) != '/' {
        r.append("/");
        proof {
            reveal_strlit("/");
        }
        assert(r@ == base@ + seq!['/']);
    }
    r.append(part);
    r
}

/// Each of `parts`, in order, pushed onto `base`.
pub fn join_all(base: &str, parts: &Vec<String>) -> (r: String)
    ensures
        r@ == join_all_spec(base@, parts@.map_values(|p: String| p@)),
{
    let ghost views = parts@.map_values(|p: String| p@);
    let mut r = String::from_str(base);
    let mut i: usize = 0;
    while i < parts.len()
        invariant
            i <= parts.len(),
            views == parts@.map_values(|p: String| p@),
            r@ == join_all_spec(base@, views.subrange(0, i as int)),
        decreases parts.len() - i,
    {
        assert(views.subrange(0, i + 1).drop_last() == views.subrange(0, i as int));
        r = join(r.as_str(), parts[i].as_str());
        i = i + 1;
    }
    assert(views.subrange(0, parts.len() as int) == views);
    r
}

/// `s` without the `/` characters at its end.
pub open spec fn trim_trailing_slashes(s: Seq<char>) -> Seq<char>
    decreases s.len(),
{
    if s.len() > 0 && s.last() == '/' {
        trim_trailing_slashes(s.drop_last())
    } else {
        s
    }
}

/// The characters of `s` after its last `/` (all of `s` when it has none).
pub open spec fn after_last_slash(s: Seq<char>) -> Seq<char>
    decreases s.len(),
{
    if s.len() == 0 {
        s
    } else if s.last() == '/' {
        Seq::empty()
    } else {
        after_last_slash(s.drop_last()).push(s.last())
    }
}

/// The last component of a path, unless that is empty, `.` or `..`.
pub open spec fn file_name_spec(s: Seq<char>) -> Option<Seq<char>> {
    let n = after_last_slash(trim_trailing_slashes(s));
    if n.len() == 0 || n == "."@ || n == ".."@ {
        None
    } else {
        Some(n)
    }
}

/// The length of the prefix `path@.subrange(0, end)` once its trailing `/`
/// characters are dropped.
fn trimmed_end(path: &str, end: usize) -> (r: usize)
    requires
        end <= path@.len(),
    ensures
        r <= end,
        path@.subrange(0, r as int) == trim_trailing_slashes(path@.subrange(0, end as int)),
{
    let mut e: usize = end;
    while e > 0 && path.get_char(e - 1) == '/'
        invariant
            e <= end <= path@.len(),
            trim_trailing_slashes(path@.subrange(0, e as int)) == trim_trailing_slashes(
                path@.subrange(0, end as int),
            ),
        decreases e,
    {
        assert(path@.subrange(0, e as int).drop_last() == path@.subrange(0, e - 1));
        e = e - 1;
    }
    e
}

/// Where the last component of `path` starts and ends, once trailing `/`
/// characters are dropped.
fn last_component(path: &str) -> (r: (usize, usize))
    ensures
        r.0 <= r.1 <= path@.len(),
        path@.subrange(0, r.1 as int) == trim_trailing_slashes(path@),
        path@.subrange(r.0 as int, r.1 as int) == after_last_slash(trim_trailing_slashes(path@)),
{
    let len = path.unicode_len();
    assert(path@.subrange(0, len as int) == path@);
    let end = trimmed_end(path, len);
    let ghost t = path@.subrange(0, end as int);
    let mut start: usize = end;
    assert(t.subrange(end as int, end as int) =~= Seq::<char>::empty());
    while start > 0 && path.get_char(start - 1) != '/'
        invariant
            start <= end <= len,
            len == path@.len(),
            t == path@.subrange(0, end as int),
            after_last_slash(t) == after_last_slash(path@.subrange(0, start as int)) + path@.subrange(
                start as int,
                end as int,
            ),
        decreases start,
    {
        let ghost p = path@.subrange(0, start as int);
        assert(p.drop_last() == path@.subrange(0, start - 1));
        assert(path@.subrange(start - 1, end as int) =~= seq![path@[start - 1]] + path@.subrange(
            start as int,
            end as int,
        ));
        start = start - 1;
    }
    if start > 0 {
        assert(path@.subrange(0, start as int).last() == '/');
    }
    assert(after_last_slash(path@.subrange(0, start as int)) =~= Seq::<char>::empty());
    assert(path@.subrange(start as int, end as int) =~= after_last_slash(t));
    (start, end)
}

/// The last component of `path`, unless that is empty, `.` or `..`.
pub fn file_name(path: &str) -> (r: Option<String>)
    ensures
        opt_text(r) == file_name_spec(path@),
{
    let (start, end) = last_component(path);
    let n = path.substring_char(start, end);
    if n.unicode_len() == 0 || same_text(n, ".") || same_text(n, "..") {
        None
    } else {
        Some(String::from_str(n))
    }
}

/// The path above `s`: none for an empty path or the root, empty for a
/// single relative component, `/` for a component right under the root.
pub open spec fn parent_spec(s: Seq<char>) -> Option<Seq<char>> {
    let t = trim_trailing_slashes(s);
    if t.len() == 0 {
        None
    } else {
        let rest = t.subrange(0, t.len() - after_last_slash(t).len());
        if rest.len() == 0 {
            Some(Seq::empty())
        } else if trim_trailing_slashes(rest).len() == 0 {
            Some(seq!['/'])
        } else {
            Some(trim_trailing_slashes(rest))
        }
    }
}

/// The path above `path`.
pub fn parent_of(path: &str) -> (r: Option<String>)
    ensures
        opt_text(r) == parent_spec(path@),
{
    let (start, end) = last_component(path);
    if end == 0 {
        return None;
    }
    if start == 0 {
        assert(path@.subrange(0, end as int).subrange(0, 0) =~= Seq::<char>::empty());
        return Some(String::new());
    }
    assert(path@.subrange(0, end as int).subrange(0, start as int) == path@.subrange(
        0,
        start as int,
    ));
    let e = trimmed_end(path, start);
    if e == 0 {
        let r = String::from_str("/");
        proof {
            reveal_strlit("/");
        }
        assert(r@ =~= seq!['/']);
        return Some(r);
    }
    Some(String::from_str(path.substring_char(0, e)))
}

pub open spec fn opt_text(o: Option<String>) -> Option<Seq<char>> {
    match o {
        Some(s) => Some(s@),
        None => None,
    }
}

/// Whether `pat` occurs in `s`.
pub open spec fn contains_spec(s: Seq<char>, pat: Seq<char>) -> bool {
    exists|i: int| 0 <= i <= s.len() - pat.len() && #[trigger] s.subrange(i, i + pat.len()) == pat
}

/// Whether `pat` occurs in `s`.
pub fn contains_text(s: &str, pat: &str) -> (r: bool)
    ensures
        r == contains_spec(s@, pat@),
{
    let n = s.unicode_len();
    let m = pat.unicode_len();
    if m > n {
        return false;
    }
    let mut i: usize = 0;
    while i <= n - m
        invariant
            n == s@.len(),
            m == pat@.len(),
            m <= n,
            i <= n - m + 1,
            forall|k: int| 0 <= k < i ==> #[trigger] s@.subrange(k, k + m) != pat@,
        decreases n - m + 1 - i,
    {
        let rest = s.substring_char(i, n);
        if starts_with(rest, pat) {
            assert(rest@.subrange(0, m as int) =~= s@.subrange(i as int, i + m));
            return true;
        }
        assert(rest@.subrange(0, m as int) =~= s@.subrange(i as int, i + m));
        if i == n - m {
            return false;
        }
        i = i + 1;
    }
    false
}

/// `items` with `sep` between each two of them.
pub open spec fn joined(items: Seq<Seq<char>>, sep: Seq<char>) -> Seq<char>
    decreases items.len(),
{
    if items.len() == 0 {
        Seq::empty()
    } else if items.len() == 1 {
        items[0]
    } else {
        joined(items.drop_last(), sep) + sep + items.last()
    }
}

/// `items` with `sep` between each two of them.
pub fn join_with(items: &Vec<String>, sep: &str) -> (r: String)
    ensures
        r@ == joined(items@.map_values(|s: String| s@), sep@),
{
    let ghost v = items@.map_values(|s: String| s@);
    let mut r = String::new();
    let mut i: usize = 0;
    while i < items.len()
        invariant
            i <= items.len(),
            v == items@.map_values(|s: String| s@),
            r@ == joined(v.subrange(0, i as int), sep@),
        decreases items.len() - i,
    {
        let ghost prev = r@;
        assert(v.subrange(0, i + 1).drop_last() == v.subrange(0, i as int));
        if i > 0 {
            r.append(sep);
        }
        r.append(items[i].as_str());
        if i == 0 {
            assert(prev =~= Seq::<char>::empty());
            assert(r@ =~= v.subrange(0, 1)[0]);
        }
        i = i + 1;
    }
    assert(v.subrange(0, items.len() as int) == v);
    r
}

/// Whether `s` holds a path separator, `/` or `\\`.
pub open spec fn has_separator(s: Seq<char>) -> bool {
    exists|i: int| 0 <= i < s.len() && (#[trigger] s[i] == '/' || s[i] == '\\')
}

/// Whether `s` holds a path separator, `/` or `\\`.
pub fn contains_separator(s: &str) -> (r: bool)
    ensures
        r == has_separator(s@),
{
    let n = s.unicode_len();
    let mut i: usize = 0;
    while i < n
        invariant
            n == s@.len(),
            i <= n,
            forall|k: int| 0 <= k < i ==> s@[k] != '/' && s@[k] != '\\',
        decreases n - i,
    {
        let c = s.get_char(i);
        if c == '/' || c == '\\' {
            return true;
        }
        i = i + 1;
    }
    false
}

} // verus!
