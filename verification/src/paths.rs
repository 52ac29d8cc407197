//! Paths as text, compared component by component.
//!
//! A path is cut at `/` and at `\`. Paths are compared as they are given:
//! `.` and `..` are components like any other.

use vstd::prelude::*;

verus! {

/// Whether `c` separates the components of a path.
pub open spec fn is_separator(c: char) -> bool {
    c == '/' || c == '\\'
}

/// Reads `path` from the left: the components that a separator has ended, and
/// the characters read since the last separator.
pub open spec fn scan(path: Seq<char>) -> (Seq<Seq<char>>, Seq<char>)
    decreases path.len(),
{
    if path.len() == 0 {
        (Seq::empty(), Seq::empty())
    } else {
        let (done, current) = scan(path.drop_last());
        let c = path.last();
        if !is_separator(c) {
            (done, current.push(c))
        } else if current.len() > 0 {
            (done.push(current), Seq::empty())
        } else {
            (done, current)
        }
    }
}

/// The components of `path`: its longest stretches without a separator.
pub open spec fn components(path: Seq<char>) -> Seq<Seq<char>> {
    let (done, current) = scan(path);
    if current.len() > 0 {
        done.push(current)
    } else {
        done
    }
}

/// What stands for the root in front of the components of a path that begins
/// with a separator.
pub open spec fn root_mark() -> Seq<char> {
    seq!['/']
}

/// Whether `path` begins at the root.
pub open spec fn is_rooted(path: Seq<char>) -> bool {
    path.len() > 0 && is_separator(path[0])
}

/// The components of `path`, after the root mark if it begins at the root.
pub open spec fn parts(path: Seq<char>) -> Seq<Seq<char>> {
    if is_rooted(path) {
        seq![root_mark()] + components(path)
    } else {
        components(path)
    }
}

/// Whether `path` begins with all of `base`, component by component.
pub open spec fn starts_with(path: Seq<char>, base: Seq<char>) -> bool {
    parts(base).is_prefix_of(parts(path))
}

/// Whether two paths have the same components.
pub open spec fn same(a: Seq<char>, b: Seq<char>) -> bool {
    parts(a) == parts(b)
}

/// The views of the elements of `list`.
pub open spec fn views(list: Seq<Vec<char>>) -> Seq<Seq<char>> {
    Seq::new(list.len(), |i: int| list[i]@)
}

/// Whether `part` can be a component: it is not empty and holds no
/// separator.
pub open spec fn is_component(part: Seq<char>) -> bool {
    part.len() > 0 && forall|i: int| 0 <= i < part.len() ==> !is_separator(#[trigger] part[i])
}

/// What a separator has ended are components, and no separator was read since.
pub proof fn lemma_scan(path: Seq<char>)
    ensures
        forall|k: int| 0 <= k < scan(path).0.len() ==> is_component(#[trigger] scan(path).0[k]),
        forall|i: int| 0 <= i < scan(path).1.len() ==> !is_separator(#[trigger] scan(path).1[i]),
    decreases path.len(),
{
    if path.len() > 0 {
        lemma_scan(path.drop_last());
        let (done, current) = scan(path.drop_last());
        let c = path.last();
        let (now_done, now_current) = scan(path);
        assert forall|k: int| 0 <= k < now_done.len() implies is_component(
            #[trigger] now_done[k],
        ) by {
            if k < done.len() {
                assert(now_done[k] == done[k]);
            } else {
                assert(now_done[k] == current);
            }
        }
        assert forall|i: int| 0 <= i < now_current.len() implies !is_separator(
            #[trigger] now_current[i],
        ) by {
            if !is_separator(c) {
                if i < current.len() {
                    assert(now_current[i] == current[i]);
                }
            }
        }
    }
}

/// The components of a path are not empty and hold no separator.
pub proof fn lemma_components(path: Seq<char>)
    ensures
        forall|k: int|
            0 <= k < components(path).len() ==> is_component(#[trigger] components(path)[k]),
{
    lemma_scan(path);
}

/// A path begins with itself, and with whatever something it begins with
/// begins with.
pub proof fn lemma_starts_with_order(path: Seq<char>, middle: Seq<char>, base: Seq<char>)
    ensures
        starts_with(path, path),
        starts_with(path, middle) && starts_with(middle, base) ==> starts_with(path, base),
{
    assert(parts(path).subrange(0, parts(path).len() as int) =~= parts(path));
    if starts_with(path, middle) && starts_with(middle, base) {
        let p = parts(path);
        let m = parts(middle);
        let b = parts(base);
        assert(b =~= p.subrange(0, b.len() as int)) by {
            assert(m == p.subrange(0, m.len() as int));
            assert(b == m.subrange(0, b.len() as int));
        }
    }
}

/// The characters of `text`.
fn chars_of(text: &str) -> (r: Vec<char>)
    ensures
        r@ == text@,
{
    let len = text.unicode_len();
    let mut out: Vec<char> = Vec::new();
    let mut i: usize = 0;
    while i < len
        invariant
            i <= len == text@.len(),
            out@ == text@.subrange(0, i as int),
        decreases len - i,
    {
        out.push(text.get_char(i));
        i += 1;
        assert(out@ =~= text@.subrange(0, i as int));
    }
    assert(text@.subrange(0, len as int) =~= text@);
    out
}

/// Whether `c` separates the components of a path.
fn separates(c: char) -> (r: bool)
    ensures
        r == is_separator(c),
{
    c == '/' || c == '\\'
}

/// The components of `path`, after the root mark if it begins at the root.
pub fn split_path(path: &str) -> (r: Vec<Vec<char>>)
    ensures
        views(r@) == parts(path@),
{
    let text = chars_of(path);
    let mut done: Vec<Vec<char>> = Vec::new();
    if text.len() > 0 && separates(text[0]) {
        let mut mark: Vec<char> = Vec::new();
        mark.push('/');
        assert(mark@ =~= root_mark());
        done.push(mark);
    }
    let ghost lead: Seq<Seq<char>> = if is_rooted(path@) {
        seq![root_mark()]
    } else {
        Seq::empty()
    };
    assert(views(done@) =~= lead);
    let mut current: Vec<char> = Vec::new();
    let mut i: usize = 0;
    while i < text.len()
        invariant
            i <= text.len(),
            text@ == path@,
            views(done@) == lead + scan(text@.subrange(0, i as int)).0,
            current@ == scan(text@.subrange(0, i as int)).1,
        decreases text.len() - i,
    {
        let c = text[i];
        let ghost before = text@.subrange(0, i as int);
        let ghost now = text@.subrange(0, i + 1);
        let ghost old_done = done@;
        proof {
            assert(now.drop_last() =~= before);
            assert(now.last() == c);
        }
        if !separates(c) {
            current.push(c);
        } else if current.len() > 0 {
            done.push(current);
            current = Vec::new();
            assert(views(done@) =~= views(old_done).push(scan(before).1));
            assert(views(done@) =~= lead + scan(now).0);
        }
        i += 1;
    }
    assert(text@.subrange(0, i as int) =~= text@);
    if current.len() > 0 {
        let ghost old_done = done@;
        let ghost last = current@;
        done.push(current);
        assert(views(done@) =~= views(old_done).push(last));
        assert(views(done@) =~= lead + scan(path@).0.push(last));
    }
    assert(views(done@) =~= parts(path@));
    done
}

/// Whether two lists of characters are the same.
fn same_chars(a: &Vec<char>, b: &Vec<char>) -> (r: bool)
    ensures
        r == (a@ == b@),
{
    if a.len() != b.len() {
        return false;
    }
    let mut i: usize = 0;
    while i < a.len()
        invariant
            i <= a.len() == b.len(),
            a@.subrange(0, i as int) == b@.subrange(0, i as int),
        decreases a.len() - i,
    {
        if a[i] != b[i] {
            return false;
        }
        i += 1;
        assert(a@.subrange(0, i as int) =~= a@.subrange(0, i - 1).push(a@[i - 1]));
        assert(b@.subrange(0, i as int) =~= b@.subrange(0, i - 1).push(b@[i - 1]));
    }
    assert(a@ =~= a@.subrange(0, i as int));
    assert(b@ =~= b@.subrange(0, i as int));
    true
}

/// Whether `path` begins with every element of `base`, in order.
fn begins_with(path: &Vec<Vec<char>>, base: &Vec<Vec<char>>) -> (r: bool)
    ensures
        r == views(base@).is_prefix_of(views(path@)),
{
    if base.len() > path.len() {
        return false;
    }
    let mut i: usize = 0;
    while i < base.len()
        invariant
            i <= base.len() <= path.len(),
            forall|k: int| 0 <= k < i ==> base@[k]@ == path@[k]@,
        decreases base.len() - i,
    {
        if !same_chars(&base[i], &path[i]) {
            assert(views(base@)[i as int] != views(path@).subrange(0, base.len() as int)[i as int]);
            return false;
        }
        i += 1;
    }
    assert(views(base@) =~= views(path@).subrange(0, base.len() as int));
    true
}

/// Whether `path` begins with all of `base`, component by component.
pub fn path_starts_with(path: &str, base: &str) -> (r: bool)
    ensures
        r == starts_with(path@, base@),
{
    let path_parts = split_path(path);
    let base_parts = split_path(base);
    begins_with(&path_parts, &base_parts)
}

/// Whether two paths have the same components.
pub fn same_path(a: &str, b: &str) -> (r: bool)
    ensures
        r == same(a@, b@),
{
    let a_parts = split_path(a);
    let b_parts = split_path(b);
    let r = a_parts.len() == b_parts.len() && begins_with(&a_parts, &b_parts);
    proof {
        let x = views(a_parts@);
        let y = views(b_parts@);
        if r {
            assert(y =~= x.subrange(0, y.len() as int));
            assert(x.subrange(0, x.len() as int) =~= x);
        }
        if x == y {
            assert(y =~= x.subrange(0, y.len() as int));
        }
    }
    r
}

} // verus!
