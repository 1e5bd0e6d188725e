//! Path text: base names, prefixes and paths relative to a root.

use crate::files::same_text;
use vstd::prelude::*;
use vstd::string::*;

verus! {

/// The last component of a path: the text after its last `/`.
pub open spec fn base_name(path: Seq<char>) -> Seq<char>
    decreases path.len(),
{
    if path.len() == 0 || path.last() == '/' {
        Seq::empty()
    } else {
        base_name(path.drop_last()).push(path.last())
    }
}

/// Whether `prefix` is an initial part of `s`.
pub open spec fn starts_with(s: Seq<char>, prefix: Seq<char>) -> bool {
    prefix.len() <= s.len() && s.subrange(0, prefix.len() as int) == prefix
}

/// The path relative to a root, component-wise: the root itself gives the
/// empty path, a path below it the part after the root and its separator,
/// and any other path none.
pub open spec fn relative_to(root: Seq<char>, path: Seq<char>) -> Option<Seq<char>> {
    if path == root {
        Some(Seq::empty())
    } else if root.len() > 0 && root.last() == '/' && starts_with(path, root) {
        Some(path.subrange(root.len() as int, path.len() as int))
    } else if starts_with(path, root) && path.len() > root.len() && path[root.len() as int]
        == '/' {
        Some(path.subrange(root.len() as int + 1, path.len() as int))
    } else {
        None
    }
}

/// Index `i` begins a component of the path.
pub open spec fn component_start(k: Seq<char>, i: int) -> bool {
    i == 0 || k[i - 1] == '/'
}

/// The component that begins at `i` is `.` or `..`.
pub open spec fn dot_component(k: Seq<char>, i: int) -> bool {
    k[i] == '.' && (i + 1 == k.len() || k[i + 1] == '/' || (k[i + 1] == '.' && (i + 2 == k.len()
        || k[i + 2] == '/')))
}

/// Nothing wrong begins at `i`: no empty component and no `.` or `..` component.
pub open spec fn clean_at(k: Seq<char>, i: int) -> bool {
    !(k[i] == '/' && i + 1 < k.len() && k[i + 1] == '/') && !(component_start(k, i)
        && dot_component(k, i))
}

/// A plain relative path: not empty, no leading or trailing `/`, and every
/// component a name other than `.` and `..`.
pub open spec fn clean_relative(k: Seq<char>) -> bool {
    &&& k.len() > 0
    &&& k[0] != '/'
    &&& k.last() != '/'
    &&& forall|i: int| 0 <= i < k.len() ==> #[trigger] clean_at(k, i)
}

/// Whether a path is a plain relative path.
pub fn is_clean_relative(k: &str) -> (r: bool)
    ensures
        r == clean_relative(k@),
{
    let n = k.unicode_len();
    if n == 0 || k.get_char(0) == '/' || k.get_char(n - 1) == '/' {
        return false;
    }
    let mut i: usize = 0;
    while i < n
        invariant
            n == k@.len(),
            i <= n,
            forall|j: int| 0 <= j < i ==> #[trigger] clean_at(k@, j),
        decreases n - i,
    {
        let c = k.get_char(i);
        let next = if i + 1 < n {
            k.get_char(i + 1)
        } else {
            ' '
        };
        if c == '/' && i + 1 < n && next == '/' {
            assert(!clean_at(k@, i as int));
            return false;
        }
        let start = i == 0 || k.get_char(i - 1) == '/';
        if start && c == '.' {
            assert(component_start(k@, i as int));
            if i + 1 == n || next == '/' {
                assert(dot_component(k@, i as int));
                assert(!clean_at(k@, i as int));
                return false;
            }
            if next == '.' && (i + 2 == n || k.get_char(i + 2) == '/') {
                assert(dot_component(k@, i as int));
                assert(!clean_at(k@, i as int));
                return false;
            }
        }
        assert(clean_at(k@, i as int));
        i = i + 1;
    }
    true
}

/// The last component of a path.
pub fn file_name(path: &str) -> (r: &str)
    ensures
        r@ == base_name(path@),
{
    let n = path.unicode_len();
    let mut j: usize = n;
    proof {
        assert(path@.subrange(0, n as int) =~= path@);
        assert(path@.subrange(n as int, n as int) =~= Seq::<char>::empty());
    }
    while j > 0
        invariant
            n == path@.len(),
            j <= n,
            base_name(path@) == base_name(path@.subrange(0, j as int)) + path@.subrange(
                j as int,
                n as int,
            ),
        decreases j,
    {
        let c = path.get_char(j - 1);
        proof {
            let pre = path@.subrange(0, j as int);
            assert(pre.drop_last() =~= path@.subrange(0, j - 1));
            assert(pre.last() == c);
            assert(path@.subrange(j - 1, n as int) =~= seq![c] + path@.subrange(j as int, n as int));
        }
        if c == '/' {
            return path.substring_char(j, n);
        }
        j = j - 1;
    }
    proof {
        assert(path@.subrange(0, 0) =~= Seq::<char>::empty());
        assert(path@.subrange(0, n as int) =~= path@);
    }
    path.substring_char(0, n)
}

/// Whether `prefix` is an initial part of `s`.
fn has_prefix(s: &str, prefix: &str) -> (r: bool)
    ensures
        r == starts_with(s@, prefix@),
{
    let n = prefix.unicode_len();
    if n > s.unicode_len() {
        return false;
    }
    same_text(s.substring_char(0, n), prefix)
}

/// The path relative to `root`, or `None` for a path outside it.
pub fn relative_path(root: &str, path: &str) -> (r: Option<String>)
    ensures
        match relative_to(root@, path@) {
            Some(rel) => r matches Some(s) && s@ == rel,
            None => r is None,
        },
{
    let rn = root.unicode_len();
    let pn = path.unicode_len();
    if same_text(root, path) {
        return Some(String::new());
    }
    if !has_prefix(path, root) {
        return None;
    }
    if rn > 0 && root.get_char(rn - 1) == '/' {
        return Some(path.substring_char(rn, pn).to_owned());
    }
    if pn > rn && path.get_char(rn) == '/' {
        return Some(path.substring_char(rn + 1, pn).to_owned());
    }
    None
}

} // verus!
