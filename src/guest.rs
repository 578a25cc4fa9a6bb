use vstd::prelude::*;
use crate::command::{views, push_string};
use crate::context::{Context, CtxObj, Value, lemma_views_of};
use crate::docker::{flag_items, items_at};
use crate::text::str_eq;

verus! {

/// The languages the guest adapter can run.
#[derive(Debug, Clone, Copy, PartialEq, Eq, Structural)]
pub enum GuestLanguage {
    Python,
}

/// The index of the last occurrence of `c` in `s`, if any.
pub open spec fn last_index_of(s: Seq<char>, c: char) -> Option<int> {
    if s.contains(c) {
        Some(choose|i: int| 0 <= i < s.len() && s[i] == c && forall|j: int| i < j < s.len() ==> s[j] != c)
    } else {
        None
    }
}

/// The file name of a path: what follows its last `/`.
pub open spec fn file_name_of(path: Seq<char>) -> Seq<char> {
    match last_index_of(path, '/') {
        Some(i) => path.subrange(i + 1, path.len() as int),
        None => path,
    }
}

/// The extension of a path: what follows the last `.` of its file name, when
/// that dot does not begin the name.
pub open spec fn extension_of(path: Seq<char>) -> Option<Seq<char>> {
    let name = file_name_of(path);
    match last_index_of(name, '.') {
        Some(i) => if i > 0 {
            Some(name.subrange(i + 1, name.len() as int))
        } else {
            None
        },
        None => None,
    }
}

proof fn lemma_last_index(s: Seq<char>, c: char, i: int)
    requires
        0 <= i < s.len(),
        s[i] == c,
        forall|j: int| i < j < s.len() ==> s[j] != c,
    ensures
        last_index_of(s, c) == Some(i),
{
    assert(s.contains(c));
    let k = choose|k: int| 0 <= k < s.len() && s[k] == c && forall|j: int| k < j < s.len() ==> s[j] != c;
    if k < i {
        assert(s[i] != c);
    }
    if k > i {
        assert(s[k] != c);
    }
}

/// The index of the last occurrence of `c` in `s`, if any.
pub fn rfind_char(s: &str, c: char) -> (r: Option<usize>)
    ensures
        r matches Some(i) ==> last_index_of(s@, c) == Some(i as int) && i < s@.len(),
        r is None ==> last_index_of(s@, c) is None,
{
    let n = s.unicode_len();
    let mut i: usize = n;
    while i > 0
        invariant
            n == s@.len(),
            0 <= i <= n,
            forall|j: int| i <= j < n ==> s@[j] != c,
        decreases i,
    {
        if s.get_char(i - 1) == c {
            proof {
                lemma_last_index(s@, c, i - 1);
            }
            return Some(i - 1);
        }
        i = i - 1;
    }
    proof {
        assert(!s@.contains(c));
    }
    None
}

/// The extension of a path, if it has one.
pub fn extension(path: &str) -> (r: Option<String>)
    ensures
        crate::resolver::opt_view(r) == extension_of(path@),
{
    let n = path.unicode_len();
    let name = match rfind_char(path, '/') {
        Some(i) => path.substring_char(i + 1, n),
        None => path,
    };
    let m = name.unicode_len();
    match rfind_char(name, '.') {
        Some(i) => {
            if i > 0 {
                Some(String::from_str(name.substring_char(i + 1, m)))
            } else {
                None
            }
        },
        None => None,
    }
}

/// The language of a source file, by its extension: `py` is Python; any
/// other file cannot be run.
pub fn guest_language(src_path: &str) -> (r: Option<GuestLanguage>)
    ensures
        r == (if extension_of(src_path@) == Some("py"@) {
            Some(GuestLanguage::Python)
        } else {
            None::<GuestLanguage>
        }),
{
    match extension(src_path) {
        Some(ext) => {
            if str_eq(ext.as_str(), "py") {
                Some(GuestLanguage::Python)
            } else {
                None
            }
        },
        None => None,
    }
}

/// The strings of a list of values, in order; other values take no part.
pub open spec fn strings_of(items: Seq<Value>) -> Seq<Seq<char>>
    decreases items.len(),
{
    if items.len() == 0 {
        Seq::empty()
    } else {
        let rest = strings_of(items.drop_last());
        match items.last() {
            Value::Str(s) => rest.push(s),
            _ => rest,
        }
    }
}

/// The `sys_path` entries of a resolved source, in order: the directories
/// that the guest runtime searches before the source's own directory.
pub fn sys_paths(source: &Context) -> (r: Vec<String>)
    ensures
        views(r@) == strings_of(items_at(source@, "sys_path"@)),
{
    let mut r: Vec<String> = Vec::new();
    match source.get("sys_path") {
        Some(CtxObj::Array(items)) => {
            let ghost arr = items_at(source@, "sys_path"@);
            proof {
                lemma_views_of(items, items@.len() as int);
            }
            let mut i: usize = 0;
            while i < items.len()
                invariant
                    0 <= i <= items@.len(),
                    arr.len() == items@.len(),
                    forall|j: int| 0 <= j < items@.len() ==> arr[j] == (#[trigger] items@[j])@,
                    views(r@) == strings_of(arr.subrange(0, i as int)),
                decreases items@.len() - i,
            {
                proof {
                    assert(arr.subrange(0, i + 1).drop_last() =~= arr.subrange(0, i as int));
                    assert(arr.subrange(0, i + 1).last() == items@[i as int]@);
                }
                match &items[i] {
                    CtxObj::Str(s) => {
                        push_string(&mut r, s.clone());
                    },
                    _ => {},
                }
                i = i + 1;
            }
            proof {
                assert(arr.subrange(0, items@.len() as int) =~= arr);
            }
        },
        _ => {},
    }
    r
}

} // verus!
