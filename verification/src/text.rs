use std::path::Path;
use vstd::prelude::*;

verus! {

// ---------------------------------------------------------------------------
// Names for what std computes on text and paths
// ---------------------------------------------------------------------------

/// What `str::to_lowercase` gives for a string.
pub uninterp spec fn str_to_lowercase(s: Seq<char>) -> Seq<char>;

/// What `Path::file_name` gives for a path written as text: its final component, as text.
pub uninterp spec fn path_file_name_of(path: Seq<char>) -> Option<Seq<char>>;

/// What `Path::with_file_name` gives for a path written as text and a new file name.
pub uninterp spec fn path_with_file_name_of(path: Seq<char>, name: Seq<char>) -> Seq<char>;

/// What `Path::parent` gives for a path written as text, as text.
pub uninterp spec fn path_parent_of(path: Seq<char>) -> Option<Seq<char>>;

/// What `Path::components` collected back into a `PathBuf` gives for a path written as
/// text, as text.
pub uninterp spec fn path_key_of(path: Seq<char>) -> Seq<char>;

/// Whether `PathBuf == PathBuf` holds for two paths written as text.
pub uninterp spec fn path_eq_of(a: Seq<char>, b: Seq<char>) -> bool;

/// `Path == Path` on paths given as text: paths compare by their components, so identical text
/// always compares equal, and two plain file names (each a single component) are equal
/// exactly when their texts are.
#[verifier::external_body]
pub(crate) fn same_path(a: &str, b: &str) -> (r: bool)
    ensures
        r == path_eq_of(a@, b@),
        a@ == b@ ==> r,
        is_plain_name(a@) && is_plain_name(b@) ==> r == (a@ == b@),
{
    Path::new(a) == Path::new(b)
}

/// Two paths name the same place: they are the same text, or `Path == Path` holds for them.
pub open spec fn same_place(a: Seq<char>, b: Seq<char>) -> bool {
    a == b || path_eq_of(a, b)
}

/// Whether two paths, given as text, are equal as paths.
pub fn paths_equal(a: &str, b: &str) -> (r: bool)
    ensures
        r == same_place(a@, b@),
{
    same_path(a, b)
}

/// The lowercase form of an ASCII character; other characters are left as they are.
pub open spec fn ascii_lower_char(c: char) -> char {
    if 'A' <= c && c <= 'Z' {
        ((c as u32) + 32) as char
    } else {
        c
    }
}

/// Every character of `s` is ASCII.
pub open spec fn all_ascii(s: Seq<char>) -> bool {
    forall|i: int| 0 <= i < s.len() ==> (#[trigger] s[i] as u32) < 128
}

/// The text with each ASCII capital replaced by its small letter.
pub open spec fn ascii_lower(s: Seq<char>) -> Seq<char> {
    Seq::new(s.len(), |i: int| ascii_lower_char(s[i]))
}

/// A path that is a single plain file name: not empty, not `.` or `..`, and without a
/// separator (`/`, `\`) or a drive colon.
pub open spec fn is_plain_name(s: Seq<char>) -> bool {
    &&& s.len() > 0
    &&& s != seq!['.']
    &&& s != seq!['.', '.']
    &&& forall|i: int| 0 <= i < s.len() ==> #[trigger] s[i] != '/' && s[i] != '\\' && s[i] != ':'
}

/// `str::to_lowercase` returns the lowercase equivalent of a string; on ASCII text this maps
/// `A`..`Z` to `a`..`z` and leaves every other character as it is.
#[verifier::external_body]
pub(crate) fn to_lowercase(s: &str) -> (r: String)
    ensures
        r@ == str_to_lowercase(s@),
        all_ascii(s@) ==> r@ == ascii_lower(s@),
{
    s.to_lowercase()
}

/// `Path::file_name` on a path given as text: the final component, as text; a plain file
/// name is its own single component.
#[verifier::external_body]
pub(crate) fn file_name(path: &str) -> (r: Option<String>)
    ensures
        match r {
            Some(n) => path_file_name_of(path@) == Some(n@),
            None => path_file_name_of(path@) is None,
        },
        is_plain_name(path@) ==> match r {
            Some(n) => n@ == path@,
            None => false,
        },
{
    Path::new(path).file_name().and_then(|n| n.to_str()).map(|n| n.to_string())
}

/// The extension of a file name as `Path::extension` documents it: none when there is no `.`
/// or the only `.` starts the name; otherwise the text after the final `.`.
pub open spec fn extension_of_name(name: Seq<char>) -> Option<Seq<char>> {
    if exists|i: int| 0 < i < name.len() && name[i] == '.' {
        let k = choose|k: int|
            0 < k < name.len() && name[k] == '.' && forall|j: int|
                k < j < name.len() ==> name[j] != '.';
        Some(name.subrange(k + 1, name.len() as int))
    } else {
        None
    }
}

/// The stem of a file name as `Path::file_stem` documents it: the whole name when there is no
/// `.` or the only `.` starts the name; otherwise the text before the final `.`.
#[verifier::opaque]
pub open spec fn stem_of_name(name: Seq<char>) -> Seq<char> {
    if exists|i: int| 0 < i < name.len() && name[i] == '.' {
        let k = choose|k: int|
            0 < k < name.len() && name[k] == '.' && forall|j: int|
                k < j < name.len() ==> name[j] != '.';
        name.subrange(0, k)
    } else {
        name
    }
}

/// The extension of a path: that of its file name, if it has one.
pub open spec fn path_extension_of(path: Seq<char>) -> Option<Seq<char>> {
    match path_file_name_of(path) {
        Some(n) => extension_of_name(n),
        None => None,
    }
}

/// The stem of a path: that of its file name, if it has one.
pub open spec fn path_stem_of(path: Seq<char>) -> Option<Seq<char>> {
    match path_file_name_of(path) {
        Some(n) => Some(stem_of_name(n)),
        None => None,
    }
}

/// `Path::extension` on a path given as text: the extension of its file name, as the
/// documentation of `Path::extension` defines it. A path that is a plain file name is its
/// own single component, so its extension is that of the name.
#[verifier::external_body]
pub(crate) fn extension(path: &str) -> (r: Option<String>)
    ensures
        match r {
            Some(e) => path_extension_of(path@) == Some(e@),
            None => path_extension_of(path@) is None,
        },
        is_plain_name(path@) ==> match r {
            Some(e) => extension_of_name(path@) == Some(e@),
            None => extension_of_name(path@) is None,
        },
{
    Path::new(path).extension().and_then(|e| e.to_str()).map(|e| e.to_string())
}

/// `Path::file_stem` on a path given as text: the stem of its file name, as the documentation
/// of `Path::file_stem` defines it.
#[verifier::external_body]
pub(crate) fn file_stem(path: &str) -> (r: Option<String>)
    ensures
        match r {
            Some(e) => path_stem_of(path@) == Some(e@),
            None => path_stem_of(path@) is None,
        },
{
    Path::new(path).file_stem().and_then(|e| e.to_str()).map(|e| e.to_string())
}

/// `Path::parent` on a path given as text: the path without its final component, if it
/// has one.
#[verifier::external_body]
pub(crate) fn parent(path: &str) -> (r: Option<String>)
    ensures
        match r {
            Some(p) => path_parent_of(path@) == Some(p@),
            None => path_parent_of(path@) is None,
        },
{
    Path::new(path).parent().map(|p| p.to_string_lossy().into_owned())
}

/// `Path::components` collected back into a `PathBuf`, as text: the path written from its
/// components, the form by which paths compare equal (repeated separators and interior `.`
/// components are dropped).
#[verifier::external_body]
pub(crate) fn path_key(path: &str) -> (r: String)
    ensures
        r@ == path_key_of(path@),
{
    Path::new(path).components().collect::<std::path::PathBuf>().to_string_lossy().into_owned()
}

/// `Path::with_file_name` on a path given as text.
#[verifier::external_body]
pub(crate) fn with_file_name(path: &str, name: &str) -> (r: String)
    ensures
        r@ == path_with_file_name_of(path@, name@),
{
    Path::new(path).with_file_name(name).to_string_lossy().into_owned()
}

// ---------------------------------------------------------------------------
// Verified text helpers
// ---------------------------------------------------------------------------

/// The characters of a string.
pub fn to_chars(s: &str) -> (r: Vec<char>)
    ensures
        r@ == s@,
{
    let n = s.unicode_len();
    let mut r: Vec<char> = Vec::new();
    let mut i: usize = 0;
    while i < n
        invariant
            n == s@.len(),
            i <= n,
            r@ == s@.subrange(0, i as int),
        decreases n - i,
    {
        r.push(s.get_char(i));
        i = i + 1;
    }
    r
}

/// Whether two strings hold the same characters.
pub fn str_eq(a: &str, b: &str) -> (r: bool)
    ensures
        r == (a@ == b@),
{
    let x = to_chars(a);
    let y = to_chars(b);
    chars_eq(&x, &y)
}

/// Whether two character vectors are equal.
pub fn chars_eq(a: &Vec<char>, b: &Vec<char>) -> (r: bool)
    ensures
        r == (a@ == b@),
{
    if a.len() != b.len() {
        return false;
    }
    let mut i: usize = 0;
    while i < a.len()
        invariant
            a.len() == b.len(),
            i <= a.len(),
            forall|j: int| 0 <= j < i ==> a@[j] == b@[j],
        decreases a.len() - i,
    {
        if a[i] != b[i] {
            return false;
        }
        i = i + 1;
    }
    assert(a@ =~= b@);
    true
}

/// `needle` occurs in `hay` at position `i`.
pub open spec fn occurs_at(hay: Seq<char>, needle: Seq<char>, i: int) -> bool {
    0 <= i && i + needle.len() <= hay.len() && hay.subrange(i, i + needle.len()) == needle
}

/// `needle` occurs somewhere in `hay` (the empty string occurs everywhere).
pub open spec fn contains_seq(hay: Seq<char>, needle: Seq<char>) -> bool {
    exists|i: int| occurs_at(hay, needle, i)
}

/// Whether `needle` occurs in `hay`.
pub fn contains_chars(hay: &Vec<char>, needle: &Vec<char>) -> (r: bool)
    ensures
        r == contains_seq(hay@, needle@),
{
    if needle.len() > hay.len() {
        assert forall|i: int| !occurs_at(hay@, needle@, i) by {}
        return false;
    }
    let last = hay.len() - needle.len();
    let mut i: usize = 0;
    while i <= last
        invariant
            last == hay.len() - needle.len(),
            needle.len() <= hay.len(),
            i <= last + 1,
            forall|j: int| 0 <= j < i ==> !occurs_at(hay@, needle@, j),
        decreases last + 1 - i,
    {
        let mut k: usize = 0;
        let mut same = true;
        while k < needle.len()
            invariant
                i + needle.len() <= hay.len(),
                k <= needle.len(),
                same == forall|m: int| 0 <= m < k ==> hay@[i + m] == needle@[m],
            decreases needle.len() - k,
        {
            if hay[i + k] != needle[k] {
                same = false;
            }
            k = k + 1;
        }
        if same {
            assert(hay@.subrange(i as int, i + needle.len()) =~= needle@);
            assert(occurs_at(hay@, needle@, i as int));
            return true;
        }
        assert(!occurs_at(hay@, needle@, i as int)) by {
            if occurs_at(hay@, needle@, i as int) {
                let m = choose|m: int| 0 <= m < needle.len() && hay@[i + m] != needle@[m];
                assert(hay@.subrange(i as int, i + needle.len())[m] == hay@[i + m]);
            }
        }
        i = i + 1;
    }
    assert forall|j: int| !occurs_at(hay@, needle@, j) by {
        if 0 <= j && j + needle.len() <= hay.len() {
            assert(j < i);
        }
    }
    false
}

/// Text order on character sequences: by code point, character by character, a proper prefix
/// first. This is the order of `String` comparison.
pub open spec fn lex_le(a: Seq<char>, b: Seq<char>) -> bool
    decreases a.len(),
{
    if a.len() == 0 {
        true
    } else if b.len() == 0 {
        false
    } else if a[0] < b[0] {
        true
    } else if a[0] > b[0] {
        false
    } else {
        lex_le(a.drop_first(), b.drop_first())
    }
}

/// Whether `a` comes no later than `b` in text order.
pub fn chars_le(a: &Vec<char>, b: &Vec<char>) -> (r: bool)
    ensures
        r == lex_le(a@, b@),
{
    let mut i: usize = 0;
    assert(a@.skip(0) =~= a@);
    assert(b@.skip(0) =~= b@);
    while i < a.len() && i < b.len()
        invariant
            i <= a.len(),
            i <= b.len(),
            forall|j: int| 0 <= j < i ==> a@[j] == b@[j],
            lex_le(a@, b@) == lex_le(a@.skip(i as int), b@.skip(i as int)),
        decreases a.len() - i,
    {
        let x = a[i];
        let y = b[i];
        if x < y {
            return true;
        }
        if x > y {
            return false;
        }
        assert(a@.skip(i as int).drop_first() =~= a@.skip(i + 1));
        assert(b@.skip(i as int).drop_first() =~= b@.skip(i + 1));
        i = i + 1;
    }
    assert(i == a.len() ==> a@.skip(i as int).len() == 0);
    assert(i < a.len() ==> b@.skip(i as int).len() == 0 && a@.skip(i as int).len() > 0);
    i == a.len()
}

pub proof fn lemma_lex_le_total(a: Seq<char>, b: Seq<char>)
    ensures
        lex_le(a, b) || lex_le(b, a),
    decreases a.len(),
{
    if a.len() > 0 && b.len() > 0 && a[0] == b[0] {
        lemma_lex_le_total(a.drop_first(), b.drop_first());
    }
}

pub proof fn lemma_lex_le_trans(a: Seq<char>, b: Seq<char>, c: Seq<char>)
    requires
        lex_le(a, b),
        lex_le(b, c),
    ensures
        lex_le(a, c),
    decreases a.len(),
{
    if a.len() > 0 && b.len() > 0 && c.len() > 0 {
        if a[0] == b[0] && b[0] == c[0] {
            lemma_lex_le_trans(a.drop_first(), b.drop_first(), c.drop_first());
        }
    }
}

} // verus!
