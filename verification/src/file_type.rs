//! Recognition of the supported encrypted container formats.
//!
//! A path is classified by its extension component alone: the part of the
//! file name after the last dot, where the file name is the part of the path
//! after the last separator. A name whose only dot is its first character
//! (a hidden file) has no extension, and a path with no file name has none
//! either. Classification never inspects file contents.

use vstd::prelude::*;
use vstd::string::StrSliceExecFns;
use vstd::string::StringExecFns;

verus! {

/// The supported encrypted container formats.
///
/// Each variant is bound one-to-one to a canonical extension string; paths
/// with any other extension, or none, belong to no format.
#[derive(Debug, Clone, Copy, PartialEq, Eq, Structural)]
pub enum FileType {
    /// Passphrase-based container, canonical extension "gpg".
    Gpg,
    /// Identity-based container, canonical extension "age".
    Age,
}

/// Index of the last occurrence of `c` in `s`, if any.
pub open spec fn last_occurrence(s: Seq<char>, c: char) -> Option<int>
    decreases s.len(),
{
    if s.len() == 0 {
        None
    } else if s[s.len() - 1] == c {
        Some(s.len() - 1)
    } else {
        last_occurrence(s.drop_last(), c)
    }
}

/// `last_occurrence` finds a position holding `c` with none after it, and
/// finds none exactly when `c` does not occur.
pub proof fn lemma_last_occurrence(s: Seq<char>, c: char)
    ensures
        match last_occurrence(s, c) {
            Some(i) => 0 <= i < s.len() && s[i] == c && (forall|j: int|
                i < j < s.len() ==> s[j] != c),
            None => forall|j: int| 0 <= j < s.len() ==> s[j] != c,
        },
    decreases s.len(),
{
    if s.len() == 0 {
    } else if s[s.len() - 1] == c {
    } else {
        lemma_last_occurrence(s.drop_last(), c);
        assert(forall|j: int| 0 <= j < s.len() - 1 ==> s.drop_last()[j] == s[j]);
    }
}

/// The file name component of a path: everything after the last separator,
/// or the whole path when it has none.
pub open spec fn spec_file_name(p: Seq<char>) -> Seq<char> {
    match last_occurrence(p, '/') {
        None => p,
        Some(i) => p.subrange(i + 1, p.len() as int),
    }
}

/// The extension component of a path: the part of the file name after its
/// last dot. A file name without a dot, or whose only dot is its first
/// character, has no extension.
pub open spec fn spec_path_extension(p: Seq<char>) -> Option<Seq<char>> {
    let name = spec_file_name(p);
    match last_occurrence(name, '.') {
        None => None,
        Some(d) => if d == 0 {
            None
        } else {
            Some(name.subrange(d + 1, name.len() as int))
        },
    }
}

/// Index at which the file name component of `path` starts: right after the
/// last separator, or zero when the path has none.
pub fn file_name_start(path: &str) -> (start: usize)
    ensures
        start <= path@.len(),
        spec_file_name(path@) == path@.subrange(start as int, path@.len() as int),
{
    let n = path.unicode_len();
    let mut start: usize = n;
    loop
        invariant
            start <= n,
            n == path@.len(),
            forall|j: int| start <= j < n ==> path@[j] != '/',
        ensures
            start <= n,
            n == path@.len(),
            forall|j: int| start <= j < n ==> path@[j] != '/',
            start > 0 ==> path@[start - 1] == '/',
        decreases start,
    {
        if start == 0 {
            break;
        }
        if path.get_char(start - 1) == '/' {
            break;
        }
        start = start - 1;
    }
    proof {
        lemma_last_occurrence(path@, '/');
        if start == 0 {
            assert(last_occurrence(path@, '/') is None);
        } else {
            assert(last_occurrence(path@, '/') == Some(start - 1 as int));
        }
        assert(spec_file_name(path@) =~= path@.subrange(start as int, n as int));
    }
    start
}

impl FileType {
    /// The canonical extension string of this format.
    pub open spec fn spec_extension(self) -> Seq<char> {
        match self {
            FileType::Gpg => "gpg"@,
            FileType::Age => "age"@,
        }
    }

    /// The format a path is classified as, if any: the one whose canonical
    /// extension equals the path's extension component.
    pub open spec fn spec_from_path(p: Seq<char>) -> Option<FileType> {
        match spec_path_extension(p) {
            None => None,
            Some(e) => if e == FileType::Gpg.spec_extension() {
                Some(FileType::Gpg)
            } else if e == FileType::Age.spec_extension() {
                Some(FileType::Age)
            } else {
                None
            },
        }
    }

    /// Classifies a path by its extension component. Returns the matching
    /// format, or `None` when the path has no extension or an unrecognized
    /// one. Never panics, whatever the path looks like.
    pub fn from_path(path: &str) -> (r: Option<FileType>)
        ensures
            r == FileType::spec_from_path(path@),
    {
        let n = path.unicode_len();
        let start = file_name_start(path);
        let ghost name = spec_file_name(path@);
        // Scan backwards for the last dot of the file name.
        let mut d: usize = n;
        loop
            invariant
                start <= d <= n,
                n == path@.len(),
                forall|j: int| d <= j < n ==> path@[j] != '.',
            ensures
                start <= d <= n,
                n == path@.len(),
                forall|j: int| d <= j < n ==> path@[j] != '.',
                d > start ==> path@[d - 1] == '.',
            decreases d,
        {
            if d == start {
                break;
            }
            if path.get_char(d - 1) == '.' {
                break;
            }
            d = d - 1;
        }
        proof {
            lemma_last_occurrence(name, '.');
            if d == start {
                assert(forall|j: int| 0 <= j < name.len() ==> name[j] == path@[start + j]);
                assert(last_occurrence(name, '.') is None);
            } else {
                assert(name[d - 1 - start as int] == '.');
                assert(forall|j: int|
                    d - 1 - start < j < name.len() ==> name[j] == path@[start + j] && name[j]
                        != '.');
                assert(last_occurrence(name, '.') == Some(d - 1 - start as int));
            }
        }
        if d - start <= 1 {
            // No dot in the file name, or the dot is its first character.
            return None;
        }
        proof {
            assert(spec_path_extension(path@) == Some(
                name.subrange(d - start as int, name.len() as int),
            ));
            assert(name.subrange(d - start as int, name.len() as int) =~= path@.subrange(
                d as int,
                n as int,
            ));
            reveal_strlit("gpg");
            reveal_strlit("age");
        }
        let ghost ext = path@.subrange(d as int, n as int);
        if n - d != 3 {
            proof {
                assert("gpg"@.len() == 3 && "age"@.len() == 3);
                assert(ext.len() == n - d);
                assert(ext != "gpg"@ && ext != "age"@);
            }
            return None;
        }
        let c0 = path.get_char(d);
        let c1 = path.get_char(d + 1);
        let c2 = path.get_char(d + 2);
        if c0 == 'g' && c1 == 'p' && c2 == 'g' {
            proof {
                assert(ext =~= "gpg"@);
            }
            Some(FileType::Gpg)
        } else if c0 == 'a' && c1 == 'g' && c2 == 'e' {
            proof {
                assert(ext =~= "age"@);
            }
            Some(FileType::Age)
        } else {
            proof {
                assert(ext[0] == c0 && ext[1] == c1 && ext[2] == c2);
                assert(ext != "gpg"@ && ext != "age"@);
            }
            None
        }
    }

    /// The canonical extension of this format, as a string slice.
    pub fn extension(&self) -> (r: &'static str)
        ensures
            r@ == self.spec_extension(),
    {
        match self {
            FileType::Gpg => "gpg",
            FileType::Age => "age",
        }
    }

    /// The textual rendering of this format; it equals the canonical
    /// extension.
    pub fn display_string(&self) -> (r: String)
        ensures
            r@ == self.spec_extension(),
    {
        String::from_str(self.extension())
    }
}

/// Law: a path whose extension component is exactly one of the two canonical
/// strings is classified as the corresponding format, and a path with any
/// other extension component, or none, is classified as no format.
pub proof fn lemma_classification(p: Seq<char>)
    ensures
        spec_path_extension(p) == Some("gpg"@) ==> FileType::spec_from_path(p) == Some(
            FileType::Gpg,
        ),
        spec_path_extension(p) == Some("age"@) ==> FileType::spec_from_path(p) == Some(
            FileType::Age,
        ),
        (match spec_path_extension(p) {
            Some(e) => e != "gpg"@ && e != "age"@,
            None => true,
        }) ==> FileType::spec_from_path(p) is None,
{
    reveal_strlit("gpg");
    reveal_strlit("age");
    assert("gpg"@[0] == 'g' && "age"@[0] == 'a');
}

/// Law: taking the canonical extension after classification is the identity
/// on the two canonical strings. A path classifies as a format exactly when
/// its extension component is that format's canonical extension.
pub proof fn lemma_extension_round_trip(p: Seq<char>, ft: FileType)
    ensures
        FileType::spec_from_path(p) == Some(ft) <==> spec_path_extension(p) == Some(
            ft.spec_extension(),
        ),
{
    reveal_strlit("gpg");
    reveal_strlit("age");
    assert("gpg"@[0] == 'g' && "age"@[0] == 'a');
}

} // verus!
