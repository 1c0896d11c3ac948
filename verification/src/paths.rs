//! Construction of the destination path of a decrypted file.
//!
//! The decrypted file is named after its source: the file name component
//! with the format-specific suffix stripped once, placed directly under the
//! output directory.

use vstd::prelude::*;
use vstd::string::StrSliceExecFns;
use vstd::string::StringExecFns;

use crate::file_type::spec_file_name;
use crate::file_type::file_name_start;
use crate::file_type::FileType;

verus! {

/// The format-specific suffix a decrypted file loses: a dot followed by the
/// canonical extension.
pub open spec fn spec_suffix(ft: FileType) -> Seq<char> {
    match ft {
        FileType::Gpg => ".gpg"@,
        FileType::Age => ".age"@,
    }
}

/// `name` with one trailing `suffix` removed, when it ends with it;
/// otherwise `name` unchanged.
pub open spec fn spec_strip_suffix(name: Seq<char>, suffix: Seq<char>) -> Seq<char> {
    if name.len() >= suffix.len() && name.subrange(
        name.len() - suffix.len(),
        name.len() as int,
    ) == suffix {
        name.subrange(0, name.len() - suffix.len())
    } else {
        name
    }
}

/// `name` joined under directory `dir`, with exactly one separator between
/// them (and none when `dir` is empty).
pub open spec fn spec_join_path(dir: Seq<char>, name: Seq<char>) -> Seq<char> {
    if dir.len() == 0 {
        name
    } else if dir[dir.len() - 1] == '/' {
        dir + name
    } else {
        dir + "/"@ + name
    }
}

/// The destination path of a decrypted file: its file name, with the
/// format's suffix stripped once, under the output directory.
pub open spec fn spec_output_path(path: Seq<char>, ft: FileType, output_dir: Seq<char>) -> Seq<
    char,
> {
    spec_join_path(output_dir, spec_strip_suffix(spec_file_name(path), spec_suffix(ft)))
}

/// The file name component of a path, as an owned string.
pub fn file_name(path: &str) -> (r: String)
    ensures
        r@ == spec_file_name(path@),
{
    let n = path.unicode_len();
    let start = file_name_start(path);
    String::from_str(path.substring_char(start, n))
}

/// Strips one trailing copy of the format's suffix from a file name, when
/// the name ends with it.
pub fn strip_format_suffix(name: &str, ft: FileType) -> (r: String)
    ensures
        r@ == spec_strip_suffix(name@, spec_suffix(ft)),
{
    proof {
        reveal_strlit(".gpg");
        reveal_strlit(".age");
    }
    let ghost suffix = spec_suffix(ft);
    let (e0, e1, e2): (char, char, char) = match ft {
        FileType::Gpg => ('g', 'p', 'g'),
        FileType::Age => ('a', 'g', 'e'),
    };
    proof {
        assert(suffix.len() == 4);
        assert(suffix[0] == '.' && suffix[1] == e0 && suffix[2] == e1 && suffix[3] == e2);
    }
    let len = name.unicode_len();
    if len >= 4 && name.get_char(len - 4) == '.' && name.get_char(len - 3) == e0 && name.get_char(
        len - 2,
    ) == e1 && name.get_char(len - 1) == e2 {
        proof {
            assert(name@.subrange(len - 4 as int, len as int) =~= suffix);
        }
        String::from_str(name.substring_char(0, len - 4))
    } else {
        proof {
            if name@.len() >= 4 && name@.subrange(len - 4 as int, len as int) == suffix {
                assert(name@[len - 4 as int] == '.' && name@[len - 3 as int] == e0 && name@[len
                    - 2 as int] == e1 && name@[len - 1 as int] == e2);
            }
        }
        String::from_str(name)
    }
}

/// Joins a file name under a directory with exactly one separator.
pub fn join_path(dir: &str, name: &str) -> (r: String)
    ensures
        r@ == spec_join_path(dir@, name@),
{
    let dlen = dir.unicode_len();
    if dlen == 0 {
        return String::from_str(name);
    }
    let mut out = String::from_str(dir);
    if dir.get_char(dlen - 1) != '/' {
        out.append("/");
    }
    out.append(name);
    out
}

/// The destination path of the decrypted form of `path`: its file name with
/// the format's suffix stripped, joined under `output_dir`.
pub fn output_path(path: &str, ft: FileType, output_dir: &str) -> (r: String)
    ensures
        r@ == spec_output_path(path@, ft, output_dir@),
{
    let name = file_name(path);
    let stripped = strip_format_suffix(name.as_str(), ft);
    join_path(output_dir, stripped.as_str())
}

} // verus!
