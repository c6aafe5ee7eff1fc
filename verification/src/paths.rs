//! Paths of files.
//!
//! A path is held as the platform holds it, so what is made of it rests on the path alone. What it
//! holds as text is named here, and the calls into `std` say over that name what they make where
//! this is the same on every platform.
use vstd::prelude::*;

verus! {

/// `std::path::PathBuf`: a path as the platform holds it.
#[verifier::external_type_specification]
#[verifier::external_body]
pub struct ExPathBuf(std::path::PathBuf);

/// What a path holds, as text: missing where that is not valid Unicode.
pub uninterp spec fn path_text(path: std::path::PathBuf) -> Option<Seq<char>>;

/// The path of a file in a directory.
pub uninterp spec fn joined(dir: std::path::PathBuf, file: Seq<char>) -> std::path::PathBuf;

/// The last part of a path, where it ends in the name of something.
pub uninterp spec fn last_part(path: std::path::PathBuf) -> Option<std::path::PathBuf>;

/// The name starts from no root and no drive, whatever the platform.
pub open spec fn relative(file: Seq<char>) -> bool {
    &&& file.len() > 0
    &&& file[0] != '/'
    &&& file[0] != '\\'
    &&& file.len() > 1 ==> file[1] != ':'
}

/// The name is relative, and no two dots stand side by side in it: it leaves no directory.
pub open spec fn steady(file: Seq<char>) -> bool {
    &&& relative(file)
    &&& forall|i: int|
        0 <= i < file.len() - 1 ==> !(#[trigger] file[i] == '.' && file[i + 1] == '.')
}

/// The directory is of the kind that a name is not simply added to: it starts with `\\?\`.
pub open spec fn verbatim(dir: Seq<char>) -> bool {
    dir.len() >= 4 && dir[0] == '\\' && dir[1] == '\\' && dir[2] == '?' && dir[3] == '\\'
}

/// `path` names `file` in the directory `dir`: one after the other, with a separator between them
/// unless the directory is empty or ends in what can separate.
pub open spec fn path_in(dir: Seq<char>, file: Seq<char>, path: Seq<char>) -> bool {
    ||| path == dir + seq!['/'] + file
    ||| path == dir + seq!['\\'] + file
    ||| {
        &&& path == dir + file
        &&& dir.len() == 0 || dir.last() == '/' || dir.last() == '\\' || dir.last() == ':'
    }
}

/// What is known of the path of a file in a directory. In a directory of text it is text, ends with
/// the file, and is put together of both where the file is relative; but where the directory is
/// verbatim, it is only known to be text. In another directory it is not text, where the file
/// leaves no directory.
pub open spec fn joins(
    dir: Option<Seq<char>>,
    file: Seq<char>,
    path: Option<Seq<char>>,
) -> bool {
    match dir {
        Some(dir) => {
            &&& path is Some
            &&& !verbatim(dir) ==> file.is_suffix_of(path->0)
            &&& !verbatim(dir) && relative(file) ==> path_in(dir, file, path->0)
        },
        None => steady(file) ==> path is None,
    }
}

/// The text is that of a single part: it is neither empty nor `.` nor `..`, and holds no separator
/// and no drive.
pub open spec fn single(part: Seq<char>) -> bool {
    &&& part.len() > 0
    &&& part != seq!['.']
    &&& part != seq!['.', '.']
    &&& forall|i: int|
        0 <= i < part.len() ==> #[trigger] part[i] != '/' && part[i] != '\\' && part[i] != ':'
}

/// The path starts with a backslash or with two separators: it can name a share.
pub open spec fn shared(path: Seq<char>) -> bool {
    ||| path.len() > 0 && path[0] == '\\'
    ||| path.len() > 1 && path[0] == '/' && (path[1] == '/' || path[1] == '\\')
}

/// The path ends in this part, whatever the platform: it is the part, or the part in some
/// directory, and names no share.
pub open spec fn ends_in(path: Seq<char>, part: Seq<char>) -> bool {
    &&& single(part)
    &&& !shared(path)
    &&& path == part || (seq!['/'] + part).is_suffix_of(path)
}

/// Where a path of text ends in a part, whatever the platform, that is what `last` holds.
pub open spec fn holds_end(
    path: Option<Seq<char>>,
    last: Option<std::path::PathBuf>,
) -> bool {
    forall|text: Seq<char>, part: Seq<char>|
        path == Some(text) && #[trigger] ends_in(text, part) ==> last is Some && path_text(last->0)
            == Some(part)
}

/// `std::path::PathBuf::from` on text: the path that consists of this text.
#[verifier::external_body]
pub(crate) fn path_of(text: &str) -> (r: std::path::PathBuf)
    ensures
        path_text(r) == Some(text@),
{
    std::path::PathBuf::from(text)
}

/// `std::path::Path::to_str`: the path as text, where it is valid Unicode.
#[verifier::external_body]
pub(crate) fn text_of(path: &std::path::PathBuf) -> (r: Option<String>)
    ensures
        match r {
            Some(text) => path_text(*path) == Some(text@),
            None => path_text(*path) is None,
        },
{
    path.to_str().map(|text| text.to_string())
}

/// `std::path::Path::join`: the path of a file in a directory. Which separator is used, and whether
/// a file that starts from a root or a drive is put in the directory, rests on the platform that
/// the directory is of: of that only the end of the path is said. Of the file in a verbatim
/// directory, and of one that leaves a directory that is not text, nothing more is said.
#[verifier::external_body]
pub(crate) fn join_path(dir: &std::path::PathBuf, file: &str) -> (r: std::path::PathBuf)
    ensures
        r == joined(*dir, file@),
        joins(path_text(*dir), file@, path_text(r)),
{
    dir.join(file)
}

/// `std::path::Path::file_name`: the last part of the path, where it ends in the name of something.
/// Nothing more is said of paths that can name a share, nor of parts that hold what separates on
/// some platform.
#[verifier::external_body]
pub(crate) fn file_part(path: &std::path::PathBuf) -> (r: Option<std::path::PathBuf>)
    ensures
        r == last_part(*path),
        holds_end(path_text(*path), r),
{
    path.file_name().map(|part| std::path::PathBuf::from(part))
}

} // verus!
