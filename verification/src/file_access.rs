//! Which paths the assistant may touch, and the rules of its file
//! operations: the access decision, unique file names, replacements and
//! directory listings. The caller queries the file system and writes; the
//! path arithmetic is `std::path`'s.

use vstd::prelude::*;
use crate::text::{chars_of, string_of, push_str_chars, push_all, decimal_of, usize_to_string, seq_contains, contains_str, replace_all, str_replace};

verus! {

/// Errors of file operations.
#[derive(Debug, Clone, Copy, PartialEq, Eq, Structural)]
pub enum FileAccessError {
    /// The path to allow is not a directory.
    NotADirectory,
    /// The path lies outside every allowed directory.
    AccessDenied,
    /// The file does not exist.
    NotFound,
    /// The text to replace does not occur in the file.
    OldStringNotFound,
}

/// Whether `path` starts with `base`, component by component, as
/// `Path::starts_with` decides.
pub uninterp spec fn path_prefix(path: Seq<char>, base: Seq<char>) -> bool;

/// Calls `std::path::Path::starts_with`; the result is named `path_prefix`.
#[verifier::external_body]
fn path_starts_with(path: &str, base: &str) -> (r: bool)
    ensures
        r == path_prefix(path@, base@),
{
    std::path::Path::new(path).starts_with(base)
}

/// `Path::parent` of a path.
pub uninterp spec fn path_parent(path: Seq<char>) -> Option<Seq<char>>;

/// Calls `std::path::Path::parent`; the result is named `path_parent`.
#[verifier::external_body]
pub(crate) fn parent_of(path: &str) -> (r: Option<String>)
    ensures
        crate::todo::opt_view(r) == path_parent(path@),
{
    match std::path::Path::new(path).parent() {
        Some(p) => Some(p.to_string_lossy().into_owned()),
        None => None,
    }
}

/// `Path::file_stem` of a path.
pub uninterp spec fn path_file_stem(path: Seq<char>) -> Option<Seq<char>>;

/// Calls `std::path::Path::file_stem`; the result is named `path_file_stem`.
#[verifier::external_body]
fn file_stem_of(path: &str) -> (r: Option<String>)
    ensures
        crate::todo::opt_view(r) == path_file_stem(path@),
{
    match std::path::Path::new(path).file_stem() {
        Some(s) => Some(s.to_string_lossy().into_owned()),
        None => None,
    }
}

/// `Path::extension` of a path.
pub uninterp spec fn path_extension(path: Seq<char>) -> Option<Seq<char>>;

/// Calls `std::path::Path::extension`; the result is named `path_extension`.
#[verifier::external_body]
fn extension_of(path: &str) -> (r: Option<String>)
    ensures
        crate::todo::opt_view(r) == path_extension(path@),
{
    match std::path::Path::new(path).extension() {
        Some(s) => Some(s.to_string_lossy().into_owned()),
        None => None,
    }
}

/// `Path::join` of two paths.
pub uninterp spec fn path_joined(base: Seq<char>, name: Seq<char>) -> Seq<char>;

/// Calls `std::path::Path::join`; the result is named `path_joined`.
#[verifier::external_body]
pub(crate) fn join_path(base: &str, name: &str) -> (r: String)
    ensures
        r@ == path_joined(base@, name@),
{
    std::path::Path::new(base).join(name).to_string_lossy().into_owned()
}

/// `Path::is_absolute` of a path.
pub uninterp spec fn path_absolute(path: Seq<char>) -> bool;

/// Calls `std::path::Path::is_absolute`; the result is named `path_absolute`.
#[verifier::external_body]
fn is_absolute_path(path: &str) -> (r: bool)
    ensures
        r == path_absolute(path@),
{
    std::path::Path::new(path).is_absolute()
}

/// The file stem of a path, "file" when it has none.
pub open spec fn stem_or_file(path: Seq<char>) -> Seq<char> {
    match path_file_stem(path) {
        Some(s) => s,
        None => "file"@,
    }
}

/// "." and the extension of a path, empty when it has none.
pub open spec fn ext_suffix(path: Seq<char>) -> Seq<char> {
    match path_extension(path) {
        Some(e) => "."@ + e,
        None => Seq::empty(),
    }
}

/// The parent of a path, "." when it has none.
pub open spec fn parent_or_dot(path: Seq<char>) -> Seq<char> {
    match path_parent(path) {
        Some(p) => p,
        None => "."@,
    }
}

/// The path beside `path` named "stem_n.ext".
pub open spec fn numbered_name(path: Seq<char>, n: nat) -> Seq<char> {
    path_joined(parent_or_dot(path), stem_or_file(path) + "_"@ + decimal_of(n) + ext_suffix(path))
}

/// What to do next while looking for a free file name.
#[derive(Debug)]
pub enum NameStep {
    /// This path is free: use it.
    Use(String),
    /// Check whether this path exists, and ask again with the answer.
    Check(String),
    /// All numbered names are taken: name the file by the current time.
    Stamp,
}

/// Lexicographic order of character sequences (the order of `String`).
pub open spec fn str_le(a: Seq<char>, b: Seq<char>) -> bool
    decreases a.len(),
{
    if a.len() == 0 {
        true
    } else if b.len() == 0 {
        false
    } else if (a[0] as u32) < (b[0] as u32) {
        true
    } else if (a[0] as u32) > (b[0] as u32) {
        false
    } else {
        str_le(a.drop_first(), b.drop_first())
    }
}

/// Sorts strings in ascending order (`slice::sort` on `String`, which
/// orders lexicographically by character): the result is a permutation of
/// the input, each string no greater than the next.
#[verifier::external_body]
pub(crate) fn sort_strings(v: &mut Vec<String>)
    ensures
        final(v).deep_view().to_multiset() == old(v).deep_view().to_multiset(),
        final(v).deep_view().len() == old(v).deep_view().len(),
        forall|i: int, j: int|
            0 <= i < j < final(v).deep_view().len() ==> str_le(
                #[trigger] final(v).deep_view()[i],
                #[trigger] final(v).deep_view()[j],
            ),
{
    v.sort();
}

/// The name shown for a directory entry: directories end in "/".
pub open spec fn entry_name(name: Seq<char>, is_dir: bool) -> Seq<char> {
    if is_dir {
        name + "/"@
    } else {
        name
    }
}

/// The guard of the allowed directories.
pub struct FileAccessManager {
    allowed_directories: Vec<String>,
}

impl FileAccessManager {
    /// The allowed directories.
    pub closed spec fn dirs(&self) -> Seq<Seq<char>> {
        self.allowed_directories.deep_view()
    }

    /// A path lies under some allowed directory.
    pub open spec fn allows(&self, path: Seq<char>) -> bool {
        exists|i: int| 0 <= i < self.dirs().len() && path_prefix(path, #[trigger] self.dirs()[i])
    }

    /// A guard that allows nothing.
    pub fn new() -> (r: Self)
        ensures
            r.dirs() == Seq::<Seq<char>>::empty(),
            forall|p: Seq<char>| !r.allows(p),
    {
        let r = FileAccessManager { allowed_directories: Vec::new() };
        assert(r.dirs() =~= Seq::<Seq<char>>::empty());
        r
    }

    /// Allows a directory, given its canonical path and whether it is a
    /// directory.
    pub fn add_allowed_directory(&mut self, canonical_path: String, is_dir: bool) -> (r: Result<(), FileAccessError>)
        ensures
            if is_dir {
                r is Ok && final(self).dirs() == old(self).dirs().push(canonical_path@)
            } else {
                r == Err::<(), FileAccessError>(FileAccessError::NotADirectory) && final(self).dirs() == old(self).dirs()
            },
    {
        if !is_dir {
            return Err(FileAccessError::NotADirectory);
        }
        let ghost before = self.dirs();
        let ghost c = canonical_path@;
        self.allowed_directories.push(canonical_path);
        assert(self.dirs() =~= before.push(c));
        Ok(())
    }

    /// Whether a path (as resolved by `check_path`) lies under an allowed
    /// directory.
    pub fn is_path_allowed(&self, check_path: &str) -> (r: bool)
        ensures
            r == self.allows(check_path@),
    {
        let mut i: usize = 0;
        while i < self.allowed_directories.len()
            invariant
                i <= self.allowed_directories.len(),
                forall|j: int| 0 <= j < i ==> !path_prefix(check_path@, #[trigger] self.dirs()[j]),
            decreases self.allowed_directories.len() - i,
        {
            assert(self.dirs()[i as int] == self.allowed_directories[i as int]@);
            if path_starts_with(check_path, self.allowed_directories[i].as_str()) {
                return true;
            }
            i = i + 1;
        }
        false
    }

    /// Whether a file may be read.
    pub fn read_file(&self, check_path: &str) -> (r: Result<(), FileAccessError>)
        ensures
            r is Ok <==> self.allows(check_path@),
            r is Err ==> r == Err::<(), FileAccessError>(FileAccessError::AccessDenied),
    {
        if self.is_path_allowed(check_path) {
            Ok(())
        } else {
            Err(FileAccessError::AccessDenied)
        }
    }

    /// Whether text may be appended to a file: it must be allowed and exist.
    pub fn append_to_file(&self, check_path: &str, present: bool) -> (r: Result<(), FileAccessError>)
        ensures
            r == if !self.allows(check_path@) {
                Err(FileAccessError::AccessDenied)
            } else if !present {
                Err(FileAccessError::NotFound)
            } else {
                Ok::<(), FileAccessError>(())
            },
    {
        if !self.is_path_allowed(check_path) {
            return Err(FileAccessError::AccessDenied);
        }
        if !present {
            return Err(FileAccessError::NotFound);
        }
        Ok(())
    }

    /// The sorted listing of an allowed directory, given its entries as
    /// names and whether each is a directory.
    pub fn list_directory(&self, check_path: &str, entries: &Vec<(String, bool)>) -> (r: Result<Vec<String>, FileAccessError>)
        ensures
            match r {
                Ok(v) => self.allows(check_path@) && v.deep_view().to_multiset() == entries@.map_values(
                    |e: (String, bool)| entry_name(e.0@, e.1),
                ).to_multiset() && forall|i: int, j: int|
                    0 <= i < j < v.deep_view().len() ==> str_le(
                        #[trigger] v.deep_view()[i],
                        #[trigger] v.deep_view()[j],
                    ),
                Err(e) => !self.allows(check_path@) && e == FileAccessError::AccessDenied,
            },
    {
        if !self.is_path_allowed(check_path) {
            return Err(FileAccessError::AccessDenied);
        }
        let ghost names = entries@.map_values(|e: (String, bool)| entry_name(e.0@, e.1));
        let mut out: Vec<String> = Vec::new();
        let mut i: usize = 0;
        while i < entries.len()
            invariant
                i <= entries.len(),
                names == entries@.map_values(|e: (String, bool)| entry_name(e.0@, e.1)),
                out.deep_view() == names.take(i as int),
            decreases entries.len() - i,
        {
            let (name, is_dir) = &entries[i];
            let ghost before = out.deep_view();
            if *is_dir {
                let mut c = chars_of(name.as_str());
                push_str_chars(&mut c, "/");
                out.push(string_of(&c));
            } else {
                out.push(name.clone());
            }
            assert(out.deep_view() =~= before.push(names[i as int]));
            assert(names.take(i + 1) =~= names.take(i as int).push(names[i as int]));
            i = i + 1;
        }
        assert(names.take(i as int) =~= names);
        sort_strings(&mut out);
        Ok(out)
    }

    /// The directory a new file goes to: the parent of its path, "." when
    /// the path has no parent or an empty one.
    pub fn creation_dir(path: &str) -> (r: String)
        ensures
            r@ == match path_parent(path@) {
                Some(p) => if p.len() > 0 {
                    p
                } else {
                    "."@
                },
                None => "."@,
            },
    {
        match parent_of(path) {
            Some(p) => {
                if p.as_str().unicode_len() > 0 {
                    p
                } else {
                    crate::text::to_owned_string(".")
                }
            },
            None => crate::text::to_owned_string("."),
        }
    }

    /// One step of the search for a free name for `path`. At attempt 0
    /// `taken` tells whether `path` itself exists; at attempt `n` (from 1 to
    /// 9999) whether "stem_n.ext" beside it exists.
    pub fn generate_unique_filename(&self, path: &str, attempt: u32, taken: bool) -> (r: NameStep)
        requires
            attempt <= 9999,
        ensures
            !taken ==> (r matches NameStep::Use(p) && p@ == (if attempt == 0 {
                path@
            } else {
                numbered_name(path@, attempt as nat)
            })),
            taken && attempt < 9999 ==> (r matches NameStep::Check(p) && p@ == numbered_name(
                path@,
                (attempt + 1) as nat,
            )),
            taken && attempt == 9999 ==> r is Stamp,
    {
        if !taken {
            if attempt == 0 {
                return NameStep::Use(crate::text::to_owned_string(path));
            }
            return NameStep::Use(Self::numbered(path, attempt as u64));
        }
        if attempt < 9999 {
            NameStep::Check(Self::numbered(path, (attempt + 1) as u64))
        } else {
            NameStep::Stamp
        }
    }

    /// The path beside `path` named "stem_n.ext".
    pub fn numbered(path: &str, n: u64) -> (r: String)
        ensures
            r@ == numbered_name(path@, n as nat),
    {
        let stem = match file_stem_of(path) {
            Some(s) => s,
            None => crate::text::to_owned_string("file"),
        };
        let mut name = chars_of(stem.as_str());
        push_str_chars(&mut name, "_");
        let digits = crate::text::decimal_chars(n);
        push_all(&mut name, &digits);
        match extension_of(path) {
            Some(e) => {
                push_str_chars(&mut name, ".");
                push_str_chars(&mut name, e.as_str());
            },
            None => {},
        }
        let parent = match parent_of(path) {
            Some(p) => p,
            None => crate::text::to_owned_string("."),
        };
        let file_name = string_of(&name);
        assert(file_name@ =~= stem_or_file(path@) + "_"@ + decimal_of(n as nat) + ext_suffix(path@));
        join_path(parent.as_str(), file_name.as_str())
    }

    /// The new content of a file for a replacement of every occurrence of
    /// `old_string` by `new_string`; the file must be allowed, exist and
    /// contain `old_string`. An empty `old_string` is contained in every text
    /// and puts `new_string` at every character boundary.
    pub fn replace_content(&self, check_path: &str, present: bool, content: &str, old_string: &str, new_string: &str) -> (r: Result<String, FileAccessError>)
        ensures
            match r {
                Ok(s) => self.allows(check_path@) && present && seq_contains(content@, old_string@)
                    && s@ == str_replace(content@, old_string@, new_string@),
                Err(e) => e == if !self.allows(check_path@) {
                    FileAccessError::AccessDenied
                } else if !present {
                    FileAccessError::NotFound
                } else {
                    FileAccessError::OldStringNotFound
                } && !(self.allows(check_path@) && present && seq_contains(content@, old_string@)),
            },
    {
        if !self.is_path_allowed(check_path) {
            return Err(FileAccessError::AccessDenied);
        }
        if !present {
            return Err(FileAccessError::NotFound);
        }
        if !contains_str(content, old_string) {
            return Err(FileAccessError::OldStringNotFound);
        }
        let c = chars_of(content);
        let o = chars_of(old_string);
        let n = chars_of(new_string);
        let out = replace_all(&c, &o, &n);
        Ok(string_of(&out))
    }
}

/// The absolute form of a path: itself when absolute, else joined to the
/// current directory.
pub fn absolute_path(path: &str, current_dir: &str) -> (r: String)
    ensures
        r@ == if path_absolute(path@) {
            path@
        } else {
            path_joined(current_dir@, path@)
        },
{
    if is_absolute_path(path) {
        crate::text::to_owned_string(path)
    } else {
        join_path(current_dir, path)
    }
}

/// The path whose place decides access: for a path that does not exist,
/// its parent (itself when it has none); for one that exists, its canonical
/// form when that could be had.
pub fn check_path_of(absolute: &str, present: bool, canonical: Option<String>) -> (r: String)
    ensures
        r@ == if !present {
            match path_parent(absolute@) {
                Some(p) => p,
                None => absolute@,
            }
        } else {
            match canonical {
                Some(c) => c@,
                None => absolute@,
            }
        },
{
    if !present {
        match parent_of(absolute) {
            Some(p) => p,
            None => crate::text::to_owned_string(absolute),
        }
    } else {
        match canonical {
            Some(c) => c,
            None => crate::text::to_owned_string(absolute),
        }
    }
}

/// The path named by the time: "stem_secs.ext" beside `path`.
pub fn stamped_filename(path: &str, secs: u64) -> (r: String)
    ensures
        r@ == numbered_name(path@, secs as nat),
{
    FileAccessManager::numbered(path, secs)
}

} // verus!

verus! {

/// Allowing a directory allows every path under it and keeps allowing what
/// was allowed before.
pub proof fn law_allow_directory(before: FileAccessManager, after: FileAccessManager, d: Seq<char>, p: Seq<char>)
    requires
        after.dirs() == before.dirs().push(d),
    ensures
        path_prefix(p, d) ==> after.allows(p),
        before.allows(p) ==> after.allows(p),
{
    if path_prefix(p, d) {
        assert(after.dirs()[before.dirs().len() as int] == d);
    }
    if before.allows(p) {
        let i = choose|i: int| 0 <= i < before.dirs().len() && path_prefix(p, #[trigger] before.dirs()[i]);
        assert(after.dirs()[i] == before.dirs()[i]);
    }
}

} // verus!
