//! Image files chosen for flashing.
use vstd::prelude::*;

verus! {

/// An image file: its path, as text, and its size in bytes.
#[derive(Debug, Clone)]
pub struct ImageFile {
    pub path: String,
    pub size_bytes: u64,
}

/// The position of the last `/` in `p`, or -1 where there is none.
pub open spec fn last_slash(p: Seq<char>) -> int
    decreases p.len(),
{
    if p.len() == 0 {
        -1
    } else if p.last() == '/' {
        p.len() - 1
    } else {
        last_slash(p.drop_last())
    }
}

/// `last_slash` is a position of `p` holding `/` with none after it, or -1
/// where `p` holds no `/`.
pub proof fn lemma_last_slash(p: Seq<char>)
    ensures
        -1 <= last_slash(p) < p.len(),
        last_slash(p) >= 0 ==> p[last_slash(p)] == '/',
        forall|j: int| last_slash(p) < j < p.len() ==> p[j] != '/',
    decreases p.len(),
{
    if p.len() > 0 && p.last() != '/' {
        lemma_last_slash(p.drop_last());
        assert forall|j: int| last_slash(p) < j < p.len() implies p[j] != '/' by {
            if j < p.len() - 1 {
                assert(p[j] == p.drop_last()[j]);
            }
        }
    }
}

/// The final component of a path in the Unix path syntax, as
/// `std::path::Path::file_name` gives it: of the `/`-separated segments,
/// empty ones and `.` are skipped from the end; the last remaining one,
/// unless it is `..`. `None` where no segment remains (as for `/`, `.` or
/// the empty path) or the last one is `..`.
pub open spec fn path_file_name(path: Seq<char>) -> Option<Seq<char>>
    decreases path.len(),
{
    if path.len() == 0 {
        None
    } else {
        let k = last_slash(path);
        let segment = path.subrange(k + 1, path.len() as int);
        if segment.len() == 0 || segment == "."@ {
            if k < 0 {
                None
            } else {
                proof {
                    lemma_last_slash(path);
                }
                path_file_name(path.subrange(0, k))
            }
        } else if segment == ".."@ {
            None
        } else {
            Some(segment)
        }
    }
}

/// A file name is never empty and never holds a `/`.
pub proof fn lemma_file_name_is_one_segment(path: Seq<char>)
    ensures
        path_file_name(path) matches Some(n) ==> n.len() > 0 && !n.contains('/'),
    decreases path.len(),
{
    if path.len() > 0 {
        lemma_last_slash(path);
        let k = last_slash(path);
        let segment = path.subrange(k + 1, path.len() as int);
        if segment.len() == 0 || segment == "."@ {
            if k >= 0 {
                lemma_file_name_is_one_segment(path.subrange(0, k));
            }
        } else {
            assert forall|j: int| 0 <= j < segment.len() implies segment[j] != '/' by {
                assert(segment[j] == path[k + 1 + j]);
            }
        }
    }
}

/// `std::path::Path::file_name` on a path given as text, its result read
/// back as text with `OsStr::to_str` (a component of a text path is text).
/// Trusted: its result is `path_file_name`, which restates how the std
/// documentation of `Path::components` and `Path::file_name` has a Unix
/// path read.
#[verifier::external_body]
fn file_name_of(path: &str) -> (r: Option<&str>)
    ensures
        match r {
            Some(n) => path_file_name(path@) == Some(n@),
            None => path_file_name(path@) is None,
        },
{
    match std::path::Path::new(path).file_name() {
        Some(name) => name.to_str(),
        None => None,
    }
}

/// The label of an image whose file name is `name`, if it has one.
pub open spec fn image_label(name: Option<Seq<char>>) -> Seq<char> {
    match name {
        Some(n) => n,
        None => "unknown image"@,
    }
}

/// The label shown for an image with the given file name.
pub fn image_label_from_file_name(name: Option<&str>) -> (r: String)
    ensures
        r@ == image_label(match name {
            Some(n) => Some(n@),
            None => None,
        }),
{
    match name {
        Some(n) => n.to_string(),
        None => "unknown image".to_string(),
    }
}

/// Why an image cannot be used, where the file system reports a path as
/// not a regular file or as empty.
pub open spec fn image_refusal(is_file: bool, len: u64) -> Option<Seq<char>> {
    if !is_file {
        Some("selected path is not a regular file"@)
    } else if len == 0 {
        Some("selected image file is empty"@)
    } else {
        None
    }
}

/// The image at `path`, given what the file system reports of it: whether
/// it is a regular file and its length.
pub fn image_from_metadata(path: String, is_file: bool, len: u64) -> (r: Result<ImageFile, String>)
    ensures
        match r {
            Ok(image) => image_refusal(is_file, len) is None && image.path@ == path@
                && image.size_bytes == len,
            Err(message) => image_refusal(is_file, len) == Some(message@),
        },
        is_file && len > 0 ==> (r matches Ok(image) && image.path@ == path@ && image.size_bytes == len),
        !is_file ==> (r matches Err(message) && message@ == "selected path is not a regular file"@),
        is_file && len == 0 ==> (r matches Err(message) && message@ == "selected image file is empty"@),
{
    proof {
        lemma_only_directories_and_empty_files_refused(is_file, len);
    }
    if !is_file {
        return Err("selected path is not a regular file".to_string());
    }
    if len == 0 {
        return Err("selected image file is empty".to_string());
    }
    Ok(ImageFile { path, size_bytes: len })
}

impl ImageFile {
    pub fn file_name_label(&self) -> (r: String)
        ensures
            r@ == image_label(path_file_name(self.path@)),
    {
        image_label_from_file_name(file_name_of(self.path.as_str()))
    }

    pub fn fits_in_bytes(&self, target_size_bytes: u64) -> (r: bool)
        ensures
            r == (self.size_bytes <= target_size_bytes),
    {
        self.size_bytes <= target_size_bytes
    }
}

/// Only two things refuse an image: not being a regular file, and being
/// empty. Any regular file of at least one byte is accepted, whatever its
/// size.
pub proof fn lemma_only_directories_and_empty_files_refused(is_file: bool, len: u64)
    ensures
        (image_refusal(is_file, len) is None) == (is_file && len > 0),
        !is_file ==> image_refusal(is_file, len) == Some("selected path is not a regular file"@),
        is_file && len == 0 ==> image_refusal(is_file, len) == Some("selected image file is empty"@),
{
}

} // verus!
