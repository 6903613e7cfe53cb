use vstd::prelude::*;

verus! {

/// What `Path::extension` gives for a path written as text.
pub uninterp spec fn extension_of(path: Seq<char>) -> Option<Seq<char>>;

/// What `str::to_lowercase` gives.
pub uninterp spec fn lowercase_of(s: Seq<char>) -> Seq<char>;

/// What `Path::strip_prefix` gives: the path relative to `base`, if `base`
/// is a leading run of its components.
pub uninterp spec fn relative_to(path: Seq<char>, base: Seq<char>) -> Option<Seq<char>>;

/// What `Path::join` gives.
pub uninterp spec fn joined(base: Seq<char>, rest: Seq<char>) -> Seq<char>;

pub open spec fn opt_text(o: Option<String>) -> Option<Seq<char>> {
    match o {
        Some(s) => Some(s@),
        None => None,
    }
}

/// Relies on `std::path::Path::extension`: the part of the file name after
/// its last dot; text in, text out.
#[verifier::external_body]
fn path_extension(path: &str) -> (r: Option<String>)
    ensures
        opt_text(r) == extension_of(path@),
{
    match std::path::Path::new(path).extension() {
        Some(e) => Some(e.to_string_lossy().into_owned()),
        None => None,
    }
}

/// Relies on `str::to_lowercase`: the result depends on the characters alone.
#[verifier::external_body]
fn to_lowercase(s: &str) -> (r: String)
    ensures
        r@ == lowercase_of(s@),
{
    s.to_lowercase()
}

/// Relies on `std::path::Path::strip_prefix`, which fails when `base` is not
/// a prefix of `path`.
#[verifier::external_body]
fn strip_base(path: &str, base: &str) -> (r: Option<String>)
    ensures
        opt_text(r) == relative_to(path@, base@),
{
    match std::path::Path::new(path).strip_prefix(base) {
        Ok(rel) => Some(rel.to_string_lossy().into_owned()),
        Err(_) => None,
    }
}

/// Relies on `std::path::Path::join`.
#[verifier::external_body]
fn join_path(base: &str, rest: &str) -> (r: String)
    ensures
        r@ == joined(base@, rest@),
{
    std::path::Path::new(base).join(rest).to_string_lossy().into_owned()
}

/// The lower-cased extension of a path, if it has one.
pub open spec fn lower_extension(path: Seq<char>) -> Option<Seq<char>> {
    match extension_of(path) {
        Some(e) => Some(lowercase_of(e)),
        None => None,
    }
}

pub fn lower_extension_of(path: &str) -> (r: Option<String>)
    ensures
        opt_text(r) == lower_extension(path@),
{
    match path_extension(path) {
        Some(e) => Some(to_lowercase(e.as_str())),
        None => None,
    }
}

/// A file under `input_dir` re-rooted under `output_dir`; a file outside
/// `input_dir` is joined as it stands.
pub open spec fn mirrored(file: Seq<char>, input_dir: Seq<char>, output_dir: Seq<char>) -> Seq<char> {
    match relative_to(file, input_dir) {
        Some(rel) => joined(output_dir, rel),
        None => joined(output_dir, file),
    }
}

/// The output path for `file`: its path relative to `input_dir`, joined to
/// `output_dir`.
pub fn mirror_path(file: &str, input_dir: &str, output_dir: &str) -> (r: String)
    ensures
        r@ == mirrored(file@, input_dir@, output_dir@),
{
    match strip_base(file, input_dir) {
        Some(rel) => join_path(output_dir, rel.as_str()),
        None => join_path(output_dir, file),
    }
}

/// Whether two texts are equal.
pub fn same_text(a: &str, b: &str) -> (r: bool)
    ensures
        r == (a@ == b@),
{
    a.to_owned() == b.to_owned()
}

} // verus!
