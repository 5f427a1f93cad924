//! Path derivations: the `.part` staging file of a download, its resume
//! sidecar, and paths shown relative to a scan root. The path grammar
//! itself is `std::path`'s, reached through the functions below.

use vstd::prelude::*;

use crate::text::push_str;

verus! {

/// `Path::file_name`: the last component, if it is a normal name.
pub uninterp spec fn file_name_spec(path: Seq<char>) -> Option<Seq<char>>;

/// `Path::with_file_name`: the path with its last component replaced.
pub uninterp spec fn with_file_name_spec(path: Seq<char>, name: Seq<char>) -> Seq<char>;

/// `Path::strip_prefix`: the rest of the path after a leading `base`.
pub uninterp spec fn strip_prefix_spec(path: Seq<char>, base: Seq<char>) -> Option<Seq<char>>;

/// `Path::parent`: the path without its last component.
pub uninterp spec fn parent_spec(path: Seq<char>) -> Option<Seq<char>>;

/// `Path::components`: the components of the path, each as text.
pub uninterp spec fn components_spec(path: Seq<char>) -> Seq<Seq<char>>;

/// `Path::extension`: the extension of the last component, without the dot.
pub uninterp spec fn extension_spec(path: Seq<char>) -> Option<Seq<char>>;

/// `Path::file_stem`: the last component without its extension.
pub uninterp spec fn file_stem_spec(path: Seq<char>) -> Option<Seq<char>>;

/// `Path::join`: `base` with `rest` appended as further components.
pub uninterp spec fn join_spec(base: Seq<char>, rest: Seq<char>) -> Seq<char>;

/// `Path`'s `==`: equality component by component.
pub uninterp spec fn path_eq_spec(a: Seq<char>, b: Seq<char>) -> bool;

/// `std::path::Path::join`, as text.
#[verifier::external_body]
pub(crate) fn path_join(base: &str, rest: &str) -> (r: String)
    ensures
        r@ == join_spec(base@, rest@),
{
    std::path::Path::new(base).join(rest).to_string_lossy().into_owned()
}

/// `Path`'s `==` on two paths given as text; the same text is always the
/// same path.
#[verifier::external_body]
pub(crate) fn path_eq(a: &str, b: &str) -> (r: bool)
    ensures
        r == path_eq_spec(a@, b@),
        a@ == b@ ==> r,
{
    std::path::Path::new(a) == std::path::Path::new(b)
}

/// `std::path::Path::file_name`, as text.
#[verifier::external_body]
pub(crate) fn path_file_name(path: &str) -> (r: Option<String>)
    ensures
        match file_name_spec(path@) {
            Some(n) => r matches Some(s) && s@ == n,
            None => r is None,
        },
{
    std::path::Path::new(path).file_name().map(|n| n.to_string_lossy().into_owned())
}

/// `std::path::Path::with_file_name`, as text.
#[verifier::external_body]
pub(crate) fn path_with_file_name(path: &str, name: &str) -> (r: String)
    ensures
        r@ == with_file_name_spec(path@, name@),
{
    std::path::Path::new(path).with_file_name(name).to_string_lossy().into_owned()
}

/// `std::path::Path::strip_prefix`, as text.
#[verifier::external_body]
pub(crate) fn path_strip_prefix(path: &str, base: &str) -> (r: Option<String>)
    ensures
        match strip_prefix_spec(path@, base@) {
            Some(n) => r matches Some(s) && s@ == n,
            None => r is None,
        },
{
    std::path::Path::new(path).strip_prefix(base).ok().map(|p| p.to_string_lossy().into_owned())
}

/// `std::path::Path::parent`, as text.
#[verifier::external_body]
pub(crate) fn path_parent(path: &str) -> (r: Option<String>)
    ensures
        match parent_spec(path@) {
            Some(n) => r matches Some(s) && s@ == n,
            None => r is None,
        },
{
    std::path::Path::new(path).parent().map(|p| p.to_string_lossy().into_owned())
}

/// `std::path::Path::components`, each component as text.
#[verifier::external_body]
pub(crate) fn path_components(path: &str) -> (r: Vec<String>)
    ensures
        r@.len() == components_spec(path@).len(),
        forall|i: int| 0 <= i < r@.len() ==> (#[trigger] r@[i])@ == components_spec(path@)[i],
{
    std::path::Path::new(path).components().map(|c| c.as_os_str().to_string_lossy().into_owned()).collect()
}

/// `std::path::Path::extension`, as text.
#[verifier::external_body]
pub(crate) fn path_extension(path: &str) -> (r: Option<String>)
    ensures
        match extension_spec(path@) {
            Some(n) => r matches Some(s) && s@ == n,
            None => r is None,
        },
{
    std::path::Path::new(path).extension().map(|e| e.to_string_lossy().into_owned())
}

/// `std::path::Path::file_stem`, as text.
#[verifier::external_body]
pub(crate) fn path_file_stem(path: &str) -> (r: Option<String>)
    ensures
        match file_stem_spec(path@) {
            Some(n) => r matches Some(s) && s@ == n,
            None => r is None,
        },
{
    std::path::Path::new(path).file_stem().map(|e| e.to_string_lossy().into_owned())
}

/// The path with `suffix` appended to its file name (an empty name when
/// there is none).
pub open spec fn with_name_suffix(path: Seq<char>, suffix: Seq<char>) -> Seq<char> {
    let name = match file_name_spec(path) {
        Some(n) => n,
        None => Seq::empty(),
    };
    with_file_name_spec(path, name + suffix)
}

/// Appends `suffix` to the file name of `path`.
fn append_to_file_name(path: &str, suffix: &str) -> (r: String)
    ensures
        r@ == with_name_suffix(path@, suffix@),
{
    let mut name = match path_file_name(path) {
        Some(n) => n,
        None => String::new(),
    };
    push_str(&mut name, suffix);
    path_with_file_name(path, name.as_str())
}

/// Text of a sequence of path components, each followed by `/`.
pub open spec fn components_text(cs: Seq<Seq<char>>) -> Seq<char>
    decreases cs.len(),
{
    if cs.len() == 0 {
        Seq::empty()
    } else {
        components_text(cs.drop_last()) + cs.last() + seq!['/']
    }
}

/// The identity of a path as `Path`'s `==` sees it: its components, as text.
pub open spec fn path_key_spec(path: Seq<char>) -> Seq<char> {
    components_text(components_spec(path))
}

/// The components of `path` as one text (see [`path_key_spec`]): paths
/// that differ only in repeated separators, a trailing separator or inner
/// `.` components have the same key.
pub fn path_key(path: &str) -> (r: String)
    ensures
        r@ == path_key_spec(path@),
{
    let cs = path_components(path);
    let ghost spec_cs = components_spec(path@);
    let mut out = String::new();
    let mut i: usize = 0;
    while i < cs.len()
        invariant
            i <= cs.len(),
            cs@.len() == spec_cs.len(),
            forall|k: int| 0 <= k < cs@.len() ==> (#[trigger] cs@[k])@ == spec_cs[k],
            out@ == components_text(spec_cs.subrange(0, i as int)),
        decreases cs.len() - i,
    {
        proof {
            assert(spec_cs.subrange(0, i as int + 1).drop_last() =~= spec_cs.subrange(0, i as int));
        }
        push_str(&mut out, cs[i].as_str());
        out.push('/');
        i += 1;
    }
    proof {
        assert(spec_cs.subrange(0, cs@.len() as int) =~= spec_cs);
    }
    out
}

/// The staging file of a download: `<name>.part` next to the final file.
pub fn part_path_for(file_path: &str) -> (r: String)
    ensures
        r@ == with_name_suffix(file_path@, ".part"@),
{
    append_to_file_name(file_path, ".part")
}

/// The resume sidecar of a staging file: `<name>.part.json` next to it.
pub fn sidecar_path_for(part_path: &str) -> (r: String)
    ensures
        r@ == with_name_suffix(part_path@, ".json"@),
{
    append_to_file_name(part_path, ".json")
}

/// A path as shown to the user: relative to `root` when it lies under it.
pub fn display(path: &str, root: &str) -> (r: String)
    ensures
        r@ == match strip_prefix_spec(path@, root@) {
            Some(rel) => rel,
            None => path@,
        },
{
    match path_strip_prefix(path, root) {
        Some(rel) => rel,
        None => String::from_str(path),
    }
}

} // verus!
