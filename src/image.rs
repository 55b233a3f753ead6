//! Image references: tags, the root filesystem location of an image, and the
//! registry addresses it is fetched from.
use vstd::prelude::*;
use crate::text::{contains_char, index_from, lemma_index_from, find_char_from, has_char};

verus! {

/// The reference with `:latest` appended when it names no tag.
pub open spec fn tagged(s: Seq<char>) -> Seq<char> {
    if contains_char(s, ':') {
        s
    } else {
        s + ":latest"@
    }
}

/// A path separator or a tag separator becomes `_`; any other character stays.
pub open spec fn flatten_char(c: char) -> char {
    if c == '/' || c == ':' {
        '_'
    } else {
        c
    }
}

/// The reference with every `/` and `:` replaced by `_`.
pub open spec fn flattened(s: Seq<char>) -> Seq<char> {
    s.map_values(|c: char| flatten_char(c))
}

/// Where the unpacked root filesystem of an image reference lives.
pub open spec fn root_path_of(s: Seq<char>) -> Seq<char> {
    "/var/lib/containers/"@ + flattened(s)
}

/// The repository part of a reference: everything before its first `:`.
pub open spec fn repository_of(s: Seq<char>) -> Seq<char> {
    s.subrange(0, index_from(s, ':', 0))
}

/// The tag part of a reference: what stands between its first and second `:`,
/// or `latest` when it has no `:`.
pub open spec fn tag_of(s: Seq<char>) -> Seq<char> {
    let k = index_from(s, ':', 0);
    if k < s.len() {
        s.subrange(k + 1, index_from(s, ':', k + 1))
    } else {
        "latest"@
    }
}

/// Returns the image reference with the default tag `latest` added when it has none.
pub fn ensure_tag(container: &str) -> (r: String)
    ensures
        r@ == tagged(container@),
{
    if has_char(container, ':') {
        String::from_str(container)
    } else {
        String::from_str(container).concat(":latest")
    }
}

proof fn lemma_flattened_push(s: Seq<char>, c: char)
    ensures
        flattened(s.push(c)) == flattened(s).push(flatten_char(c)),
{
    assert(flattened(s.push(c)) =~= flattened(s).push(flatten_char(c)));
}

proof fn lemma_flattened_concat(a: Seq<char>, b: Seq<char>)
    ensures
        flattened(a + b) == flattened(a) + flattened(b),
{
    assert(flattened(a + b) =~= flattened(a) + flattened(b));
}

/// Returns the reference with each `/` and `:` replaced by `_`, fit for a directory name.
pub fn flatten_reference(s: &str) -> (r: String)
    ensures
        r@ == flattened(s@),
{
    let n = s.unicode_len();
    let mut out = String::new();
    let mut start: usize = 0;
    let mut i: usize = 0;
    while i < n
        invariant
            n == s@.len(),
            start <= i <= n,
            out@ == flattened(s@.subrange(0, start as int)),
            flattened(s@.subrange(start as int, i as int)) == s@.subrange(start as int, i as int),
        decreases n - i,
    {
        let c = s.get_char(i);
        proof {
            assert(s@.subrange(start as int, i as int + 1) =~= s@.subrange(start as int, i as int).push(c));
            lemma_flattened_push(s@.subrange(start as int, i as int), c);
        }
        if c == '/' || c == ':' {
            let piece = s.substring_char(start, i);
            out.append(piece);
            out.append("_");
            proof {
                reveal_strlit("_");
                lemma_flattened_push(s@.subrange(start as int, i as int), c);
                assert(out@ =~= flattened(s@.subrange(0, start as int)) + flattened(s@.subrange(start as int, i as int).push(c)));
                assert(s@.subrange(0, i as int + 1) =~= s@.subrange(0, start as int) + s@.subrange(start as int, i as int).push(c));
                lemma_flattened_concat(s@.subrange(0, start as int), s@.subrange(start as int, i as int).push(c));
                assert(flattened(s@.subrange(i as int + 1, i as int + 1)) =~= s@.subrange(i as int + 1, i as int + 1));
            }
            start = i + 1;
        }
        i = i + 1;
    }
    let piece = s.substring_char(start, n);
    out.append(piece);
    proof {
        assert(s@ =~= s@.subrange(0, start as int) + s@.subrange(start as int, n as int));
        lemma_flattened_concat(s@.subrange(0, start as int), s@.subrange(start as int, n as int));
    }
    out
}

/// Returns the directory that holds the unpacked root filesystem of an image reference.
pub fn root_fs_path(image_name: &str) -> (r: String)
    ensures
        r@ == root_path_of(image_name@),
{
    let flat = flatten_reference(image_name);
    String::from_str("/var/lib/containers/").concat(flat.as_str())
}

/// Splits a reference into its repository and its tag.
pub fn split_reference(image_name: &str) -> (r: (String, String))
    ensures
        r.0@ == repository_of(image_name@),
        r.1@ == tag_of(image_name@),
{
    let n = image_name.unicode_len();
    let k = find_char_from(image_name, ':', 0);
    proof {
        lemma_index_from(image_name@, ':', 0);
    }
    let repo = String::from_str(image_name.substring_char(0, k));
    if k < n {
        let j = find_char_from(image_name, ':', k + 1);
        proof {
            lemma_index_from(image_name@, ':', k + 1);
        }
        (repo, String::from_str(image_name.substring_char(k + 1, j)))
    } else {
        (repo, String::from_str("latest"))
    }
}

/// What to do to have the root filesystem of an image on disk.
pub enum RootFsPlan {
    /// It is already unpacked at `path`.
    Present { path: String },
    /// Fetch `repository` at `tag` from the registry and unpack it at `path`.
    Fetch { path: String, repository: String, tag: String },
}

/// Decides how to obtain the root filesystem of `image_name`, given whether
/// the directory named by `root_fs_path(image_name)` already exists.
pub fn prepare_root_fs(image_name: &str, root_present: bool) -> (r: RootFsPlan)
    ensures
        root_present ==> (r matches RootFsPlan::Present { path } && path@ == root_path_of(image_name@)),
        !root_present ==> (r matches RootFsPlan::Fetch { path, repository, tag }
            && path@ == root_path_of(image_name@)
            && repository@ == repository_of(image_name@)
            && tag@ == tag_of(image_name@)),
{
    let path = root_fs_path(image_name);
    if root_present {
        return RootFsPlan::Present { path };
    }
    let (repository, tag) = split_reference(image_name);
    RootFsPlan::Fetch { path, repository, tag }
}

} // verus!
