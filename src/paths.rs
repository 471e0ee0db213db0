//! File names, stems and extensions of paths held as strings.

use vstd::prelude::*;
use crate::pattern::marker;
use crate::text::{chars_of, decimal, is_digit, string_of};

verus! {

/// What `Path::file_name` gives for `path`: its final component, if any.
pub uninterp spec fn file_name_of(path: Seq<char>) -> Option<Seq<char>>;

/// What `Path::join` gives for `dir` and `name`.
pub uninterp spec fn joined_path(dir: Seq<char>, name: Seq<char>) -> Seq<char>;

/// Relies on `Path::file_name`: the final component of the path, if there is one.
#[verifier::external_body]
pub(crate) fn file_name(path: &str) -> (r: Option<String>)
    ensures
        r matches Some(n) ==> file_name_of(path@) == Some(n@),
        r is None ==> file_name_of(path@) is None,
{
    std::path::Path::new(path).file_name().map(|n| n.to_string_lossy().into_owned())
}

/// Relies on `Path::join`: `name` appended to the directory `dir`.
#[verifier::external_body]
pub(crate) fn join(dir: &str, name: &str) -> (r: String)
    ensures
        r@ == joined_path(dir@, name@),
{
    std::path::Path::new(dir).join(name).to_string_lossy().into_owned()
}

/// Relies on `SystemTime::elapsed`, taken from the Unix epoch: the whole
/// seconds since then, or `None` where the clock reads earlier.
#[verifier::external_body]
pub(crate) fn unix_seconds() -> (r: Option<u64>) {
    std::time::UNIX_EPOCH.elapsed().ok().map(|d| d.as_secs())
}

/// The file name of `path`, or the empty name where it has none.
pub open spec fn name_or_empty(path: Seq<char>) -> Seq<char> {
    match file_name_of(path) {
        Some(n) => n,
        None => Seq::empty(),
    }
}

/// The index of the final `.` in `name`, or `-1` where it holds none.
pub open spec fn last_dot(name: Seq<char>) -> int
    decreases name.len(),
{
    if name.len() == 0 {
        -1
    } else if name.last() == '.' {
        name.len() - 1
    } else {
        last_dot(name.drop_last())
    }
}

/// The stem of a file name: the part before the final `.`; the whole name
/// where it holds no `.` or only a leading one.
pub open spec fn stem_of(name: Seq<char>) -> Seq<char> {
    if last_dot(name) <= 0 {
        name
    } else {
        name.subrange(0, last_dot(name))
    }
}

/// The extension of a file name: the part after the final `.`; none where
/// the name holds no `.` or only a leading one.
pub open spec fn extension_of(name: Seq<char>) -> Option<Seq<char>> {
    if last_dot(name) <= 0 {
        None
    } else {
        Some(name.subrange(last_dot(name) + 1, name.len() as int))
    }
}

/// The path has a file name with a non-empty extension.
pub open spec fn has_extension(path: Seq<char>) -> bool {
    &&& file_name_of(path) matches Some(n)
    &&& extension_of(n) matches Some(e)
    &&& e.len() > 0
}

/// `{stem}_compressed_{timestamp}.{ext}`.
pub open spec fn output_file_name(stem: Seq<char>, timestamp: nat, ext: Seq<char>) -> Seq<char> {
    stem + marker() + decimal(timestamp) + seq!['.'] + ext
}

/// `name` is `{stem}_compressed_{k digits}.{ext}`, from its first character
/// to its last.
pub open spec fn shaped_with(name: Seq<char>, stem: Seq<char>, ext: Seq<char>, k: int) -> bool {
    let d = stem.len() + 12int;
    &&& k >= 1
    &&& name.len() == d + k + 1 + ext.len()
    &&& name.subrange(0, stem.len() as int) == stem
    &&& name.subrange(stem.len() as int, d) == marker()
    &&& forall|i: int| d <= i < d + k ==> is_digit(#[trigger] name[i])
    &&& name[d + k] == '.'
    &&& name.subrange(d + k + 1, name.len() as int) == ext
}

/// `name` has the shape `{stem}_compressed_{digits}.{ext}` with at least one
/// digit.
pub open spec fn shaped_output(name: Seq<char>, stem: Seq<char>, ext: Seq<char>) -> bool {
    exists|k: int| shaped_with(name, stem, ext, k)
}

/// Every output name built from a stem and an extension has the shape
/// `{stem}_compressed_{digits}.{ext}`.
pub proof fn lemma_output_name_shape(stem: Seq<char>, timestamp: nat, ext: Seq<char>)
    ensures
        shaped_output(output_file_name(stem, timestamp, ext), stem, ext),
{
    let name = output_file_name(stem, timestamp, ext);
    let digits = decimal(timestamp);
    crate::text::lemma_decimal_digits(timestamp);
    let k = digits.len() as int;
    let d = stem.len() + 12int;
    assert(name.subrange(0, stem.len() as int) =~= stem);
    assert(name.subrange(stem.len() as int, d) =~= marker());
    assert forall|i: int| d <= i < d + k implies is_digit(#[trigger] name[i]) by {
        assert(name[i] == digits[i - d]);
    }
    assert(name[d + k] == '.');
    assert(name.subrange(d + k + 1, name.len() as int) =~= ext);
    assert(shaped_with(name, stem, ext, k));
}

/// The index of the final `.` in `v`, or `None` where it holds none.
fn find_last_dot(v: &Vec<char>) -> (r: Option<usize>)
    ensures
        match r {
            Some(i) => last_dot(v@) == i as int,
            None => last_dot(v@) == -1,
        },
        r matches Some(i) ==> i < v.len(),
{
    let mut i: usize = v.len();
    proof {
        assert(v@.subrange(0, i as int) =~= v@);
    }
    while i > 0
        invariant
            i <= v.len(),
            last_dot(v@) == last_dot(v@.subrange(0, i as int)),
        decreases i,
    {
        proof {
            assert(v@.subrange(0, i as int).drop_last() =~= v@.subrange(0, i - 1));
        }
        if v[i - 1] == '.' {
            return Some(i - 1);
        }
        i = i - 1;
    }
    proof {
        assert(v@.subrange(0, 0) =~= Seq::<char>::empty());
    }
    None
}

/// The stem and the extension of the file name `name`.
pub fn split_name(name: &str) -> (r: (String, Option<String>))
    ensures
        r.0@ == stem_of(name@),
        match r.1 {
            Some(e) => extension_of(name@) == Some(e@),
            None => extension_of(name@) is None,
        },
{
    let v = chars_of(name);
    let n = v.len();
    match find_last_dot(&v) {
        Some(k) if k > 0 => {
            let stem = string_of(&v, 0, k);
            let ext = string_of(&v, k + 1, n);
            (stem, Some(ext))
        },
        _ => {
            let whole = string_of(&v, 0, n);
            proof {
                assert(v@.subrange(0, n as int) =~= v@);
            }
            (whole, None)
        },
    }
}

} // verus!
