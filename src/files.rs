//! The input and output directories, output naming and pairing.

use vstd::prelude::*;
use crate::paths::{
    extension_of, file_name, file_name_of, has_extension, join, joined_path, name_or_empty,
    output_file_name, split_name, stem_of, unix_seconds,
};
use crate::pattern::{is_name_pair, names_pair};
use crate::text::push_decimal;

verus! {

/// The character views of a sequence of strings.
pub open spec fn views(v: Seq<String>) -> Seq<Seq<char>> {
    v.map_values(|s: String| s@)
}

/// The paths of `files` that have a non-empty extension, in their order.
pub open spec fn with_extension(files: Seq<Seq<char>>) -> Seq<Seq<char>>
    decreases files.len(),
{
    if files.len() == 0 {
        Seq::empty()
    } else if has_extension(files.last()) {
        with_extension(files.drop_last()).push(files.last())
    } else {
        with_extension(files.drop_last())
    }
}

/// Where the output for the input `input` goes at `timestamp`: the name
/// `{stem}_compressed_{timestamp}.{ext}` in `out_dir`; none where the input
/// has no file name or no extension.
pub open spec fn output_path(out_dir: Seq<char>, input: Seq<char>, timestamp: nat) -> Option<
    Seq<char>,
> {
    match file_name_of(input) {
        Some(n) => match extension_of(n) {
            Some(e) => Some(joined_path(out_dir, output_file_name(stem_of(n), timestamp, e))),
            None => None,
        },
        None => None,
    }
}

/// The file name of `path`, or the empty string where it has none.
fn name_of(path: &str) -> (r: String)
    ensures
        r@ == name_or_empty(path@),
{
    match file_name(path) {
        Some(n) => n,
        None => String::new(),
    }
}

/// Whether `path` has a file name with a non-empty extension.
pub fn path_has_extension(path: &str) -> (r: bool)
    ensures
        r == has_extension(path@),
{
    match file_name(path) {
        Some(n) => {
            let (_, ext) = split_name(n.as_str());
            match ext {
                Some(e) => e.as_str().unicode_len() > 0,
                None => false,
            }
        },
        None => false,
    }
}

/// The entries of a listing that have a non-empty extension, in their order.
pub fn keep_with_extension(files: Vec<String>) -> (r: Vec<String>)
    ensures
        views(r@) == with_extension(views(files@)),
{
    let mut r: Vec<String> = Vec::new();
    let mut i: usize = 0;
    while i < files.len()
        invariant
            i <= files.len(),
            views(r@) == with_extension(views(files@).subrange(0, i as int)),
        decreases files.len() - i,
    {
        let f = &files[i];
        proof {
            let pre = views(files@).subrange(0, i + 1);
            assert(pre.drop_last() =~= views(files@).subrange(0, i as int));
            assert(pre.last() == f@);
        }
        if path_has_extension(f.as_str()) {
            r.push(f.clone());
            proof {
                assert(views(r@) =~= views(r@).drop_last().push(f@));
                assert(views(r@).drop_last() =~= with_extension(views(files@).subrange(0, i as int)));
            }
        }
        i = i + 1;
    }
    proof {
        assert(views(files@).subrange(0, i as int) =~= views(files@));
    }
    r
}

/// The pair of directories a node works on.
#[derive(Clone, Debug)]
pub struct FileManager {
    in_dir: String,
    out_dir: String,
}

impl FileManager {
    /// The input directory.
    pub closed spec fn spec_in_dir(&self) -> Seq<char> {
        self.in_dir@
    }

    /// The output directory.
    pub closed spec fn spec_out_dir(&self) -> Seq<char> {
        self.out_dir@
    }

    pub fn new(in_dir: &str, out_dir: &str) -> (r: Self)
        ensures
            r.spec_in_dir() == in_dir@,
            r.spec_out_dir() == out_dir@,
    {
        FileManager { in_dir: String::from_str(in_dir), out_dir: String::from_str(out_dir) }
    }

    pub fn in_dir(&self) -> (r: &str)
        ensures
            r@ == self.spec_in_dir(),
    {
        self.in_dir.as_str()
    }

    pub fn out_dir(&self) -> (r: &str)
        ensures
            r@ == self.spec_out_dir(),
    {
        self.out_dir.as_str()
    }

    /// Whether `out_file` is taken for the compressed counterpart of `in_file`,
    /// judged by their file names alone.
    pub fn is_file_pair(&self, in_file: &str, out_file: &str) -> (r: bool)
        ensures
            r == names_pair(name_or_empty(in_file@), name_or_empty(out_file@)),
    {
        let in_name = name_of(in_file);
        let out_name = name_of(out_file);
        is_name_pair(in_name.as_str(), out_name.as_str())
    }

    /// The output path for `input_file` at the Unix time `timestamp`.
    pub fn output_name_at(&self, input_file: &str, timestamp: u64) -> (r: Option<String>)
        ensures
            match r {
                Some(o) => output_path(self.spec_out_dir(), input_file@, timestamp as nat) == Some(
                    o@,
                ),
                None => output_path(self.spec_out_dir(), input_file@, timestamp as nat) is None,
            },
    {
        let name = match file_name(input_file) {
            Some(n) => n,
            None => return None,
        };
        let (stem, ext) = split_name(name.as_str());
        let ext = match ext {
            Some(e) => e,
            None => return None,
        };
        let mut out = stem;
        out.append("_compressed_");
        push_decimal(&mut out, timestamp);
        out.append(".");
        out.append(ext.as_str());
        proof {
            reveal_strlit("_compressed_");
            reveal_strlit(".");
            assert(out@ =~= output_file_name(stem_of(name@), timestamp as nat, ext@));
        }
        Some(join(self.out_dir.as_str(), out.as_str()))
    }

    /// The output path for `input_file` at the present second; `None` where
    /// the input has no file name or no extension, or the clock reads before
    /// the Unix epoch.
    pub fn get_output_name(&self, input_file: &str) -> (r: Option<String>)
        ensures
            r matches Some(o) ==> exists|t: u64|
                output_path(self.spec_out_dir(), input_file@, t as nat) == Some(#[trigger] o@),
            output_path(self.spec_out_dir(), input_file@, 0) is None ==> r is None,
    {
        match unix_seconds() {
            Some(t) => self.output_name_at(input_file, t),
            None => None,
        }
    }
}

} // verus!
