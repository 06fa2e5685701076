//! Names of the files that the results of a comparison are written to.
//!
//! The images are numbered from one in the order in which they are put out,
//! and each goes into the output directory as a PNG file.

use crate::text::{decimal, decimal_digits};
use vstd::prelude::*;
use vstd::string::StringExecFns;

verus! {

/// The file name of the image at position `index` of the output, counted
/// from zero: `diff_page_`, the position counted from one, `.png`.
pub open spec fn file_name_text(index: nat) -> Seq<char> {
    "diff_page_"@ + decimal_digits(index + 1) + ".png"@
}

/// The path of the image at position `index` of the output: the directory, a
/// slash and the file name.
pub open spec fn output_path_text(output_dir: Seq<char>, index: nat) -> Seq<char> {
    output_dir + "/"@ + file_name_text(index)
}

/// The path that the image at position `index` of the output is written to.
pub fn output_path(output_dir: &str, index: usize) -> (path: String)
    requires
        index < usize::MAX,
    ensures
        path@ == output_path_text(output_dir@, index as nat),
{
    let mut path = String::from_str(output_dir);
    path.append("/");
    path.append("diff_page_");
    let number = decimal((index + 1) as u64);
    path.append(number.as_str());
    path.append(".png");
    path
}

/// The paths that `count` images are written to, in the order of the images.
pub fn output_paths(output_dir: &str, count: usize) -> (paths: Vec<String>)
    ensures
        paths@.len() == count,
        forall|i: int|
            0 <= i < count ==> (#[trigger] paths@[i])@ == output_path_text(output_dir@, i as nat),
{
    let mut paths: Vec<String> = Vec::new();
    let mut index: usize = 0;
    while index < count
        invariant
            index <= count,
            paths@.len() == index,
            forall|i: int|
                0 <= i < index ==> (#[trigger] paths@[i])@ == output_path_text(output_dir@, i as nat),
        decreases count - index,
    {
        paths.push(output_path(output_dir, index));
        index = index + 1;
    }
    paths
}

} // verus!
