//! Where the cells of an image are written: `<root>/<stem>/<ordinal>.png`.
use vstd::prelude::*;

use crate::text::{decimal_text, push_decimal};

verus! {

/// What `Path::file_stem` gives for a path, as text.
pub uninterp spec fn file_stem_of(path: Seq<char>) -> Option<Seq<char>>;

/// Relies on std's `Path::file_stem`: the final component of the path
/// without its extension, or nothing where the path has no file name. The
/// stem of valid UTF-8 text is valid UTF-8, so the lossy conversion keeps it
/// as it is.
#[verifier::external_body]
fn file_stem(path: &str) -> (r: Option<String>)
    ensures
        match r {
            Some(t) => file_stem_of(path@) == Some(t@),
            None => file_stem_of(path@) is None,
        },
{
    std::path::Path::new(path).file_stem().map(|t| t.to_string_lossy().to_string())
}

/// The name under which an image's cells are grouped.
pub open spec fn image_name_of(path: Seq<char>) -> Seq<char> {
    match file_stem_of(path) {
        Some(t) => t,
        None => seq!['E', 'r', 'r'],
    }
}

/// The directory that receives the cells of the image named `name`.
pub open spec fn output_dir_of(root: Seq<char>, name: Seq<char>) -> Seq<char> {
    root + seq!['/'] + name
}

/// The file that receives the cell of ordinal `ordinal`.
pub open spec fn cell_path_of(root: Seq<char>, name: Seq<char>, ordinal: nat) -> Seq<char> {
    output_dir_of(root, name) + seq!['/'] + decimal_text(ordinal) + seq!['.', 'p', 'n', 'g']
}

/// The name of the image at `path`: its file stem, or `Err` where the path
/// has no file name.
pub fn get_filename(path: &str) -> (r: String)
    ensures
        r@ == image_name_of(path@),
{
    match file_stem(path) {
        Some(t) => t,
        None => {
            proof {
                reveal_strlit("Err");
            }
            let r = String::from_str("Err");
            assert(r@ =~= seq!['E', 'r', 'r']);
            r
        },
    }
}

/// `<root>/<name>`: the directory of one image's cells.
pub fn output_dir(root: &str, name: &str) -> (r: String)
    ensures
        r@ == output_dir_of(root@, name@),
{
    proof {
        reveal_strlit("/");
    }
    let mut r = String::from_str(root);
    r.append("/");
    r.append(name);
    assert(r@ =~= output_dir_of(root@, name@));
    r
}

/// `<root>/<name>/<ordinal>.png`: the file of one cell.
pub fn cell_path(root: &str, name: &str, ordinal: u64) -> (r: String)
    ensures
        r@ == cell_path_of(root@, name@, ordinal as nat),
{
    proof {
        reveal_strlit("/");
        reveal_strlit(".png");
    }
    let mut r = output_dir(root, name);
    r.append("/");
    push_decimal(&mut r, ordinal);
    r.append(".png");
    assert(r@ =~= cell_path_of(root@, name@, ordinal as nat));
    r
}

} // verus!
