use vstd::prelude::*;

use crate::error::GenResult;
use crate::generated_code::GeneratedCode;

verus! {

/// Marker for code written in Rust.
pub struct Rust;

/// Marker for code written in Python.
pub struct Python;

/// Something that knows which files of the target language it writes, and what goes in them.
pub trait CodeGenerator<Target> {
    /// The base name of the file the item is written to.
    spec fn filename_text(&self) -> Seq<char>;

    /// The files written for the item under the folder `p`, and their content.
    spec fn generated(&self, p: Seq<char>) -> Map<Seq<char>, Option<Seq<char>>>;

    fn get_filename(&self) -> (r: String)
        ensures
            r@ == self.filename_text(),
    ;

    fn aggregate_content(&self, p: &str) -> (r: GenResult<GeneratedCode>)
        ensures
            r matches Ok(g) && g@ == self.generated(p@),
    ;
}

} // verus!
