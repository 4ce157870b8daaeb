use vstd::prelude::*;
use vstd::string::StringSliceAdditionalSpecFns;

verus! {

/// An item with a path relative to the archive's root, such as a file to pack.
pub trait HasRelativePath {
    /// The UTF-8 bytes of the path.
    spec fn spec_relative_path(&self) -> Seq<u8>;

    /// The path of the item, relative to the archive's root, with `/` as separator.
    fn relative_path(&self) -> (r: &str)
        ensures
            r.spec_bytes() == self.spec_relative_path(),
    ;
}

/// A path held on its own.
impl HasRelativePath for String {
    open spec fn spec_relative_path(&self) -> Seq<u8> {
        vstd::utf8::encode_utf8(self@)
    }

    fn relative_path(&self) -> (r: &str) {
        self.as_str()
    }
}

} // verus!
