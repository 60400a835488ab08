//! The mod's name and version, and the names derived from them.

use vstd::prelude::*;

verus! {

/// `name` followed by `_` and `version`: the archive's root folder and the
/// stem of its file name.
pub open spec fn qualified_name(name: Seq<char>, version: Seq<char>) -> Seq<char> {
    name + seq!['_'] + version
}

/// The file name of the archive for a qualified name.
pub open spec fn zip_name(qualified: Seq<char>) -> Seq<char> {
    qualified + seq!['.', 'z', 'i', 'p']
}

/// What the mod's metadata descriptor says of the mod.
pub struct InfoJson {
    pub name: String,
    pub version: String,
}

impl InfoJson {
    /// The qualified name `<name>_<version>`.
    pub fn to_string(&self) -> (r: String)
        ensures
            r@ == qualified_name(self.name@, self.version@),
    {
        let mut r = self.name.clone();
        let sep = "_";
        proof {
            reveal_strlit("_");
        }
        r.append(sep);
        r.append(self.version.as_str());
        r
    }

    /// The archive's file name, `<name>_<version>.zip`.
    pub fn zip_file_name(&self) -> (r: String)
        ensures
            r@ == zip_name(qualified_name(self.name@, self.version@)),
    {
        let mut r = self.to_string();
        let ext = ".zip";
        proof {
            reveal_strlit(".zip");
        }
        r.append(ext);
        r
    }
}

} // verus!
