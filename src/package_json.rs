//! The package manifest as the provisioning logic reads it.
use vstd::prelude::*;
use crate::version::Version;

verus! {

pub type FileName = String;

pub type FilePath = String;

/// Binary names and their destination paths, in declaration order.
pub type Bins = Vec<(FileName, FilePath)>;

/// The entries of `b` as text.
pub open spec fn bins_view(b: Seq<(FileName, FilePath)>) -> Seq<(Seq<char>, Seq<char>)> {
    b.map_values(|e: (FileName, FilePath)| (e.0@, e.1@))
}

/// No binary name occurs twice.
pub open spec fn keys_unique(b: Seq<(Seq<char>, Seq<char>)>) -> bool {
    forall|i: int, j: int| 0 <= i < b.len() && 0 <= j < b.len() && i != j ==> #[trigger] b[i].0 != #[trigger] b[j].0
}

/// The manifest's `bin` field: one path named after the package, or a
/// record of names and paths.
#[derive(PartialEq, Eq, Debug, Clone)]
pub enum Bin {
    Single(String),
    Record(Bins),
}

/// Name, version and declared binaries of a package.
#[derive(PartialEq, Eq, Debug, Clone)]
pub struct PackageJson {
    pub name: String,
    pub version: Version,
    pub bin: Bin,
}

impl PackageJson {
    /// A record of binaries names each binary once.
    pub open spec fn wf(&self) -> bool {
        match self.bin {
            Bin::Record(b) => keys_unique(bins_view(b@)),
            Bin::Single(_) => true,
        }
    }

    /// The declared binaries: the record as it is, or the single path under
    /// the package's name.
    pub fn bins(self) -> (r: Bins)
        ensures
            match self.bin {
                Bin::Record(b) => r@ == b@,
                Bin::Single(p) => r@ == seq![(self.name, p)],
            },
            self.wf() ==> keys_unique(bins_view(r@)),
    {
        match self.bin {
            Bin::Record(bins) => bins,
            Bin::Single(file_path) => {
                let mut bins: Bins = Vec::new();
                bins.push((self.name, file_path));
                proof {
                    assert(bins@ =~= seq![(self.name, file_path)]);
                }
                bins
            },
        }
    }
}

} // verus!
