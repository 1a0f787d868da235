//! The slice of a project's package manifest that the tool reads: its
//! dependency list, and the lookup of the React Native version in it.
//! Reading and decoding the manifest file happens outside this crate;
//! the decoded pairs are handed in as plain values.

use vstd::prelude::*;
use vstd::string::StringExecFns;

verus! {

/// A project's package manifest, reduced to what the tool reads.
pub struct PackageJson {
    /// The `dependencies` table as name–version pairs, in the order
    /// the decoder yielded them; absent when the manifest has no such
    /// table. Names do not repeat.
    pub dependencies: Option<Vec<(String, String)>>,
}

/// The React Native version pinned in the dependency table: the
/// version of the first pair named `react-native`, or nothing when no
/// pair is, or when the table is absent.
pub fn react_native_version(pkg: &PackageJson) -> (r: Option<String>)
    ensures
        match pkg.dependencies {
            Option::None => r is None,
            Option::Some(deps) => match r {
                Option::Some(v) => exists|i: int|
                    0 <= i < deps@.len() && deps@[i].0@ == "react-native"@ && deps@[i].1 == v
                        && (forall|j: int| 0 <= j < i ==> deps@[j].0@ != "react-native"@),
                Option::None => forall|i: int|
                    0 <= i < deps@.len() ==> deps@[i].0@ != "react-native"@,
            },
        },
{
    let needle = String::from_str("react-native");
    match &pkg.dependencies {
        Option::None => Option::None,
        Option::Some(deps) => {
            let mut i: usize = 0;
            while i < deps.len()
                invariant
                    0 <= i <= deps@.len(),
                    needle@ == "react-native"@,
                    pkg.dependencies matches Option::Some(d) && d@ == deps@,
                    forall|j: int| 0 <= j < i ==> deps@[j].0@ != "react-native"@,
                decreases deps@.len() - i,
            {
                if deps[i].0 == needle {
                    let v = deps[i].1.clone();
                    proof {
                        assert(pkg.dependencies matches Option::Some(d) && d@ == deps@);
                        assert(deps@[i as int].0@ == "react-native"@ && deps@[i as int].1 == v);
                    }
                    return Option::Some(v);
                }
                i += 1;
            }
            Option::None
        },
    }
}

} // verus!
