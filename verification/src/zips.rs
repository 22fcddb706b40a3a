//! An example resolver: archives whose name mentions `rar` move to the
//! computed destination unchanged, and every other candidate is diverted
//! into a fixed subfolder of it.

use vstd::prelude::*;

use crate::path::FsPath;
use crate::ruleset::{Module, Resolved};
use crate::text::{has_substring, str_contains};

verus! {

/// The archive sorter: one instance of the pluggable resolver capability.
pub struct Zips;

/// The subfolder that collects the diverted archives.
pub open spec fn spec_subfolder() -> Seq<char> {
    seq!['r', 'a', 'r', '-', '0', '0', '0', '1']
}

impl Zips {
    /// The verdict for one candidate: `Continue` when the source's name
    /// contains `rar`, a diversion of the destination into the subfolder
    /// otherwise, and no action for a source without a name.
    pub fn plan(src: &FsPath, dest: &FsPath) -> (r: Resolved)
        ensures
            src.parts().len() == 0 ==> r is Skip,
            src.parts().len() > 0 && has_substring(
                src.parts().last(),
                seq!['r', 'a', 'r'],
            ) ==> r is Continue,
            src.parts().len() > 0 && !has_substring(src.parts().last(), seq!['r', 'a', 'r']) ==> (
            r matches Resolved::Move { dest: d } && d.absolute == dest.absolute && d.parts()
                == dest.parts().push(spec_subfolder()).push(src.parts().last())),
    {
        let name = match src.file_name() {
            Some(n) => n,
            None => {
                return Resolved::Skip;
            },
        };
        proof {
            reveal_strlit("rar");
            reveal_strlit("rar-0001");
            assert("rar"@ =~= seq!['r', 'a', 'r']);
            assert("rar-0001"@ =~= spec_subfolder());
        }
        if str_contains(name.as_str(), "rar") {
            return Resolved::Continue;
        }
        let sub = String::from_str("rar-0001");
        let with_sub = dest.join_name(&sub);
        let diverted = with_sub.join_name(name);
        Resolved::Move { dest: diverted }
    }
}

impl Module for Zips {
    fn resolve(&mut self, src: FsPath, dest: FsPath) -> Resolved {
        Zips::plan(&src, &dest)
    }
}

} // verus!
