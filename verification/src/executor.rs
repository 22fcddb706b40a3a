//! The collision-safe move planner: given what the executor observed on
//! disk, it computes where a dispatched file must go. The primary
//! rule-computed destination is never overwritten: an occupied destination
//! redirects the file into the dump folder, and an occupied fallback is
//! disambiguated with a strictly increasing timestamp. The filesystem
//! steps themselves (existence checks, directory creation, the final
//! atomic rename) happen outside; only their answers flow in here.

use vstd::prelude::*;

use crate::path::FsPath;
use crate::text::{lemma_decimal_injective, spec_decimal, u64_decimal};

verus! {

/// The components after appending `.` and the decimal stamp to the final
/// component.
pub open spec fn spec_stamped(parts: Seq<Seq<char>>, stamp: int) -> Seq<Seq<char>> {
    parts.update(parts.len() - 1, parts.last() + seq!['.'] + spec_decimal(stamp))
}

/// Step one of the move: a file whose primary destination is occupied is
/// redirected into the dump folder under the source's own name, so the
/// occupant of the rule-computed path is left alone.
pub fn redirect_on_collision(src: &FsPath, dest: &FsPath, dump: &FsPath, dest_exists: bool) -> (r:
    FsPath)
    requires
        src.parts().len() > 0,
    ensures
        dest_exists ==> r.absolute == dump.absolute && r.parts() == dump.parts().push(
            src.parts().last(),
        ),
        !dest_exists ==> r.same_path(dest),
{
    if dest_exists {
        let name = src.file_name().unwrap();
        dump.join_name(name)
    } else {
        dest.clone()
    }
}

/// Step two of the move: a destination that still exists is made unique
/// by appending a timestamp to its name.
pub fn disambiguate(dest: &FsPath, still_exists: bool, stamp: u64) -> (r: FsPath)
    requires
        dest.parts().len() > 0,
    ensures
        !still_exists ==> r.same_path(dest),
        still_exists ==> r.absolute == dest.absolute && r.parts() == spec_stamped(
            dest.parts(),
            stamp as int,
        ),
{
    if still_exists {
        let digits = u64_decimal(stamp);
        dest.stamped(digits.as_str())
    } else {
        dest.clone()
    }
}

/// The source of disambiguation stamps: at least the wall clock, and
/// strictly increasing even when consulted twice within one second.
pub struct Stamper {
    pub last: u64,
}

impl Stamper {
    /// A stamper that has issued nothing yet.
    pub fn new() -> (r: Stamper)
        ensures
            r.last == 0,
    {
        Stamper { last: 0 }
    }

    /// The next stamp: the clock reading `now`, or one more than the
    /// previous stamp when the clock has not advanced past it.
    pub fn next(&mut self, now: u64) -> (r: u64)
        requires
            old(self).last < u64::MAX,
        ensures
            r == if now > old(self).last {
                now
            } else {
                (old(self).last + 1) as u64
            },
            r > old(self).last,
            r >= now,
            final(self).last == r,
    {
        let r = if now > self.last {
            now
        } else {
            self.last + 1
        };
        self.last = r;
        r
    }
}

/// Appending one sequence to equal prefixes preserves distinctness of the
/// appended parts.
proof fn lemma_append_cancel(p: Seq<char>, a: Seq<char>, b: Seq<char>)
    requires
        p + a == p + b,
    ensures
        a == b,
{
    assert((p + a).len() == p.len() + a.len());
    assert((p + b).len() == p.len() + b.len());
    assert(a.len() == b.len());
    assert forall|i: int| 0 <= i < a.len() implies a[i] == b[i] by {
        assert((p + a)[p.len() + i] == a[i]);
        assert((p + b)[p.len() + i] == b[i]);
    }
    assert(a =~= b);
}

/// Timestamp disambiguation is collision-free across stamps: two distinct
/// stamps yield two distinct paths, even within the same wall-clock
/// second, because the stamper never repeats a value.
pub proof fn lemma_stamped_unique(parts: Seq<Seq<char>>, s1: int, s2: int)
    requires
        parts.len() > 0,
        s1 >= 0,
        s2 >= 0,
        s1 != s2,
    ensures
        spec_stamped(parts, s1) != spec_stamped(parts, s2),
{
    let n1 = parts.last() + seq!['.'] + spec_decimal(s1);
    let n2 = parts.last() + seq!['.'] + spec_decimal(s2);
    assert(n1 != n2) by {
        if n1 == n2 {
            lemma_append_cancel(parts.last() + seq!['.'], spec_decimal(s1), spec_decimal(s2));
            lemma_decimal_injective(s1, s2);
        }
    }
    assert(spec_stamped(parts, s1)[parts.len() - 1] == n1);
    assert(spec_stamped(parts, s2)[parts.len() - 1] == n2);
}

/// A stamped path differs from the path it was stamped from: the final
/// component grows.
pub proof fn lemma_stamped_differs(parts: Seq<Seq<char>>, stamp: int)
    requires
        parts.len() > 0,
        stamp >= 0,
    ensures
        spec_stamped(parts, stamp) != parts,
{
    crate::text::lemma_decimal_len(stamp);
    let n = parts.last() + seq!['.'] + spec_decimal(stamp);
    assert(n.len() > parts.last().len());
    assert(spec_stamped(parts, stamp)[parts.len() - 1] == n);
    if spec_stamped(parts, stamp) == parts {
        assert(parts[parts.len() - 1] == n);
    }
}

/// Collision safety of the two planning steps taken together: when the
/// primary destination is occupied, the planned path is the dump-folder
/// fallback or its stamped variant, and never the primary destination
/// itself — the occupant is untouched. The two consistency premises say
/// what the executor's existence checks saw; the final premise excludes a
/// destination that itself spells the stamped fallback name.
pub proof fn lemma_collision_safety(
    src_name: Seq<char>,
    dest: Seq<Seq<char>>,
    dump: Seq<Seq<char>>,
    fallback_exists: bool,
    stamp: int,
)
    requires
        stamp >= 0,
        dump.push(src_name) == dest ==> fallback_exists,
        fallback_exists ==> spec_stamped(dump.push(src_name), stamp) != dest,
    ensures
        ({
            let fallback = dump.push(src_name);
            let planned = if fallback_exists {
                spec_stamped(fallback, stamp)
            } else {
                fallback
            };
            &&& planned != dest
            &&& planned == fallback || planned == spec_stamped(fallback, stamp)
            &&& fallback_exists ==> planned != fallback
        }),
{
    let fallback = dump.push(src_name);
    if !fallback_exists {
        assert(fallback != dest);
    } else {
        lemma_stamped_differs(fallback, stamp);
    }
}

} // verus!
