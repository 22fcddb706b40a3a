//! The path model the pipeline computes with: a path is a flag saying
//! whether it is absolute plus its components in order, kept separate from
//! any separator syntax. Parsing, rendering, marker resolution against a
//! watched root, and the name arithmetic the move executor needs all live
//! here.

use vstd::prelude::*;

use crate::text::{
    first_sep, join_rel, lemma_first_sep_is, lemma_split_path_wf, split_path,
};

verus! {

/// A single path component: non-empty and free of the separator.
pub open spec fn wf_component(c: Seq<char>) -> bool {
    c.len() > 0 && forall|k: int| 0 <= k < c.len() ==> c[k] != '/'
}

/// The current-directory marker `.`.
pub open spec fn is_cur_marker(c: Seq<char>) -> bool {
    c == seq!['.']
}

/// The parent-directory marker `..`.
pub open spec fn is_parent_marker(c: Seq<char>) -> bool {
    c == seq!['.', '.']
}

/// Every component in the sequence is well-formed.
pub open spec fn all_wf(parts: Seq<Seq<char>>) -> bool {
    forall|i: int| 0 <= i < parts.len() ==> wf_component(#[trigger] parts[i])
}

/// No component in the sequence is a `.` or `..` marker.
pub open spec fn no_markers(parts: Seq<Seq<char>>) -> bool {
    forall|i: int|
        0 <= i < parts.len() ==> !is_cur_marker(#[trigger] parts[i]) && !is_parent_marker(
            parts[i],
        )
}

/// One step of marker resolution: `.` keeps the stack, `..` pops one
/// component but never below the filesystem root, and a normal component
/// is pushed.
pub open spec fn resolve_step(stack: Seq<Seq<char>>, c: Seq<char>) -> Seq<Seq<char>> {
    if is_cur_marker(c) {
        stack
    } else if is_parent_marker(c) {
        if stack.len() == 0 {
            stack
        } else {
            stack.drop_last()
        }
    } else {
        stack.push(c)
    }
}

/// Marker resolution of the components `rel` against the base `base`,
/// left to right.
pub open spec fn spec_resolve(base: Seq<Seq<char>>, rel: Seq<Seq<char>>) -> Seq<Seq<char>>
    decreases rel.len(),
{
    if rel.len() == 0 {
        base
    } else {
        resolve_step(spec_resolve(base, rel.drop_last()), rel.last())
    }
}

/// Whether the string is the `.` marker.
fn is_cur(s: &String) -> (r: bool)
    ensures
        r == is_cur_marker(s@),
{
    let sl = s.as_str();
    let r = sl.unicode_len() == 1 && sl.get_char(0) == '.';
    proof {
        if r {
            assert(s@ =~= seq!['.']);
        }
        if is_cur_marker(s@) {
            assert(s@.len() == 1 && s@[0] == '.');
        }
    }
    r
}

/// Whether the string is the `..` marker.
fn is_parent(s: &String) -> (r: bool)
    ensures
        r == is_parent_marker(s@),
{
    let sl = s.as_str();
    let r = sl.unicode_len() == 2 && sl.get_char(0) == '.' && sl.get_char(1) == '.';
    proof {
        if r {
            assert(s@ =~= seq!['.', '.']);
        }
        if is_parent_marker(s@) {
            assert(s@.len() == 2 && s@[0] == '.' && s@[1] == '.');
        }
    }
    r
}

/// A filesystem path, absolute or relative, as its components in order.
/// An absolute path with no components is the filesystem root.
pub struct FsPath {
    pub absolute: bool,
    pub components: Vec<String>,
}

impl FsPath {
    /// The components as character sequences.
    pub open spec fn parts(&self) -> Seq<Seq<char>> {
        self.components.deep_view()
    }

    /// Every component is non-empty and separator-free.
    pub open spec fn wf(&self) -> bool {
        all_wf(self.parts())
    }

    /// Well-formed with no remaining `.` or `..` markers: the shape
    /// destination resolution guarantees.
    pub open spec fn is_normal(&self) -> bool {
        self.wf() && no_markers(self.parts())
    }

    /// Structural path equality: same absoluteness, same components.
    pub open spec fn same_path(&self, other: &FsPath) -> bool {
        self.absolute == other.absolute && self.parts() == other.parts()
    }

    /// The filesystem root `/`.
    pub fn root() -> (r: FsPath)
        ensures
            r.absolute,
            r.parts() =~= Seq::<Seq<char>>::empty(),
            r.is_normal(),
    {
        FsPath { absolute: true, components: Vec::new() }
    }

    /// Reads a path out of its string form: a leading `/` makes it
    /// absolute, `/` separates components, and empty segments are dropped.
    pub fn parse(s: &str) -> (r: FsPath)
        ensures
            r.parts() == split_path(s@),
            r.absolute == (s@.len() > 0 && s@[0] == '/'),
            r.wf(),
    {
        let n = s.unicode_len();
        let absolute = n > 0 && s.get_char(0) == '/';
        let mut comps: Vec<String> = Vec::new();
        let mut pos: usize = 0;
        proof {
            assert(comps.deep_view() =~~= Seq::<Seq<char>>::empty());
            assert(s@.subrange(0, n as int) =~= s@);
        }
        while pos < n
            invariant
                pos <= n,
                n == s@.len(),
                split_path(s@) =~~= comps.deep_view() + split_path(
                    s@.subrange(pos as int, n as int),
                ),
            decreases n - pos,
        {
            let ghost pos0 = pos as int;
            let ghost t = s@.subrange(pos0, n as int);
            let mut j = pos;
            while j < n && s.get_char(j) != '/'
                invariant
                    pos <= j <= n,
                    n == s@.len(),
                    forall|k: int| pos <= k < j ==> s@[k] != '/',
                decreases n - j,
            {
                j += 1;
            }
            proof {
                assert forall|k: int| 0 <= k < j - pos0 implies t[k] != '/' by {
                    assert(t[k] == s@[pos0 + k]);
                }
                assert(j - pos0 < t.len() ==> t[j - pos0] == s@[j as int]);
                lemma_first_sep_is(t, j - pos0);
            }
            let ghost comps0 = comps.deep_view();
            if j > pos {
                let piece = s.substring_char(pos, j).to_owned();
                proof {
                    assert(piece@ =~= t.subrange(0, j - pos0));
                }
                comps.push(piece);
                proof {
                    assert(comps.deep_view() =~~= comps0.push(t.subrange(0, j - pos0)));
                }
            } else {
                proof {
                    assert(t.subrange(0, 0).len() == 0);
                }
            }
            proof {
                if j < n {
                    assert(s@.subrange(j + 1, n as int) =~= t.subrange(
                        j - pos0 + 1,
                        t.len() as int,
                    ));
                } else {
                    assert(first_sep(t) == t.len());
                    assert(s@.subrange(n as int, n as int) =~= Seq::<char>::empty());
                }
            }
            if j < n {
                pos = j + 1;
            } else {
                pos = n;
            }
        }
        proof {
            assert(s@.subrange(n as int, n as int) =~= Seq::<char>::empty());
            assert(split_path(s@) =~~= comps.deep_view());
            lemma_split_path_wf(s@);
        }
        FsPath { absolute, components: comps }
    }

    /// Appends the components of `self` onto `stack`, resolving `.` and
    /// `..` markers against it as destination resolution demands.
    fn resolve_onto(&self, stack: &mut Vec<String>)
        ensures
            final(stack).deep_view() == spec_resolve(old(stack).deep_view(), self.parts()),
    {
        let ghost base = stack.deep_view();
        let mut i: usize = 0;
        proof {
            assert(self.parts().take(0) =~~= Seq::<Seq<char>>::empty());
        }
        while i < self.components.len()
            invariant
                0 <= i <= self.components.len(),
                stack.deep_view() == spec_resolve(base, self.parts().take(i as int)),
            decreases self.components.len() - i,
        {
            let ghost before = stack.deep_view();
            let c = &self.components[i];
            if is_cur(c) {
            } else if is_parent(c) {
                if stack.len() > 0 {
                    stack.pop();
                    proof {
                        assert(stack.deep_view() =~~= before.drop_last());
                    }
                }
            } else {
                stack.push(c.clone());
                proof {
                    assert(stack.deep_view() =~~= before.push(self.parts()[i as int]));
                }
            }
            proof {
                let after = self.parts().take(i + 1);
                assert(after.drop_last() =~~= self.parts().take(i as int));
                assert(after.last() == self.parts()[i as int]);
            }
            i += 1;
        }
        proof {
            assert(self.parts().take(self.parts().len() as int) =~~= self.parts());
        }
    }

    /// The string form: components joined with `/`, with a leading `/`
    /// when absolute. The filesystem root renders as `/`.
    pub open spec fn spec_render(&self) -> Seq<char> {
        if self.absolute {
            seq!['/'] + join_rel(self.parts())
        } else {
            join_rel(self.parts())
        }
    }

    /// Renders the path into its string form.
    pub fn render(&self) -> (r: String)
        ensures
            r@ == self.spec_render(),
    {
        let mut out = String::new();
        if self.absolute {
            out.append("/");
            proof {
                reveal_strlit("/");
                assert(out@ =~= seq!['/']);
            }
        }
        let ghost lead = out@;
        let mut i: usize = 0;
        proof {
            assert(self.parts().take(0) =~~= Seq::<Seq<char>>::empty());
        }
        while i < self.components.len()
            invariant
                0 <= i <= self.components.len(),
                out@ == lead + join_rel(self.parts().take(i as int)),
            decreases self.components.len() - i,
        {
            let ghost before = self.parts().take(i as int);
            if i > 0 {
                out.append("/");
                proof {
                    reveal_strlit("/");
                }
            }
            out.append(self.components[i].as_str());
            proof {
                let after = self.parts().take(i + 1);
                assert(after.drop_last() =~~= before);
                assert(after.last() == self.parts()[i as int]);
                if i == 0 {
                    assert(join_rel(after) == self.parts()[0]);
                } else {
                    assert(join_rel(after) == join_rel(before) + seq!['/'] + self.parts()[
                        i as int
                    ]);
                }
                assert(out@ =~= lead + join_rel(after));
            }
            i += 1;
        }
        proof {
            assert(self.parts().take(self.parts().len() as int) =~~= self.parts());
        }
        out
    }

    /// Resolves `self` as a destination against the watched root `root`:
    /// an absolute destination stands on its own, a relative one has its
    /// markers resolved against the root's components, and resolution
    /// never escapes above the filesystem root.
    pub fn resolve_against(&self, root: &FsPath) -> (r: FsPath)
        requires
            root.absolute,
        ensures
            r.absolute,
            r.parts() == spec_resolve(
                if self.absolute {
                    Seq::<Seq<char>>::empty()
                } else {
                    root.parts()
                },
                self.parts(),
            ),
    {
        let mut stack: Vec<String> = if self.absolute {
            Vec::new()
        } else {
            clone_components(&root.components)
        };
        proof {
            if self.absolute {
                assert(stack.deep_view() =~~= Seq::<Seq<char>>::empty());
            }
        }
        self.resolve_onto(&mut stack);
        FsPath { absolute: true, components: stack }
    }

    /// The final component, if there is one.
    pub fn file_name(&self) -> (r: Option<&String>)
        ensures
            match r {
                Some(n) => self.parts().len() > 0 && n@ == self.parts().last(),
                None => self.parts().len() == 0,
            },
    {
        if self.components.len() > 0 {
            Some(&self.components[self.components.len() - 1])
        } else {
            None
        }
    }

    /// `self` with one more component appended.
    pub fn join_name(&self, name: &String) -> (r: FsPath)
        ensures
            r.absolute == self.absolute,
            r.parts() == self.parts().push(name@),
    {
        let mut comps = clone_components(&self.components);
        comps.push(name.clone());
        proof {
            assert(comps.deep_view() =~~= self.parts().push(name@));
        }
        FsPath { absolute: self.absolute, components: comps }
    }

    /// `self` with `.` and the given digits appended to its final
    /// component: the timestamp-disambiguated variant of the path.
    pub fn stamped(&self, digits: &str) -> (r: FsPath)
        requires
            self.parts().len() > 0,
        ensures
            r.absolute == self.absolute,
            r.parts() == self.parts().update(
                self.parts().len() - 1,
                self.parts().last() + seq!['.'] + digits@,
            ),
    {
        let mut comps = clone_components(&self.components);
        let last = comps.pop().unwrap();
        let mut name = last;
        name.append(".");
        name.append(digits);
        proof {
            reveal_strlit(".");
            assert(name@ =~= self.parts().last() + seq!['.'] + digits@);
        }
        comps.push(name);
        proof {
            assert(comps.deep_view() =~~= self.parts().update(
                self.parts().len() - 1,
                self.parts().last() + seq!['.'] + digits@,
            ));
        }
        FsPath { absolute: self.absolute, components: comps }
    }
}

impl Clone for FsPath {
    /// A deep copy: the clone is the same path.
    fn clone(&self) -> (r: Self)
        ensures
            r.absolute == self.absolute,
            r.parts() == self.parts(),
    {
        FsPath { absolute: self.absolute, components: clone_components(&self.components) }
    }
}

/// Structural equality of two paths.
pub fn path_eq(a: &FsPath, b: &FsPath) -> (r: bool)
    ensures
        r == a.same_path(b),
{
    if a.absolute != b.absolute {
        return false;
    }
    if a.components.len() != b.components.len() {
        assert(a.parts().len() != b.parts().len());
        return false;
    }
    let mut i: usize = 0;
    while i < a.components.len()
        invariant
            0 <= i <= a.components.len(),
            a.components.len() == b.components.len(),
            a.absolute == b.absolute,
            forall|j: int| 0 <= j < i ==> a.parts()[j] == b.parts()[j],
        decreases a.components.len() - i,
    {
        if !(a.components[i] == b.components[i]) {
            assert(a.parts()[i as int] != b.parts()[i as int]);
            return false;
        }
        i += 1;
    }
    proof {
        assert(a.parts() =~~= b.parts());
    }
    true
}

/// A fresh vector holding the same components.
fn clone_components(v: &Vec<String>) -> (r: Vec<String>)
    ensures
        r.deep_view() == v.deep_view(),
{
    let mut r: Vec<String> = Vec::new();
    let mut i: usize = 0;
    proof {
        assert(r.deep_view() =~~= v.deep_view().take(0));
    }
    while i < v.len()
        invariant
            0 <= i <= v.len(),
            r.deep_view() == v.deep_view().take(i as int),
        decreases v.len() - i,
    {
        let ghost before = r.deep_view();
        r.push(v[i].clone());
        proof {
            assert(r.deep_view() =~~= before.push(v.deep_view()[i as int]));
            assert(v.deep_view().take(i + 1).drop_last() =~~= v.deep_view().take(i as int));
            assert(r.deep_view() =~~= v.deep_view().take(i + 1));
        }
        i += 1;
    }
    proof {
        assert(v.deep_view().take(v.deep_view().len() as int) =~~= v.deep_view());
    }
    r
}

/// Index of the last `.` in the name, or `-1` when it has none.
pub open spec fn rfind_dot(s: Seq<char>) -> int
    decreases s.len(),
{
    if s.len() == 0 {
        -1
    } else if s.last() == '.' {
        s.len() - 1
    } else {
        rfind_dot(s.drop_last())
    }
}

/// The file stem of a name: everything before the last `.`, unless that
/// dot leads the name or there is none, in which case the whole name.
pub open spec fn spec_stem(name: Seq<char>) -> Seq<char> {
    let i = rfind_dot(name);
    if i > 0 {
        name.subrange(0, i)
    } else {
        name
    }
}

/// Whether the name carries the partial-download marker extension.
pub open spec fn spec_has_partial_ext(name: Seq<char>) -> bool {
    let i = rfind_dot(name);
    i > 0 && name.subrange(i + 1, name.len() as int) == seq!['p', 'a', 'r', 't']
}

proof fn lemma_rfind_dot_is(s: Seq<char>, i: int)
    requires
        -1 <= i < s.len(),
        i >= 0 ==> s[i] == '.',
        forall|k: int| i < k < s.len() ==> s[k] != '.',
    ensures
        rfind_dot(s) == i,
    decreases s.len(),
{
    if s.len() == 0 {
    } else if s.last() == '.' {
        assert(i == s.len() - 1);
    } else {
        assert(i < s.len() - 1);
        let t = s.drop_last();
        assert(forall|k: int| i < k < t.len() ==> t[k] == s[k]);
        lemma_rfind_dot_is(t, i);
    }
}

/// The position of the last `.` of `name`, scanned from the end.
fn find_last_dot(name: &str) -> (r: Option<usize>)
    ensures
        match r {
            Some(i) => i < name@.len() && rfind_dot(name@) == i,
            None => rfind_dot(name@) == -1,
        },
{
    let n = name.unicode_len();
    let mut j = n;
    while j > 0
        invariant
            0 <= j <= n,
            n == name@.len(),
            forall|k: int| j <= k < n ==> name@[k] != '.',
        decreases j,
    {
        if name.get_char(j - 1) == '.' {
            proof {
                lemma_rfind_dot_is(name@, j - 1);
            }
            return Some(j - 1);
        }
        j -= 1;
    }
    proof {
        lemma_rfind_dot_is(name@, -1);
    }
    None
}

/// The file stem of a name, as `spec_stem` describes it.
pub fn name_stem(name: &str) -> (r: String)
    ensures
        r@ == spec_stem(name@),
{
    match find_last_dot(name) {
        Some(i) if i > 0 => {
            let s = name.substring_char(0, i);
            s.to_owned()
        },
        _ => {
            let n = name.unicode_len();
            let s = name.substring_char(0, n);
            proof {
                assert(name@.subrange(0, n as int) =~= name@);
            }
            s.to_owned()
        },
    }
}

/// Whether the name ends in the partial-download marker extension
/// `part`, which suppresses dispatch for in-progress downloads.
pub fn name_has_partial_ext(name: &str) -> (r: bool)
    ensures
        r == spec_has_partial_ext(name@),
{
    let n = name.unicode_len();
    match find_last_dot(name) {
        Some(i) if i > 0 => {
            if n - i - 1 == 4 {
                let r = name.get_char(i + 1) == 'p' && name.get_char(i + 2) == 'a'
                    && name.get_char(i + 3) == 'r' && name.get_char(i + 4) == 't';
                proof {
                    let ext = name@.subrange(i + 1, n as int);
                    assert(ext.len() == 4);
                    if r {
                        assert(ext =~= seq!['p', 'a', 'r', 't']);
                    } else {
                        assert(ext != seq!['p', 'a', 'r', 't']) by {
                            if ext == seq!['p', 'a', 'r', 't'] {
                                assert(ext[0] == 'p' && ext[1] == 'a' && ext[2] == 'r' && ext[3]
                                    == 't');
                            }
                        }
                    }
                }
                r
            } else {
                proof {
                    let ext = name@.subrange(i + 1, n as int);
                    assert(ext.len() != 4);
                    assert(seq!['p', 'a', 'r', 't'].len() == 4);
                }
                false
            }
        },
        _ => false,
    }
}

/// Resolution of well-formed components on a normal base yields a normal
/// path: no `.` or `..` marker survives, and every component stays
/// non-empty and separator-free.
pub proof fn lemma_resolve_normal(base: Seq<Seq<char>>, rel: Seq<Seq<char>>)
    requires
        all_wf(base),
        no_markers(base),
        all_wf(rel),
    ensures
        all_wf(spec_resolve(base, rel)),
        no_markers(spec_resolve(base, rel)),
    decreases rel.len(),
{
    if rel.len() > 0 {
        let prefix = rel.drop_last();
        assert(all_wf(prefix)) by {
            assert(forall|i: int| 0 <= i < prefix.len() ==> prefix[i] == rel[i]);
        }
        lemma_resolve_normal(base, prefix);
        let prev = spec_resolve(base, prefix);
        let c = rel.last();
        if is_cur_marker(c) || is_parent_marker(c) {
            assert(forall|i: int|
                0 <= i < spec_resolve(base, rel).len() ==> spec_resolve(base, rel)[i] == prev[i]);
        } else {
            assert(wf_component(c));
            assert(forall|i: int|
                0 <= i < prev.len() ==> #[trigger] spec_resolve(base, rel)[i] == prev[i]);
            assert(spec_resolve(base, rel).last() == c);
        }
    }
}

/// Resolution distributes over concatenation of the relative components:
/// the markers of the second part act on the result of the first.
pub proof fn lemma_resolve_append(base: Seq<Seq<char>>, r1: Seq<Seq<char>>, r2: Seq<Seq<char>>)
    ensures
        spec_resolve(base, r1 + r2) == spec_resolve(spec_resolve(base, r1), r2),
    decreases r2.len(),
{
    if r2.len() == 0 {
        assert(r1 + r2 =~~= r1);
    } else {
        lemma_resolve_append(base, r1, r2.drop_last());
        assert((r1 + r2).drop_last() =~~= r1 + r2.drop_last());
        assert((r1 + r2).last() == r2.last());
    }
}

/// A marker-free relative path is appended whole: resolution is plain
/// component concatenation.
pub proof fn lemma_resolve_plain(base: Seq<Seq<char>>, rel: Seq<Seq<char>>)
    requires
        no_markers(rel),
    ensures
        spec_resolve(base, rel) == base + rel,
    decreases rel.len(),
{
    if rel.len() == 0 {
        assert(spec_resolve(base, rel) =~~= base + rel);
    } else {
        let prefix = rel.drop_last();
        assert(no_markers(prefix)) by {
            assert(forall|i: int| 0 <= i < prefix.len() ==> prefix[i] == rel[i]);
        }
        lemma_resolve_plain(base, prefix);
        assert(!is_cur_marker(rel.last()) && !is_parent_marker(rel.last()));
        assert(spec_resolve(base, rel) =~~= base + rel);
    }
}

/// A run of `k` parent markers pops `k` components, clamping at the
/// filesystem root rather than going below it.
pub proof fn lemma_resolve_parents(base: Seq<Seq<char>>, rel: Seq<Seq<char>>)
    requires
        forall|i: int| 0 <= i < rel.len() ==> is_parent_marker(#[trigger] rel[i]),
    ensures
        spec_resolve(base, rel) == base.take(
            if base.len() >= rel.len() {
                base.len() - rel.len()
            } else {
                0
            },
        ),
    decreases rel.len(),
{
    if rel.len() == 0 {
        assert(base.take(base.len() as int) =~~= base);
    } else {
        let prefix = rel.drop_last();
        assert(forall|i: int| 0 <= i < prefix.len() ==> is_parent_marker(#[trigger] prefix[i]));
        lemma_resolve_parents(base, prefix);
        assert(is_parent_marker(rel.last()));
        assert(!is_cur_marker(rel.last())) by {
            if is_cur_marker(rel.last()) {
                assert(seq!['.'].len() == 1 && seq!['.', '.'].len() == 2);
            }
        }
        let keep = if base.len() >= prefix.len() {
            base.len() - prefix.len()
        } else {
            0
        };
        let keep2 = if base.len() >= rel.len() {
            base.len() - rel.len()
        } else {
            0
        };
        assert(base.take(keep as int).len() == keep);
        let prev = spec_resolve(base, prefix);
        assert(prev == base.take(keep as int));
        if keep == 0 {
            assert(spec_resolve(base, rel) == prev);
            assert(base.take(keep2 as int) =~~= base.take(keep as int));
        } else {
            assert(spec_resolve(base, rel) == prev.drop_last());
            assert(base.take(keep as int).drop_last() =~~= base.take(keep2 as int));
        }
    }
}

/// Manual component arithmetic for a relative spec of parent markers
/// followed by plain components: one root component is popped per
/// marker, clamping at the filesystem root, and the plain components are
/// appended.
pub proof fn lemma_resolve_arithmetic(
    base: Seq<Seq<char>>,
    parents: Seq<Seq<char>>,
    rest: Seq<Seq<char>>,
)
    requires
        forall|i: int| 0 <= i < parents.len() ==> is_parent_marker(#[trigger] parents[i]),
        no_markers(rest),
    ensures
        spec_resolve(base, parents + rest) == base.take(
            if base.len() >= parents.len() {
                base.len() - parents.len()
            } else {
                0
            },
        ) + rest,
{
    lemma_resolve_append(base, parents, rest);
    lemma_resolve_parents(base, parents);
    lemma_resolve_plain(spec_resolve(base, parents), rest);
}

/// A current-directory marker at the head of the relative components
/// changes nothing.
pub proof fn lemma_resolve_cur_skip(base: Seq<Seq<char>>, c: Seq<char>, rest: Seq<Seq<char>>)
    requires
        is_cur_marker(c),
    ensures
        spec_resolve(base, seq![c] + rest) == spec_resolve(base, rest),
{
    lemma_resolve_append(base, seq![c], rest);
    assert(seq![c].last() == c);
    assert(seq![c].drop_last() =~~= Seq::<Seq<char>>::empty());
    assert(spec_resolve(base, seq![c]) == resolve_step(
        spec_resolve(base, seq![c].drop_last()),
        c,
    ));
    assert(spec_resolve(base, seq![c]) == base);
}

/// Resolution is idempotent: the output of a resolution, taken as an
/// absolute destination, resolves to itself.
pub proof fn lemma_resolve_idempotent(base: Seq<Seq<char>>, rel: Seq<Seq<char>>)
    requires
        all_wf(base),
        no_markers(base),
        all_wf(rel),
    ensures
        spec_resolve(Seq::<Seq<char>>::empty(), spec_resolve(base, rel)) == spec_resolve(
            base,
            rel,
        ),
{
    lemma_resolve_normal(base, rel);
    lemma_resolve_plain(Seq::<Seq<char>>::empty(), spec_resolve(base, rel));
    assert(Seq::<Seq<char>>::empty() + spec_resolve(base, rel) =~~= spec_resolve(base, rel));
}

} // verus!
