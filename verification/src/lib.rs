pub mod buffer;
pub mod clock;
pub mod events;
pub mod executor;
pub mod path;
pub mod pattern;
pub mod queue;
pub mod ruleset;
pub mod text;

pub mod watcher;
pub mod zips;

pub use crate::buffer::Buffer;
pub use crate::events::{EntityStatus, EventFilter, EventKind, ModifyKind, RenameMode};
pub use crate::executor::Stamper;
pub use crate::path::FsPath;
pub use crate::queue::{Msg, QueueTask};
pub use crate::ruleset::{
    ConfigError, FsEvent, InnerTask, Module, RecursiveMode, Resolved, Ruleset, Task, WatchingKind,
};
pub use crate::watcher::{Config, Watch, WatchOutcome};
pub use crate::zips::Zips;

use vstd::prelude::*;

use crate::text::spec_decimal;

verus! {

/// The ANSI-coloured rendering of a piece of text: the escape that sets
/// the colour `code`, the text, and the reset escape.
pub open spec fn spec_colored(code: Seq<char>, text: Seq<char>) -> Seq<char> {
    seq!['\x1b', '['] + code + seq!['m'] + text + seq!['\x1b', '[', '0', 'm']
}

/// Wraps `text` in the ANSI colour escape for `code`.
pub fn color_wrap(code: &str, text: &str) -> (r: String)
    ensures
        r@ == spec_colored(code@, text@),
{
    let mut s = String::from_str("\x1b[");
    s.append(code);
    s.append("m");
    s.append(text);
    s.append("\x1b[0m");
    proof {
        reveal_strlit("\x1b[");
        reveal_strlit("m");
        reveal_strlit("\x1b[0m");
        assert(s@ =~= spec_colored(code@, text@));
    }
    s
}

/// The dimmed separator placed between path components on display.
pub open spec fn spec_sep() -> Seq<char> {
    spec_colored(seq!['3', '8', ';', '5', ';', '2', '3', '8'], seq!['/'])
}

/// How the component at position `j` of `n` components is displayed: the
/// final component plain, the one before it highlighted, the rest dimmed.
pub open spec fn spec_colored_item(n: int, j: int, c: Seq<char>) -> Seq<char> {
    if j == n - 1 {
        c
    } else if j == n - 2 {
        spec_colored(seq!['3', '6'], c)
    } else {
        spec_colored(seq!['3', '7'], c)
    }
}

/// The first `parts.len()` displayed components of an `n`-component path,
/// joined by the display separator.
pub open spec fn spec_color_join(parts: Seq<Seq<char>>, n: int) -> Seq<char>
    decreases parts.len(),
{
    if parts.len() == 0 {
        Seq::empty()
    } else if parts.len() == 1 {
        spec_colored_item(n, 0, parts[0])
    } else {
        spec_color_join(parts.drop_last(), n) + spec_sep() + spec_colored_item(
            n,
            parts.len() - 1,
            parts.last(),
        )
    }
}

/// The display form of a path: its components coloured by position; a
/// bare filesystem root shows as `#`.
pub open spec fn spec_color_path(p: &FsPath) -> Seq<char> {
    if p.parts().len() == 0 {
        if p.absolute {
            seq!['#']
        } else {
            Seq::empty()
        }
    } else {
        spec_color_join(p.parts(), p.parts().len() as int)
    }
}

/// Display of a path with ANSI colouring by component position.
pub trait ColoredPath {
    /// What the display form of the value is.
    spec fn spec_colored_path(&self) -> Seq<char>;

    /// Prepares the path for display.
    fn color_path(&self) -> (r: String)
        ensures
            r@ == self.spec_colored_path(),
    ;
}

impl ColoredPath for FsPath {
    open spec fn spec_colored_path(&self) -> Seq<char> {
        spec_color_path(self)
    }

    fn color_path(&self) -> (r: String) {
        let n = self.components.len();
        if n == 0 {
            if self.absolute {
                let s = String::from_str("#");
                proof {
                    reveal_strlit("#");
                    assert(s@ =~= seq!['#']);
                }
                return s;
            }
            let s = String::new();
            proof {
                assert(s@ =~= Seq::<char>::empty());
            }
            return s;
        }
        let mut out = String::new();
        let mut i: usize = 0;
        proof {
            assert(self.parts().take(0) =~~= Seq::<Seq<char>>::empty());
            assert(out@ =~= spec_color_join(self.parts().take(0), n as int));
        }
        while i < n
            invariant
                0 <= i <= n,
                n == self.parts().len(),
                out@ == spec_color_join(self.parts().take(i as int), n as int),
            decreases n - i,
        {
            let ghost before = self.parts().take(i as int);
            if i > 0 {
                let sep = color_wrap("38;5;238", "/");
                out.append(sep.as_str());
                proof {
                    reveal_strlit("38;5;238");
                    reveal_strlit("/");
                    assert(sep@ =~= spec_sep());
                }
            }
            let c = &self.components[i];
            if i + 1 == n {
                out.append(c.as_str());
            } else if i + 2 == n {
                let w = color_wrap("36", c.as_str());
                out.append(w.as_str());
                proof {
                    reveal_strlit("36");
                }
            } else {
                let w = color_wrap("37", c.as_str());
                out.append(w.as_str());
                proof {
                    reveal_strlit("37");
                }
            }
            proof {
                let after = self.parts().take(i + 1);
                assert(after.drop_last() =~~= before);
                assert(after.last() == self.parts()[i as int]);
                if i == 0 {
                    assert(spec_color_join(after, n as int) == spec_colored_item(
                        n as int,
                        0,
                        self.parts()[0],
                    ));
                } else {
                    assert(spec_color_join(after, n as int) == spec_color_join(before, n as int)
                        + spec_sep() + spec_colored_item(n as int, i as int, self.parts()[
                        i as int
                    ]));
                }
                assert(out@ =~= spec_color_join(after, n as int));
            }
            i += 1;
        }
        proof {
            assert(self.parts().take(n as int) =~~= self.parts());
        }
        out
    }
}

/// The current wall clock as a decimal string of whole seconds since the
/// Unix epoch.
pub fn timestamp() -> (r: String)
    ensures
        exists|n: int| 0 <= n <= u64::MAX && r@ == spec_decimal(n),
{
    let now = clock::now_unix_secs();
    let r = text::u64_decimal(now);
    proof {
        assert(0 <= now as int <= u64::MAX);
    }
    r
}

} // verus!
