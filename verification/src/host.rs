//! The boundary to native extension libraries.
//!
//! Opening a platform dynamic library, resolving its exported symbols and
//! invoking them is work the evaluator cannot do itself; it reaches the host
//! operating system only through the `NativeHost` trait. The trait's methods
//! carry no contracts: the loader does not trust the native side beyond this
//! boundary, and the evaluator validates every value that comes back.
//!
//! `module_name` derives the name a loaded module is bound under: the file's
//! base name with its extension stripped.

use vstd::prelude::*;

use crate::exception::{ExceptKind, Exception};
use crate::value::Value;

verus! {

/// What opening a library path yielded.
#[derive(Debug)]
pub enum OpenOutcome {
    /// The library was opened; the handle is known to the host under this id.
    Opened(u64),
    /// The path names a source module, which this core does not resolve.
    SourceModule,
    /// The host operating system refused to open it; its message.
    Failed(String),
}

/// The native-extension side of the evaluator. An implementation owns the
/// dynamic-library handles; the evaluator only holds the ids it is given.
/// Nothing is promised of these methods: whatever they return, the evaluator
/// validates it and states what holds of every outcome.
pub trait NativeHost {
    /// Opens the library at `path`, or says why not.
    fn open_library(&mut self, path: &String) -> OpenOutcome;

    /// The arity of the named exported symbol, if the module exports it.
    /// A negative arity means the function takes any number of arguments.
    fn resolve(&mut self, module: u64, symbol: &String) -> Option<i64>;

    /// Calls the named exported symbol with the given arguments.
    fn invoke(&mut self, module: u64, symbol: &String, args: Vec<Value>) -> Result<
        Value,
        Exception,
    >;
}

/// A host with no native extensions: every import fails, nothing resolves.
#[derive(Debug)]
pub struct NoExtensions;

impl NativeHost for NoExtensions {
    fn open_library(&mut self, path: &String) -> OpenOutcome {
        OpenOutcome::Failed(String::from_str("no native extension host is available"))
    }

    fn resolve(&mut self, module: u64, symbol: &String) -> Option<i64> {
        Option::None
    }

    fn invoke(&mut self, module: u64, symbol: &String, args: Vec<Value>) -> Result<
        Value,
        Exception,
    > {
        Result::Err(
            Exception::in_runtime(
                ExceptKind::Error,
                String::from_str("no native extension host is available"),
            ),
        )
    }
}

/// The position of the last occurrence of `c`, or `-1`.
pub open spec fn last_pos(s: Seq<char>, c: char) -> int
    decreases s.len(),
{
    if s.len() == 0 {
        -1
    } else if s.last() == c {
        s.len() - 1
    } else {
        last_pos(s.drop_last(), c)
    }
}

/// `last_pos` names the last occurrence.
proof fn lemma_last_pos(s: Seq<char>, c: char)
    ensures
        last_pos(s, c) == -1 ==> forall|j: int| 0 <= j < s.len() ==> s[j] != c,
        last_pos(s, c) != -1 ==> 0 <= last_pos(s, c) < s.len() && s[last_pos(s, c)] == c
            && forall|j: int| last_pos(s, c) < j < s.len() ==> s[j] != c,
    decreases s.len(),
{
    if s.len() > 0 && s.last() != c {
        lemma_last_pos(s.drop_last(), c);
        assert forall|j: int| 0 <= j < s.len() - 1 implies s.drop_last()[j] == s[j] by {}
    }
}

/// The position of the last occurrence of `c` in `s`, if any.
fn last_char_pos(s: &str, c: char) -> (r: Option<usize>)
    ensures
        match r {
            Option::Some(i) => i as int == last_pos(s@, c),
            Option::None => last_pos(s@, c) == -1,
        },
{
    let n = s.unicode_len();
    let mut i: usize = n;
    while i > 0
        invariant
            i <= n,
            n == s@.len(),
            forall|j: int| i <= j < s@.len() ==> s@[j] != c,
        decreases i,
    {
        i = i - 1;
        if s.get_char(i) == c {
            proof {
                lemma_last_pos(s@, c);
            }
            return Option::Some(i);
        }
    }
    proof {
        lemma_last_pos(s@, c);
    }
    Option::None
}

/// The module name a path denotes: the part after the last `/`, with the
/// part from its last `.` on stripped — unless that dot leads, as in a
/// hidden file, in which case the base name stands as it is.
pub open spec fn spec_module_name(path: Seq<char>) -> Seq<char> {
    let base = path.subrange(last_pos(path, '/') + 1, path.len() as int);
    let dot = last_pos(base, '.');
    if dot > 0 {
        base.subrange(0, dot)
    } else {
        base
    }
}

/// The module name the path at an import statement denotes.
pub fn module_name(path: &str) -> (r: String)
    ensures
        r@ == spec_module_name(path@),
{
    let n = path.unicode_len();
    let slash = last_char_pos(path, '/');
    proof {
        lemma_last_pos(path@, '/');
    }
    let start: usize = match slash {
        Option::Some(i) => i + 1,
        Option::None => 0,
    };
    let base = path.substring_char(start, n);
    match last_char_pos(base, '.') {
        Option::Some(dot) if dot > 0 => {
            proof {
                lemma_last_pos(base@, '.');
            }
            let stem = base.substring_char(0, dot);
            String::from_str(stem)
        },
        _ => String::from_str(base),
    }
}

} // verus!
