//! Structured runtime errors with tracebacks.
//!
//! An `Exception` is built at the point of failure with a kind, a message and
//! an empty or single-frame traceback; every boundary that re-raises it
//! appends exactly one `ExceptionPoint`, oldest-innermost first. Nothing in
//! the evaluator recovers from one; the external caller renders it.

use vstd::prelude::*;

verus! {

/// The closed set of error kinds.
#[derive(Clone, Copy, PartialEq, Eq, Structural, Debug)]
pub enum ExceptKind {
    NameError,
    TypeError,
    KeyError,
    IndexError,
    AttributeError,
    Error,
}

/// A source position. The evaluator does not track real positions; it stamps
/// every frame with the origin, as the input tree carries none.
#[derive(Clone, Copy, PartialEq, Eq, Structural, Debug)]
pub struct Position {
    pub line: u64,
    pub column: u64,
}

impl Position {
    pub fn new(line: u64, column: u64) -> (r: Position)
        ensures
            r.line == line,
            r.column == column,
    {
        Position { line, column }
    }
}

impl Default for Position {
    fn default() -> (r: Position)
        ensures
            r.line == 0,
            r.column == 0,
    {
        Position { line: 0, column: 0 }
    }
}

/// One traceback frame: the module and position where an error crossed a
/// propagation boundary.
#[derive(Debug)]
pub struct ExceptionPoint {
    pub module: String,
    pub position: Position,
}

/// The mathematical mirror of an `ExceptionPoint`.
pub struct SpecFrame {
    pub module: Seq<char>,
    pub line: int,
    pub column: int,
}

impl ExceptionPoint {
    pub fn new(module: String, position: Position) -> (r: ExceptionPoint)
        ensures
            r@ == (SpecFrame { module: module@, line: position.line as int, column: position.column as int }),
    {
        ExceptionPoint { module, position }
    }
}

impl View for ExceptionPoint {
    type V = SpecFrame;

    open spec fn view(&self) -> SpecFrame {
        SpecFrame {
            module: self.module@,
            line: self.position.line as int,
            column: self.position.column as int,
        }
    }
}

/// A runtime error: kind, message, and the frames it has crossed.
#[derive(Debug)]
pub struct Exception {
    pub kind: ExceptKind,
    pub message: String,
    pub traceback: Vec<ExceptionPoint>,
}

/// The mathematical mirror of an `Exception`.
pub struct SpecException {
    pub kind: ExceptKind,
    pub message: Seq<char>,
    pub frames: Seq<SpecFrame>,
}

/// The mirrors of a frame list.
pub open spec fn frames_view(fs: Seq<ExceptionPoint>) -> Seq<SpecFrame> {
    Seq::new(fs.len(), |i: int| fs[i]@)
}

impl View for Exception {
    type V = SpecException;

    open spec fn view(&self) -> SpecException {
        SpecException {
            kind: self.kind,
            message: self.message@,
            frames: frames_view(self.traceback@),
        }
    }
}

/// A frame at the origin position of the given module, as the evaluator
/// stamps it.
pub open spec fn spec_frame(module: Seq<char>) -> SpecFrame {
    SpecFrame { module, line: 0, column: 0 }
}

/// The exception an error site constructs: kind, message, and one frame for
/// the module the evaluator is running.
pub open spec fn spec_raise(kind: ExceptKind, message: Seq<char>, module: Seq<char>) -> SpecException {
    SpecException { kind, message, frames: seq![spec_frame(module)] }
}

impl Exception {
    /// An exception with an empty traceback.
    pub fn in_runtime(kind: ExceptKind, message: String) -> (r: Exception)
        ensures
            r@ == (SpecException { kind, message: message@, frames: Seq::empty() }),
    {
        let r = Exception { kind, message, traceback: Vec::new() };
        proof {
            assert(frames_view(r.traceback@) =~= Seq::<SpecFrame>::empty());
        }
        r
    }

    /// Appends one traceback frame; the frames already present stay as they
    /// are, oldest-innermost first.
    pub fn push(&mut self, point: ExceptionPoint)
        ensures
            final(self)@.kind == old(self)@.kind,
            final(self)@.message == old(self)@.message,
            final(self)@.frames == old(self)@.frames.push(point@),
    {
        let ghost prev = self.traceback@;
        self.traceback.push(point);
        proof {
            assert forall|i: int| 0 <= i < self.traceback@.len() implies frames_view(
                self.traceback@,
            )[i] == frames_view(prev).push(point@)[i] by {
                if i < prev.len() {
                    assert(self.traceback@[i] == prev[i]);
                } else {
                    assert(self.traceback@[i] == point);
                }
            }
            assert(frames_view(self.traceback@) =~= frames_view(prev).push(point@));
        }
    }

    /// An exception raised at an error site: one frame, at the origin of the
    /// given module.
    pub fn raise(kind: ExceptKind, message: String, module: &String) -> (r: Exception)
        ensures
            r@ == spec_raise(kind, message@, module@),
    {
        let mut e = Exception::in_runtime(kind, message);
        e.push(ExceptionPoint::new(module.clone(), Position::new(0, 0)));
        proof {
            assert(e@.frames =~= seq![spec_frame(module@)]);
        }
        e
    }
}

} // verus!
