//! Identifier resolution.

use vstd::prelude::*;

use crate::env::lookup;
use crate::exception::{spec_raise, ExceptKind, Exception};
use crate::host::NativeHost;
use crate::{ResultRuntime, Runtime};

verus! {

/// The message of the error an unbound identifier raises.
pub open spec fn name_error_msg(identifier: Seq<char>) -> Seq<char> {
    "name '"@ + identifier + "' is not defined"@
}

/// Builds `name_error_msg` executably.
pub(crate) fn name_error_message(identifier: &String) -> (m: String)
    ensures
        m@ == name_error_msg(identifier@),
{
    let mut m = String::from_str("name '");
    m.append(identifier.as_str());
    m.append("' is not defined");
    m
}

impl<H: NativeHost> Runtime<H> {
    /// Resolves an identifier from the current scope outward. An unbound name
    /// raises a `NameError` whose message contains the name, with one frame.
    pub fn identifier(&self, identifier: &String) -> (r: ResultRuntime)
        requires
            self.wf(),
        ensures
            match r {
                Result::Ok(v) => lookup(self.env@, self.scope as int, identifier@)
                    == Option::Some(v@) && self.value_ok(v),
                Result::Err(e) => lookup(self.env@, self.scope as int, identifier@) is None && e@
                    == spec_raise(
                    ExceptKind::NameError,
                    name_error_msg(identifier@),
                    self.module_context@,
                ),
            },
    {
        match self.env.get(self.scope, identifier) {
            Option::Some(value) => Result::Ok(value),
            Option::None => Result::Err(
                Exception::raise(
                    ExceptKind::NameError,
                    name_error_message(identifier),
                    &self.module_context,
                ),
            ),
        }
    }
}

} // verus!
