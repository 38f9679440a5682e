//! The computing half of a provider call.
use crate::contract::error::{ModelError, ModelErrorView};
use crate::contract::request::{ChatRequest, ChatRequestView};
use crate::copies;
use crate::openai::dialect;
use crate::openai::dialect::{Dialect, WireOptions, WireOptionsView};
use crate::openai::map::{WireRequest, WireRequestView};
use vstd::prelude::*;

verus! {

/// What a call puts on the wire, or why it does not come to that.
pub open spec fn prepared<D: Dialect>(dialect: &D, request: ChatRequestView) -> Result<
    (WireRequestView, WireOptionsView),
    ModelErrorView,
> {
    match crate::openai::map::wire_request(request, dialect.echoes()) {
        Err(error) => Err(error),
        Ok(wire) => match dialect::options(dialect, request) {
            Err(error) => Err(error),
            Ok(options) => Ok((wire, options)),
        },
    }
}

/// What a call puts on the wire. Everything that can be refused about a request
/// is refused here, before the wire is reached.
pub fn prepare<D: Dialect>(dialect: &D, request: &ChatRequest) -> (r: Result<
    (WireRequest, WireOptions),
    ModelError,
>)
    ensures
        copies::held(r) == prepared(dialect, request@),
{
    match crate::openai::map::build_genai_request(request, dialect.echo_reasoning()) {
        Err(error) => Err(error),
        Ok(wire) => match dialect::build_options(dialect, request) {
            Err(error) => Err(error),
            Ok(options) => Ok((wire, options)),
        },
    }
}

/// A request that asks for what the model does not have never reaches the
/// wire: tools, parallel calls or cache breakpoints that it lacks are refused.
pub proof fn mismatches_fail_before_the_wire<D: Dialect>(dialect: &D, request: ChatRequestView)
    requires
        ({
            let caps = dialect.abilities();
            ||| request.tools.len() > 0 && !caps.tools
            ||| request.parallel_tools is Some && caps.parallel_tools
                == crate::contract::capabilities::Support::No
            ||| request.cache is Breakpoints
        }),
    ensures
        prepared(dialect, request) is Err,
        crate::openai::map::wire_request(request, dialect.echoes()) is Ok && request.tools.len()
            > 0 && !dialect.abilities().tools ==> prepared(dialect, request) == dialect::mismatch::<
            (WireRequestView, WireOptionsView),
        >(dialect.id_text() + " does not support tool calling"@),
{
}

} // verus!
