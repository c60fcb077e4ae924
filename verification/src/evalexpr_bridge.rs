//! The trusted boundary to the `evalexpr` crate, which parses and
//! evaluates the condition language. Every context reaching these
//! wrappers is built by [`new_context`], has its builtin functions
//! switched off by [`context_disable_builtins`] — a state the
//! contracts track through [`builtins_disabled`], since the flag
//! changes what expressions evaluate to — and is filled through
//! [`context_set`] alone, so it holds variable bindings only: no
//! custom functions, no builtins. With the crate built without its
//! optional `rand` and `regex` features, evaluation then touches only
//! its checked operators: it is a function of the expression text and
//! the variable bindings alone, and it returns normally on every
//! expression the length bound admits.

use vstd::prelude::*;

use crate::models::ConfigValue;

verus! {

/// The longest expression handed to the backend. Parsing, evaluation
/// and the drop of the expression tree all recurse with the structure
/// of the expression, whose depth can grow linearly with its length,
/// so an unbounded expression could exhaust the stack; this bound
/// keeps the recursion shallow by a wide margin.
pub const MAX_EXPRESSION_LEN: usize = 2048;

#[verifier::external_type_specification]
#[verifier::external_body]
pub struct ExHashMapContext(evalexpr::HashMapContext);

/// The variable bindings a context holds, keyed by variable name. A
/// stored scalar is carried as the [`ConfigValue`] it was set from.
pub uninterp spec fn context_bindings(c: evalexpr::HashMapContext) -> Map<Seq<char>, ConfigValue>;

/// Whether the context has its builtin functions switched off. The
/// flag changes what an expression evaluates to, so the contracts
/// must carry it alongside the bindings.
pub uninterp spec fn builtins_disabled(c: evalexpr::HashMapContext) -> bool;

/// What evalexpr's boolean evaluation yields, on a context whose
/// builtin functions are off, for an expression under given variable
/// bindings: the boolean on success, `None` when parsing fails, a
/// variable or function is unknown, or the result is not a boolean. One grain of salt on cross-machine agreement: the float
/// exponentiation operator follows the platform's libm, so two
/// machines may disagree in the last bit of its result.
pub uninterp spec fn eval_outcome(expr: Seq<char>, bindings: Map<Seq<char>, ConfigValue>) -> Option<
    bool,
>;

/// The binding map of a context nothing was stored in yet.
pub open spec fn no_bindings() -> Map<Seq<char>, ConfigValue> {
    Map::empty()
}

/// Relies on `HashMapContext::new`: a fresh context holds no variable
/// bindings — and still has its builtin functions on, so it is not
/// yet fit for evaluation.
#[verifier::external_body]
pub(crate) fn new_context() -> (c: evalexpr::HashMapContext)
    ensures
        context_bindings(c) == no_bindings(),
        !builtins_disabled(c),
{
    evalexpr::HashMapContext::new()
}

/// Relies on `Context::set_builtin_functions_disabled`, which for
/// `HashMapContext` only sets a flag and always succeeds: afterwards
/// an unknown function identifier is an evaluation error instead of a
/// builtin call, and the variable bindings are untouched. The builtins
/// are the one part of evaluation with unchecked arithmetic (`shl`,
/// `shr`, `math::abs`), so conditions cannot reach a panic through
/// them once they are off; the condition language needs no function
/// calls anyway.
#[verifier::external_body]
pub(crate) fn context_disable_builtins(c: &mut evalexpr::HashMapContext)
    ensures
        context_bindings(*final(c)) == context_bindings(*old(c)),
        builtins_disabled(*final(c)),
{
    let _ = evalexpr::Context::set_builtin_functions_disabled(c, true);
}

/// Relies on `HashMapContext::get_value` (through the `Context`
/// trait): a name is found exactly when a binding was stored under it.
#[verifier::external_body]
pub(crate) fn context_has(c: &evalexpr::HashMapContext, name: &str) -> (r: bool)
    ensures
        r == context_bindings(*c).dom().contains(name@),
{
    evalexpr::Context::get_value(c, name).is_some()
}

/// Relies on `HashMapContext::set_value` (through the
/// `ContextWithMutableVariables` trait): storing under a name that is
/// not yet bound always succeeds and adds exactly that binding. The
/// scalar is converted to the evalexpr value of its kind; a stored
/// floating-point bit pattern becomes the floating-point value again.
#[verifier::external_body]
pub(crate) fn context_set(c: &mut evalexpr::HashMapContext, name: &str, value: &ConfigValue)
    requires
        value.is_scalar(),
        !context_bindings(*old(c)).dom().contains(name@),
    ensures
        context_bindings(*final(c)) == context_bindings(*old(c)).insert(name@, *value),
        builtins_disabled(*final(c)) == builtins_disabled(*old(c)),
{
    let converted = match value {
        ConfigValue::Text(s) => evalexpr::Value::String(s.clone()),
        ConfigValue::Integer(i) => evalexpr::Value::Int(*i),
        ConfigValue::Decimal(bits) => evalexpr::Value::Float(evalexpr::FloatType::from_bits(*bits)),
        ConfigValue::Truth(b) => evalexpr::Value::Boolean(*b),
        _ => evalexpr::Value::Empty,
    };
    let _ = evalexpr::ContextWithMutableVariables::set_value(c, name.to_owned(), converted);
}

/// Relies on `eval_boolean_with_context`: on a context with variable
/// bindings only and its builtin functions off (which the `requires`
/// demands, since the flag changes results), built without the
/// optional `rand` or `regex` feature, the outcome depends on the
/// expression and the bindings alone, and the call returns normally —
/// every reachable operator uses checked arithmetic or floating
/// point, assignment on an immutable context is an error, and the
/// length bound keeps the recursion over the expression structure
/// shallow.
#[verifier::external_body]
pub(crate) fn eval_boolean_in_context(expr: &str, c: &evalexpr::HashMapContext) -> (r: Option<bool>)
    requires
        expr@.len() <= MAX_EXPRESSION_LEN as int,
        builtins_disabled(*c),
    ensures
        r == eval_outcome(expr@, context_bindings(*c)),
{
    match evalexpr::eval_boolean_with_context(expr, c) {
        Ok(b) => Some(b),
        Err(_) => None,
    }
}

} // verus!
