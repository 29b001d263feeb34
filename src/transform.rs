//! The decisions of the memoizing transformation: whether an annotated
//! function can be memoized, the name of its cache, the layout of its key
//! and its return type.
use vstd::prelude::*;

verus! {

/// One parameter of the annotated function, as the parser found it.
#[derive(Debug)]
pub enum ParamShape {
    /// A `self`-like receiver: the function is a method.
    Receiver,
    /// A parameter bound to one plain name.
    Named(String),
    /// A parameter destructured into a pattern.
    Pattern,
}

#[derive(Debug)]
/// What the transformation reads of an annotated function. Types, body,
/// visibility and attributes are carried over untouched by the emitter
/// and play no part in the decisions.
pub struct FnShape {
    pub name: String,
    pub params: Vec<ParamShape>,
    /// Whether the signature writes a return type; without one the
    /// function returns `()`.
    pub has_return_type: bool,
}

/// Why the transformation refuses an annotated function.
#[derive(Debug, Clone, Copy, PartialEq, Eq, Structural)]
pub enum TransformError {
    /// The annotation was given configuration arguments.
    ArgumentsGiven,
    /// The annotated function takes a receiver.
    AppliedToMethod,
    /// A parameter is a pattern rather than a plain name.
    PatternParameter,
}

#[derive(Debug)]
/// What the emitter needs to write the cache declaration and the
/// rewritten function.
pub struct MemoPlan {
    /// The identifier of the per-context cache store.
    pub cache_name: String,
    /// The parameter names, in declaration order. The cache key is the
    /// tuple of these parameters, one component each, in this order.
    pub param_names: Vec<String>,
    /// Whether the function returns `()` for want of a written type.
    pub returns_unit: bool,
}

/// The name a parameter binds, if it binds exactly one.
pub open spec fn bound_name(p: ParamShape) -> Option<Seq<char>> {
    match p {
        ParamShape::Named(s) => Some(s@),
        _ => None,
    }
}

pub open spec fn has_receiver(params: Seq<ParamShape>) -> bool {
    exists|i: int| 0 <= i < params.len() && (#[trigger] params[i]) is Receiver
}

pub open spec fn has_pattern(params: Seq<ParamShape>) -> bool {
    exists|i: int| 0 <= i < params.len() && (#[trigger] params[i]) is Pattern
}

/// The refusal the transformation owes, if any. Arguments are checked
/// first, then receivers, then patterns.
pub open spec fn refusal(has_arguments: bool, params: Seq<ParamShape>) -> Option<TransformError> {
    if has_arguments {
        Some(TransformError::ArgumentsGiven)
    } else if has_receiver(params) {
        Some(TransformError::AppliedToMethod)
    } else if has_pattern(params) {
        Some(TransformError::PatternParameter)
    } else {
        None
    }
}

/// `plan` is what the transformation derives from a function with
/// parameters `params` and the cache name `cache_name`.
pub open spec fn plan_matches(
    plan: MemoPlan,
    params: Seq<ParamShape>,
    has_return_type: bool,
    cache_name: Seq<char>,
) -> bool {
    &&& plan.cache_name@ == cache_name
    &&& plan.param_names@.len() == params.len()
    &&& forall|i: int|
        0 <= i < params.len() ==> bound_name(#[trigger] params[i]) == Some(
            plan.param_names@[i]@,
        )
    &&& plan.returns_unit == !has_return_type
}

impl TransformError {
    /// The diagnostic that aborts the build.
    pub fn message(&self) -> (r: &'static str)
        ensures
            r@ == error_message(*self),
    {
        match self {
            TransformError::ArgumentsGiven => "cache takes no arguments: no arguments accepted",
            TransformError::AppliedToMethod =>
                "cache cannot be applied to a method (a function taking `self` as its first parameter)",
            TransformError::PatternParameter =>
                "cache cannot be applied to a function using a pattern as parameter",
        }
    }
}

pub open spec fn error_message(e: TransformError) -> Seq<char> {
    match e {
        TransformError::ArgumentsGiven => "cache takes no arguments: no arguments accepted"@,
        TransformError::AppliedToMethod =>
            "cache cannot be applied to a method (a function taking `self` as its first parameter)"@,
        TransformError::PatternParameter =>
            "cache cannot be applied to a function using a pattern as parameter"@,
    }
}

/// Checks that a function can be memoized: no configuration arguments,
/// no receiver, every parameter bound to a plain name.
pub fn check_applicable(has_arguments: bool, params: &Vec<ParamShape>) -> (r: Result<
    (),
    TransformError,
>)
    ensures
        match refusal(has_arguments, params@) {
            Some(e) => r == Err::<(), TransformError>(e),
            None => r is Ok,
        },
{
    if has_arguments {
        return Err(TransformError::ArgumentsGiven);
    }
    let mut i: usize = 0;
    while i < params.len()
        invariant
            0 <= i <= params@.len(),
            !has_arguments,
            forall|j: int| 0 <= j < i ==> !((#[trigger] params@[j]) is Receiver),
        decreases params@.len() - i,
    {
        if let ParamShape::Receiver = params[i] {
            assert(has_receiver(params@) && params@[i as int] is Receiver);
            return Err(TransformError::AppliedToMethod);
        }
        i = i + 1;
    }
    let mut i: usize = 0;
    while i < params.len()
        invariant
            0 <= i <= params@.len(),
            !has_arguments,
            !has_receiver(params@),
            forall|j: int| 0 <= j < i ==> !((#[trigger] params@[j]) is Pattern),
        decreases params@.len() - i,
    {
        if let ParamShape::Pattern = params[i] {
            assert(has_pattern(params@) && params@[i as int] is Pattern);
            return Err(TransformError::PatternParameter);
        }
        i = i + 1;
    }
    Ok(())
}

/// The identifier that `str::to_uppercase` makes of `s`.
pub uninterp spec fn upper_of(s: Seq<char>) -> Seq<char>;

/// Relies on `str::to_uppercase`: the Unicode upper case of `s`, which
/// depends on the characters of `s` alone.
#[verifier::external_body]
fn uppercase(s: &str) -> (r: String)
    ensures
        r@ == upper_of(s@),
{
    s.to_uppercase()
}

/// The parameter names, in order, of parameters that all bind a plain name.
fn param_names(params: &Vec<ParamShape>) -> (names: Vec<String>)
    requires
        !has_receiver(params@),
        !has_pattern(params@),
    ensures
        names@.len() == params@.len(),
        forall|i: int|
            0 <= i < params@.len() ==> bound_name(#[trigger] params@[i]) == Some(names@[i]@),
{
    let mut names: Vec<String> = Vec::new();
    let mut i: usize = 0;
    while i < params.len()
        invariant
            0 <= i <= params@.len(),
            names@.len() == i,
            !has_receiver(params@),
            !has_pattern(params@),
            forall|j: int| 0 <= j < i ==> bound_name(#[trigger] params@[j]) == Some(names@[j]@),
        decreases params@.len() - i,
    {
        assert(!(params@[i as int] is Receiver) && !(params@[i as int] is Pattern));
        match &params[i] {
            ParamShape::Named(s) => {
                names.push(s.clone());
            },
            _ => {},
        }
        i = i + 1;
    }
    names
}

/// The plan for a function whose cache is named `cache_name`: refused as
/// `check_applicable` says, else the plan that `plan_matches` describes.
pub fn plan_with_cache_name(has_arguments: bool, shape: &FnShape, cache_name: String) -> (r: Result<
    MemoPlan,
    TransformError,
>)
    ensures
        match refusal(has_arguments, shape.params@) {
            Some(e) => r is Err && r->Err_0 == e,
            None => r is Ok && plan_matches(
                r->Ok_0,
                shape.params@,
                shape.has_return_type,
                cache_name@,
            ),
        },
{
    match check_applicable(has_arguments, &shape.params) {
        Err(e) => Err(e),
        Ok(()) => {
            let names = param_names(&shape.params);
            Ok(MemoPlan { cache_name, param_names: names, returns_unit: !shape.has_return_type })
        },
    }
}

/// The plan for an annotated function, its cache named by the upper case
/// of the function's name.
pub fn plan(has_arguments: bool, shape: &FnShape) -> (r: Result<MemoPlan, TransformError>)
    ensures
        match refusal(has_arguments, shape.params@) {
            Some(e) => r is Err && r->Err_0 == e,
            None => r is Ok && plan_matches(
                r->Ok_0,
                shape.params@,
                shape.has_return_type,
                upper_of(shape.name@),
            ),
        },
{
    let cache_name = uppercase(shape.name.as_str());
    plan_with_cache_name(has_arguments, shape, cache_name)
}

} // verus!
