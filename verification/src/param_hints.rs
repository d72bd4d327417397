//! Parameter name hints for the literal arguments of a call.

use vstd::prelude::*;
use crate::hint::{push_hint, InlayHint, InlayHintView, InlayKind};
use crate::syntax::{Arg, CallableDef, Expr, FunctionSignature};

verus! {

impl Expr {
    /// The arguments of a call, where it has an argument list.
    pub open spec fn args(self) -> Option<Seq<Arg>> {
        match self {
            Expr::CallExpr(call) => match call.arg_list {
                Some(args) => Some(args@),
                None => None,
            },
            Expr::MethodCallExpr(call) => match call.arg_list {
                Some(args) => Some(args@),
                None => None,
            },
            _ => None,
        }
    }

    /// The signature of what a call calls, where that is resolved.
    pub open spec fn fn_signature(self) -> Option<FunctionSignature> {
        match self {
            Expr::CallExpr(call) => match call.callable {
                Some(CallableDef::FunctionId(signature)) => Some(signature),
                Some(CallableDef::StructId(signature)) => signature,
                Some(CallableDef::EnumVariantId(signature)) => signature,
                None => None,
            },
            Expr::MethodCallExpr(call) => call.method,
            _ => None,
        }
    }

    /// How many leading parameters stand for no argument: the receiver of a
    /// method call, where the signature has any parameter at all.
    pub open spec fn receivers(self, signature: FunctionSignature) -> nat {
        if self is MethodCallExpr && signature.parameter_names@.len() > 0 {
            1
        } else {
            0
        }
    }

    /// The parameter names that are paired with the arguments, in order.
    pub open spec fn hinted_parameters(self, signature: FunctionSignature) -> Seq<String> {
        signature.parameter_names@.skip(self.receivers(signature) as int)
    }

    /// The parameter hints of a call: none without an argument list or a
    /// signature, else those of the arguments paired with the parameters.
    pub open spec fn param_name_hints(self) -> Seq<InlayHintView> {
        match (self.args(), self.fn_signature()) {
            (Some(args), Some(signature)) => {
                let parameters = self.hinted_parameters(signature);
                paired_hints(parameters, args, min_len(parameters, args))
            },
            _ => Seq::empty(),
        }
    }
}

/// The length of the shorter of the two sequences.
pub open spec fn min_len(parameters: Seq<String>, args: Seq<Arg>) -> nat {
    if parameters.len() <= args.len() {
        parameters.len()
    } else {
        args.len()
    }
}

/// The hint for an argument that is paired with the parameter `name`: one
/// with that name on the argument's span, if the argument is a literal and
/// the name is not empty.
pub open spec fn param_hint(name: String, arg: Arg) -> Option<InlayHintView> {
    if arg.is_literal && name@.len() != 0 {
        Some(InlayHintView { range: arg.range, kind: InlayKind::ParameterHint, label: name@ })
    } else {
        None
    }
}

/// The hints of the first `count` pairs of a parameter and an argument.
pub open spec fn paired_hints(parameters: Seq<String>, args: Seq<Arg>, count: nat) -> Seq<
    InlayHintView,
>
    decreases count,
{
    if count == 0 {
        Seq::empty()
    } else {
        let rest = paired_hints(parameters, args, (count - 1) as nat);
        match param_hint(parameters[count - 1], args[count - 1]) {
            Some(hint) => rest.push(hint),
            None => rest,
        }
    }
}

/// The signature of what `expr` calls. For a call it is that of the function,
/// tuple struct or enum variant that the callee resolves to; for a method
/// call, that of the resolved method.
pub fn get_fn_signature<'a>(expr: &'a Expr) -> (signature: Option<&'a FunctionSignature>)
    ensures
        match signature {
            Some(found) => expr.fn_signature() == Some(*found),
            None => expr.fn_signature() is None,
        },
{
    match expr {
        Expr::CallExpr(call) => {
            match &call.callable {
                Some(callable_def) => match callable_def {
                    CallableDef::FunctionId(it) => Some(it),
                    CallableDef::StructId(it) => it.as_ref(),
                    CallableDef::EnumVariantId(it) => it.as_ref(),
                },
                None => None,
            }
        },
        Expr::MethodCallExpr(call) => call.method.as_ref(),
        _ => None,
    }
}

/// Appends the parameter hints of the call `expr` to `acc`. Parameters and
/// arguments are paired by position up to the shorter of the two, a method's
/// receiver left out; a pair gives a hint where the argument is a literal and
/// the parameter has a name. The result is `None` where `expr` is no call,
/// has no argument list, or calls nothing that is resolved.
pub fn get_param_name_hints(acc: &mut Vec<InlayHint>, expr: &Expr) -> (done: Option<()>)
    ensures
        final(acc).deep_view() == old(acc).deep_view() + expr.param_name_hints(),
        done is Some <==> expr.args() is Some && expr.fn_signature() is Some,
{
    let args = match expr {
        Expr::CallExpr(call) => match &call.arg_list {
            Some(args) => args,
            None => {
                return None;
            },
        },
        Expr::MethodCallExpr(call) => match &call.arg_list {
            Some(args) => args,
            None => {
                return None;
            },
        },
        _ => {
            return None;
        },
    };
    let signature = match get_fn_signature(expr) {
        Some(signature) => signature,
        None => {
            return None;
        },
    };
    let names = &signature.parameter_names;
    let is_method = match expr {
        Expr::MethodCallExpr(_) => true,
        _ => false,
    };
    let first: usize = if is_method && names.len() > 0 {
        1
    } else {
        0
    };
    let ghost parameters = expr.hinted_parameters(*signature);

    let mut i: usize = 0;
    while i < args.len() && i < names.len() - first
        invariant
            first <= names.len(),
            i <= args.len(),
            i <= names.len() - first,
            parameters == names@.skip(first as int),
            acc.deep_view() == old(acc).deep_view() + paired_hints(parameters, args@, i as nat),
        decreases args.len() - i,
    {
        let name = &names[i + first];
        let arg = &args[i];
        if arg.is_literal && !name.as_str().is_empty() {
            push_hint(acc, InlayHint::parameter_hint(arg.range, name.clone()));
        }
        i += 1;
    }
    Some(())
}

} // verus!
