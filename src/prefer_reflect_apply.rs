use vstd::prelude::*;

use crate::ast::{Argument, CallExpression, Expression, MemberExpression};
use crate::lint::{Diagnostic, LintContext, Rule, Semantic, Severity};
use crate::node::{AstKind, AstNode};

verus! {

/// Reports `f.apply(thisArg, args)` and
/// `Function.prototype.apply.call(f, thisArg, args)`, which
/// `Reflect.apply(f, thisArg, args)` says more plainly.
#[derive(Clone, Debug)]
pub struct PreferReflectApply {}

/// The arguments have the shape of an `apply` call: `this` or `null`, then
/// an array literal or `arguments`.
pub open spec fn apply_signature(a1: Argument, a2: Argument) -> bool {
    &&& a1 matches Argument::Expression(e1)
    &&& (e1 is ThisExpression || e1 is NullLiteral)
    &&& a2 matches Argument::Expression(e2)
    &&& (e2 is ArrayExpression || (e2 matches Expression::Identifier(name) && name@
        == "arguments"@))
}

/// The member's property is statically `name`.
pub open spec fn property_is(m: MemberExpression, name: Seq<char>) -> bool {
    m.static_property_name is Some && m.static_property_name->0@ == name
}

/// `e` is a member expression whose property is statically `name`.
pub open spec fn member_named(e: Expression, name: Seq<char>) -> bool {
    e matches Expression::MemberExpression(m) && property_is(*m, name)
}

/// The object of member expression `e`.
pub open spec fn object_of(e: Expression) -> Expression {
    match e {
        Expression::MemberExpression(m) => m.object,
        _ => Expression::Other,
    }
}

/// The call is reported.
pub open spec fn prefers_reflect_apply(call: CallExpression) -> bool {
    let args = call.arguments@;
    let callee = call.callee;
    let object = object_of(callee);
    &&& callee is MemberExpression
    &&& !call.optional
    &&& !(object is ArrayExpression || object is ObjectExpression || object.is_literal_spec())
    &&& {
        ||| (member_named(callee, "apply"@) && args.len() == 2 && apply_signature(args[0], args[1]))
        ||| {
            &&& member_named(callee, "call"@)
            &&& member_named(object, "apply"@)
            &&& member_named(object_of(object), "prototype"@)
            &&& (object_of(object_of(object)) matches Expression::Identifier(id) && id@
                == "Function"@)
            &&& args.len() == 3
            &&& apply_signature(args[1], args[2])
        }
    }
}

fn is_apply_signature(argument_1: &Argument, argument_2: &Argument) -> (r: bool)
    ensures
        r == apply_signature(*argument_1, *argument_2),
{
    match argument_1 {
        Argument::Expression(Expression::ThisExpression)
        | Argument::Expression(Expression::NullLiteral) => match argument_2 {
            Argument::Expression(Expression::ArrayExpression) => true,
            Argument::Expression(Expression::Identifier(name)) => *name == "arguments".to_owned(),
            _ => false,
        },
        _ => false,
    }
}

fn is_static_property_name_equal(expr: &MemberExpression, value: &str) -> (r: bool)
    ensures
        r == property_is(*expr, value@),
{
    match &expr.static_property_name {
        Some(name) => *name == value.to_owned(),
        None => false,
    }
}

impl PreferReflectApply {
    /// The check takes no options.
    pub fn from_configuration(value: crate::config::ConfigValue) -> (r: Self) {
        PreferReflectApply {  }
    }

    /// Whether `call` is reported.
    pub fn check_call(&self, call: &CallExpression) -> (r: bool)
        ensures
            r == prefers_reflect_apply(*call),
    {
        let member_expr = match &call.callee {
            Expression::MemberExpression(m) => m,
            _ => {
                return false;
            },
        };
        let object = &member_expr.object;
        if call.optional || matches!(object, Expression::ArrayExpression) || matches!(
            object,
            Expression::ObjectExpression
        ) || object.is_literal() {
            return false;
        }
        if is_static_property_name_equal(member_expr, "apply") && call.arguments.len() == 2
            && is_apply_signature(&call.arguments[0], &call.arguments[1]) {
            return true;
        }
        if is_static_property_name_equal(member_expr, "call") {
            let member_expr_obj = match object {
                Expression::MemberExpression(m) => m,
                _ => {
                    return false;
                },
            };
            if is_static_property_name_equal(member_expr_obj, "apply") {
                let member_expr_obj_obj = match &member_expr_obj.object {
                    Expression::MemberExpression(m) => m,
                    _ => {
                        return false;
                    },
                };
                if is_static_property_name_equal(member_expr_obj_obj, "prototype") {
                    return match &member_expr_obj_obj.object {
                        Expression::Identifier(iden) => *iden == "Function".to_owned()
                            && call.arguments.len() == 3 && is_apply_signature(
                            &call.arguments[1],
                            &call.arguments[2],
                        ),
                        _ => false,
                    };
                }
            }
        }
        false
    }
}

impl Rule for PreferReflectApply {
    open spec fn node_findings(&self, node: AstNode, sem: Semantic, cwd: Seq<char>, out: Seq<Diagnostic>) -> bool {
        match node.kind {
            AstKind::CallExpression(call) => if prefers_reflect_apply(call) {
                &&& out.len() == 1
                &&& out[0].message@ == "eslint-plugin-unicorn(prefer-reflect-apply): Prefer Reflect.apply() over Function#apply()"@
                &&& out[0].severity == Severity::Warning
                &&& out[0].span == Some(call.span)
                &&& out[0].help is Some
                &&& out[0].help->0@ == "Reflect.apply() is less verbose and easier to understand."@
            } else {
                out.len() == 0
            },
            _ => out.len() == 0,
        }
    }

    open spec fn file_findings(&self, sem: Semantic, cwd: Seq<char>, out: Seq<Diagnostic>) -> bool {
        out.len() == 0
    }

    fn run(&self, node: &AstNode, sem: &Semantic, ctx: &mut LintContext) {
        if let AstKind::CallExpression(call_expr) = &node.kind {
            if self.check_call(call_expr) {
                let d = Diagnostic {
                    message: "eslint-plugin-unicorn(prefer-reflect-apply): Prefer Reflect.apply() over Function#apply()".to_owned(),
                    severity: Severity::Warning,
                    span: Some(call_expr.span),
                    help: Some("Reflect.apply() is less verbose and easier to understand.".to_owned()),
                };
                let ghost before = ctx.diagnostics@;
                ctx.diagnostic(d);
                assert(ctx.diagnostics@ == before + seq![d]);
                return;
            }
        }
        assert(ctx.diagnostics@ == old(ctx).diagnostics@ + Seq::<Diagnostic>::empty());
    }

    fn run_once(&self, sem: &Semantic, ctx: &mut LintContext) {
        assert(ctx.diagnostics@ == old(ctx).diagnostics@ + Seq::<Diagnostic>::empty());
    }
}

} // verus!
