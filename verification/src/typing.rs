use vstd::prelude::*;
use crate::ast::{ASTNode, NodeKind};
use crate::parse::{literal_type, predict_math_spec};
use crate::types::{TypeV, compatible};

verus! {

broadcast use vstd::std_specs::vec::axiom_vec_decreases_to_view;

/// The typing rule of one node, given the types of its children.
pub open spec fn node_rule(n: ASTNode) -> bool {
    match *n.kind {
        NodeKind::Literal { value } => n.eval_type@ == literal_type(value),
        NodeKind::VariableDecl { name: _, value } =>
            compatible(n.eval_type@, value.eval_type@)
                || (n.eval_type@ == TypeV::Nothing && (*value.kind) is FunctionLiteral),
        NodeKind::VariableAsgn { .. } | NodeKind::FieldAsgn { .. } | NodeKind::ReturnStatement { .. }
            | NodeKind::IfStatement { .. } | NodeKind::ForStatement { .. } | NodeKind::WhileStatement { .. } =>
            n.eval_type@ == TypeV::Nothing,
        NodeKind::MathOperation { operation, left, right } =>
            n.eval_type@ == predict_math_spec(operation, left.eval_type@, right.eval_type@),
        NodeKind::BoolOperation { .. } => n.eval_type@ == TypeV::Bool,
        NodeKind::FunctionInvok { variable, parameters } => match variable.eval_type@ {
            TypeV::Function(ps, ret) => {
                &&& ps.len() == parameters@.len()
                &&& forall|i: int| 0 <= i < ps.len() ==> compatible(#[trigger] parameters@[i].eval_type@, ps[i])
                &&& n.eval_type@ == *ret
            },
            _ => false,
        },
        NodeKind::ValueFieldAccess { variable, value: _ } =>
            variable.eval_type@ == TypeV::Vector(Box::new(n.eval_type@)),
        NodeKind::VectorLiteral { values } => match n.eval_type@ {
            TypeV::Vector(t) => forall|i: int| 0 <= i < values@.len() ==>
                (#[trigger] values@[i].eval_type@ == *t || values@[i].eval_type@ == TypeV::Unknown),
            _ => false,
        },
        NodeKind::FieldAccess { variable, field_name: _ } => variable.eval_type@ is Class,
        NodeKind::FunctionLiteral { value } => match n.eval_type@ {
            TypeV::Function(ps, _) => ps.len() == value.parameters@.len(),
            _ => false,
        },
        NodeKind::ConstructClass { parameters: _, class } =>
            n.eval_type@ == TypeV::Class(class.name@, class.module.0),
        NodeKind::VariableRef { .. } | NodeKind::ObjectLiteral { .. } => true,
    }
}

/// A node and all the nodes below it follow their typing rules.
pub open spec fn well_typed(n: ASTNode) -> bool
    decreases n,
{
    &&& node_rule(n)
    &&& match *n.kind {
        NodeKind::VariableDecl { name: _, value } => well_typed(value),
        NodeKind::VariableAsgn { name: _, value } => well_typed(value),
        NodeKind::FieldAsgn { variable, field_name: _, value } => well_typed(variable) && well_typed(value),
        NodeKind::FunctionInvok { variable, parameters } => well_typed(variable) && body_well_typed(parameters@),
        NodeKind::MathOperation { operation: _, left, right } => well_typed(left) && well_typed(right),
        NodeKind::BoolOperation { operation: _, left, right } => well_typed(left) && well_typed(right),
        NodeKind::ReturnStatement { value, kind: _ } => match value {
            Some(v) => well_typed(v),
            None => true,
        },
        NodeKind::IfStatement { condition, body } => well_typed(condition) && body_well_typed(body@),
        NodeKind::ForStatement { left, right, body, iter_name: _ } =>
            well_typed(left) && well_typed(right) && body_well_typed(body@),
        NodeKind::WhileStatement { condition, body } => well_typed(condition) && body_well_typed(body@),
        NodeKind::FieldAccess { variable, field_name: _ } => well_typed(variable),
        NodeKind::VectorLiteral { values } => body_well_typed(values@),
        NodeKind::ObjectLiteral { values } => fields_well_typed(values@),
        NodeKind::FunctionLiteral { value } => body_well_typed(value.body@),
        NodeKind::ValueFieldAccess { variable, value } => well_typed(variable) && well_typed(value),
        NodeKind::ConstructClass { parameters, class: _ } => body_well_typed(parameters@),
        NodeKind::Literal { .. } | NodeKind::VariableRef { .. } => true,
    }
}

/// Every node of a list is well typed.
pub open spec fn body_well_typed(s: Seq<ASTNode>) -> bool
    decreases s,
{
    if s.len() == 0 {
        true
    } else {
        body_well_typed(s.drop_last()) && well_typed(s.last())
    }
}

/// Every value of a list of named values is well typed.
pub open spec fn fields_well_typed(s: Seq<(String, ASTNode)>) -> bool
    decreases s,
{
    if s.len() == 0 {
        true
    } else {
        fields_well_typed(s.drop_last()) && well_typed(s.last().1)
    }
}

pub proof fn lemma_body_push(s: Seq<ASTNode>, n: ASTNode)
    requires
        body_well_typed(s),
        well_typed(n),
    ensures
        body_well_typed(s.push(n)),
{
    assert(s.push(n).drop_last() == s);
}

pub proof fn lemma_fields_push(s: Seq<(String, ASTNode)>, p: (String, ASTNode))
    requires
        fields_well_typed(s),
        well_typed(p.1),
    ensures
        fields_well_typed(s.push(p)),
{
    assert(s.push(p).drop_last() == s);
}

} // verus!
