use vstd::prelude::*;
use crate::module::ModuleUID;
use crate::tokens::LiteralKind;
use crate::types::{BoolOperatorKind, ClassRef, MathOperatorKind, ReturnKind, TypeKind};

verus! {

pub type ASTBody = Vec<ASTNode>;

/// A node of the syntax tree with the type that it evaluates to.
#[derive(Debug, PartialEq, Eq)]
pub struct ASTNode {
    pub kind: Box<NodeKind>,
    pub eval_type: TypeKind,
}

/// A function value: its body, the names of its parameters and, for a method, its class.
#[derive(Debug, PartialEq, Eq)]
pub struct Function {
    pub body: ASTBody,
    pub parameters: Vec<String>,
    pub method: Option<ClassRef>,
}

impl Function {
    pub fn new(body: ASTBody, parameters: Vec<String>, method: Option<ClassRef>) -> (r: Function)
        ensures
            r.body == body,
            r.parameters == parameters,
            r.method == method,
    {
        Function { body, parameters, method }
    }
}

#[derive(Debug, PartialEq, Eq)]
pub enum NodeKind {
    VariableDecl { name: String, value: ASTNode },
    VariableRef { module: ModuleUID, name: String },
    VariableAsgn { name: String, value: ASTNode },
    FieldAsgn { variable: ASTNode, field_name: String, value: ASTNode },
    FunctionInvok { variable: ASTNode, parameters: ASTBody },
    Literal { value: LiteralKind },
    MathOperation { operation: MathOperatorKind, left: ASTNode, right: ASTNode },
    BoolOperation { operation: BoolOperatorKind, left: ASTNode, right: ASTNode },
    ReturnStatement { value: Option<ASTNode>, kind: ReturnKind },
    IfStatement { condition: ASTNode, body: ASTBody },
    ForStatement { left: ASTNode, right: ASTNode, body: ASTBody, iter_name: String },
    WhileStatement { condition: ASTNode, body: ASTBody },
    FieldAccess { variable: ASTNode, field_name: String },
    VectorLiteral { values: ASTBody },
    ObjectLiteral { values: Vec<(String, ASTNode)> },
    FunctionLiteral { value: Function },
    ValueFieldAccess { variable: ASTNode, value: ASTNode },
    ConstructClass { parameters: ASTBody, class: ClassRef },
}

impl ASTNode {
    pub fn new(kind: NodeKind, eval_type: TypeKind) -> (r: ASTNode)
        ensures
            *r.kind == kind,
            r.eval_type == eval_type,
    {
        ASTNode { kind: Box::new(kind), eval_type }
    }

    /// The node of the `nothing` literal.
    pub fn new_empty() -> (r: ASTNode)
        ensures
            *r.kind == (NodeKind::Literal { value: LiteralKind::Nothing }),
            r.eval_type == TypeKind::Nothing,
    {
        ASTNode { kind: Box::new(NodeKind::Literal { value: LiteralKind::Nothing }), eval_type: TypeKind::Nothing }
    }
}

impl NodeKind {
    pub fn new_variable_decl(name: String, value: ASTNode) -> (r: NodeKind)
        ensures r == (NodeKind::VariableDecl { name, value }),
    {
        NodeKind::VariableDecl { name, value }
    }

    pub fn new_variable_ref(module: ModuleUID, name: String) -> (r: NodeKind)
        ensures r == (NodeKind::VariableRef { module, name }),
    {
        NodeKind::VariableRef { module, name }
    }

    pub fn new_variable_asgn(name: String, value: ASTNode) -> (r: NodeKind)
        ensures r == (NodeKind::VariableAsgn { name, value }),
    {
        NodeKind::VariableAsgn { name, value }
    }

    pub fn new_field_asgn(variable: ASTNode, field_name: String, value: ASTNode) -> (r: NodeKind)
        ensures r == (NodeKind::FieldAsgn { variable, field_name, value }),
    {
        NodeKind::FieldAsgn { variable, field_name, value }
    }

    pub fn new_function_invok(variable: ASTNode, parameters: ASTBody) -> (r: NodeKind)
        ensures r == (NodeKind::FunctionInvok { variable, parameters }),
    {
        NodeKind::FunctionInvok { variable, parameters }
    }

    pub fn new_literal(value: LiteralKind) -> (r: NodeKind)
        ensures r == (NodeKind::Literal { value }),
    {
        NodeKind::Literal { value }
    }

    pub fn new_math_operation(operation: MathOperatorKind, left: ASTNode, right: ASTNode) -> (r: NodeKind)
        ensures r == (NodeKind::MathOperation { operation, left, right }),
    {
        NodeKind::MathOperation { operation, left, right }
    }

    pub fn new_bool_operation(operation: BoolOperatorKind, left: ASTNode, right: ASTNode) -> (r: NodeKind)
        ensures r == (NodeKind::BoolOperation { operation, left, right }),
    {
        NodeKind::BoolOperation { operation, left, right }
    }

    pub fn new_return_statement(value: Option<ASTNode>, kind: ReturnKind) -> (r: NodeKind)
        ensures r == (NodeKind::ReturnStatement { value, kind }),
    {
        NodeKind::ReturnStatement { value, kind }
    }

    pub fn new_if_statement(condition: ASTNode, body: ASTBody) -> (r: NodeKind)
        ensures r == (NodeKind::IfStatement { condition, body }),
    {
        NodeKind::IfStatement { condition, body }
    }

    pub fn new_for_statement(left: ASTNode, right: ASTNode, body: ASTBody, iter_name: String) -> (r: NodeKind)
        ensures r == (NodeKind::ForStatement { left, right, body, iter_name }),
    {
        NodeKind::ForStatement { left, right, body, iter_name }
    }

    pub fn new_while_statement(condition: ASTNode, body: ASTBody) -> (r: NodeKind)
        ensures r == (NodeKind::WhileStatement { condition, body }),
    {
        NodeKind::WhileStatement { condition, body }
    }

    pub fn new_field_access(variable: ASTNode, field_name: String) -> (r: NodeKind)
        ensures r == (NodeKind::FieldAccess { variable, field_name }),
    {
        NodeKind::FieldAccess { variable, field_name }
    }

    pub fn new_vector_literal(values: ASTBody) -> (r: NodeKind)
        ensures r == (NodeKind::VectorLiteral { values }),
    {
        NodeKind::VectorLiteral { values }
    }

    pub fn new_object_literal(values: Vec<(String, ASTNode)>) -> (r: NodeKind)
        ensures r == (NodeKind::ObjectLiteral { values }),
    {
        NodeKind::ObjectLiteral { values }
    }

    pub fn new_function_literal(value: Function) -> (r: NodeKind)
        ensures r == (NodeKind::FunctionLiteral { value }),
    {
        NodeKind::FunctionLiteral { value }
    }

    pub fn new_value_field_access(variable: ASTNode, value: ASTNode) -> (r: NodeKind)
        ensures r == (NodeKind::ValueFieldAccess { variable, value }),
    {
        NodeKind::ValueFieldAccess { variable, value }
    }

    pub fn new_construct_class(parameters: ASTBody, class: ClassRef) -> (r: NodeKind)
        ensures r == (NodeKind::ConstructClass { parameters, class }),
    {
        NodeKind::ConstructClass { parameters, class }
    }
}

} // verus!
