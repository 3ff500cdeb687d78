//! The syntax tree: pure data, each node owned by its parent.

use crate::operators::{BinaryOperators, UnaryOperators};
use vstd::prelude::*;
use vstd::string::StringExecFns;

verus! {

/// A type annotation.
#[derive(Debug, PartialEq, Eq, Hash)]
pub enum Type {
    /// Basic types like `int`, `float`, `string`, `bool`
    Named(String),
    /// Function type: (`param_types`) -> `return_type`
    Function { parameters: Vec<Type>, return_type: Box<Type> },
    /// Array type: [`element_type`]
    Array(Box<Type>),
    /// Unit type
    Unit,
}

/// The mathematical value of a [`Type`].
pub enum TypeView {
    Named(Seq<char>),
    Function { parameters: Seq<TypeView>, return_type: Box<TypeView> },
    Array(Box<TypeView>),
    Unit,
}

impl Type {
    /// The value of the type annotation.
    pub open spec fn model(&self) -> TypeView
        decreases self,
    {
        match self {
            Type::Named(name) => TypeView::Named(name@),
            Type::Function { parameters, return_type } => TypeView::Function {
                parameters: Seq::new(
                    parameters.len() as nat,
                    |i: int|
                        if 0 <= i < parameters.len() {
                            parameters[i].model()
                        } else {
                            TypeView::Unit
                        },
                ),
                return_type: Box::new(return_type.model()),
            },
            Type::Array(element) => TypeView::Array(Box::new(element.model())),
            Type::Unit => TypeView::Unit,
        }
    }

    /// The type with the given name.
    pub fn named(name: &str) -> (t: Self)
        ensures
            t@ == TypeView::Named(name@),
    {
        Type::Named(name.to_owned())
    }
}

impl View for Type {
    type V = TypeView;

    open spec fn view(&self) -> TypeView {
        self.model()
    }
}

/// The value of a literal.
#[derive(Debug, PartialEq)]
pub enum LiteralValue {
    Int(i64),
    /// A float, held as it is written in the source.
    Float(String),
    String(String),
    Bool(bool),
}

/// The mathematical value of a [`LiteralValue`].
pub enum LiteralView {
    Int(i64),
    Float(Seq<char>),
    String(Seq<char>),
    Bool(bool),
}

impl View for LiteralValue {
    type V = LiteralView;

    open spec fn view(&self) -> LiteralView {
        match self {
            LiteralValue::Int(n) => LiteralView::Int(*n),
            LiteralValue::Float(t) => LiteralView::Float(t@),
            LiteralValue::String(t) => LiteralView::String(t@),
            LiteralValue::Bool(b) => LiteralView::Bool(*b),
        }
    }
}

/// An expression.
#[derive(Debug, PartialEq)]
pub enum Expression {
    /// Literal value
    Literal(LiteralValue),
    /// Identifier reference
    Identifier(String),
    /// Binary operation: left op right
    BinaryOp { left: Box<Expression>, operator: BinaryOperators, right: Box<Expression> },
    /// Unary operation: op operand
    UnaryOp { operator: UnaryOperators, operand: Box<Expression> },
    /// Assignment: target = value
    Assignment { target: Box<Expression>, value: Box<Expression> },
    /// Function call: callee(args)
    Call { callee: Box<Expression>, arguments: Vec<Expression> },
    /// Array/object indexing: target[index]
    Index { target: Box<Expression>, index: Box<Expression> },
    /// Member access: target.member
    MemberAccess { target: Box<Expression>, member: String },
    /// Grouped expression: (expr)
    Grouped(Box<Expression>),
    /// Array literal: [expr, expr, ...]
    Array(Vec<Expression>),
    /// Interpolated string with expressions
    InterpolatedString { parts: Vec<StringPart> },
}

/// A piece of an interpolated string in the tree.
#[derive(Debug, PartialEq)]
pub enum StringPart {
    Text(String),
    Expression(Box<Expression>),
}

/// The mathematical value of an [`Expression`].
pub enum ExpressionView {
    Literal(LiteralView),
    Identifier(Seq<char>),
    BinaryOp { left: Box<ExpressionView>, operator: BinaryOperators, right: Box<ExpressionView> },
    UnaryOp { operator: UnaryOperators, operand: Box<ExpressionView> },
    Assignment { target: Box<ExpressionView>, value: Box<ExpressionView> },
    Call { callee: Box<ExpressionView>, arguments: Seq<ExpressionView> },
    Index { target: Box<ExpressionView>, index: Box<ExpressionView> },
    MemberAccess { target: Box<ExpressionView>, member: Seq<char> },
    Grouped(Box<ExpressionView>),
    Array(Seq<ExpressionView>),
    InterpolatedString { parts: Seq<PartView> },
}

/// The mathematical value of a [`StringPart`] of the tree.
pub enum PartView {
    Text(Seq<char>),
    Expression(Box<ExpressionView>),
}

impl Expression {
    /// The value of the expression.
    pub open spec fn model(&self) -> ExpressionView
        decreases self,
    {
        match self {
            Expression::Literal(v) => ExpressionView::Literal(v@),
            Expression::Identifier(name) => ExpressionView::Identifier(name@),
            Expression::BinaryOp { left, operator, right } => ExpressionView::BinaryOp {
                left: Box::new(left.model()),
                operator: *operator,
                right: Box::new(right.model()),
            },
            Expression::UnaryOp { operator, operand } => ExpressionView::UnaryOp {
                operator: *operator,
                operand: Box::new(operand.model()),
            },
            Expression::Assignment { target, value } => ExpressionView::Assignment {
                target: Box::new(target.model()),
                value: Box::new(value.model()),
            },
            Expression::Call { callee, arguments } => ExpressionView::Call {
                callee: Box::new(callee.model()),
                arguments: Seq::new(
                    arguments.len() as nat,
                    |i: int|
                        if 0 <= i < arguments.len() {
                            arguments[i].model()
                        } else {
                            ExpressionView::Array(Seq::empty())
                        },
                ),
            },
            Expression::Index { target, index } => ExpressionView::Index {
                target: Box::new(target.model()),
                index: Box::new(index.model()),
            },
            Expression::MemberAccess { target, member } => ExpressionView::MemberAccess {
                target: Box::new(target.model()),
                member: member@,
            },
            Expression::Grouped(inner) => ExpressionView::Grouped(Box::new(inner.model())),
            Expression::Array(elements) => ExpressionView::Array(
                Seq::new(
                    elements.len() as nat,
                    |i: int|
                        if 0 <= i < elements.len() {
                            elements[i].model()
                        } else {
                            ExpressionView::Array(Seq::empty())
                        },
                ),
            ),
            Expression::InterpolatedString { parts } => ExpressionView::InterpolatedString {
                parts: Seq::new(
                    parts.len() as nat,
                    |i: int|
                        if 0 <= i < parts.len() {
                            parts[i].model()
                        } else {
                            PartView::Text(Seq::empty())
                        },
                ),
            },
        }
    }
}

impl StringPart {
    /// The value of the part.
    pub open spec fn model(&self) -> PartView
        decreases self,
    {
        match self {
            StringPart::Text(t) => PartView::Text(t@),
            StringPart::Expression(e) => PartView::Expression(Box::new(e.model())),
        }
    }
}

impl View for Expression {
    type V = ExpressionView;

    open spec fn view(&self) -> ExpressionView {
        self.model()
    }
}

impl View for StringPart {
    type V = PartView;

    open spec fn view(&self) -> PartView {
        self.model()
    }
}

/// The values of a sequence of expressions.
pub open spec fn expressions_view(items: Seq<Expression>) -> Seq<ExpressionView> {
    Seq::new(items.len(), |i: int| items[i]@)
}

/// The values of the parts of an interpolated string.
pub open spec fn string_parts_view(items: Seq<StringPart>) -> Seq<PartView> {
    Seq::new(items.len(), |i: int| items[i]@)
}

/// A parameter of a function declaration.
#[derive(Debug, PartialEq)]
pub struct Parameter {
    pub name: String,
    pub type_annotation: Option<Type>,
}

/// The mathematical value of a [`Parameter`].
pub struct ParameterView {
    pub name: Seq<char>,
    pub type_annotation: Option<TypeView>,
}

/// The value of an optional type annotation.
pub open spec fn option_type_view(t: Option<Type>) -> Option<TypeView> {
    match t {
        Some(t) => Some(t@),
        None => None,
    }
}

/// The value of an optional expression.
pub open spec fn option_expression_view(e: Option<Expression>) -> Option<ExpressionView> {
    match e {
        Some(e) => Some(e@),
        None => None,
    }
}

impl View for Parameter {
    type V = ParameterView;

    open spec fn view(&self) -> ParameterView {
        ParameterView {
            name: self.name@,
            type_annotation: option_type_view(self.type_annotation),
        }
    }
}

/// The values of a sequence of parameters.
pub open spec fn parameters_view(items: Seq<Parameter>) -> Seq<ParameterView> {
    Seq::new(items.len(), |i: int| items[i]@)
}

/// A statement.
#[derive(Debug, PartialEq)]
pub enum Statement {
    /// Variable declaration, like `let name: type = value;`
    LetDeclaration { name: String, type_annotation: Option<Type>, initializer: Option<Expression> },
    /// Function declaration
    FunctionDeclaration {
        name: String,
        parameters: Vec<Parameter>,
        return_type: Option<Type>,
        body: Vec<Statement>,
    },
    /// Return statement, like `return expr;`
    Return(Option<Expression>),
    /// If statement
    If { condition: Expression, then_branch: Vec<Statement>, else_branch: Option<Vec<Statement>> },
    /// While loop
    While { condition: Expression, body: Vec<Statement> },
    /// For loop
    For {
        initializer: Option<Box<Statement>>,
        condition: Option<Expression>,
        increment: Option<Expression>,
        body: Vec<Statement>,
    },
    /// Block of statements
    Block(Vec<Statement>),
    /// Expression statement
    Expression(Expression),
    /// `break` statement
    Break,
    /// `continue` statement
    Continue,
}

/// The mathematical value of a [`Statement`].
pub enum StatementView {
    LetDeclaration {
        name: Seq<char>,
        type_annotation: Option<TypeView>,
        initializer: Option<ExpressionView>,
    },
    FunctionDeclaration {
        name: Seq<char>,
        parameters: Seq<ParameterView>,
        return_type: Option<TypeView>,
        body: Seq<StatementView>,
    },
    Return(Option<ExpressionView>),
    If {
        condition: ExpressionView,
        then_branch: Seq<StatementView>,
        else_branch: Option<Seq<StatementView>>,
    },
    While { condition: ExpressionView, body: Seq<StatementView> },
    For {
        initializer: Option<Box<StatementView>>,
        condition: Option<ExpressionView>,
        increment: Option<ExpressionView>,
        body: Seq<StatementView>,
    },
    Block(Seq<StatementView>),
    Expression(ExpressionView),
    Break,
    Continue,
}

impl Statement {
    /// The values of a list of statements that belong to a statement.
    pub open spec fn models(items: &Vec<Statement>) -> Seq<StatementView>
        decreases items,
    {
        Seq::new(
            items.len() as nat,
            |i: int|
                if 0 <= i < items.len() {
                    items[i].model()
                } else {
                    StatementView::Break
                },
        )
    }

    /// The value of the statement.
    pub open spec fn model(&self) -> StatementView
        decreases self,
    {
        match self {
            Statement::LetDeclaration { name, type_annotation, initializer } => {
                StatementView::LetDeclaration {
                    name: name@,
                    type_annotation: option_type_view(*type_annotation),
                    initializer: option_expression_view(*initializer),
                }
            },
            Statement::FunctionDeclaration { name, parameters, return_type, body } => {
                StatementView::FunctionDeclaration {
                    name: name@,
                    parameters: parameters_view(parameters@),
                    return_type: option_type_view(*return_type),
                    body: Self::models(body),
                }
            },
            Statement::Return(e) => StatementView::Return(option_expression_view(*e)),
            Statement::If { condition, then_branch, else_branch } => StatementView::If {
                condition: condition@,
                then_branch: Self::models(then_branch),
                else_branch: match else_branch {
                    Some(b) => Some(Self::models(b)),
                    None => None,
                },
            },
            Statement::While { condition, body } => StatementView::While {
                condition: condition@,
                body: Self::models(body),
            },
            Statement::For { initializer, condition, increment, body } => StatementView::For {
                initializer: match initializer {
                    Some(s) => Some(Box::new(s.model())),
                    None => None,
                },
                condition: option_expression_view(*condition),
                increment: option_expression_view(*increment),
                body: Self::models(body),
            },
            Statement::Block(items) => StatementView::Block(Self::models(items)),
            Statement::Expression(e) => StatementView::Expression(e@),
            Statement::Break => StatementView::Break,
            Statement::Continue => StatementView::Continue,
        }
    }
}

impl View for Statement {
    type V = StatementView;

    open spec fn view(&self) -> StatementView {
        self.model()
    }
}

/// The values of a sequence of statements.
pub open spec fn statements_view(items: Seq<Statement>) -> Seq<StatementView> {
    Seq::new(items.len(), |i: int| items[i]@)
}

/// What can be wrong with a tree.
#[derive(Debug, PartialEq, Eq)]
pub enum CarbideASTError {
    /// One thing was expected and another was got.
    ExpectedGot(String, String),
}

impl CarbideASTError {
    /// The message of the error.
    pub open spec fn message_text(&self) -> Seq<char> {
        match self {
            CarbideASTError::ExpectedGot(expected, got) => "Expected `"@ + expected@ + "` got `"@
                + got@ + "`"@,
        }
    }

    /// The message of the error.
    pub fn message(&self) -> (m: String)
        ensures
            m@ == self.message_text(),
    {
        match self {
            CarbideASTError::ExpectedGot(expected, got) => {
                let mut out = "Expected `".to_owned();
                out.append(expected.as_str());
                out.append("` got `");
                out.append(got.as_str());
                out.append("`");
                out
            },
        }
    }
}

impl Clone for CarbideASTError {
    fn clone(&self) -> (r: Self)
        ensures
            r == *self,
    {
        match self {
            CarbideASTError::ExpectedGot(expected, got) => CarbideASTError::ExpectedGot(
                expected.clone(),
                got.clone(),
            ),
        }
    }
}

/// A whole compilation unit.
#[derive(Debug, PartialEq)]
pub struct Program {
    pub statements: Vec<Statement>,
}

impl Program {
    /// The program of the given statements.
    pub fn new(statements: Vec<Statement>) -> (p: Self)
        ensures
            p.statements == statements,
    {
        Program { statements }
    }
}

/// The value of an array literal is made of the values of its elements.
pub proof fn lemma_array_model(items: Vec<Expression>)
    ensures
        Expression::Array(items)@ == ExpressionView::Array(expressions_view(items@)),
{
    assert(Expression::Array(items)@->Array_0 =~= expressions_view(items@));
}

/// The value of a call is made of the values of its callee and arguments.
pub proof fn lemma_call_model(callee: Box<Expression>, items: Vec<Expression>)
    ensures
        (Expression::Call { callee, arguments: items })@ == (ExpressionView::Call {
            callee: Box::new(callee@),
            arguments: expressions_view(items@),
        }),
{
    assert((Expression::Call { callee, arguments: items })@->Call_arguments =~= expressions_view(
        items@,
    ));
}

/// The value of an interpolated string is made of the values of its parts.
pub proof fn lemma_string_parts_model(items: Vec<StringPart>)
    ensures
        (Expression::InterpolatedString { parts: items })@ == (ExpressionView::InterpolatedString {
            parts: string_parts_view(items@),
        }),
{
    assert((Expression::InterpolatedString { parts: items })@->InterpolatedString_parts
        =~= string_parts_view(items@));
}

/// The values of the statements that a statement holds are the values of
/// the statements of the list.
pub proof fn lemma_statements_model(items: Vec<Statement>)
    ensures
        Statement::models(&items) == statements_view(items@),
{
    assert(Statement::models(&items) =~= statements_view(items@));
}

/// The value of a function type is made of the values of its parameter
/// types and of its return type.
pub proof fn lemma_function_type_model(parameters: Vec<Type>, return_type: Box<Type>)
    ensures
        (Type::Function { parameters, return_type })@ == (TypeView::Function {
            parameters: types_view(parameters@),
            return_type: Box::new(return_type@),
        }),
{
    assert((Type::Function { parameters, return_type })@->Function_parameters =~= types_view(
        parameters@,
    ));
}

/// The values of a sequence of types.
pub open spec fn types_view(items: Seq<Type>) -> Seq<TypeView> {
    Seq::new(items.len(), |i: int| items[i]@)
}

/// A copy of a list of types.
fn clone_types(items: &Vec<Type>) -> (r: Vec<Type>)
    ensures
        types_view(r@) == types_view(items@),
    decreases items,
{
    let mut list: Vec<Type> = Vec::new();
    let mut i: usize = 0;
    while i < items.len()
        invariant
            i <= items.len(),
            list.len() == i,
            forall|k: int| 0 <= k < i ==> list[k]@ == items[k]@,
        decreases items.len() - i,
    {
        proof {
            vstd::std_specs::vec::axiom_vec_index_decreases(*items, i as int);
        }
        list.push(clone_type(&items[i]));
        i += 1;
    }
    assert(types_view(list@) =~= types_view(items@));
    list
}

/// A copy of a type.
fn clone_type(t: &Type) -> (r: Type)
    ensures
        r@ == t@,
    decreases t,
{
    match t {
        Type::Named(name) => Type::Named(name.clone()),
        Type::Function { parameters, return_type } => {
            let list = clone_types(parameters);
            let result = Box::new(clone_type(return_type));
            proof {
                lemma_function_type_model(list, result);
                lemma_function_type_model(*parameters, *return_type);
            }
            Type::Function { parameters: list, return_type: result }
        },
        Type::Array(element) => Type::Array(Box::new(clone_type(element))),
        Type::Unit => Type::Unit,
    }
}

impl Clone for Type {
    fn clone(&self) -> (r: Self)
        ensures
            r@ == self@,
    {
        clone_type(self)
    }
}

impl Clone for LiteralValue {
    fn clone(&self) -> (r: Self)
        ensures
            r@ == self@,
    {
        match self {
            LiteralValue::Int(n) => LiteralValue::Int(*n),
            LiteralValue::Float(t) => LiteralValue::Float(t.clone()),
            LiteralValue::String(t) => LiteralValue::String(t.clone()),
            LiteralValue::Bool(b) => LiteralValue::Bool(*b),
        }
    }
}

/// A copy of a list of expressions.
fn clone_expressions(items: &Vec<Expression>) -> (r: Vec<Expression>)
    ensures
        expressions_view(r@) == expressions_view(items@),
    decreases items,
{
    let mut list: Vec<Expression> = Vec::new();
    let mut i: usize = 0;
    while i < items.len()
        invariant
            i <= items.len(),
            list.len() == i,
            forall|k: int| 0 <= k < i ==> list[k]@ == items[k]@,
        decreases items.len() - i,
    {
        proof {
            vstd::std_specs::vec::axiom_vec_index_decreases(*items, i as int);
        }
        list.push(clone_expression(&items[i]));
        i += 1;
    }
    assert(expressions_view(list@) =~= expressions_view(items@));
    list
}

/// A copy of the parts of an interpolated string.
fn clone_string_parts(items: &Vec<StringPart>) -> (r: Vec<StringPart>)
    ensures
        string_parts_view(r@) == string_parts_view(items@),
    decreases items,
{
    let mut list: Vec<StringPart> = Vec::new();
    let mut i: usize = 0;
    while i < items.len()
        invariant
            i <= items.len(),
            list.len() == i,
            forall|k: int| 0 <= k < i ==> list[k]@ == items[k]@,
        decreases items.len() - i,
    {
        proof {
            vstd::std_specs::vec::axiom_vec_index_decreases(*items, i as int);
        }
        let part = match &items[i] {
            StringPart::Text(t) => StringPart::Text(t.clone()),
            StringPart::Expression(e) => StringPart::Expression(Box::new(clone_expression(e))),
        };
        list.push(part);
        i += 1;
    }
    assert(string_parts_view(list@) =~= string_parts_view(items@));
    list
}

/// A copy of an expression.
fn clone_expression(e: &Expression) -> (r: Expression)
    ensures
        r@ == e@,
    decreases e,
{
    match e {
        Expression::Literal(v) => Expression::Literal(v.clone()),
        Expression::Identifier(name) => Expression::Identifier(name.clone()),
        Expression::BinaryOp { left, operator, right } => Expression::BinaryOp {
            left: Box::new(clone_expression(left)),
            operator: *operator,
            right: Box::new(clone_expression(right)),
        },
        Expression::UnaryOp { operator, operand } => Expression::UnaryOp {
            operator: *operator,
            operand: Box::new(clone_expression(operand)),
        },
        Expression::Assignment { target, value } => Expression::Assignment {
            target: Box::new(clone_expression(target)),
            value: Box::new(clone_expression(value)),
        },
        Expression::Call { callee, arguments } => {
            let function = Box::new(clone_expression(callee));
            let list = clone_expressions(arguments);
            proof {
                lemma_call_model(function, list);
                lemma_call_model(*callee, *arguments);
            }
            Expression::Call { callee: function, arguments: list }
        },
        Expression::Index { target, index } => Expression::Index {
            target: Box::new(clone_expression(target)),
            index: Box::new(clone_expression(index)),
        },
        Expression::MemberAccess { target, member } => Expression::MemberAccess {
            target: Box::new(clone_expression(target)),
            member: member.clone(),
        },
        Expression::Grouped(inner) => Expression::Grouped(Box::new(clone_expression(inner))),
        Expression::Array(elements) => {
            let list = clone_expressions(elements);
            proof {
                lemma_array_model(list);
                lemma_array_model(*elements);
            }
            Expression::Array(list)
        },
        Expression::InterpolatedString { parts } => {
            let list = clone_string_parts(parts);
            proof {
                lemma_string_parts_model(list);
                lemma_string_parts_model(*parts);
            }
            Expression::InterpolatedString { parts: list }
        },
    }
}

impl Clone for Expression {
    fn clone(&self) -> (r: Self)
        ensures
            r@ == self@,
    {
        clone_expression(self)
    }
}

impl Clone for StringPart {
    fn clone(&self) -> (r: Self)
        ensures
            r@ == self@,
    {
        match self {
            StringPart::Text(t) => StringPart::Text(t.clone()),
            StringPart::Expression(e) => StringPart::Expression(Box::new(clone_expression(e))),
        }
    }
}

/// A copy of an optional type.
fn clone_option_type(t: &Option<Type>) -> (r: Option<Type>)
    ensures
        option_type_view(r) == option_type_view(*t),
{
    match t {
        Some(t) => Some(clone_type(t)),
        None => None,
    }
}

/// A copy of an optional expression.
fn clone_option_expression(e: &Option<Expression>) -> (r: Option<Expression>)
    ensures
        option_expression_view(r) == option_expression_view(*e),
{
    match e {
        Some(e) => Some(clone_expression(e)),
        None => None,
    }
}

impl Clone for Parameter {
    fn clone(&self) -> (r: Self)
        ensures
            r@ == self@,
    {
        Parameter {
            name: self.name.clone(),
            type_annotation: clone_option_type(&self.type_annotation),
        }
    }
}

/// A copy of a list of parameters.
fn clone_parameters(items: &Vec<Parameter>) -> (r: Vec<Parameter>)
    ensures
        parameters_view(r@) == parameters_view(items@),
{
    let mut list: Vec<Parameter> = Vec::new();
    let mut i: usize = 0;
    while i < items.len()
        invariant
            i <= items.len(),
            list.len() == i,
            forall|k: int| 0 <= k < i ==> list[k]@ == items[k]@,
        decreases items.len() - i,
    {
        list.push(items[i].clone());
        i += 1;
    }
    assert(parameters_view(list@) =~= parameters_view(items@));
    list
}

/// A copy of a list of statements.
pub fn clone_statements(items: &Vec<Statement>) -> (r: Vec<Statement>)
    ensures
        statements_view(r@) == statements_view(items@),
    decreases items,
{
    let mut list: Vec<Statement> = Vec::new();
    let mut i: usize = 0;
    while i < items.len()
        invariant
            i <= items.len(),
            list.len() == i,
            forall|k: int| 0 <= k < i ==> list[k]@ == items[k]@,
        decreases items.len() - i,
    {
        proof {
            vstd::std_specs::vec::axiom_vec_index_decreases(*items, i as int);
        }
        list.push(clone_statement(&items[i]));
        i += 1;
    }
    assert(statements_view(list@) =~= statements_view(items@));
    list
}

/// A copy of a statement.
fn clone_statement(s: &Statement) -> (r: Statement)
    ensures
        r@ == s@,
    decreases s,
{
    match s {
        Statement::LetDeclaration { name, type_annotation, initializer } => {
            Statement::LetDeclaration {
                name: name.clone(),
                type_annotation: clone_option_type(type_annotation),
                initializer: clone_option_expression(initializer),
            }
        },
        Statement::FunctionDeclaration { name, parameters, return_type, body } => {
            let list = clone_statements(body);
            proof {
                lemma_statements_model(list);
                lemma_statements_model(*body);
            }
            Statement::FunctionDeclaration {
                name: name.clone(),
                parameters: clone_parameters(parameters),
                return_type: clone_option_type(return_type),
                body: list,
            }
        },
        Statement::Return(e) => Statement::Return(clone_option_expression(e)),
        Statement::If { condition, then_branch, else_branch } => {
            let then_list = clone_statements(then_branch);
            proof {
                lemma_statements_model(then_list);
                lemma_statements_model(*then_branch);
            }
            let else_list = match else_branch {
                Some(b) => {
                    let list = clone_statements(b);
                    proof {
                        lemma_statements_model(list);
                        lemma_statements_model(*b);
                    }
                    Some(list)
                },
                None => None,
            };
            Statement::If {
                condition: clone_expression(condition),
                then_branch: then_list,
                else_branch: else_list,
            }
        },
        Statement::While { condition, body } => {
            let list = clone_statements(body);
            proof {
                lemma_statements_model(list);
                lemma_statements_model(*body);
            }
            Statement::While { condition: clone_expression(condition), body: list }
        },
        Statement::For { initializer, condition, increment, body } => {
            let list = clone_statements(body);
            proof {
                lemma_statements_model(list);
                lemma_statements_model(*body);
            }
            let first = match initializer {
                Some(s) => Some(Box::new(clone_statement(s))),
                None => None,
            };
            Statement::For {
                initializer: first,
                condition: clone_option_expression(condition),
                increment: clone_option_expression(increment),
                body: list,
            }
        },
        Statement::Block(items) => {
            let list = clone_statements(items);
            proof {
                lemma_statements_model(list);
                lemma_statements_model(*items);
            }
            Statement::Block(list)
        },
        Statement::Expression(e) => Statement::Expression(clone_expression(e)),
        Statement::Break => Statement::Break,
        Statement::Continue => Statement::Continue,
    }
}

impl Clone for Statement {
    fn clone(&self) -> (r: Self)
        ensures
            r@ == self@,
    {
        clone_statement(self)
    }
}

impl Clone for Program {
    fn clone(&self) -> (r: Self)
        ensures
            statements_view(r.statements@) == statements_view(self.statements@),
    {
        Program { statements: clone_statements(&self.statements) }
    }
}

} // verus!
