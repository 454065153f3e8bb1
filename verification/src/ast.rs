//! The abstract syntax tree: statement and expression nodes as produced by
//! the parser, together with their mathematical models. The model types
//! (`SpecExpr`, `SpecStmt`, `SpecNode`) carry character sequences in place
//! of strings and sequences in place of vectors; `deep_expr` and its
//! companions map an executable node to its model.

use vstd::prelude::*;

verus! {

#[derive(Debug, PartialEq)]
pub enum StatementOrExpression {
    Statement(Statement),
    Expression(Expression),
}

#[derive(Debug, PartialEq)]
pub enum Statement {
    Program(Program),
    VariableDecleration(VariableDecleration),
    FunctionDecleration(FunctionDecleration),
    If(IfStatement),
}

#[derive(Debug, PartialEq)]
pub enum Expression {
    NumericLiteral(NumericLiteral),
    StringLiteral(StringLiteral),
    Identifier(Identifier),
    Binary(Binary),
    Assignment(Assignment),
    ObjectLiteral(ObjectLiteral),
    ArrayLiteral(ArrayLiteral),
    Member(MemberExpr),
    Call(CallExpr),
    FunctionLiteral(FunctionLiteral),
    Condition(Condition),
}

#[derive(Debug, PartialEq)]
pub struct Program {
    pub body: Vec<StatementOrExpression>,
}

#[derive(Debug, PartialEq)]
pub struct Binary {
    pub left: Box<Expression>,
    pub operator: String,
    pub right: Box<Expression>,
}

#[derive(Debug, PartialEq)]
pub struct Identifier {
    pub symbol: String,
}

/// A numeric literal. Numbers in this language are 64-bit integers.
#[derive(Debug, PartialEq)]
pub struct NumericLiteral {
    pub value: i64,
}

#[derive(Debug, PartialEq)]
pub struct StringLiteral {
    pub value: String,
}

#[derive(Debug, PartialEq)]
pub struct VariableDecleration {
    pub constant: bool,
    pub identifier: Identifier,
    pub value: Option<Expression>,
}

#[derive(Debug, PartialEq)]
pub struct FunctionDecleration {
    pub identifier: Identifier,
    pub params: Vec<Identifier>,
    pub body: Vec<StatementOrExpression>,
}

#[derive(Debug, PartialEq)]
pub struct IfStatement {
    pub test: Box<Expression>,
    pub consequent: Vec<StatementOrExpression>,
    pub alternate: Option<Vec<StatementOrExpression>>,
}

#[derive(Debug, PartialEq)]
pub struct Assignment {
    pub assignee: Box<Expression>,
    pub value: Box<Expression>,
}

#[derive(Debug, PartialEq)]
pub struct Property {
    pub key: String,
    pub value: Option<Box<Expression>>,
}

#[derive(Debug, PartialEq)]
pub struct ObjectLiteral {
    pub properties: Vec<Property>,
}

#[derive(Debug, PartialEq)]
pub struct ArrayLiteral {
    pub elements: Vec<Expression>,
}

#[derive(Debug, PartialEq)]
pub struct CallExpr {
    pub caller: Box<Expression>,
    pub arguments: Vec<Expression>,
}

#[derive(Debug, PartialEq)]
pub struct MemberExpr {
    pub object: Box<Expression>,
    pub property: Box<Expression>,
    pub computed: bool,
}

#[derive(Debug, PartialEq)]
pub struct FunctionLiteral {
    pub params: Vec<Identifier>,
    pub body: Vec<StatementOrExpression>,
}

#[derive(Debug, PartialEq)]
pub struct Condition {
    pub left: Box<Expression>,
    pub operator: String,
    pub right: Box<Expression>,
}

impl VariableDecleration {
    pub fn new(identifier: String, value: Option<Expression>, constant: bool) -> (r: Self)
        ensures
            r.constant == constant,
            r.identifier.symbol@ == identifier@,
            r.value == value,
    {
        VariableDecleration { constant, identifier: Identifier { symbol: identifier }, value }
    }
}

impl FunctionDecleration {
    pub fn new(identifier: String, params: Vec<String>, body: Vec<StatementOrExpression>) -> (r: Self)
        ensures
            r.identifier.symbol@ == identifier@,
            r.params@.len() == params@.len(),
            forall|i: int|
                0 <= i < params@.len() ==> (#[trigger] r.params@[i]).symbol@ == params@[i]@,
            r.body == body,
    {
        let mut idents: Vec<Identifier> = Vec::new();
        let mut i: usize = 0;
        while i < params.len()
            invariant
                0 <= i <= params@.len(),
                idents@.len() == i,
                forall|k: int|
                    0 <= k < i ==> (#[trigger] idents@[k]).symbol@ == params@[k]@,
            decreases params@.len() - i,
        {
            let s = params[i].clone();
            idents.push(Identifier { symbol: s });
            i = i + 1;
        }
        FunctionDecleration { identifier: Identifier { symbol: identifier }, params: idents, body }
    }

    pub fn get_name(&self) -> (r: String)
        ensures
            r@ == self.identifier.symbol@,
    {
        self.identifier.symbol.clone()
    }
}

impl Assignment {
    pub fn new(assignee: Expression, value: Expression) -> (r: Self)
        ensures
            *r.assignee == assignee,
            *r.value == value,
    {
        Assignment { assignee: Box::new(assignee), value: Box::new(value) }
    }
}

impl Property {
    pub fn new(key: String, value: Expression) -> (r: Self)
        ensures
            r.key@ == key@,
            r.value matches Some(b) && *b == value,
    {
        Property { key, value: Some(Box::new(value)) }
    }
}

impl ObjectLiteral {
    pub fn new(properties: Vec<Property>) -> (r: Self)
        ensures
            r.properties == properties,
    {
        ObjectLiteral { properties }
    }
}

impl ArrayLiteral {
    pub fn new(elements: Vec<Expression>) -> (r: Self)
        ensures
            r.elements == elements,
    {
        ArrayLiteral { elements }
    }
}

/// The model of an expression.
pub enum SpecExpr {
    NumLit(i64),
    StrLit(Seq<char>),
    Ident(Seq<char>),
    Bin { operator: Seq<char>, left: Box<SpecExpr>, right: Box<SpecExpr> },
    Assign { assignee: Box<SpecExpr>, value: Box<SpecExpr> },
    Object(Seq<SpecProp>),
    Array(Seq<SpecExpr>),
    Member { object: Box<SpecExpr>, property: Box<SpecExpr>, computed: bool },
    Call { caller: Box<SpecExpr>, arguments: Seq<SpecExpr> },
    FnLit { params: Seq<Seq<char>>, body: Seq<SpecNode> },
    Cond { operator: Seq<char>, left: Box<SpecExpr>, right: Box<SpecExpr> },
}

/// The model of one object-literal property; a missing value marks the
/// shorthand form, which looks the key up as a variable.
pub struct SpecProp {
    pub key: Seq<char>,
    pub value: Option<SpecExpr>,
}

/// The model of a statement.
pub enum SpecStmt {
    Prog(Seq<SpecNode>),
    VarDecl { constant: bool, name: Seq<char>, init: Option<SpecExpr> },
    FnDecl { name: Seq<char>, params: Seq<Seq<char>>, body: Seq<SpecNode> },
    Branch { test: Box<SpecExpr>, consequent: Seq<SpecNode>, alternate: Option<Seq<SpecNode>> },
}

/// The model of a node: a statement or an expression.
pub enum SpecNode {
    Stmt(SpecStmt),
    Expr(SpecExpr),
}

pub open spec fn deep_expr(e: Expression) -> SpecExpr
    decreases e,
{
    match e {
        Expression::NumericLiteral(n) => SpecExpr::NumLit(n.value),
        Expression::StringLiteral(s) => SpecExpr::StrLit(s.value@),
        Expression::Identifier(idn) => SpecExpr::Ident(idn.symbol@),
        Expression::Binary(b) => SpecExpr::Bin {
            operator: b.operator@,
            left: Box::new(deep_expr(*b.left)),
            right: Box::new(deep_expr(*b.right)),
        },
        Expression::Assignment(a) => SpecExpr::Assign {
            assignee: Box::new(deep_expr(*a.assignee)),
            value: Box::new(deep_expr(*a.value)),
        },
        Expression::ObjectLiteral(o) => SpecExpr::Object(deep_props(o.properties@)),
        Expression::ArrayLiteral(a) => SpecExpr::Array(deep_exprs(a.elements@)),
        Expression::Member(m) => SpecExpr::Member {
            object: Box::new(deep_expr(*m.object)),
            property: Box::new(deep_expr(*m.property)),
            computed: m.computed,
        },
        Expression::Call(c) => SpecExpr::Call {
            caller: Box::new(deep_expr(*c.caller)),
            arguments: deep_exprs(c.arguments@),
        },
        Expression::FunctionLiteral(f) => SpecExpr::FnLit {
            params: deep_params(f.params@),
            body: deep_nodes(f.body@),
        },
        Expression::Condition(c) => SpecExpr::Cond {
            operator: c.operator@,
            left: Box::new(deep_expr(*c.left)),
            right: Box::new(deep_expr(*c.right)),
        },
    }
}

pub open spec fn deep_prop(p: Property) -> SpecProp
    decreases p,
{
    SpecProp {
        key: p.key@,
        value: match p.value {
            Some(b) => Some(deep_expr(*b)),
            None => None,
        },
    }
}

pub open spec fn deep_props(v: Seq<Property>) -> Seq<SpecProp>
    decreases v,
{
    if v.len() == 0 {
        Seq::empty()
    } else {
        deep_props(v.drop_last()).push(deep_prop(v.last()))
    }
}

pub open spec fn deep_exprs(v: Seq<Expression>) -> Seq<SpecExpr>
    decreases v,
{
    if v.len() == 0 {
        Seq::empty()
    } else {
        deep_exprs(v.drop_last()).push(deep_expr(v.last()))
    }
}

pub open spec fn deep_params(v: Seq<Identifier>) -> Seq<Seq<char>>
    decreases v,
{
    if v.len() == 0 {
        Seq::empty()
    } else {
        deep_params(v.drop_last()).push(v.last().symbol@)
    }
}

pub open spec fn deep_stmt(s: Statement) -> SpecStmt
    decreases s,
{
    match s {
        Statement::Program(p) => SpecStmt::Prog(deep_nodes(p.body@)),
        Statement::VariableDecleration(v) => SpecStmt::VarDecl {
            constant: v.constant,
            name: v.identifier.symbol@,
            init: match v.value {
                Some(e) => Some(deep_expr(e)),
                None => None,
            },
        },
        Statement::FunctionDecleration(f) => SpecStmt::FnDecl {
            name: f.identifier.symbol@,
            params: deep_params(f.params@),
            body: deep_nodes(f.body@),
        },
        Statement::If(c) => SpecStmt::Branch {
            test: Box::new(deep_expr(*c.test)),
            consequent: deep_nodes(c.consequent@),
            alternate: match c.alternate {
                Some(v) => Some(deep_nodes(v@)),
                None => None,
            },
        },
    }
}

pub open spec fn deep_node(n: StatementOrExpression) -> SpecNode
    decreases n,
{
    match n {
        StatementOrExpression::Statement(s) => SpecNode::Stmt(deep_stmt(s)),
        StatementOrExpression::Expression(e) => SpecNode::Expr(deep_expr(e)),
    }
}

pub open spec fn deep_nodes(v: Seq<StatementOrExpression>) -> Seq<SpecNode>
    decreases v,
{
    if v.len() == 0 {
        Seq::empty()
    } else {
        deep_nodes(v.drop_last()).push(deep_node(v.last()))
    }
}

pub proof fn lemma_deep_nodes_index(v: Seq<StatementOrExpression>)
    ensures
        deep_nodes(v).len() == v.len(),
        forall|i: int| 0 <= i < v.len() ==> #[trigger] deep_nodes(v)[i] == deep_node(v[i]),
    decreases v,
{
    if v.len() > 0 {
        lemma_deep_nodes_index(v.drop_last());
    }
}

pub proof fn lemma_deep_nodes_push(v: Seq<StatementOrExpression>, n: StatementOrExpression)
    ensures
        deep_nodes(v.push(n)) == deep_nodes(v).push(deep_node(n)),
{
    assert(v.push(n).drop_last() =~= v);
}

pub proof fn lemma_deep_exprs_index(v: Seq<Expression>)
    ensures
        deep_exprs(v).len() == v.len(),
        forall|i: int| 0 <= i < v.len() ==> #[trigger] deep_exprs(v)[i] == deep_expr(v[i]),
    decreases v,
{
    if v.len() > 0 {
        lemma_deep_exprs_index(v.drop_last());
    }
}

pub proof fn lemma_deep_exprs_push(v: Seq<Expression>, e: Expression)
    ensures
        deep_exprs(v.push(e)) == deep_exprs(v).push(deep_expr(e)),
{
    assert(v.push(e).drop_last() =~= v);
}

pub proof fn lemma_deep_props_index(v: Seq<Property>)
    ensures
        deep_props(v).len() == v.len(),
        forall|i: int| 0 <= i < v.len() ==> #[trigger] deep_props(v)[i] == deep_prop(v[i]),
    decreases v,
{
    if v.len() > 0 {
        lemma_deep_props_index(v.drop_last());
    }
}

pub proof fn lemma_deep_props_push(v: Seq<Property>, p: Property)
    ensures
        deep_props(v.push(p)) == deep_props(v).push(deep_prop(p)),
{
    assert(v.push(p).drop_last() =~= v);
}

pub proof fn lemma_deep_params_index(v: Seq<Identifier>)
    ensures
        deep_params(v).len() == v.len(),
        forall|i: int| 0 <= i < v.len() ==> #[trigger] deep_params(v)[i] == v[i].symbol@,
    decreases v,
{
    if v.len() > 0 {
        lemma_deep_params_index(v.drop_last());
    }
}

pub proof fn lemma_deep_params_push(v: Seq<Identifier>, p: Identifier)
    ensures
        deep_params(v.push(p)) == deep_params(v).push(p.symbol@),
{
    assert(v.push(p).drop_last() =~= v);
}

/// A deep copy of an expression, equal to the original in the model.
pub fn clone_expr(e: &Expression) -> (r: Expression)
    ensures
        deep_expr(r) == deep_expr(*e),
    decreases *e,
{
    match e {
        Expression::NumericLiteral(n) => Expression::NumericLiteral(NumericLiteral { value: n.value }),
        Expression::StringLiteral(s) => Expression::StringLiteral(
            StringLiteral { value: s.value.clone() },
        ),
        Expression::Identifier(idn) => Expression::Identifier(
            Identifier { symbol: idn.symbol.clone() },
        ),
        Expression::Binary(b) => Expression::Binary(
            Binary {
                left: Box::new(clone_expr(&*b.left)),
                operator: b.operator.clone(),
                right: Box::new(clone_expr(&*b.right)),
            },
        ),
        Expression::Assignment(a) => Expression::Assignment(
            Assignment {
                assignee: Box::new(clone_expr(&*a.assignee)),
                value: Box::new(clone_expr(&*a.value)),
            },
        ),
        Expression::ObjectLiteral(o) => Expression::ObjectLiteral(
            ObjectLiteral { properties: clone_props(&o.properties) },
        ),
        Expression::ArrayLiteral(a) => Expression::ArrayLiteral(
            ArrayLiteral { elements: clone_exprs(&a.elements) },
        ),
        Expression::Member(m) => Expression::Member(
            MemberExpr {
                object: Box::new(clone_expr(&*m.object)),
                property: Box::new(clone_expr(&*m.property)),
                computed: m.computed,
            },
        ),
        Expression::Call(c) => Expression::Call(
            CallExpr {
                caller: Box::new(clone_expr(&*c.caller)),
                arguments: clone_exprs(&c.arguments),
            },
        ),
        Expression::FunctionLiteral(f) => Expression::FunctionLiteral(
            FunctionLiteral { params: clone_idents(&f.params), body: clone_nodes(&f.body) },
        ),
        Expression::Condition(c) => Expression::Condition(
            Condition {
                left: Box::new(clone_expr(&*c.left)),
                operator: c.operator.clone(),
                right: Box::new(clone_expr(&*c.right)),
            },
        ),
    }
}

pub fn clone_props(v: &Vec<Property>) -> (r: Vec<Property>)
    ensures
        deep_props(r@) == deep_props(v@),
    decreases v@,
{
    let mut r: Vec<Property> = Vec::new();
    let mut i: usize = 0;
    proof {
        lemma_deep_props_index(v@);
    }
    while i < v.len()
        invariant
            0 <= i <= v@.len(),
            r@.len() == i,
            deep_props(v@).len() == v@.len(),
            forall|k: int| 0 <= k < v@.len() ==> #[trigger] deep_props(v@)[k] == deep_prop(v@[k]),
            deep_props(r@) == deep_props(v@).take(i as int),
        decreases v@.len() - i,
    {
        let p = &v[i];
        let cp = Property {
            key: p.key.clone(),
            value: match &p.value {
                Some(b) => Some(Box::new(clone_expr(&**b))),
                None => None,
            },
        };
        proof {
            lemma_deep_props_push(r@, cp);
            assert(deep_props(v@).take(i as int + 1) =~= deep_props(v@).take(i as int).push(
                deep_props(v@)[i as int],
            ));
        }
        r.push(cp);
        i = i + 1;
    }
    proof {
        assert(deep_props(v@).take(v@.len() as int) =~= deep_props(v@));
    }
    r
}

pub fn clone_exprs(v: &Vec<Expression>) -> (r: Vec<Expression>)
    ensures
        deep_exprs(r@) == deep_exprs(v@),
    decreases v@,
{
    let mut r: Vec<Expression> = Vec::new();
    let mut i: usize = 0;
    proof {
        lemma_deep_exprs_index(v@);
    }
    while i < v.len()
        invariant
            0 <= i <= v@.len(),
            r@.len() == i,
            deep_exprs(v@).len() == v@.len(),
            forall|k: int| 0 <= k < v@.len() ==> #[trigger] deep_exprs(v@)[k] == deep_expr(v@[k]),
            deep_exprs(r@) == deep_exprs(v@).take(i as int),
        decreases v@.len() - i,
    {
        let ce = clone_expr(&v[i]);
        proof {
            lemma_deep_exprs_push(r@, ce);
            assert(deep_exprs(v@).take(i as int + 1) =~= deep_exprs(v@).take(i as int).push(
                deep_exprs(v@)[i as int],
            ));
        }
        r.push(ce);
        i = i + 1;
    }
    proof {
        assert(deep_exprs(v@).take(v@.len() as int) =~= deep_exprs(v@));
    }
    r
}

pub fn clone_idents(v: &Vec<Identifier>) -> (r: Vec<Identifier>)
    ensures
        deep_params(r@) == deep_params(v@),
{
    let mut r: Vec<Identifier> = Vec::new();
    let mut i: usize = 0;
    proof {
        lemma_deep_params_index(v@);
    }
    while i < v.len()
        invariant
            0 <= i <= v@.len(),
            r@.len() == i,
            deep_params(v@).len() == v@.len(),
            forall|k: int| 0 <= k < v@.len() ==> #[trigger] deep_params(v@)[k] == v@[k].symbol@,
            deep_params(r@) == deep_params(v@).take(i as int),
        decreases v@.len() - i,
    {
        let ci = Identifier { symbol: v[i].symbol.clone() };
        proof {
            lemma_deep_params_push(r@, ci);
            assert(deep_params(v@).take(i as int + 1) =~= deep_params(v@).take(i as int).push(
                deep_params(v@)[i as int],
            ));
        }
        r.push(ci);
        i = i + 1;
    }
    proof {
        assert(deep_params(v@).take(v@.len() as int) =~= deep_params(v@));
    }
    r
}

pub fn clone_stmt(s: &Statement) -> (r: Statement)
    ensures
        deep_stmt(r) == deep_stmt(*s),
    decreases *s,
{
    match s {
        Statement::Program(p) => Statement::Program(Program { body: clone_nodes(&p.body) }),
        Statement::VariableDecleration(v) => Statement::VariableDecleration(
            VariableDecleration {
                constant: v.constant,
                identifier: Identifier { symbol: v.identifier.symbol.clone() },
                value: match &v.value {
                    Some(e) => Some(clone_expr(e)),
                    None => None,
                },
            },
        ),
        Statement::FunctionDecleration(f) => Statement::FunctionDecleration(
            FunctionDecleration {
                identifier: Identifier { symbol: f.identifier.symbol.clone() },
                params: clone_idents(&f.params),
                body: clone_nodes(&f.body),
            },
        ),
        Statement::If(c) => Statement::If(
            IfStatement {
                test: Box::new(clone_expr(&*c.test)),
                consequent: clone_nodes(&c.consequent),
                alternate: match &c.alternate {
                    Some(v) => Some(clone_nodes(v)),
                    None => None,
                },
            },
        ),
    }
}

pub fn clone_node(n: &StatementOrExpression) -> (r: StatementOrExpression)
    ensures
        deep_node(r) == deep_node(*n),
    decreases *n,
{
    match n {
        StatementOrExpression::Statement(s) => StatementOrExpression::Statement(clone_stmt(s)),
        StatementOrExpression::Expression(e) => StatementOrExpression::Expression(clone_expr(e)),
    }
}

pub fn clone_nodes(v: &Vec<StatementOrExpression>) -> (r: Vec<StatementOrExpression>)
    ensures
        deep_nodes(r@) == deep_nodes(v@),
    decreases v@,
{
    let mut r: Vec<StatementOrExpression> = Vec::new();
    let mut i: usize = 0;
    proof {
        lemma_deep_nodes_index(v@);
    }
    while i < v.len()
        invariant
            0 <= i <= v@.len(),
            r@.len() == i,
            deep_nodes(v@).len() == v@.len(),
            forall|k: int| 0 <= k < v@.len() ==> #[trigger] deep_nodes(v@)[k] == deep_node(v@[k]),
            deep_nodes(r@) == deep_nodes(v@).take(i as int),
        decreases v@.len() - i,
    {
        let cn = clone_node(&v[i]);
        proof {
            lemma_deep_nodes_push(r@, cn);
            assert(deep_nodes(v@).take(i as int + 1) =~= deep_nodes(v@).take(i as int).push(
                deep_nodes(v@)[i as int],
            ));
        }
        r.push(cn);
        i = i + 1;
    }
    proof {
        assert(deep_nodes(v@).take(v@.len() as int) =~= deep_nodes(v@));
    }
    r
}

} // verus!
