//! The syntax tree: return types, expression nodes, function headers,
//! statements and programs, each with its mathematical value.

use crate::compiler::environment::{Environment, EnvironmentView};
use crate::compiler::error::ParseError;
use crate::compiler::token::{Token, TokenView};
use crate::text::{decimal_text, push_decimal};
use vstd::prelude::*;

verus! {

/// The static type tag of a node. Declared types and the types of literal
/// values share this one representation.
#[derive(Debug, PartialEq, Eq, Clone, Copy, Structural)]
pub enum ReturnType {
    ReturnVoid,
    ReturnBool,
    ReturnString,
    ReturnFloat,
    ReturnInteger,
    ReturnCollection,
    ReturnStruct,
    ReturnInvalid,
    ReturnArguments,
    ReturnContinue,
    ReturnFunction,
    ReturnFunctionHeader,
    ReturnBlock,
    ReturnEOF,
}

/// The type that a token denotes. A literal and the keyword of its type give
/// the same result; a token that denotes no type gives `ReturnInvalid`.
pub open spec fn token_type(tok: TokenView) -> ReturnType {
    match tok {
        TokenView::VoidDecl => ReturnType::ReturnVoid,
        TokenView::BooleanDecl | TokenView::BooleanLiteral(_) => ReturnType::ReturnBool,
        TokenView::IntegerDecl | TokenView::IntegerLiteral(_) => ReturnType::ReturnInteger,
        TokenView::StringDecl | TokenView::StringLiteral(_) => ReturnType::ReturnString,
        TokenView::FloatDecl | TokenView::FloatLiteral(_) => ReturnType::ReturnFloat,
        TokenView::CollectionDecl => ReturnType::ReturnCollection,
        TokenView::StructDecl => ReturnType::ReturnStruct,
        TokenView::RightParenthesis => ReturnType::ReturnArguments,
        TokenView::Comma => ReturnType::ReturnContinue,
        TokenView::EOF => ReturnType::ReturnEOF,
        _ => ReturnType::ReturnInvalid,
    }
}

impl ReturnType {
    /// The type that `tok` denotes, without taking the token.
    pub fn of(tok: &Token) -> (rt: ReturnType)
        ensures
            rt == token_type(tok@),
    {
        match tok {
            Token::VoidDecl => ReturnType::ReturnVoid,
            Token::BooleanDecl | Token::BooleanLiteral(_) => ReturnType::ReturnBool,
            Token::IntegerDecl | Token::IntegerLiteral(_) => ReturnType::ReturnInteger,
            Token::StringDecl | Token::StringLiteral(_) => ReturnType::ReturnString,
            Token::FloatDecl | Token::FloatLiteral(_) => ReturnType::ReturnFloat,
            Token::CollectionDecl => ReturnType::ReturnCollection,
            Token::StructDecl => ReturnType::ReturnStruct,
            Token::RightParenthesis => ReturnType::ReturnArguments,
            Token::Comma => ReturnType::ReturnContinue,
            Token::EOF => ReturnType::ReturnEOF,
            _ => ReturnType::ReturnInvalid,
        }
    }
}

impl From<Token> for ReturnType {
    fn from(tok: Token) -> (rt: ReturnType) {
        ReturnType::of(&tok)
    }
}

impl vstd::std_specs::convert::FromSpecImpl<Token> for ReturnType {
    open spec fn obeys_from_spec() -> bool {
        true
    }

    open spec fn from_spec(tok: Token) -> ReturnType {
        token_type(tok@)
    }
}

/// One formal argument of a function: its type and its name.
#[derive(Debug)]
pub struct Argument {
    pub return_type: ReturnType,
    pub ident: String,
}

pub struct ArgumentView {
    pub return_type: ReturnType,
    pub ident: Seq<char>,
}

impl View for Argument {
    type V = ArgumentView;

    open spec fn view(&self) -> ArgumentView {
        ArgumentView { return_type: self.return_type, ident: self.ident@ }
    }
}

impl Argument {
    pub fn new(r_t: ReturnType, id: String) -> (a: Argument)
        ensures
            a@ == (ArgumentView { return_type: r_t, ident: id@ }),
    {
        Argument { return_type: r_t, ident: id }
    }
}

impl Clone for Argument {
    fn clone(&self) -> (r: Self)
        ensures
            r@ == self@,
    {
        Argument { return_type: self.return_type, ident: self.ident.clone() }
    }
}

/// The values of a sequence of arguments, in order.
pub open spec fn argument_views(args: Seq<Argument>) -> Seq<ArgumentView> {
    Seq::new(args.len(), |i: int| args[i]@)
}

/// A function's name, return type and ordered arguments. Argument names
/// need not differ from one another.
#[derive(Debug)]
pub struct FunctionHeader {
    pub name: String,
    pub return_type: ReturnType,
    pub args: Vec<Argument>,
}

pub struct FunctionHeaderView {
    pub name: Seq<char>,
    pub return_type: ReturnType,
    pub args: Seq<ArgumentView>,
}

impl View for FunctionHeader {
    type V = FunctionHeaderView;

    open spec fn view(&self) -> FunctionHeaderView {
        FunctionHeaderView {
            name: self.name@,
            return_type: self.return_type,
            args: argument_views(self.args@),
        }
    }
}

impl FunctionHeader {
    pub fn new(n: String, rt: ReturnType, a: Vec<Argument>) -> (h: FunctionHeader)
        ensures
            h@ == (FunctionHeaderView { name: n@, return_type: rt, args: argument_views(a@) }),
    {
        FunctionHeader { name: n, return_type: rt, args: a }
    }
}

impl Clone for FunctionHeader {
    fn clone(&self) -> (r: Self)
        ensures
            r@ == self@,
    {
        let mut args: Vec<Argument> = Vec::new();
        let mut i: usize = 0;
        while i < self.args.len()
            invariant
                i <= self.args.len(),
                args.len() == i,
                forall|j: int| 0 <= j < i ==> args@[j]@ == self.args@[j]@,
            decreases self.args.len() - i,
        {
            args.push(self.args[i].clone());
            i += 1;
        }
        assert(argument_views(args@) =~= argument_views(self.args@));
        FunctionHeader { name: self.name.clone(), return_type: self.return_type, args }
    }
}

/// A function: its header and its body.
#[derive(Debug)]
pub struct Function {
    pub header: FunctionHeader,
    pub body: Box<Expression>,
}

pub struct FunctionView {
    pub header: FunctionHeaderView,
    pub body: Box<ExpressionView>,
}

/// A node of the syntax tree: an id, what the node is, and its static type.
#[derive(Debug)]
pub struct Expression {
    pub id: u32,
    pub expression_type: ExpressionType,
    pub return_type: ReturnType,
}

#[derive(Debug)]
pub enum ExpressionType {
    Literal(Token),
    /// A name bound in a scope, with the node bound to it.
    LiteralExpression(String, Box<Expression>),
    AssignmentExpression(String, Box<Expression>),
    PrintExpression(String),
    BlockExpression(Vec<Expression>),
    VarExpression(Box<Expression>),
    ConstExpression(Box<Expression>),
    UnaryExpression(Token, Box<Expression>),
    BinaryExpression(Token, Box<Expression>, Box<Expression>),
    ConditionalExpression(Box<Expression>, Box<Expression>),
    LoopExpression(Box<Expression>),
    FunctionExpression(Box<Function>),
    FunctionHeaderExpression(FunctionHeader),
}

pub struct ExpressionView {
    pub id: nat,
    pub expression_type: ExpressionTypeView,
    pub return_type: ReturnType,
}

pub enum ExpressionTypeView {
    Literal(TokenView),
    LiteralExpression(Seq<char>, Box<ExpressionView>),
    AssignmentExpression(Seq<char>, Box<ExpressionView>),
    PrintExpression(Seq<char>),
    BlockExpression(Seq<ExpressionView>),
    VarExpression(Box<ExpressionView>),
    ConstExpression(Box<ExpressionView>),
    UnaryExpression(TokenView, Box<ExpressionView>),
    BinaryExpression(TokenView, Box<ExpressionView>, Box<ExpressionView>),
    ConditionalExpression(Box<ExpressionView>, Box<ExpressionView>),
    LoopExpression(Box<ExpressionView>),
    FunctionExpression(Box<FunctionView>),
    FunctionHeaderExpression(FunctionHeaderView),
}

/// The values of a sequence of nodes, in order.
pub open spec fn expression_views(nodes: Seq<Expression>) -> Seq<ExpressionView> {
    Seq::new(nodes.len(), |i: int| nodes[i]@)
}

impl Function {
    pub open spec fn model(self) -> FunctionView
        decreases self,
    {
        FunctionView { header: self.header@, body: Box::new(self.body.model()) }
    }
}

impl View for Function {
    type V = FunctionView;

    open spec fn view(&self) -> FunctionView {
        self.model()
    }
}

impl Expression {
    pub open spec fn model(self) -> ExpressionView
        decreases self,
    {
        ExpressionView {
            id: self.id as nat,
            expression_type: match self.expression_type {
                ExpressionType::Literal(t) => ExpressionTypeView::Literal(t@),
                ExpressionType::LiteralExpression(name, e) => ExpressionTypeView::LiteralExpression(
                    name@,
                    Box::new(e.model()),
                ),
                ExpressionType::AssignmentExpression(name, e) => ExpressionTypeView::AssignmentExpression(
                    name@,
                    Box::new(e.model()),
                ),
                ExpressionType::PrintExpression(text) => ExpressionTypeView::PrintExpression(text@),
                ExpressionType::BlockExpression(nodes) => ExpressionTypeView::BlockExpression(
                    Seq::new(
                        nodes@.len(),
                        |i: int|
                            if 0 <= i < nodes@.len() {
                                nodes@[i].model()
                            } else {
                                arbitrary()
                            },
                    ),
                ),
                ExpressionType::VarExpression(e) => ExpressionTypeView::VarExpression(
                    Box::new(e.model()),
                ),
                ExpressionType::ConstExpression(e) => ExpressionTypeView::ConstExpression(
                    Box::new(e.model()),
                ),
                ExpressionType::UnaryExpression(t, e) => ExpressionTypeView::UnaryExpression(
                    t@,
                    Box::new(e.model()),
                ),
                ExpressionType::BinaryExpression(t, l, r) => ExpressionTypeView::BinaryExpression(
                    t@,
                    Box::new(l.model()),
                    Box::new(r.model()),
                ),
                ExpressionType::ConditionalExpression(c, e) => ExpressionTypeView::ConditionalExpression(
                    Box::new(c.model()),
                    Box::new(e.model()),
                ),
                ExpressionType::LoopExpression(e) => ExpressionTypeView::LoopExpression(
                    Box::new(e.model()),
                ),
                ExpressionType::FunctionExpression(f) => ExpressionTypeView::FunctionExpression(
                    Box::new(f.model()),
                ),
                ExpressionType::FunctionHeaderExpression(h) => ExpressionTypeView::FunctionHeaderExpression(
                    h@,
                ),
            },
            return_type: self.return_type,
        }
    }
}

impl View for Expression {
    type V = ExpressionView;

    open spec fn view(&self) -> ExpressionView {
        self.model()
    }
}

impl Expression {
    pub fn new(ident: u32, t: ExpressionType, rt: ReturnType) -> (e: Expression)
        ensures
            e == (Expression { id: ident, expression_type: t, return_type: rt }),
    {
        Expression { id: ident, expression_type: t, return_type: rt }
    }

    /// The node in words: `Expr: ` and its id.
    pub fn to_string(&self) -> (text: String)
        ensures
            text@ == "Expr: "@ + decimal_text(self.id as nat),
    {
        let mut ret = "Expr: ".to_owned();
        push_decimal(&mut ret, self.id);
        ret
    }

    /// The value of a block node lists the values of its members.
    pub proof fn lemma_block_view(self)
        requires
            self.expression_type is BlockExpression,
        ensures
            self@.expression_type == ExpressionTypeView::BlockExpression(
                expression_views(self.expression_type->BlockExpression_0@),
            ),
    {
        assert(self@.expression_type->BlockExpression_0 =~= expression_views(
            self.expression_type->BlockExpression_0@,
        ));
    }
}

impl Clone for Function {
    fn clone(&self) -> (r: Self)
        ensures
            r@ == self@,
        decreases self,
    {
        Function { header: self.header.clone(), body: Box::new((*self.body).clone()) }
    }
}

impl Clone for Expression {
    fn clone(&self) -> (r: Self)
        ensures
            r@ == self@,
        decreases self,
    {
        let expression_type = match &self.expression_type {
            ExpressionType::Literal(t) => ExpressionType::Literal(t.clone()),
            ExpressionType::LiteralExpression(name, e) => ExpressionType::LiteralExpression(
                name.clone(),
                Box::new((**e).clone()),
            ),
            ExpressionType::AssignmentExpression(name, e) => ExpressionType::AssignmentExpression(
                name.clone(),
                Box::new((**e).clone()),
            ),
            ExpressionType::PrintExpression(text) => ExpressionType::PrintExpression(text.clone()),
            ExpressionType::BlockExpression(nodes) => {
                let mut copies: Vec<Expression> = Vec::new();
                let mut i: usize = 0;
                while i < nodes.len()
                    invariant
                        i <= nodes.len(),
                        copies.len() == i,
                        self.expression_type == ExpressionType::BlockExpression(*nodes),
                        forall|j: int| 0 <= j < i ==> copies@[j]@ == nodes@[j]@,
                    decreases nodes.len() - i,
                {
                    assert(self.expression_type->BlockExpression_0 == *nodes);
                    assert(decreases_to!(*nodes => nodes[i as int]));
                    copies.push(nodes[i].clone());
                    i += 1;
                }
                assert(expression_views(copies@) =~= expression_views(nodes@));
                ExpressionType::BlockExpression(copies)
            },
            ExpressionType::VarExpression(e) => ExpressionType::VarExpression(
                Box::new((**e).clone()),
            ),
            ExpressionType::ConstExpression(e) => ExpressionType::ConstExpression(
                Box::new((**e).clone()),
            ),
            ExpressionType::UnaryExpression(t, e) => ExpressionType::UnaryExpression(
                t.clone(),
                Box::new((**e).clone()),
            ),
            ExpressionType::BinaryExpression(t, l, r) => ExpressionType::BinaryExpression(
                t.clone(),
                Box::new((**l).clone()),
                Box::new((**r).clone()),
            ),
            ExpressionType::ConditionalExpression(c, e) => ExpressionType::ConditionalExpression(
                Box::new((**c).clone()),
                Box::new((**e).clone()),
            ),
            ExpressionType::LoopExpression(e) => ExpressionType::LoopExpression(
                Box::new((**e).clone()),
            ),
            ExpressionType::FunctionExpression(f) => ExpressionType::FunctionExpression(
                Box::new((**f).clone()),
            ),
            ExpressionType::FunctionHeaderExpression(h) => ExpressionType::FunctionHeaderExpression(
                h.clone(),
            ),
        };
        let r = Expression { id: self.id, expression_type, return_type: self.return_type };
        proof {
            if self.expression_type is BlockExpression {
                self.lemma_block_view();
                r.lemma_block_view();
            }
        }
        r
    }
}

/// How a rule of the grammar, or an operation on a scope, ended.
#[derive(Debug)]
pub enum ParseResult {
    Success(Expression),
    Failed(ParseError),
}

pub enum ParseResultView {
    Success(ExpressionView),
    Failed(ParseError),
}

impl View for ParseResult {
    type V = ParseResultView;

    open spec fn view(&self) -> ParseResultView {
        match self {
            ParseResult::Success(e) => ParseResultView::Success(e@),
            ParseResult::Failed(err) => ParseResultView::Failed(*err),
        }
    }
}

impl Clone for ParseResult {
    fn clone(&self) -> (r: Self)
        ensures
            r@ == self@,
    {
        match self {
            ParseResult::Success(e) => ParseResult::Success(e.clone()),
            ParseResult::Failed(err) => ParseResult::Failed(*err),
        }
    }
}

/// One statement of a program.
#[derive(Debug)]
pub struct Statement {
    pub expr: Expression,
}

impl View for Statement {
    type V = ExpressionView;

    open spec fn view(&self) -> ExpressionView {
        self.expr@
    }
}

impl Statement {
    pub fn new(ex: Expression) -> (s: Statement)
        ensures
            s.expr == ex,
    {
        Statement { expr: ex }
    }
}

impl Clone for Statement {
    fn clone(&self) -> (r: Self)
        ensures
            r@ == self@,
    {
        Statement { expr: self.expr.clone() }
    }
}

/// The values of a sequence of statements, in order.
pub open spec fn statement_views(statements: Seq<Statement>) -> Seq<ExpressionView> {
    Seq::new(statements.len(), |i: int| statements[i]@)
}

/// A parsed program: its statements in source order, a node counter, and
/// the root scope.
#[derive(Debug)]
pub struct AstProgram {
    pub statements: Vec<Statement>,
    pub node_count: u32,
    pub env: Environment,
}

pub struct AstProgramView {
    pub statements: Seq<ExpressionView>,
    pub node_count: nat,
    pub env: EnvironmentView,
}

impl AstProgramView {
    /// The program without statements, with an empty root scope.
    pub open spec fn empty() -> AstProgramView {
        AstProgramView {
            statements: Seq::empty(),
            node_count: 0,
            env: EnvironmentView::empty(),
        }
    }
}

impl View for AstProgram {
    type V = AstProgramView;

    open spec fn view(&self) -> AstProgramView {
        AstProgramView {
            statements: statement_views(self.statements@),
            node_count: self.node_count as nat,
            env: self.env@,
        }
    }
}

impl AstProgram {
    pub fn new() -> (program: AstProgram)
        ensures
            program@ == AstProgramView::empty(),
    {
        let program = AstProgram { statements: Vec::new(), node_count: 0, env: Environment::new() };
        assert(program@.statements =~= Seq::empty());
        program
    }
}

impl Clone for AstProgram {
    fn clone(&self) -> (r: Self)
        ensures
            r@ == self@,
    {
        let mut statements: Vec<Statement> = Vec::new();
        let mut i: usize = 0;
        while i < self.statements.len()
            invariant
                i <= self.statements.len(),
                statements.len() == i,
                forall|j: int| 0 <= j < i ==> statements@[j]@ == self.statements@[j]@,
            decreases self.statements.len() - i,
        {
            statements.push(self.statements[i].clone());
            i += 1;
        }
        assert(statement_views(statements@) =~= statement_views(self.statements@));
        AstProgram { statements, node_count: self.node_count, env: self.env.clone() }
    }
}

} // verus!
