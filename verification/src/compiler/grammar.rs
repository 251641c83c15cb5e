//! The grammar, as functions on the state of a parse.
//!
//! A rule takes the state before it and gives its result together with the
//! state after it. The unconsumed tokens are held as a stack whose last
//! element is the next token, so that a rule consumes from the end.
//!
//! Where a rule goes on with what an earlier rule left of the tokens, the
//! definition asks first that the earlier rule has not handed back more
//! tokens than it was given. This only serves to show that the definitions
//! are well founded: the module `progress` proves of every rule that the
//! question is always answered with yes.

use crate::compiler::ast::{
    ArgumentView, AstProgramView, ExpressionTypeView, ExpressionView, FunctionHeaderView,
    ParseResultView, ReturnType, token_type,
};
use crate::compiler::environment::EnvironmentView;
use crate::compiler::error::ParseError;
use crate::compiler::token::TokenView;
use vstd::prelude::*;

verus! {

/// The levels of binary operators, from the loosest to the tightest. All of
/// them associate to the left.
#[derive(Debug, PartialEq, Eq, Clone, Copy, Structural)]
pub enum Level {
    /// `==` and `!=`
    Equality,
    /// `<`, `>`, `<=` and `>=`
    Comparison,
    /// `+` and `-`
    Additive,
    /// `*` and `/`
    Multiplicative,
}

impl Level {
    /// Whether `tok` is an operator of this level.
    pub open spec fn has(self, tok: TokenView) -> bool {
        match self {
            Level::Equality => tok is Equality || tok is NotEquality,
            Level::Comparison => tok is GreaterThan || tok is LessThan || tok is LessThanEqual
                || tok is GreaterThanEqual,
            Level::Additive => tok is Add || tok is Subtract,
            Level::Multiplicative => tok is Multiply || tok is Divide,
        }
    }

    /// How tightly the level binds: 0 for the loosest.
    pub open spec fn strength(self) -> nat {
        match self {
            Level::Equality => 0,
            Level::Comparison => 1,
            Level::Additive => 2,
            Level::Multiplicative => 3,
        }
    }

    /// The level that binds next tighter; the tightest level gives itself.
    pub open spec fn tighter(self) -> Level {
        match self {
            Level::Equality => Level::Comparison,
            Level::Comparison => Level::Additive,
            Level::Additive => Level::Multiplicative,
            Level::Multiplicative => Level::Multiplicative,
        }
    }
}

/// Whether `tok` can stand for itself as a leaf of an expression.
pub open spec fn is_literal(tok: TokenView) -> bool {
    tok is StringLiteral || tok is IntegerLiteral || tok is FloatLiteral || tok is BooleanLiteral
        || tok is CollectionLiteral || tok is RangeLiteral || tok is Identifier || tok is Null
}

/// Whether `rt` can be the type of a function's argument.
pub open spec fn is_argument_type(rt: ReturnType) -> bool {
    rt == ReturnType::ReturnInteger || rt == ReturnType::ReturnString || rt
        == ReturnType::ReturnBool || rt == ReturnType::ReturnFloat || rt
        == ReturnType::ReturnStruct || rt == ReturnType::ReturnCollection
}

/// The state of a parse.
pub struct ParserView {
    /// The tokens not yet consumed; the last one is the next.
    pub tokens: Seq<TokenView>,
    /// How many node ids the parser has given out.
    pub node_count: nat,
    /// The program assembled so far, with the current scope.
    pub program: AstProgramView,
    /// Why the parse of the program was given up, if it was.
    pub diagnostic: Option<ParseError>,
}

/// What a rule hands back: its result and the state it leaves.
pub struct Parsed {
    pub result: ParseResultView,
    pub state: ParserView,
}

impl Parsed {
    /// Whether the state left can come after `before`.
    pub open spec fn runs_from(self, before: ParserView) -> bool {
        self.state.follows(before)
    }

    /// As `runs_from`; moreover a success has consumed a token, and has
    /// given out fewer ids than twice the tokens it consumed.
    pub open spec fn steps_from(self, before: ParserView) -> bool {
        &&& self.state.follows(before)
        &&& self.result is Success ==> {
            &&& self.state.tokens.len() < before.tokens.len()
            &&& self.state.node_count + 2 * self.state.tokens.len() < before.node_count + 2
                * before.tokens.len()
        }
    }

    /// Whether a run that began in `before`, ended with `result` and left
    /// `after` is the one that this value describes.
    pub open spec fn is_run(
        self,
        before: ParserView,
        result: ParseResultView,
        after: ParserView,
    ) -> bool {
        result == self.result && after == self.state && self.runs_from(before)
    }

    /// As `is_run`; moreover a successful run has consumed a token.
    pub open spec fn is_step(
        self,
        before: ParserView,
        result: ParseResultView,
        after: ParserView,
    ) -> bool {
        result == self.result && after == self.state && self.steps_from(before)
    }
}

impl ParserView {
    /// The state in which a parse of `tokens` starts.
    pub open spec fn start(tokens: Seq<TokenView>) -> ParserView {
        ParserView { tokens, node_count: 0, program: AstProgramView::empty(), diagnostic: None }
    }

    /// The next token, if any is left.
    pub open spec fn peek(self) -> Option<TokenView> {
        if self.tokens.len() > 0 {
            Some(self.tokens.last())
        } else {
            None
        }
    }

    /// The state after the next token has been consumed.
    pub open spec fn advance(self) -> ParserView {
        ParserView { tokens: self.tokens.drop_last(), ..self }
    }

    /// The same state in another scope.
    pub open spec fn with_env(self, env: EnvironmentView) -> ParserView {
        ParserView { program: AstProgramView { env, ..self.program }, ..self }
    }

    /// The state after one more id has been given out.
    pub open spec fn count(self) -> ParserView {
        ParserView { node_count: self.node_count + 1, ..self }
    }

    /// Success with `e`, leaving this state.
    pub open spec fn ok(self, e: ExpressionView) -> Parsed {
        Parsed { result: ParseResultView::Success(e), state: self }
    }

    /// Failure with `err`, leaving this state.
    pub open spec fn fail(self, err: ParseError) -> Parsed {
        Parsed { result: ParseResultView::Failed(err), state: self }
    }

    /// Success with a new node, which takes the next id.
    pub open spec fn node(
        self,
        expression_type: ExpressionTypeView,
        return_type: ReturnType,
    ) -> Parsed {
        self.count().ok(ExpressionView { id: self.node_count + 1, expression_type, return_type })
    }

    /// Whether this state holds no more tokens than `before`.
    pub open spec fn within(self, before: ParserView) -> bool {
        self.tokens.len() <= before.tokens.len()
    }

    /// Whether the counters of the parser and of the current scope can
    /// count whatever the tokens that are left may give rise to.
    pub open spec fn fits(self) -> bool {
        &&& self.node_count + 2 * self.tokens.len() <= u32::MAX
        &&& self.program.env.node_count + self.tokens.len() <= u32::MAX
    }

    /// Whether this state holds the statements, the program's counter and
    /// the diagnostic of `before`.
    pub open spec fn keeps(self, before: ParserView) -> bool {
        &&& self.program.statements == before.program.statements
        &&& self.program.node_count == before.program.node_count
        &&& self.diagnostic == before.diagnostic
    }

    /// Whether this state can come after `before` in the parse of one
    /// statement: the statements of the program and the diagnostic are as
    /// they were, no token has come back, no id was taken back, and each id
    /// given out, by the parser or by the current scope, is covered by
    /// tokens that were consumed.
    pub open spec fn follows(self, before: ParserView) -> bool {
        &&& self.keeps(before)
        &&& self.tokens.len() <= before.tokens.len()
        &&& before.node_count <= self.node_count
        &&& self.node_count + 2 * self.tokens.len() <= before.node_count + 2
            * before.tokens.len()
        &&& self.program.env.node_count + self.tokens.len() <= before.program.env.node_count
            + before.tokens.len()
    }

    /// primary: a literal token as a leaf, or `{` expression `}`.
    pub open spec fn primary(self) -> Parsed
        decreases self.tokens.len(), 0nat,
    {
        match self.peek() {
            None => self.fail(ParseError::OutOfTokens),
            Some(tok) => {
                let s = self.advance();
                if is_literal(tok) {
                    s.node(ExpressionTypeView::Literal(tok), token_type(tok))
                } else if tok is LeftBrace {
                    let inner = s.expression();
                    match inner.result {
                        ParseResultView::Failed(_) => inner,
                        ParseResultView::Success(e) => match inner.state.peek() {
                            None => inner.state.fail(ParseError::OutOfTokens),
                            Some(TokenView::RightBrace) => inner.state.advance().ok(e),
                            Some(_) => inner.state.advance().fail(ParseError::ExpectedClosingBrace),
                        },
                    }
                } else {
                    s.fail(ParseError::ExpectedPrimary)
                }
            },
        }
    }

    /// unary: `!` or `-` before a unary, or else a primary. The node takes
    /// the type that the operator token denotes, not that of its operand.
    pub open spec fn unary(self) -> Parsed
        decreases self.tokens.len(), 1nat,
    {
        match self.peek() {
            Some(tok) if tok is Bang || tok is Subtract => {
                let operand = self.advance().unary();
                match operand.result {
                    ParseResultView::Failed(_) => operand,
                    ParseResultView::Success(e) => operand.state.node(
                        ExpressionTypeView::UnaryExpression(tok, Box::new(e)),
                        token_type(tok),
                    ),
                }
            },
            _ => self.primary(),
        }
    }

    /// An operand of `level`: an expression of the next tighter level, a
    /// unary at the tightest.
    pub open spec fn operand(self, level: Level) -> Parsed
        decreases self.tokens.len(), 2 * (3 - level.strength()) + 2,
    {
        if level == Level::Multiplicative {
            self.unary()
        } else {
            self.binary(level.tighter())
        }
    }

    /// A chain of operands of `level`, joined from the left by operators of
    /// that level.
    pub open spec fn binary(self, level: Level) -> Parsed
        decreases self.tokens.len(), 2 * (3 - level.strength()) + 3,
    {
        let first = self.operand(level);
        match first.result {
            ParseResultView::Failed(_) => first,
            ParseResultView::Success(lhs) => if first.state.within(self) {
                first.state.fold(level, lhs)
            } else {
                first
            },
        }
    }

    /// Goes on with a chain of `level` whose operands so far make up `lhs`.
    /// While the next token is an operator of the level, it is consumed and
    /// the operand after it is joined to `lhs`; the two must have the same
    /// type, which the new node takes. The chain ends before any other
    /// token, and where no token is left.
    pub open spec fn fold(self, level: Level, lhs: ExpressionView) -> Parsed
        decreases self.tokens.len(), 2 * (3 - level.strength()) + 2,
    {
        match self.peek() {
            Some(op) if level.has(op) => {
                let next = self.advance().operand(level);
                match next.result {
                    ParseResultView::Failed(_) => next,
                    ParseResultView::Success(rhs) => if lhs.return_type != rhs.return_type {
                        next.state.fail(ParseError::TypeMismatch)
                    } else if next.state.within(self.advance()) {
                        next.state.count().fold(
                            level,
                            ExpressionView {
                                id: next.state.node_count + 1,
                                expression_type: ExpressionTypeView::BinaryExpression(
                                    op,
                                    Box::new(lhs),
                                    Box::new(rhs),
                                ),
                                return_type: lhs.return_type,
                            },
                        )
                    } else {
                        next
                    },
                }
            },
            _ => self.ok(lhs),
        }
    }

    /// assignment: an equality, or an equality, `=` and an assignment. The
    /// two sides must have the same type, and the left side must be a node
    /// that a scope has handed back for a binding. The current scope then
    /// defines the name anew.
    pub open spec fn assignment(self) -> Parsed
        decreases self.tokens.len(), 12nat,
    {
        let left = self.binary(Level::Equality);
        match left.result {
            ParseResultView::Failed(_) => left,
            ParseResultView::Success(lhs) => match left.state.peek() {
                None => left.state.fail(ParseError::OutOfTokens),
                Some(TokenView::Assign) => if left.state.within(self) {
                    let right = left.state.advance().assignment();
                    match right.result {
                        ParseResultView::Failed(_) => right,
                        ParseResultView::Success(rhs) => right.state.assign(lhs, rhs),
                    }
                } else {
                    left
                },
                Some(_) => left,
            },
        }
    }

    /// The end of an assignment whose two sides are `lhs` and `rhs`.
    #[verifier::opaque]
    pub open spec fn assign(self, lhs: ExpressionView, rhs: ExpressionView) -> Parsed {
        if rhs.return_type != lhs.return_type {
            self.fail(ParseError::TypeMismatch)
        } else {
            match lhs.expression_type {
                ExpressionTypeView::LiteralExpression(name, _) => {
                    let s = self.count();
                    let value = ExpressionView {
                        id: s.node_count,
                        expression_type: ExpressionTypeView::AssignmentExpression(
                            name,
                            Box::new(rhs),
                        ),
                        return_type: lhs.return_type,
                    };
                    let (result, env) = s.program.env.define(name, value);
                    Parsed { result, state: s.with_env(env) }
                },
                _ => self.fail(ParseError::InvalidAssignmentTarget),
            }
        }
    }

    /// expression: an assignment; the end of the input is refused at once.
    pub open spec fn expression(self) -> Parsed
        decreases self.tokens.len(), 13nat,
    {
        match self.peek() {
            None | Some(TokenView::EOF) => self.fail(ParseError::UnexpectedEof),
            Some(_) => self.assignment(),
        }
    }

    /// What must follow a statement whose node is `e`: a `;`.
    #[verifier::opaque]
    pub open spec fn terminator(self, e: ExpressionView) -> Parsed {
        match self.peek() {
            None => self.fail(ParseError::OutOfTokens),
            Some(TokenView::Semicolon) => self.advance().ok(e),
            Some(_) => self.advance().fail(ParseError::ExpectedSemicolon),
        }
    }

    /// statement: expression `;`.
    pub open spec fn statement(self) -> Parsed
        decreases self.tokens.len(), 14nat,
    {
        let inner = self.expression();
        match inner.result {
            ParseResultView::Failed(_) => inner,
            ParseResultView::Success(e) => inner.state.terminator(e),
        }
    }

    /// What follows `print`: exactly one string literal.
    #[verifier::opaque]
    pub open spec fn print(self) -> Parsed {
        match self.peek() {
            None => self.fail(ParseError::OutOfTokens),
            Some(TokenView::StringLiteral(text)) => self.advance().node(
                ExpressionTypeView::PrintExpression(text),
                ReturnType::ReturnString,
            ),
            Some(_) => self.advance().fail(ParseError::ExpectedString),
        }
    }

    /// The state after a `;` that follows at once, if one does, has been
    /// consumed.
    pub open spec fn skip_separator(self) -> ParserView {
        if self.peek() == Some(TokenView::Semicolon) {
            self.advance()
        } else {
            self
        }
    }

    /// A statement that is no declaration: `print` and a string, with the
    /// `;` after it if there is one; a block; or an expression and `;`.
    pub open spec fn expression_statement(self) -> Parsed
        decreases self.tokens.len(), 15nat,
    {
        match self.peek() {
            Some(TokenView::Print) => {
                let printed = self.advance().print();
                match printed.result {
                    ParseResultView::Failed(_) => printed,
                    ParseResultView::Success(_) => Parsed {
                        result: printed.result,
                        state: printed.state.skip_separator(),
                    },
                }
            },
            Some(TokenView::LeftBrace) => self.advance().block(),
            _ => self.statement(),
        }
    }

    /// What follows the `{` of a block: statements up to the closing `}`.
    /// They are parsed in a scope of their own inside the current one, which
    /// is the current scope again afterwards, whatever the block defined.
    pub open spec fn block(self) -> Parsed
        decreases self.tokens.len(), 18nat,
    {
        let outer = self.program.env;
        let inner = self.with_env(EnvironmentView::nested(outer)).block_items(Seq::empty());
        Parsed { result: inner.result, state: inner.state.with_env(outer) }
    }

    /// Goes on with a block whose statements so far are `items`. After each
    /// statement one id is passed over. The node of the block has the type
    /// `ReturnBlock`, whatever its statements are.
    pub open spec fn block_items(self, items: Seq<ExpressionView>) -> Parsed
        decreases self.tokens.len(), 17nat,
    {
        match self.peek() {
            None => self.fail(ParseError::OutOfTokens),
            Some(TokenView::RightBrace) => self.advance().node(
                ExpressionTypeView::BlockExpression(items),
                ReturnType::ReturnBlock,
            ),
            Some(TokenView::EOF) => self.fail(ParseError::UnexpectedEof),
            Some(_) => {
                let item = self.declaration();
                match item.result {
                    ParseResultView::Failed(_) => item,
                    ParseResultView::Success(e) => if item.state.tokens.len() < self.tokens.len() {
                        item.state.count().block_items(items.push(e))
                    } else {
                        item
                    },
                }
            },
        }
    }

    /// declaration: `var` and a variable statement, `fn` and a function
    /// header, or a statement that is no declaration.
    pub open spec fn declaration(self) -> Parsed
        decreases self.tokens.len(), 16nat,
    {
        match self.peek() {
            Some(TokenView::VarDecl) => self.advance().var_declaration(),
            Some(TokenView::FunctionDecl) => self.advance().function_header(),
            _ => self.expression_statement(),
        }
    }

    /// What follows `var`: a name that the scope chain binds already, `=`,
    /// an expression of the type of that binding, and `;`.
    pub open spec fn var_declaration(self) -> Parsed
        decreases self.tokens.len(), 14nat,
    {
        match self.peek() {
            None => self.fail(ParseError::OutOfTokens),
            Some(TokenView::Identifier(name)) => {
                let s = self.advance();
                match s.program.env.lookup(name) {
                    None => s.fail(ParseError::NotDefined),
                    Some(bound) => match s.peek() {
                        None => s.fail(ParseError::OutOfTokens),
                        Some(TokenView::Assign) => {
                            let value = s.advance().expression();
                            match value.result {
                                ParseResultView::Failed(_) => value,
                                ParseResultView::Success(e) => if e.return_type
                                    != bound.return_type {
                                    value.state.fail(ParseError::TypeMismatch)
                                } else {
                                    value.state.var_end(e, bound.return_type)
                                },
                            }
                        },
                        Some(_) => s.advance().fail(ParseError::ExpectedAssign),
                    },
                }
            },
            Some(_) => self.advance().fail(ParseError::ExpectedIdentifier),
        }
    }

    /// The end of a variable statement with the value `e`: a `;`.
    #[verifier::opaque]
    pub open spec fn var_end(self, e: ExpressionView, declared: ReturnType) -> Parsed {
        match self.peek() {
            None => self.fail(ParseError::OutOfTokens),
            Some(TokenView::Semicolon) => self.advance().node(
                ExpressionTypeView::VarExpression(Box::new(e)),
                declared,
            ),
            Some(_) => self.advance().fail(ParseError::ExpectedSemicolon),
        }
    }

    /// What follows `fn`: a name, `:`, a token that denotes a type, `(`, and
    /// the argument list up to its `)`.
    #[verifier::opaque]
    pub open spec fn function_header(self) -> Parsed {
        match self.peek() {
            None => self.fail(ParseError::OutOfTokens),
            Some(TokenView::Identifier(name)) => {
                let s1 = self.advance();
                match s1.peek() {
                    None => s1.fail(ParseError::OutOfTokens),
                    Some(TokenView::Colon) => {
                        let s2 = s1.advance();
                        match s2.peek() {
                            None => s2.fail(ParseError::OutOfTokens),
                            Some(tok) => {
                                let s3 = s2.advance();
                                if token_type(tok) == ReturnType::ReturnInvalid {
                                    s3.fail(ParseError::ExpectedReturnType)
                                } else {
                                    match s3.peek() {
                                        None => s3.fail(ParseError::OutOfTokens),
                                        Some(TokenView::LeftParenthesis) => s3.advance().arguments(
                                            name,
                                            token_type(tok),
                                            Seq::empty(),
                                        ),
                                        Some(_) => s3.advance().fail(
                                            ParseError::ExpectedLeftParenthesis,
                                        ),
                                    }
                                }
                            },
                        }
                    },
                    Some(_) => s1.advance().fail(ParseError::ExpectedColon),
                }
            },
            Some(_) => self.advance().fail(ParseError::ExpectedFunctionIdentifier),
        }
    }

    /// The node of a function header.
    pub open spec fn header_node(
        self,
        name: Seq<char>,
        return_type: ReturnType,
        args: Seq<ArgumentView>,
    ) -> Parsed {
        self.node(
            ExpressionTypeView::FunctionHeaderExpression(
                FunctionHeaderView { name, return_type, args },
            ),
            ReturnType::ReturnFunctionHeader,
        )
    }

    /// Goes on with the argument list of the function `name`, whose
    /// arguments so far are `args`. Each token is read as the type it
    /// denotes:
    /// - `void` is allowed only before any argument, and `)` must follow it:
    ///   the function has no arguments;
    /// - an argument type is followed by `:` and a name, which make one more
    ///   argument;
    /// - `,` is passed over;
    /// - `)` ends the list, which must then hold an argument;
    /// - the end of the input, and any other token, is refused.
    #[verifier::opaque]
    pub open spec fn arguments(
        self,
        name: Seq<char>,
        return_type: ReturnType,
        args: Seq<ArgumentView>,
    ) -> Parsed
        decreases self.tokens.len(),
    {
        match self.peek() {
            None => self.fail(ParseError::OutOfTokens),
            Some(tok) => {
                let s = self.advance();
                let rt = token_type(tok);
                if rt == ReturnType::ReturnVoid {
                    if args.len() > 0 {
                        s.fail(ParseError::UnexpectedVoid)
                    } else {
                        match s.peek() {
                            None => s.fail(ParseError::OutOfTokens),
                            Some(TokenView::RightParenthesis) => s.advance().header_node(
                                name,
                                return_type,
                                args,
                            ),
                            Some(_) => s.advance().fail(ParseError::ExpectedRightParenthesis),
                        }
                    }
                } else if is_argument_type(rt) {
                    match s.peek() {
                        None => s.fail(ParseError::OutOfTokens),
                        Some(TokenView::Colon) => {
                            let s2 = s.advance();
                            match s2.peek() {
                                None => s2.fail(ParseError::OutOfTokens),
                                Some(TokenView::Identifier(ident)) => s2.advance().arguments(
                                    name,
                                    return_type,
                                    args.push(ArgumentView { return_type: rt, ident }),
                                ),
                                Some(_) => s2.advance().fail(ParseError::ExpectedArgumentName),
                            }
                        },
                        Some(_) => s.advance().fail(ParseError::ExpectedArgumentColon),
                    }
                } else if rt == ReturnType::ReturnContinue {
                    s.arguments(name, return_type, args)
                } else if rt == ReturnType::ReturnEOF {
                    s.fail(ParseError::UnexpectedEof)
                } else if rt == ReturnType::ReturnArguments {
                    if args.len() > 0 {
                        s.header_node(name, return_type, args)
                    } else {
                        s.fail(ParseError::ExpectedArgumentList)
                    }
                } else {
                    s.fail(ParseError::UnexpectedArgument)
                }
            },
        }
    }

    /// The state after `e` has been appended to the program.
    pub open spec fn push(self, e: ExpressionView) -> ParserView {
        ParserView {
            program: AstProgramView { statements: self.program.statements.push(e), ..self.program },
            ..self
        }
    }

    /// The state after the parse of the program has been given up.
    pub open spec fn abort(self, err: ParseError) -> ParserView {
        ParserView { diagnostic: Some(err), ..self }
    }

    /// A statement at the top of a program. A name at its start is looked
    /// up in the scope chain, and the node bound to it is the statement;
    /// anything else is a declaration.
    pub open spec fn top_statement(self) -> Parsed {
        match self.peek() {
            Some(TokenView::Identifier(name)) => {
                let s = self.advance();
                match s.program.env.lookup(name) {
                    Some(bound) => s.ok(bound),
                    None => s.fail(ParseError::NotDefined),
                }
            },
            _ => self.declaration(),
        }
    }

    /// The parse of a program: statement after statement is appended until
    /// the tokens are used up or the end marker is met, which is consumed.
    /// The first failure ends the parse: the program keeps what was
    /// appended before, and the reason is recorded. A parse that was given
    /// up stays so.
    pub open spec fn parse(self) -> ParserView
        decreases self.tokens.len(),
    {
        if self.diagnostic is Some {
            self
        } else {
            match self.peek() {
                None => self,
                Some(TokenView::EOF) => self.advance(),
                Some(_) => {
                    let next = self.top_statement();
                    match next.result {
                        ParseResultView::Failed(err) => next.state.abort(err),
                        ParseResultView::Success(e) => if next.state.tokens.len()
                            < self.tokens.len() {
                            next.state.push(e).parse()
                        } else {
                            next.state.push(e)
                        },
                    }
                },
            }
        }
    }
}

} // verus!
