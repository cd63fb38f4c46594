//! The block language: expressions, statements, value types, and the
//! mathematical view of a statement tree.
use vstd::prelude::*;

verus! {

/// A compass direction the robot can face or act towards.
#[derive(Clone, Copy, Debug, PartialEq, Eq, Structural)]
pub enum Direction {
    Left,
    Right,
    Forward,
    Back,
    Up,
    Down,
}

/// Binary operators.
#[derive(Clone, Copy, Debug, PartialEq, Eq, Structural)]
pub enum Op {
    Eq,
    Neq,
    Lt,
    Gt,
    Le,
    Ge,
    And,
    Or,
    Add,
    Sub,
    Mul,
    Div,
}

/// Unary operators.
#[derive(Clone, Copy, Debug, PartialEq, Eq, Structural)]
pub enum UnaryOp {
    Not,
}

/// Built-in functions that an expression can call.
#[derive(Clone, Copy, Debug, PartialEq, Eq, Structural)]
pub enum Callee {
    IsTouched,
    IsEmpty,
    Rand,
}

/// The value types of the language.
#[derive(Clone, Copy, Debug, PartialEq, Eq, Structural)]
pub enum Type {
    Uint,
    Float,
    Boolean,
    String,
    Direction,
}

/// An expression of the block language.
///
/// A float literal is held by the bit pattern of its IEEE-754 `f64`
/// value, so that it is carried through the library unchanged.
#[derive(Debug)]
pub enum Expr {
    Uint(u32),
    Float(u64),
    String(String),
    Boolean(bool),
    Direction(Direction),
    Var(String),
    Binary { op: Op, lhs: Box<Expr>, rhs: Box<Expr> },
    Unary { op: UnaryOp, exp: Box<Expr> },
    Call { callee: Callee, args: Vec<Box<Expr>> },
}

/// A statement (block) of the block language. `If`, `Loop` and `While`
/// hold a nested body of statements.
#[derive(Debug)]
pub enum Statement {
    Move(Expr),
    Turn(Expr),
    Dig(Expr),
    Print(Expr),
    Sleep(Expr),
    Let(String, Expr),
    Send(Expr),
    Receive(Expr),
    If(Expr, Vec<Statement>),
    Loop(Expr, Vec<Statement>),
    While(Expr, Vec<Statement>),
}

/// The mathematical value of an expression: text as character sequences
/// and call arguments as a sequence.
pub enum ExprView {
    Uint(u32),
    Float(u64),
    String(Seq<char>),
    Boolean(bool),
    Direction(Direction),
    Var(Seq<char>),
    Binary(Op, Box<ExprView>, Box<ExprView>),
    Unary(UnaryOp, Box<ExprView>),
    Call(Callee, Seq<ExprView>),
}

/// The mathematical value of a statement: the same tree, with every nested
/// body taken as a sequence.
pub enum StatementView {
    Move(ExprView),
    Turn(ExprView),
    Dig(ExprView),
    Print(ExprView),
    Sleep(ExprView),
    Let(Seq<char>, ExprView),
    Send(ExprView),
    Receive(ExprView),
    If(ExprView, Seq<StatementView>),
    Loop(ExprView, Seq<StatementView>),
    While(ExprView, Seq<StatementView>),
}

/// The view of one expression.
pub open spec fn expr_view(e: Expr) -> ExprView
    decreases e,
{
    match e {
        Expr::Uint(v) => ExprView::Uint(v),
        Expr::Float(b) => ExprView::Float(b),
        Expr::String(s) => ExprView::String(s@),
        Expr::Boolean(b) => ExprView::Boolean(b),
        Expr::Direction(d) => ExprView::Direction(d),
        Expr::Var(n) => ExprView::Var(n@),
        Expr::Binary { op, lhs, rhs } => ExprView::Binary(
            op,
            Box::new(expr_view(*lhs)),
            Box::new(expr_view(*rhs)),
        ),
        Expr::Unary { op, exp } => ExprView::Unary(op, Box::new(expr_view(*exp))),
        Expr::Call { callee, args } => ExprView::Call(callee, args_view(args@)),
    }
}

/// The view of a sequence of call arguments, element by element.
pub open spec fn args_view(s: Seq<Box<Expr>>) -> Seq<ExprView>
    decreases s,
{
    if s.len() == 0 {
        Seq::empty()
    } else {
        args_view(s.drop_last()).push(expr_view(*s.last()))
    }
}

/// The view of one statement.
pub open spec fn statement_view(s: Statement) -> StatementView
    decreases s,
{
    match s {
        Statement::Move(e) => StatementView::Move(expr_view(e)),
        Statement::Turn(e) => StatementView::Turn(expr_view(e)),
        Statement::Dig(e) => StatementView::Dig(expr_view(e)),
        Statement::Print(e) => StatementView::Print(expr_view(e)),
        Statement::Sleep(e) => StatementView::Sleep(expr_view(e)),
        Statement::Let(n, e) => StatementView::Let(n@, expr_view(e)),
        Statement::Send(e) => StatementView::Send(expr_view(e)),
        Statement::Receive(e) => StatementView::Receive(expr_view(e)),
        Statement::If(c, body) => StatementView::If(expr_view(c), statements_view(body@)),
        Statement::Loop(c, body) => StatementView::Loop(expr_view(c), statements_view(body@)),
        Statement::While(c, body) => StatementView::While(expr_view(c), statements_view(body@)),
    }
}

/// The view of a sequence of statements, element by element.
pub open spec fn statements_view(s: Seq<Statement>) -> Seq<StatementView>
    decreases s,
{
    if s.len() == 0 {
        Seq::empty()
    } else {
        statements_view(s.drop_last()).push(statement_view(s.last()))
    }
}

/// The view of a sequence of statements has one element for each
/// statement, the view of that statement.
pub broadcast proof fn lemma_statements_view(s: Seq<Statement>)
    ensures
        (#[trigger] statements_view(s)).len() == s.len(),
        forall|i: int| 0 <= i < s.len() ==> statements_view(s)[i] == statement_view(s[i]),
    decreases s.len(),
{
    if s.len() > 0 {
        lemma_statements_view(s.drop_last());
    }
}

/// The view of a sequence of call arguments has one element for each
/// argument, the view of that argument.
pub broadcast proof fn lemma_args_view(s: Seq<Box<Expr>>)
    ensures
        (#[trigger] args_view(s)).len() == s.len(),
        forall|i: int| 0 <= i < s.len() ==> args_view(s)[i] == expr_view(*s[i]),
    decreases s.len(),
{
    if s.len() > 0 {
        lemma_args_view(s.drop_last());
    }
}

impl Expr {
    /// A copy of this expression, with the same view.
    pub fn deep_copy(&self) -> (r: Expr)
        ensures
            r@ == self@,
        decreases self,
    {
        match self {
            Expr::Uint(v) => Expr::Uint(*v),
            Expr::Float(b) => Expr::Float(*b),
            Expr::String(s) => Expr::String(s.clone()),
            Expr::Boolean(b) => Expr::Boolean(*b),
            Expr::Direction(d) => Expr::Direction(*d),
            Expr::Var(n) => Expr::Var(n.clone()),
            Expr::Binary { op, lhs, rhs } => Expr::Binary {
                op: *op,
                lhs: Box::new(lhs.deep_copy()),
                rhs: Box::new(rhs.deep_copy()),
            },
            Expr::Unary { op, exp } => Expr::Unary { op: *op, exp: Box::new(exp.deep_copy()) },
            Expr::Call { callee, args } => {
                let mut copied: Vec<Box<Expr>> = Vec::new();
                let n = args.len();
                let mut i: usize = 0;
                while i < n
                    invariant
                        *self == (Expr::Call { callee: *callee, args: *args }),
                        n == args@.len(),
                        0 <= i <= n,
                        copied@.len() == i,
                        forall|j: int|
                            0 <= j < i ==> expr_view(*copied@[j]) == expr_view(*args@[j]),
                    decreases n - i,
                {
                    proof {
                        vstd::std_specs::vec::axiom_vec_index_decreases(*args, i as int);
                        assert(decreases_to!(*self => (*self)->args));
                    }
                    copied.push(Box::new(args[i].deep_copy()));
                    i = i + 1;
                }
                proof {
                    lemma_args_view(copied@);
                    lemma_args_view(args@);
                    assert(args_view(copied@) =~= args_view(args@));
                }
                Expr::Call { callee: *callee, args: copied }
            },
        }
    }
}

impl Statement {
    /// A copy of this statement, with the same view.
    pub fn deep_copy(&self) -> (r: Statement)
        ensures
            r@ == self@,
        decreases self,
    {
        match self {
            Statement::Move(e) => Statement::Move(e.deep_copy()),
            Statement::Turn(e) => Statement::Turn(e.deep_copy()),
            Statement::Dig(e) => Statement::Dig(e.deep_copy()),
            Statement::Print(e) => Statement::Print(e.deep_copy()),
            Statement::Sleep(e) => Statement::Sleep(e.deep_copy()),
            Statement::Let(n, e) => Statement::Let(n.clone(), e.deep_copy()),
            Statement::Send(e) => Statement::Send(e.deep_copy()),
            Statement::Receive(e) => Statement::Receive(e.deep_copy()),
            Statement::If(c, body) => Statement::If(c.deep_copy(), copy_body(self, body)),
            Statement::Loop(c, body) => Statement::Loop(c.deep_copy(), copy_body(self, body)),
            Statement::While(c, body) => Statement::While(c.deep_copy(), copy_body(self, body)),
        }
    }
}

fn copy_body(owner: &Statement, body: &Vec<Statement>) -> (r: Vec<Statement>)
    requires
        decreases_to!(*owner => *body),
    ensures
        statements_view(r@) == statements_view(body@),
    decreases *owner, 0nat,
{
    let mut copied: Vec<Statement> = Vec::new();
    let n = body.len();
    let mut i: usize = 0;
    while i < n
        invariant
            decreases_to!(*owner => *body),
            n == body@.len(),
            0 <= i <= n,
            copied@.len() == i,
            forall|j: int| 0 <= j < i ==> statement_view(copied@[j]) == statement_view(body@[j]),
        decreases n - i,
    {
        proof {
            vstd::std_specs::vec::axiom_vec_index_decreases(*body, i as int);
        }
        copied.push(body[i].deep_copy());
        i = i + 1;
    }
    proof {
        lemma_statements_view(copied@);
        lemma_statements_view(body@);
        assert(statements_view(copied@) =~= statements_view(body@));
    }
    copied
}

impl View for Expr {
    type V = ExprView;

    open spec fn view(&self) -> ExprView {
        expr_view(*self)
    }
}

impl View for Statement {
    type V = StatementView;

    open spec fn view(&self) -> StatementView {
        statement_view(*self)
    }
}

} // verus!
