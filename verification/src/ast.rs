//! The syntax tree shared by the parser and the code generator.

use vstd::prelude::*;

verus! {

/// The operators that join two arithmetic operands.
#[derive(Debug, Clone, Copy, PartialEq, Eq, Structural)]
pub enum ArithmeticOp {
    Add,
    Sub,
    Mul,
}

impl ArithmeticOp {
    /// The instruction that performs this operator.
    pub open spec fn mnemonic_text(self) -> Seq<char> {
        match self {
            ArithmeticOp::Add => "add"@,
            ArithmeticOp::Sub => "sub"@,
            ArithmeticOp::Mul => "mul"@,
        }
    }

    /// The instruction that performs this operator.
    pub fn mnemonic(&self) -> (text: &'static str)
        ensures
            text@ == self.mnemonic_text(),
    {
        match self {
            ArithmeticOp::Add => "add",
            ArithmeticOp::Sub => "sub",
            ArithmeticOp::Mul => "mul",
        }
    }
}

/// An arithmetic expression.
#[derive(Debug, PartialEq)]
pub enum Arithmetic {
    Int(i32),
    Ident(String),
    Binary { lhs: Box<Arithmetic>, op: ArithmeticOp, rhs: Box<Arithmetic> },
    Paren(Box<Arithmetic>),
}

/// The mathematical value of an [`Arithmetic`] expression.
pub enum ArithmeticView {
    Int(i32),
    Ident(Seq<char>),
    Binary { lhs: Box<ArithmeticView>, op: ArithmeticOp, rhs: Box<ArithmeticView> },
    Paren(Box<ArithmeticView>),
}

impl View for Arithmetic {
    type V = ArithmeticView;

    open spec fn view(&self) -> ArithmeticView
        decreases self,
    {
        match self {
            Arithmetic::Int(value) => ArithmeticView::Int(*value),
            Arithmetic::Ident(name) => ArithmeticView::Ident(name@),
            Arithmetic::Binary { lhs, op, rhs } => ArithmeticView::Binary {
                lhs: Box::new((**lhs).view()),
                op: *op,
                rhs: Box::new((**rhs).view()),
            },
            Arithmetic::Paren(inner) => ArithmeticView::Paren(Box::new((**inner).view())),
        }
    }
}

/// The comparison and logical operators.
#[derive(Debug, Clone, Copy, PartialEq, Eq, Structural)]
pub enum BooleanOp {
    Eq,
    Lt,
    LEq,
    Gt,
    GEq,
    And,
    Or,
    Not,
}

impl BooleanOp {
    /// The instruction that performs this operator.
    pub open spec fn mnemonic_text(self) -> Seq<char> {
        match self {
            BooleanOp::Eq => "eq"@,
            BooleanOp::Lt => "lt"@,
            BooleanOp::LEq => "le"@,
            BooleanOp::Gt => "gt"@,
            BooleanOp::GEq => "ge"@,
            BooleanOp::And => "land"@,
            BooleanOp::Or => "lor"@,
            BooleanOp::Not => "lnot"@,
        }
    }

    /// The instruction that performs this operator.
    pub fn mnemonic(&self) -> (text: &'static str)
        ensures
            text@ == self.mnemonic_text(),
    {
        match self {
            BooleanOp::Eq => "eq",
            BooleanOp::Lt => "lt",
            BooleanOp::LEq => "le",
            BooleanOp::Gt => "gt",
            BooleanOp::GEq => "ge",
            BooleanOp::And => "land",
            BooleanOp::Or => "lor",
            BooleanOp::Not => "lnot",
        }
    }
}

/// A boolean expression.
#[derive(Debug, PartialEq)]
#[allow(inconsistent_fields)]
pub enum Boolean {
    False,
    True,
    Binary { lhs: Box<Boolean>, op: BooleanOp, rhs: Box<Boolean> },
    Cmp { lhs: Box<Arithmetic>, op: BooleanOp, rhs: Box<Arithmetic> },
    Paren(Box<Boolean>),
}

/// The mathematical value of a [`Boolean`] expression.
#[allow(inconsistent_fields)]
pub enum BooleanView {
    False,
    True,
    Binary { lhs: Box<BooleanView>, op: BooleanOp, rhs: Box<BooleanView> },
    Cmp { lhs: ArithmeticView, op: BooleanOp, rhs: ArithmeticView },
    Paren(Box<BooleanView>),
}

impl View for Boolean {
    type V = BooleanView;

    open spec fn view(&self) -> BooleanView
        decreases self,
    {
        match self {
            Boolean::False => BooleanView::False,
            Boolean::True => BooleanView::True,
            Boolean::Binary { lhs, op, rhs } => BooleanView::Binary {
                lhs: Box::new((**lhs).view()),
                op: *op,
                rhs: Box::new((**rhs).view()),
            },
            Boolean::Cmp { lhs, op, rhs } => BooleanView::Cmp {
                lhs: (**lhs).view(),
                op: *op,
                rhs: (**rhs).view(),
            },
            Boolean::Paren(inner) => BooleanView::Paren(Box::new((**inner).view())),
        }
    }
}

/// A statement.
#[derive(Debug, PartialEq)]
pub enum Statement {
    Assignment { ident: String, value: Arithmetic },
    Skip,
    Composision(Box<Statement>, Box<Statement>),
    If { condition: Boolean, if_branch: Box<Statement>, else_branch: Box<Statement> },
    While { condition: Boolean, body: Box<Statement> },
    Paren(Box<Statement>),
}

/// The mathematical value of a [`Statement`].
pub enum StatementView {
    Assignment { ident: Seq<char>, value: ArithmeticView },
    Skip,
    Composision(Box<StatementView>, Box<StatementView>),
    If { condition: BooleanView, if_branch: Box<StatementView>, else_branch: Box<StatementView> },
    While { condition: BooleanView, body: Box<StatementView> },
    Paren(Box<StatementView>),
}

impl View for Statement {
    type V = StatementView;

    open spec fn view(&self) -> StatementView
        decreases self,
    {
        match self {
            Statement::Assignment { ident, value } => StatementView::Assignment {
                ident: ident@,
                value: value@,
            },
            Statement::Skip => StatementView::Skip,
            Statement::Composision(first, second) => StatementView::Composision(
                Box::new((**first).view()),
                Box::new((**second).view()),
            ),
            Statement::If { condition, if_branch, else_branch } => StatementView::If {
                condition: condition@,
                if_branch: Box::new((**if_branch).view()),
                else_branch: Box::new((**else_branch).view()),
            },
            Statement::While { condition, body } => StatementView::While {
                condition: condition@,
                body: Box::new((**body).view()),
            },
            Statement::Paren(inner) => StatementView::Paren(Box::new((**inner).view())),
        }
    }
}

impl Clone for Arithmetic {
    fn clone(&self) -> (copy: Arithmetic)
        ensures
            copy@ == self@,
        decreases self,
    {
        match self {
            Arithmetic::Int(value) => Arithmetic::Int(*value),
            Arithmetic::Ident(name) => Arithmetic::Ident(name.clone()),
            Arithmetic::Binary { lhs, op, rhs } => Arithmetic::Binary {
                lhs: Box::new((**lhs).clone()),
                op: *op,
                rhs: Box::new((**rhs).clone()),
            },
            Arithmetic::Paren(inner) => Arithmetic::Paren(Box::new((**inner).clone())),
        }
    }
}

impl Clone for Boolean {
    fn clone(&self) -> (copy: Boolean)
        ensures
            copy@ == self@,
        decreases self,
    {
        match self {
            Boolean::False => Boolean::False,
            Boolean::True => Boolean::True,
            Boolean::Binary { lhs, op, rhs } => Boolean::Binary {
                lhs: Box::new((**lhs).clone()),
                op: *op,
                rhs: Box::new((**rhs).clone()),
            },
            Boolean::Cmp { lhs, op, rhs } => Boolean::Cmp {
                lhs: Box::new((**lhs).clone()),
                op: *op,
                rhs: Box::new((**rhs).clone()),
            },
            Boolean::Paren(inner) => Boolean::Paren(Box::new((**inner).clone())),
        }
    }
}

impl Clone for Statement {
    fn clone(&self) -> (copy: Statement)
        ensures
            copy@ == self@,
        decreases self,
    {
        match self {
            Statement::Assignment { ident, value } => Statement::Assignment {
                ident: ident.clone(),
                value: value.clone(),
            },
            Statement::Skip => Statement::Skip,
            Statement::Composision(first, second) => Statement::Composision(
                Box::new((**first).clone()),
                Box::new((**second).clone()),
            ),
            Statement::If { condition, if_branch, else_branch } => Statement::If {
                condition: condition.clone(),
                if_branch: Box::new((**if_branch).clone()),
                else_branch: Box::new((**else_branch).clone()),
            },
            Statement::While { condition, body } => Statement::While {
                condition: condition.clone(),
                body: Box::new((**body).clone()),
            },
            Statement::Paren(inner) => Statement::Paren(Box::new((**inner).clone())),
        }
    }
}

} // verus!
