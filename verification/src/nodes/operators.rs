//! The operators of Lua expressions and statements.

use crate::nodes::expressions::Expression;
use vstd::prelude::*;

verus! {

/// A binary operator.
#[derive(Clone, Copy, Debug)]
pub enum BinaryOperator {
    And,
    Or,
    Equal,
    NotEqual,
    LowerThan,
    LowerOrEqualThan,
    GreaterThan,
    GreaterOrEqualThan,
    Plus,
    Minus,
    Asterisk,
    Slash,
    Percent,
    Caret,
    Concat,
}

impl BinaryOperator {
    /// The operator as it is written in Lua.
    pub open spec fn text(self) -> Seq<char> {
        match self {
            BinaryOperator::And => "and"@,
            BinaryOperator::Or => "or"@,
            BinaryOperator::Equal => "=="@,
            BinaryOperator::NotEqual => "~="@,
            BinaryOperator::LowerThan => "<"@,
            BinaryOperator::LowerOrEqualThan => "<="@,
            BinaryOperator::GreaterThan => ">"@,
            BinaryOperator::GreaterOrEqualThan => ">="@,
            BinaryOperator::Plus => "+"@,
            BinaryOperator::Minus => "-"@,
            BinaryOperator::Asterisk => "*"@,
            BinaryOperator::Slash => "/"@,
            BinaryOperator::Percent => "%"@,
            BinaryOperator::Caret => "^"@,
            BinaryOperator::Concat => ".."@,
        }
    }

    /// The precedence level of the operator in Lua: a higher level binds
    /// tighter. Unary operators stand at level 6, between `*` and `^`.
    pub open spec fn precedence(self) -> nat {
        match self {
            BinaryOperator::Or => 0,
            BinaryOperator::And => 1,
            BinaryOperator::Equal
            | BinaryOperator::NotEqual
            | BinaryOperator::LowerThan
            | BinaryOperator::LowerOrEqualThan
            | BinaryOperator::GreaterThan
            | BinaryOperator::GreaterOrEqualThan => 2,
            BinaryOperator::Concat => 3,
            BinaryOperator::Plus | BinaryOperator::Minus => 4,
            BinaryOperator::Asterisk | BinaryOperator::Slash | BinaryOperator::Percent => 5,
            BinaryOperator::Caret => 7,
        }
    }

    /// Whether a chain of this operator groups from the right: `^` and `..` do,
    /// all others group from the left.
    pub open spec fn groups_from_right(self) -> bool {
        self is Caret || self is Concat
    }

    /// Whether an operand with the binary operator `inner` needs parentheses on
    /// the side of `self` from which `self` groups when `on_grouping_side`
    /// holds, and on the other side when it does not.
    pub open spec fn binary_operand_needs_parentheses(
        self,
        inner: BinaryOperator,
        on_grouping_side: bool,
    ) -> bool {
        if on_grouping_side {
            self.precedence() > inner.precedence()
        } else {
            self.precedence() >= inner.precedence()
        }
    }

    /// Whether `left` must stand in parentheses as the left operand of the
    /// operator: an operand with a binary operator that binds less tightly, or
    /// as tightly on the side from which the operator does not group; an
    /// operand with a unary operator under an operator that binds tighter; and
    /// every if-expression.
    pub open spec fn left_operand_needs_parentheses(self, left: Expression) -> bool {
        match left {
            Expression::Binary(left) => self.binary_operand_needs_parentheses(
                left.operator,
                !self.groups_from_right(),
            ),
            Expression::Unary(_) => self.precedence() > 6,
            Expression::If(_) => true,
            _ => false,
        }
    }

    /// Whether `right` must stand in parentheses as the right operand of the
    /// operator: an operand with a binary operator that binds less tightly, or
    /// as tightly on the side from which the operator does not group.
    pub open spec fn right_operand_needs_parentheses(self, right: Expression) -> bool {
        match right {
            Expression::Binary(right) => self.binary_operand_needs_parentheses(
                right.operator,
                self.groups_from_right(),
            ),
            _ => false,
        }
    }

    /// The operator as it is written in Lua.
    pub fn to_str(&self) -> (text: &'static str)
        ensures
            text@ == self.text(),
    {
        match self {
            BinaryOperator::And => "and",
            BinaryOperator::Or => "or",
            BinaryOperator::Equal => "==",
            BinaryOperator::NotEqual => "~=",
            BinaryOperator::LowerThan => "<",
            BinaryOperator::LowerOrEqualThan => "<=",
            BinaryOperator::GreaterThan => ">",
            BinaryOperator::GreaterOrEqualThan => ">=",
            BinaryOperator::Plus => "+",
            BinaryOperator::Minus => "-",
            BinaryOperator::Asterisk => "*",
            BinaryOperator::Slash => "/",
            BinaryOperator::Percent => "%",
            BinaryOperator::Caret => "^",
            BinaryOperator::Concat => "..",
        }
    }

    /// The precedence level of the operator.
    pub fn get_precedence(&self) -> (level: u8)
        ensures
            level == self.precedence(),
    {
        match self {
            BinaryOperator::Or => 0,
            BinaryOperator::And => 1,
            BinaryOperator::Equal
            | BinaryOperator::NotEqual
            | BinaryOperator::LowerThan
            | BinaryOperator::LowerOrEqualThan
            | BinaryOperator::GreaterThan
            | BinaryOperator::GreaterOrEqualThan => 2,
            BinaryOperator::Concat => 3,
            BinaryOperator::Plus | BinaryOperator::Minus => 4,
            BinaryOperator::Asterisk | BinaryOperator::Slash | BinaryOperator::Percent => 5,
            BinaryOperator::Caret => 7,
        }
    }

    /// Whether the operator binds tighter than `other`.
    pub fn precedes(&self, other: BinaryOperator) -> (tighter: bool)
        ensures
            tighter == (self.precedence() > other.precedence()),
    {
        self.get_precedence() > other.get_precedence()
    }

    /// Whether the operator binds tighter than a unary operator.
    pub fn precedes_unary_expression(&self) -> (tighter: bool)
        ensures
            tighter == (self.precedence() > 6),
    {
        matches!(self, BinaryOperator::Caret)
    }

    /// Whether a chain of the operator groups from the left.
    pub fn is_left_associative(&self) -> (left: bool)
        ensures
            left == !self.groups_from_right(),
    {
        !matches!(self, BinaryOperator::Caret | BinaryOperator::Concat)
    }

    /// Whether a chain of the operator groups from the right.
    pub fn is_right_associative(&self) -> (right: bool)
        ensures
            right == self.groups_from_right(),
    {
        matches!(self, BinaryOperator::Caret | BinaryOperator::Concat)
    }

    /// Whether `left` must stand in parentheses as the left operand of the
    /// operator.
    pub fn left_needs_parentheses(&self, left: &Expression) -> (needed: bool)
        ensures
            needed == self.left_operand_needs_parentheses(*left),
    {
        match left {
            Expression::Binary(left) => {
                if self.is_left_associative() {
                    self.precedes(left.operator)
                } else {
                    !left.operator.precedes(*self)
                }
            },
            Expression::Unary(_) => self.precedes_unary_expression(),
            Expression::If(_) => true,
            _ => false,
        }
    }

    /// Whether `right` must stand in parentheses as the right operand of the
    /// operator.
    pub fn right_needs_parentheses(&self, right: &Expression) -> (needed: bool)
        ensures
            needed == self.right_operand_needs_parentheses(*right),
    {
        match right {
            Expression::Binary(right) => {
                if self.is_right_associative() {
                    self.precedes(right.operator)
                } else {
                    !right.operator.precedes(*self)
                }
            },
            _ => false,
        }
    }
}

/// A unary operator.
#[derive(Clone, Copy, Debug)]
pub enum UnaryOperator {
    Length,
    Minus,
    Not,
}

/// The operator of a compound assignment.
#[derive(Clone, Copy, Debug)]
pub enum CompoundOperator {
    Plus,
    Minus,
    Asterisk,
    Slash,
    Percent,
    Caret,
    Concat,
}

impl CompoundOperator {
    /// The operator as it is written.
    pub open spec fn text(self) -> Seq<char> {
        match self {
            CompoundOperator::Plus => "+="@,
            CompoundOperator::Minus => "-="@,
            CompoundOperator::Asterisk => "*="@,
            CompoundOperator::Slash => "/="@,
            CompoundOperator::Percent => "%="@,
            CompoundOperator::Caret => "^="@,
            CompoundOperator::Concat => "..="@,
        }
    }

    /// The operator as it is written.
    pub fn to_str(&self) -> (text: &'static str)
        ensures
            text@ == self.text(),
    {
        match self {
            CompoundOperator::Plus => "+=",
            CompoundOperator::Minus => "-=",
            CompoundOperator::Asterisk => "*=",
            CompoundOperator::Slash => "/=",
            CompoundOperator::Percent => "%=",
            CompoundOperator::Caret => "^=",
            CompoundOperator::Concat => "..=",
        }
    }
}

} // verus!
