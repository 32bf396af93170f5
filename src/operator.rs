//! Unary and binary SQL operators and their fixed tokens.
use vstd::prelude::*;
use vstd::string::StringExecFns;

verus! {

/// Unary operators
#[derive(Debug, Clone, Copy, PartialEq, Eq, Hash)]
pub enum UnaryOperator {
    Plus,
    Minus,
    Not,
}

/// The SQL token of a unary operator.
pub open spec fn unary_token(op: UnaryOperator) -> Seq<char> {
    match op {
        UnaryOperator::Plus => "+"@,
        UnaryOperator::Minus => "-"@,
        UnaryOperator::Not => "NOT"@,
    }
}

impl UnaryOperator {
    /// The operator's SQL token.
    pub fn to_string(&self) -> (r: String)
        ensures
            r@ == unary_token(*self),
    {
        String::from_str(
            match self {
                UnaryOperator::Plus => "+",
                UnaryOperator::Minus => "-",
                UnaryOperator::Not => "NOT",
            },
        )
    }
}

/// Binary operators
#[derive(Debug, Clone, Copy, PartialEq, Eq, Hash)]
pub enum BinaryOperator {
    Plus,
    Minus,
    Multiply,
    Divide,
    Modulus,
    Gt,
    Lt,
    GtEq,
    LtEq,
    Eq,
    NotEq,
    And,
    Or,
    Like,
    Ilike,
    NotLike,
}

/// The SQL token of a binary operator.
pub open spec fn binary_token(op: BinaryOperator) -> Seq<char> {
    match op {
        BinaryOperator::Plus => "+"@,
        BinaryOperator::Minus => "-"@,
        BinaryOperator::Multiply => "*"@,
        BinaryOperator::Divide => "/"@,
        BinaryOperator::Modulus => "%"@,
        BinaryOperator::Gt => ">"@,
        BinaryOperator::Lt => "<"@,
        BinaryOperator::GtEq => ">="@,
        BinaryOperator::LtEq => "<="@,
        BinaryOperator::Eq => "="@,
        BinaryOperator::NotEq => "<>"@,
        BinaryOperator::And => "AND"@,
        BinaryOperator::Or => "OR"@,
        BinaryOperator::Like => "LIKE"@,
        BinaryOperator::Ilike => "ILIKE"@,
        BinaryOperator::NotLike => "NOT LIKE"@,
    }
}

impl BinaryOperator {
    /// The operator's SQL token.
    pub fn to_string(&self) -> (r: String)
        ensures
            r@ == binary_token(*self),
    {
        String::from_str(
            match self {
                BinaryOperator::Plus => "+",
                BinaryOperator::Minus => "-",
                BinaryOperator::Multiply => "*",
                BinaryOperator::Divide => "/",
                BinaryOperator::Modulus => "%",
                BinaryOperator::Gt => ">",
                BinaryOperator::Lt => "<",
                BinaryOperator::GtEq => ">=",
                BinaryOperator::LtEq => "<=",
                BinaryOperator::Eq => "=",
                BinaryOperator::NotEq => "<>",
                BinaryOperator::And => "AND",
                BinaryOperator::Or => "OR",
                BinaryOperator::Like => "LIKE",
                BinaryOperator::Ilike => "ILIKE",
                BinaryOperator::NotLike => "NOT LIKE",
            },
        )
    }
}

/// Every unary operator has a non-empty token.
pub proof fn lemma_unary_token_nonempty(op: UnaryOperator)
    ensures
        unary_token(op).len() > 0,
{
    reveal_strlit("+");
    reveal_strlit("-");
    reveal_strlit("NOT");
}

/// Every binary operator has a non-empty token.
pub proof fn lemma_binary_token_nonempty(op: BinaryOperator)
    ensures
        binary_token(op).len() > 0,
{
    reveal_strlit("+");
    reveal_strlit("-");
    reveal_strlit("*");
    reveal_strlit("/");
    reveal_strlit("%");
    reveal_strlit(">");
    reveal_strlit("<");
    reveal_strlit(">=");
    reveal_strlit("<=");
    reveal_strlit("=");
    reveal_strlit("<>");
    reveal_strlit("AND");
    reveal_strlit("OR");
    reveal_strlit("LIKE");
    reveal_strlit("ILIKE");
    reveal_strlit("NOT LIKE");
}

} // verus!
