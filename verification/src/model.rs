//! The syntax tree: programs, statements, expressions and their operators.
use vstd::prelude::*;

pub mod expressions;
pub mod statements;

use statements::{stmts_view, Stmt, StmtView};

verus! {

/// Arithmetic operators of binary expressions.
#[derive(Clone, Copy, PartialEq, Eq, Debug)]
pub enum BinOperator {
    Add,
    Mul,
}

/// Relational operators of conditions.
#[derive(Clone, Copy, PartialEq, Eq, Debug)]
pub enum RelOperator {
    Equal,
    LessThan,
}

/// The text that was offered as a binary operator and is none.
#[derive(PartialEq, Eq, Debug)]
pub struct InvalidOperator {
    pub text: String,
}

impl BinOperator {
    /// The operator that a piece of source text denotes, if any.
    pub open spec fn from_symbol_spec(s: Seq<char>) -> Option<BinOperator> {
        if s == seq!['+'] {
            Some(BinOperator::Add)
        } else if s == seq!['*'] {
            Some(BinOperator::Mul)
        } else {
            None
        }
    }

    /// The source text of the operator.
    pub open spec fn symbol_spec(self) -> Seq<char> {
        match self {
            BinOperator::Add => seq!['+'],
            BinOperator::Mul => seq!['*'],
        }
    }

    /// Reads an operator from its source text: `+` or `*`.
    pub fn from_symbol(s: &str) -> (r: Result<BinOperator, InvalidOperator>)
        ensures
            match r {
                Ok(op) => Self::from_symbol_spec(s@) == Some(op),
                Err(e) => Self::from_symbol_spec(s@) is None && e.text@ == s@,
            },
    {
        if s.unicode_len() == 1 {
            let c = s.get_char(0);
            if c == '+' {
                assert(s@ =~= seq!['+']);
                return Ok(BinOperator::Add);
            }
            if c == '*' {
                assert(s@ =~= seq!['*']);
                return Ok(BinOperator::Mul);
            }
        }
        Err(InvalidOperator { text: s.to_owned() })
    }

    /// The source text of the operator.
    pub fn symbol(&self) -> (r: &'static str)
        ensures
            r@ == self.symbol_spec(),
    {
        proof {
            reveal_strlit("+");
            reveal_strlit("*");
        }
        match self {
            BinOperator::Add => {
                assert("+"@ =~= seq!['+']);
                "+"
            },
            BinOperator::Mul => {
                assert("*"@ =~= seq!['*']);
                "*"
            },
        }
    }
}

impl std::str::FromStr for BinOperator {
    type Err = InvalidOperator;

    fn from_str(s: &str) -> (r: Result<Self, Self::Err>)
        ensures
            match r {
                Ok(op) => Self::from_symbol_spec(s@) == Some(op),
                Err(e) => Self::from_symbol_spec(s@) is None && e.text@ == s@,
            },
    {
        BinOperator::from_symbol(s)
    }
}

impl RelOperator {
    /// The source text of the operator.
    pub open spec fn symbol_spec(self) -> Seq<char> {
        match self {
            RelOperator::Equal => seq!['=', '='],
            RelOperator::LessThan => seq!['<'],
        }
    }

    /// The source text of the operator.
    pub fn symbol(&self) -> (r: &'static str)
        ensures
            r@ == self.symbol_spec(),
    {
        proof {
            reveal_strlit("==");
            reveal_strlit("<");
        }
        match self {
            RelOperator::Equal => {
                assert("=="@ =~= seq!['=', '=']);
                "=="
            },
            RelOperator::LessThan => {
                assert("<"@ =~= seq!['<']);
                "<"
            },
        }
    }
}

/// A program: its top-level statements in source order.
#[derive(PartialEq, Eq, Debug)]
pub struct Program {
    pub stmts: Vec<Stmt>,
}

impl View for Program {
    type V = Seq<StmtView>;

    open spec fn view(&self) -> Seq<StmtView> {
        stmts_view(self.stmts@)
    }
}

} // verus!
