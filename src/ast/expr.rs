use vstd::prelude::*;
use crate::ast::function;
use crate::lexer::location::Location;
use crate::lexer::token::{symbol_kind, PunctKind, TokenKind};

verus! {

/// An expression node with the location it was read from.
#[derive(Debug)]
pub struct Node {
    pub kind: Kind,
    pub loc: Location,
}

#[derive(Debug)]
pub enum Kind {
    Int(i64),
    Ident(String),
    Function(Box<function::Node>),
    BinOp(BinOpKind, Box<Node>, Box<Node>),
    /// Callee and arguments.
    Call(Box<Node>, Vec<Node>),
    /// Condition, "then" body, optional "else" body.
    If(Box<Node>, Box<Node>, Option<Box<Node>>),
    Return(Box<Node>),
    Exprs(Vec<Node>),
}

#[derive(Debug, Clone, Copy, PartialEq, Eq, Structural)]
pub enum BinOpKind {
    Add,
    Sub,
    Mul,
    Div,
    Eq,
    Neq,
}

/// The binary operator that a punctuation mark denotes, if any.
pub open spec fn punct_op(p: PunctKind) -> Option<BinOpKind> {
    match p {
        PunctKind::Plus => Some(BinOpKind::Add),
        PunctKind::Minus => Some(BinOpKind::Sub),
        PunctKind::Star => Some(BinOpKind::Mul),
        PunctKind::Slash => Some(BinOpKind::Div),
        PunctKind::Eq => Some(BinOpKind::Eq),
        _ => None,
    }
}

impl BinOpKind {
    /// The binary operator that the punctuation mark `p` denotes.
    pub fn from_punct(p: PunctKind) -> (r: Option<BinOpKind>)
        ensures
            r == punct_op(p),
    {
        match p {
            PunctKind::Plus => Some(BinOpKind::Add),
            PunctKind::Minus => Some(BinOpKind::Sub),
            PunctKind::Star => Some(BinOpKind::Mul),
            PunctKind::Slash => Some(BinOpKind::Div),
            PunctKind::Eq => Some(BinOpKind::Eq),
            _ => None,
        }
    }

    /// The binary operator spelled by `s`.
    pub fn from_str(s: &str) -> (r: Option<BinOpKind>)
        ensures
            r == match symbol_kind(s@) {
                Some(TokenKind::Punct(p)) => punct_op(p),
                _ => None,
            },
    {
        match TokenKind::from_str(s) {
            Some(TokenKind::Punct(p)) => Self::from_punct(p),
            _ => None,
        }
    }
}

impl Node {
    pub fn new(kind: Kind, loc: Location) -> (r: Self)
        ensures
            r.kind == kind,
            r.loc == loc,
    {
        Self { kind, loc }
    }

    pub fn kind(&self) -> (r: &Kind)
        ensures
            *r == self.kind,
    {
        &self.kind
    }
}

} // verus!
