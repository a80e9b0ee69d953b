use vstd::prelude::*;
use crate::ast::expr;

verus! {

/// A function literal: name, parameters and body.
#[derive(Debug)]
pub struct Node {
    pub name: String,
    pub params: Vec<Param>,
    pub body: Vec<expr::Node>,
}

#[derive(Debug)]
pub struct Param {
    pub name: String,
}

impl Node {
    pub fn new(name: String, params: Vec<Param>, body: Vec<expr::Node>) -> (r: Self)
        ensures
            r.name == name,
            r.params == params,
            r.body == body,
    {
        Self { name, params, body }
    }

    pub fn name(&self) -> (r: &String)
        ensures
            *r == self.name,
    {
        &self.name
    }

    pub fn params(&self) -> (r: &Vec<Param>)
        ensures
            *r == self.params,
    {
        &self.params
    }

    pub fn body(&self) -> (r: &Vec<expr::Node>)
        ensures
            *r == self.body,
    {
        &self.body
    }
}

impl Param {
    pub fn new(name: String) -> (r: Self)
        ensures
            r.name == name,
    {
        Self { name }
    }

    pub fn name(&self) -> (r: &String)
        ensures
            *r == self.name,
    {
        &self.name
    }
}

} // verus!
