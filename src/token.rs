//! Tokens that stand in the lists of a task until they are expanded.
use vstd::prelude::*;

verus! {

#[derive(Clone, Debug)]
pub enum Token {
    /// A value taken as it is.
    Literal(String),
    /// The patterns of the named file group.
    FileGroup(String),
    /// The expanded input at this position of the same task.
    Input(usize),
    /// The expanded output at this position of the same task.
    Output(usize),
    /// The named task of the same project.
    OwnTask(String),
    /// The named task of each project that this one depends on.
    DependencyTask(String),
}

impl Token {
    /// An equal token.
    pub fn duplicate(&self) -> (r: Token)
        ensures
            r == *self,
    {
        match self {
            Token::Literal(s) => Token::Literal(s.clone()),
            Token::FileGroup(s) => Token::FileGroup(s.clone()),
            Token::Input(i) => Token::Input(*i),
            Token::Output(i) => Token::Output(*i),
            Token::OwnTask(s) => Token::OwnTask(s.clone()),
            Token::DependencyTask(s) => Token::DependencyTask(s.clone()),
        }
    }
}

/// Copies a list of tokens.
pub fn copy_tokens(v: &Vec<Token>) -> (r: Vec<Token>)
    ensures
        r@ == v@,
{
    let mut r: Vec<Token> = Vec::new();
    let mut i: usize = 0;
    while i < v.len()
        invariant
            i <= v.len(),
            r@ == v@.take(i as int),
        decreases v.len() - i,
    {
        r.push(v[i].duplicate());
        i += 1;
        assert(r@ =~= v@.take(i as int));
    }
    assert(r@ =~= v@);
    r
}

/// Appends a copy of every token of `extra` to `v`.
pub fn extend_tokens(v: &mut Vec<Token>, extra: &Vec<Token>)
    ensures
        final(v)@ == old(v)@ + extra@,
{
    let ghost start = v@;
    let mut i: usize = 0;
    while i < extra.len()
        invariant
            i <= extra.len(),
            v@ == start + extra@.take(i as int),
        decreases extra.len() - i,
    {
        v.push(extra[i].duplicate());
        i += 1;
        assert(v@ =~= start + extra@.take(i as int));
    }
    assert(extra@.take(extra.len() as int) =~= extra@);
}

} // verus!
