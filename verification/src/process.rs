//! Descriptions of the outside programs that a run calls. The library says
//! what is to be run; running it is left to the caller.

use vstd::prelude::*;

verus! {

/// One call of an outside program.
#[derive(Debug, PartialEq, Eq)]
pub struct Invocation {
    /// The program, by name or by path.
    pub program: String,
    /// Its arguments, in order.
    pub args: Vec<String>,
    /// The directory in which it runs, where that is not the caller's own.
    pub working_dir: Option<String>,
    /// Variables added to its environment, in order: a later entry replaces
    /// an earlier one of the same name.
    pub env: Vec<(String, String)>,
    /// What is written to its standard input, if anything.
    pub stdin: Option<String>,
}

/// Mathematical model of an [`Invocation`].
pub struct InvocationSpec {
    pub program: Seq<char>,
    pub args: Seq<Seq<char>>,
    pub working_dir: Option<Seq<char>>,
    pub env: Seq<(Seq<char>, Seq<char>)>,
    pub stdin: Option<Seq<char>>,
}

/// The texts of a run of strings.
pub open spec fn texts(strings: Seq<String>) -> Seq<Seq<char>> {
    Seq::new(strings.len(), |i: int| strings[i]@)
}

/// The texts of a run of pairs of strings.
pub open spec fn text_pairs(pairs: Seq<(String, String)>) -> Seq<(Seq<char>, Seq<char>)> {
    Seq::new(pairs.len(), |i: int| (pairs[i].0@, pairs[i].1@))
}

/// The text of an optional string.
pub open spec fn optional_text(s: Option<String>) -> Option<Seq<char>> {
    match s {
        Some(t) => Some(t@),
        None => None,
    }
}

impl View for Invocation {
    type V = InvocationSpec;

    open spec fn view(&self) -> InvocationSpec {
        InvocationSpec {
            program: self.program@,
            args: texts(self.args@),
            working_dir: optional_text(self.working_dir),
            env: text_pairs(self.env@),
            stdin: optional_text(self.stdin),
        }
    }
}

/// A call of `program` with no arguments, in the caller's directory and
/// environment.
pub open spec fn plain_call(program: Seq<char>, args: Seq<Seq<char>>) -> InvocationSpec {
    InvocationSpec { program, args, working_dir: None, env: Seq::empty(), stdin: None }
}

/// Adds a text at the end of a run of strings.
pub fn push_text(strings: &mut Vec<String>, s: &str)
    ensures
        texts(final(strings)@) == texts(old(strings)@).push(s@),
{
    strings.push(s.to_owned());
    assert(texts(strings@) =~= texts(old(strings)@).push(s@));
}

/// A run of strings that is about to be filled.
pub fn no_texts() -> (strings: Vec<String>)
    ensures
        texts(strings@) == Seq::<Seq<char>>::empty(),
{
    let strings: Vec<String> = Vec::new();
    assert(texts(strings@) =~= Seq::<Seq<char>>::empty());
    strings
}

/// A call of `program` with the given arguments, in the caller's directory
/// and environment, with nothing on its standard input.
pub fn call(program: &str, args: Vec<String>) -> (r: Invocation)
    ensures
        r@ == plain_call(program@, texts(args@)),
{
    let env: Vec<(String, String)> = Vec::new();
    assert(text_pairs(env@) =~= Seq::<(Seq<char>, Seq<char>)>::empty());
    Invocation { program: program.to_owned(), args, working_dir: None, env, stdin: None }
}

/// The models of a run of calls.
pub open spec fn invocations(calls: Seq<Invocation>) -> Seq<InvocationSpec> {
    Seq::new(calls.len(), |i: int| calls[i]@)
}

/// No calls.
pub fn no_calls() -> (calls: Vec<Invocation>)
    ensures
        invocations(calls@) == Seq::<InvocationSpec>::empty(),
{
    let calls: Vec<Invocation> = Vec::new();
    assert(invocations(calls@) =~= Seq::<InvocationSpec>::empty());
    calls
}

/// Adds a call at the end of a run of calls.
pub fn push_call(calls: &mut Vec<Invocation>, invocation: Invocation)
    ensures
        invocations(final(calls)@) == invocations(old(calls)@).push(invocation@),
{
    calls.push(invocation);
    assert(invocations(calls@) =~= invocations(old(calls)@).push(invocation@));
}

} // verus!
