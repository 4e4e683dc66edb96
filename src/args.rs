//! The command-line arguments an operation was given, as plain values.
use vstd::prelude::*;
use crate::text::same_text;
use crate::working_dir::views_of;

verus! {

/// One argument that occurred, with the values given to it.
#[derive(Debug)]
pub struct MatchedArg {
    pub name: String,
    pub vals: Vec<String>,
}

/// The arguments that occurred on the command line; the first occurrence of a
/// name is the one that counts.
#[derive(Debug)]
pub struct ArgMatches {
    pub args: Vec<MatchedArg>,
}

/// The position of the first argument called `name`, if any.
pub open spec fn find_arg(args: Seq<MatchedArg>, name: Seq<char>) -> Option<int>
    decreases args.len(),
{
    if args.len() == 0 {
        None
    } else if args[0].name@ == name {
        Some(0)
    } else {
        match find_arg(args.drop_first(), name) {
            Some(i) => Some(i + 1),
            None => None,
        }
    }
}

/// A found argument is in range and has the name looked for.
pub proof fn lemma_find_arg_bounds(args: Seq<MatchedArg>, name: Seq<char>)
    ensures
        find_arg(args, name) matches Some(i) ==> 0 <= i < args.len() && args[i].name@ == name,
    decreases args.len(),
{
    if args.len() > 0 && args[0].name@ != name {
        lemma_find_arg_bounds(args.drop_first(), name);
    }
}

impl ArgMatches {
    /// Whether an argument called `name` occurred.
    pub open spec fn present(&self, name: Seq<char>) -> bool {
        find_arg(self.args@, name) is Some
    }

    /// All values given to `name`, when it occurred.
    pub open spec fn values_spec(&self, name: Seq<char>) -> Option<Seq<Seq<char>>> {
        match find_arg(self.args@, name) {
            Some(i) => Some(views_of(self.args@[i].vals@)),
            None => None,
        }
    }

    /// The first value given to `name`, when it occurred with one.
    pub open spec fn value_spec(&self, name: Seq<char>) -> Option<Seq<char>> {
        match self.values_spec(name) {
            Some(v) => if v.len() > 0 {
                Some(v[0])
            } else {
                None
            },
            None => None,
        }
    }

    /// No arguments at all.
    pub fn new() -> (r: Self)
        ensures
            r.args@.len() == 0,
    {
        ArgMatches { args: Vec::new() }
    }

    /// Whether no argument occurred.
    pub fn is_empty(&self) -> (r: bool)
        ensures
            r == (self.args@.len() == 0),
    {
        self.args.len() == 0
    }

    /// The position of the first argument called `name`.
    fn position(&self, name: &str) -> (r: Option<usize>)
        ensures
            r matches Some(i) ==> find_arg(self.args@, name@) == Some(i as int),
            r is None ==> find_arg(self.args@, name@) is None,
    {
        let mut i: usize = 0;
        assert(self.args@.subrange(0, self.args@.len() as int) == self.args@);
        while i < self.args.len()
            invariant
                i <= self.args.len(),
                find_arg(self.args@, name@) == match find_arg(
                    self.args@.subrange(i as int, self.args@.len() as int),
                    name@,
                ) {
                    Some(k) => Some(k + i),
                    None => None,
                },
            decreases self.args.len() - i,
        {
            let ghost rest = self.args@.subrange(i as int, self.args@.len() as int);
            assert(rest.drop_first() == self.args@.subrange(i + 1, self.args@.len() as int));
            assert(rest[0] == self.args@[i as int]);
            if same_text(self.args[i].name.as_str(), name) {
                return Some(i);
            }
            i = i + 1;
        }
        assert(self.args@.subrange(i as int, self.args@.len() as int).len() == 0);
        None
    }

    /// Whether an argument called `name` occurred.
    pub fn is_present(&self, name: &str) -> (r: bool)
        ensures
            r == self.present(name@),
    {
        self.position(name).is_some()
    }

    /// The first value given to `name`.
    pub fn value_of(&self, name: &str) -> (r: Option<String>)
        ensures
            match r {
                Some(s) => self.value_spec(name@) == Some(s@),
                None => self.value_spec(name@) is None,
            },
    {
        match self.position(name) {
            Some(i) => {
                proof {
                    lemma_find_arg_bounds(self.args@, name@);
                }
                if self.args[i].vals.len() > 0 {
                    Some(self.args[i].vals[0].clone())
                } else {
                    None
                }
            },
            None => None,
        }
    }

    /// All values given to `name`.
    pub fn values_of(&self, name: &str) -> (r: Option<Vec<String>>)
        ensures
            match r {
                Some(v) => self.values_spec(name@) == Some(views_of(v@)),
                None => self.values_spec(name@) is None,
            },
    {
        match self.position(name) {
            Some(i) => {
                proof {
                    lemma_find_arg_bounds(self.args@, name@);
                }
                Some(self.args[i].vals.clone())
            },
            None => None,
        }
    }
}

} // verus!
