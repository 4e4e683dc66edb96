//! A description of a process to start: the program, its arguments and the
//! directory to start it in.
use vstd::prelude::*;
use crate::working_dir::{copy_names, views_of};

verus! {

/// A process to start.
#[derive(Debug)]
pub struct ProcessBuilder {
    /// The program to execute.
    pub program: String,
    /// The arguments given to the program.
    pub args: Vec<String>,
    /// The directory to execute the program from.
    pub cwd: Option<String>,
}

impl Clone for ProcessBuilder {
    fn clone(&self) -> (r: Self)
        ensures
            r.program == self.program,
            r.args@ == self.args@,
            r.cwd == self.cwd,
    {
        let cwd = match &self.cwd {
            Some(c) => Some(c.clone()),
            None => None,
        };
        ProcessBuilder { program: self.program.clone(), args: copy_names(&self.args), cwd }
    }
}

impl ProcessBuilder {
    /// Sets the program.
    pub fn program(&mut self, program: &str) -> (r: &mut ProcessBuilder)
        ensures
            r.program@ == program@,
            r.args@ == old(self).args@,
            r.cwd == old(self).cwd,
            *final(self) == *final(r),
    {
        self.program = String::from_str(program);
        self
    }

    /// Appends an argument.
    pub fn arg(&mut self, arg: &str) -> (r: &mut ProcessBuilder)
        ensures
            r.program == old(self).program,
            views_of(r.args@) == views_of(old(self).args@).push(arg@),
            r.cwd == old(self).cwd,
            *final(self) == *final(r),
    {
        let ghost before = self.args@;
        self.args.push(String::from_str(arg));
        assert(views_of(self.args@) =~= views_of(before).push(arg@));
        self
    }

    /// Sets the directory to start in.
    pub fn cwd(&mut self, path: &str) -> (r: &mut ProcessBuilder)
        ensures
            r.program == old(self).program,
            r.args@ == old(self).args@,
            r.cwd matches Some(c) && c@ == path@,
            *final(self) == *final(r),
    {
        self.cwd = Some(String::from_str(path));
        self
    }

    /// The program.
    pub fn get_program(&self) -> (r: &String)
        ensures
            r == &self.program,
    {
        &self.program
    }

    /// The arguments.
    pub fn get_args(&self) -> (r: &[String])
        ensures
            r@ == self.args@,
    {
        self.args.as_slice()
    }

    /// The directory to start in.
    pub fn get_cwd(&self) -> (r: Option<&String>)
        ensures
            match r {
                Some(c) => self.cwd == Some(*c),
                None => self.cwd is None,
            },
    {
        self.cwd.as_ref()
    }
}

/// An image for the container engine to build.
#[derive(Debug)]
pub struct ImageBuilder {
    /// The container engine.
    pub name: String,
    /// The tag the image is built with.
    pub tag: String,
    /// The directory holding the image's build file.
    pub path: String,
}

impl ImageBuilder {
    /// The process that builds the image: `<name> build -t <tag> <path>`.
    pub fn process(&self) -> (r: ProcessBuilder)
        ensures
            r.program@ == self.name@,
            views_of(r.args@) == seq!["build"@, "-t"@, self.tag@, self.path@],
            r.cwd is None,
    {
        let mut args: Vec<String> = Vec::new();
        args.push(String::from_str("build"));
        args.push(String::from_str("-t"));
        args.push(self.tag.clone());
        args.push(self.path.clone());
        assert(views_of(args@) =~= seq!["build"@, "-t"@, self.tag@, self.path@]);
        ProcessBuilder { program: self.name.clone(), args, cwd: None }
    }
}

} // verus!
