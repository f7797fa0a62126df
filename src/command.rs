use crate::api::{missing_message, missing_message_of};
use crate::schema::copy_strings;
use vstd::prelude::*;
use vstd::string::*;

verus! {

/// A process to run: the record whose builder is written out below, field by
/// field, as the generator produces it.
#[derive(Debug, PartialEq, Eq)]
pub struct Command {
    pub executable: String,
    pub args: Vec<String>,
    pub env: Vec<String>,
    pub current_dir: Option<String>,
}

/// The builder of `Command`: one absent-capable slot per field.
#[derive(Debug, PartialEq, Eq)]
pub struct CommandBuilder {
    pub executable: Option<String>,
    pub args: Option<Vec<String>>,
    pub env: Option<Vec<String>>,
    pub current_dir: Option<Option<String>>,
}

impl Command {
    /// A builder with every field unset.
    pub fn builder() -> (r: CommandBuilder)
        ensures
            r.executable is None,
            r.args is None,
            r.env is None,
            r.current_dir is None,
    {
        CommandBuilder { executable: None, args: None, env: None, current_dir: None }
    }
}

fn copy_option_string(s: &Option<String>) -> (r: Option<String>)
    ensures
        r == *s,
{
    match s {
        Some(d) => Some(d.clone()),
        None => None,
    }
}

impl CommandBuilder {
    pub fn executable(&mut self, executable: String) -> (r: &mut Self)
        ensures
            *r == (CommandBuilder { executable: Some(executable), ..*old(self) }),
            *final(self) == *final(r),
    {
        self.executable = Some(executable);
        self
    }

    pub fn args(&mut self, args: Vec<String>) -> (r: &mut Self)
        ensures
            *r == (CommandBuilder { args: Some(args), ..*old(self) }),
            *final(self) == *final(r),
    {
        self.args = Some(args);
        self
    }

    pub fn env(&mut self, env: Vec<String>) -> (r: &mut Self)
        ensures
            *r == (CommandBuilder { env: Some(env), ..*old(self) }),
            *final(self) == *final(r),
    {
        self.env = Some(env);
        self
    }

    /// Takes the directory itself; the builder wraps it.
    pub fn current_dir(&mut self, current_dir: String) -> (r: &mut Self)
        ensures
            *r == (CommandBuilder { current_dir: Some(Some(current_dir)), ..*old(self) }),
            *final(self) == *final(r),
    {
        self.current_dir = Some(Some(current_dir));
        self
    }

    /// Fails with the message of the first unset required field, in the
    /// order `executable`, `args`, `env`; otherwise returns the command, with
    /// `current_dir` as set or `None`. The builder is only read.
    pub fn build(&self) -> (r: Result<Command, String>)
        ensures
            self.executable is None ==> r is Err && r->Err_0@ == missing_message_of("executable"@),
            self.executable is Some && self.args is None ==> r is Err && r->Err_0@
                == missing_message_of("args"@),
            self.executable is Some && self.args is Some && self.env is None ==> r is Err
                && r->Err_0@ == missing_message_of("env"@),
            self.executable is Some && self.args is Some && self.env is Some ==> r is Ok && ({
                let c = r->Ok_0;
                &&& c.executable == self.executable->Some_0
                &&& c.args@ == self.args->Some_0@
                &&& c.env@ == self.env->Some_0@
                &&& c.current_dir == match self.current_dir {
                    Some(d) => d,
                    None => None,
                }
            }),
    {
        let executable = match &self.executable {
            Some(e) => e.clone(),
            None => return Err(missing_message(&String::from_str("executable"))),
        };
        let args = match &self.args {
            Some(a) => copy_strings(a),
            None => return Err(missing_message(&String::from_str("args"))),
        };
        let env = match &self.env {
            Some(e) => copy_strings(e),
            None => return Err(missing_message(&String::from_str("env"))),
        };
        let current_dir = match &self.current_dir {
            Some(d) => copy_option_string(d),
            None => None,
        };
        Ok(Command { executable, args, env, current_dir })
    }
}

} // verus!
