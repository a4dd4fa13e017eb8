use vstd::prelude::*;

verus! {

/// Why the arguments could not be turned into a `Config`.
#[derive(Debug, Clone, Copy, PartialEq, Eq, Structural)]
pub enum ConfigError {
    /// Fewer than a program name, a query and a file name were given.
    InsufficientArguments,
}

impl ConfigError {
    /// A message for the user.
    pub fn message(&self) -> (r: &'static str)
        ensures
            r@ == "not enough arguments"@,
    {
        match self {
            ConfigError::InsufficientArguments => "not enough arguments",
        }
    }
}

/// What a search is asked to do: find `query` in the file `filename`,
/// with or without regard to case.
#[derive(Debug)]
pub struct Config {
    pub query: String,
    pub filename: String,
    pub case_sensitive: bool,
}

impl Config {
    /// Reads the query and the file name from `args` (the program name comes
    /// first). Case counts unless `case_insensitive_set` says that the switch
    /// for ignoring it is present, whatever its value.
    pub fn new(args: &[String], case_insensitive_set: bool) -> (r: Result<Config, ConfigError>)
        ensures
            r is Err <==> args@.len() < 3,
            r matches Err(e) ==> e == ConfigError::InsufficientArguments,
            r matches Ok(c) ==> {
                &&& c.query@ == args@[1]@
                &&& c.filename@ == args@[2]@
                &&& c.case_sensitive == !case_insensitive_set
            },
    {
        if args.len() < 3 {
            return Err(ConfigError::InsufficientArguments);
        }
        let query = args[1].clone();
        let filename = args[2].clone();
        Ok(Config { query, filename, case_sensitive: !case_insensitive_set })
    }
}

} // verus!
