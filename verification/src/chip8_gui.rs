//! The configuration of the plain front end.

use vstd::prelude::*;

verus! {

pub struct Config {
    pub rom_filename: String,
}

impl Config {
    /// Reads the program image's path from the command line: the argument
    /// after the program's own name.
    pub fn new(args: &[String]) -> (res: Result<Config, &'static str>)
        ensures
            args@.len() < 2 <==> res is Err,
            res matches Err(message) ==> message@ == "not enough arguments"@,
            res matches Ok(config) ==> config.rom_filename@ == args@[1]@,
    {
        if args.len() < 2 {
            return Err("not enough arguments");
        }
        let rom_filename = args[1].clone();
        Ok(Config { rom_filename })
    }
}

} // verus!
