//! The server's start-up configuration.

use vstd::prelude::*;

use crate::text::{decimal, parse_port, port_value, write_decimal};

verus! {

/// Where the server keeps its data, the address it listens on and who runs it.
pub struct Config {
    pub data_dir: String,
    pub ip: String,
    pub port: u16,
    pub email: String,
    pub name: String,
}

impl Config {
    /// The `ip:port` address the server listens on.
    pub fn host(&self) -> (r: String)
        ensures
            r@ == self.ip@ + ":"@ + decimal(self.port as nat),
    {
        let mut r = self.ip.clone();
        r.append(":");
        write_decimal(&mut r, self.port as u64);
        r
    }

    /// The configuration given on the command line (without the program
    /// name): data directory, ip, port, name and email, in that order.
    /// `None` when an argument is missing or the port is not a 16-bit number.
    pub fn from_args(args: &Vec<String>) -> (r: Option<Config>)
        ensures
            r is Some <==> args@.len() >= 5 && port_value(args@[2]@) is Some,
            r matches Some(c) ==> {
                &&& c.data_dir@ == args@[0]@
                &&& c.ip@ == args@[1]@
                &&& Some(c.port) == port_value(args@[2]@)
                &&& c.name@ == args@[3]@
                &&& c.email@ == args@[4]@
            },
    {
        if args.len() < 5 {
            return None;
        }
        let port = match parse_port(args[2].as_str()) {
            Some(p) => p,
            None => {
                return None;
            },
        };
        Some(
            Config {
                data_dir: args[0].clone(),
                ip: args[1].clone(),
                port,
                name: args[3].clone(),
                email: args[4].clone(),
            },
        )
    }

    /// The log file kept in the data directory.
    pub fn log_file(&self) -> (r: String)
        ensures
            r@ == self.data_dir@ + "/karasync.log"@,
    {
        let mut r = self.data_dir.clone();
        r.append("/karasync.log");
        r
    }
}

/// A copy of the current configuration.
pub fn get_config(config: &Config) -> (r: Config)
    ensures
        r.data_dir@ == config.data_dir@,
        r.ip@ == config.ip@,
        r.port == config.port,
        r.email@ == config.email@,
        r.name@ == config.name@,
{
    Config {
        data_dir: config.data_dir.clone(),
        ip: config.ip.clone(),
        port: config.port,
        name: config.name.clone(),
        email: config.email.clone(),
    }
}

} // verus!
