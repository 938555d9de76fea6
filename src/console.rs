//! Routing of the guest's console calls to a host sink.

use vstd::prelude::*;
use crate::value::JsValue;

verus! {

/// Severity of a console message.
#[derive(Clone, Copy, Debug, PartialEq, Eq)]
pub enum Level {
    Trace,
    Debug,
    Log,
    Info,
    Warn,
    Error,
}

/// The level named by `s`, if any.
pub open spec fn level_named(s: Seq<char>) -> Option<Level> {
    if s == "trace"@ {
        Some(Level::Trace)
    } else if s == "debug"@ {
        Some(Level::Debug)
    } else if s == "log"@ {
        Some(Level::Log)
    } else if s == "info"@ {
        Some(Level::Info)
    } else if s == "warn"@ {
        Some(Level::Warn)
    } else if s == "error"@ {
        Some(Level::Error)
    } else {
        None
    }
}

/// The name of a level.
pub open spec fn level_name(l: Level) -> Seq<char> {
    match l {
        Level::Trace => "trace"@,
        Level::Debug => "debug"@,
        Level::Log => "log"@,
        Level::Info => "info"@,
        Level::Warn => "warn"@,
        Level::Error => "error"@,
    }
}

fn str_eq(a: &str, b: &str) -> (r: bool)
    ensures
        r == (a@ == b@),
{
    let x = String::from_str(a);
    let y = String::from_str(b);
    x == y
}

/// The level named by `s`, if any.
pub fn parse_level(s: &str) -> (r: Option<Level>)
    ensures
        r == level_named(s@),
{
    if str_eq(s, "trace") {
        Some(Level::Trace)
    } else if str_eq(s, "debug") {
        Some(Level::Debug)
    } else if str_eq(s, "log") {
        Some(Level::Log)
    } else if str_eq(s, "info") {
        Some(Level::Info)
    } else if str_eq(s, "warn") {
        Some(Level::Warn)
    } else if str_eq(s, "error") {
        Some(Level::Error)
    } else {
        None
    }
}

impl Level {
    /// The level's name.
    pub fn name(&self) -> (r: &'static str)
        ensures
            r@ == level_name(*self),
    {
        match self {
            Level::Trace => "trace",
            Level::Debug => "debug",
            Level::Log => "log",
            Level::Info => "info",
            Level::Warn => "warn",
            Level::Error => "error",
        }
    }
}

/// The level of a console call and the values it writes, given the call's
/// arguments: the first argument names the level and at least one value
/// follows it. `None` (nothing is written) for fewer than two arguments or a
/// first argument that names no level.
pub fn console_message<G, R>(args: Vec<JsValue<G, R>>) -> (r: Option<(Level, Vec<JsValue<G, R>>)>)
    ensures
        match r {
            Some((level, values)) => args@.len() > 1 && args@[0] is String && level_named(
                args@[0]->String_0@,
            ) == Some(level) && values@ == args@.subrange(1, args@.len() as int),
            None => args@.len() <= 1 || !(args@[0] is String) || level_named(args@[0]->String_0@) is None,
        },
{
    if args.len() <= 1 {
        return None;
    }
    let level = match args[0].as_str() {
        Some(name) => parse_level(name),
        None => None,
    };
    match level {
        Some(level) => {
            let mut args = args;
            let ghost all = args@;
            let _first = args.remove(0);
            assert(args@ =~= all.subrange(1, all.len() as int));
            Some((level, args))
        },
        None => None,
    }
}

} // verus!
