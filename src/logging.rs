//! The log filter that the application installs at start-up.

use vstd::prelude::*;
use vstd::string::StringExecFns;

verus! {

/// How much is logged: nothing, or everything up to a level of detail.
#[derive(Clone, Copy, Debug, PartialEq, Eq, Structural)]
pub enum LevelFilter {
    Off,
    Error,
    Warn,
    Info,
    Debug,
    Trace,
}

/// The name of a level, as log filter directives spell it.
pub open spec fn level_text(level: LevelFilter) -> Seq<char> {
    match level {
        LevelFilter::Off => "off"@,
        LevelFilter::Error => "error"@,
        LevelFilter::Warn => "warn"@,
        LevelFilter::Info => "info"@,
        LevelFilter::Debug => "debug"@,
        LevelFilter::Trace => "trace"@,
    }
}

/// The directives `c=level`, one for each crate name, joined by commas.
pub open spec fn directives(crates: Seq<Seq<char>>, level: Seq<char>) -> Seq<char>
    decreases crates.len(),
{
    if crates.len() == 0 {
        Seq::empty()
    } else if crates.len() == 1 {
        crates[0] + "="@ + level
    } else {
        directives(crates.drop_last(), level) + ","@ + crates.last() + "="@ + level
    }
}

/// The name of a level, as log filter directives spell it.
pub fn level_name(level: LevelFilter) -> (r: &'static str)
    ensures
        r@ == level_text(level),
{
    match level {
        LevelFilter::Off => "off",
        LevelFilter::Error => "error",
        LevelFilter::Warn => "warn",
        LevelFilter::Info => "info",
        LevelFilter::Debug => "debug",
        LevelFilter::Trace => "trace",
    }
}

/// The log filter that logs each of `crates` at `level`: the directives
/// `crate=level`, joined by commas.
pub fn log_filter(crates: &[&str], level: LevelFilter) -> (r: String)
    ensures
        r@ == directives(crates@.map_values(|c: &str| c@), level_text(level)),
{
    let name = level_name(level);
    let ghost names = crates@.map_values(|c: &str| c@);
    let mut acc = String::new();
    let mut i: usize = 0;
    while i < crates.len()
        invariant
            i <= crates@.len(),
            names == crates@.map_values(|c: &str| c@),
            name@ == level_text(level),
            acc@ == directives(names.subrange(0, i as int), name@),
        decreases crates@.len() - i,
    {
        let ghost prefix = names.subrange(0, i + 1);
        proof {
            assert(prefix.drop_last() =~= names.subrange(0, i as int));
            assert(prefix.last() == crates@[i as int]@);
        }
        if i > 0 {
            acc.append(",");
        } else {
            proof {
                assert(acc@ =~= Seq::<char>::empty());
            }
        }
        acc.append(crates[i]);
        acc.append("=");
        acc.append(name);
        proof {
            if i == 0 {
                assert(acc@ =~= prefix[0] + "="@ + name@);
            } else {
                assert(acc@ =~= directives(prefix.drop_last(), name@) + ","@ + prefix.last() + "="@
                    + name@);
            }
        }
        i += 1;
    }
    proof {
        assert(names.subrange(0, crates@.len() as int) =~= names);
    }
    acc
}

} // verus!
