//! The client's stored settings and the rules that read them.

use vstd::prelude::*;
use vstd::string::*;

use crate::protocol::{accepted_protocol, GraphicsProtocol, ProtocolError};
use crate::text::{chars_of, str_eq, string_of};

verus! {

/// Settings kept between runs.
pub struct AppConfig {
    pub user_email: Option<String>,
    pub last_problem: Option<String>,
    pub graphics_protocol: Option<GraphicsProtocol>,
}

impl Default for AppConfig {
    fn default() -> (r: AppConfig)
        ensures
            r.user_email is None,
            r.last_problem is None,
            r.graphics_protocol is None,
    {
        AppConfig { user_email: None, last_problem: None, graphics_protocol: None }
    }
}

/// Why a setting could not be read.
#[derive(Clone, Copy, Debug, PartialEq, Eq, Structural)]
pub enum ConfigError {
    /// `.` was given for the problem and none was viewed before.
    NoLastProblem,
}

/// The problem that `specified` stands for: `.` means the one viewed last,
/// any other text itself.
pub fn ensure_last_problem(specified: &str, config: &Option<AppConfig>) -> (r: Result<
    String,
    ConfigError,
>)
    ensures
        specified@ != "."@ ==> r is Ok && r->Ok_0@ == specified@,
        specified@ == "."@ ==> match config {
            Some(c) => match c.last_problem {
                Some(p) => r is Ok && r->Ok_0@ == p@,
                None => r == Err::<String, ConfigError>(ConfigError::NoLastProblem),
            },
            None => r == Err::<String, ConfigError>(ConfigError::NoLastProblem),
        },
{
    if str_eq(specified, ".") {
        match config {
            Some(c) => match &c.last_problem {
                Some(p) => Ok(p.clone()),
                None => Err(ConfigError::NoLastProblem),
            },
            None => Err(ConfigError::NoLastProblem),
        }
    } else {
        Ok(specified.to_owned())
    }
}

/// The stored settings with the graphics protocol named by `graphics`;
/// other settings are kept, or empty when none were stored.
pub fn configure(conf: Option<AppConfig>, graphics: &str) -> (r: Result<AppConfig, ProtocolError>)
    ensures
        match accepted_protocol(graphics@) {
            Some(p) => r is Ok && r->Ok_0.graphics_protocol == Some(p) && match conf {
                Some(c) => r->Ok_0.user_email == c.user_email && r->Ok_0.last_problem
                    == c.last_problem,
                None => r->Ok_0.user_email is None && r->Ok_0.last_problem is None,
            },
            None => r is Err,
        },
{
    let protocol = match GraphicsProtocol::parse(graphics) {
        Ok(p) => p,
        Err(e) => return Err(e),
    };
    let base = match conf {
        Some(c) => c,
        None => AppConfig::default(),
    };
    Ok(AppConfig { graphics_protocol: Some(protocol), ..base })
}

/// `s` without one leading and one trailing slash, where it has them.
pub open spec fn without_slashes(s: Seq<char>) -> Seq<char> {
    let a = if s.len() > 0 && s[0] == '/' {
        s.drop_first()
    } else {
        s
    };
    if a.len() > 0 && a.last() == '/' {
        a.drop_last()
    } else {
        a
    }
}

/// Drops one leading and one trailing `/` from a path.
pub fn strip_slashes(text: &str) -> (r: String)
    ensures
        r@ == without_slashes(text@),
{
    let cs = chars_of(text);
    let mut lo: usize = 0;
    let mut hi: usize = cs.len();
    if hi > 0 && cs[0] == '/' {
        lo = 1;
    }
    if hi > lo && cs[hi - 1] == '/' {
        hi = hi - 1;
    }
    let mut kept: Vec<char> = Vec::new();
    let mut i: usize = lo;
    while i < hi
        invariant
            lo <= i <= hi <= cs.len(),
            kept@ == cs@.subrange(lo as int, i as int),
        decreases hi - i,
    {
        kept.push(cs[i]);
        i = i + 1;
        assert(kept@ =~= cs@.subrange(lo as int, i as int));
    }
    let r = string_of(&kept);
    proof {
        let a = if text@.len() > 0 && text@[0] == '/' {
            text@.drop_first()
        } else {
            text@
        };
        assert(a =~= cs@.subrange(lo as int, cs.len() as int));
        if a.len() > 0 && a.last() == '/' {
            assert(a.drop_last() =~= cs@.subrange(lo as int, hi as int));
        } else {
            assert(a =~= cs@.subrange(lo as int, hi as int));
        }
    }
    r
}

} // verus!
