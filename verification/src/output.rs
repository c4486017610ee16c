//! How much is said, and the shape of a line of the log.

use vstd::prelude::*;
use crate::text::chars_of;

verus! {

/// What the output depends on. It is handed to whoever writes.
#[derive(Debug, Clone, Copy, PartialEq, Eq, Structural)]
pub struct OutputContext {
    pub verbose: bool,
}

/// The context for a run with the given verbosity.
pub fn init(verbose: bool) -> (ctx: OutputContext)
    ensures
        ctx.verbose == verbose,
{
    OutputContext { verbose }
}

/// The context of a run that was told nothing: it is not verbose.
pub fn context() -> (ctx: OutputContext)
    ensures
        !ctx.verbose,
{
    OutputContext { verbose: false }
}

/// Whether more than the results is to be said.
pub fn is_verbose(ctx: &OutputContext) -> (b: bool)
    ensures
        b == ctx.verbose,
{
    ctx.verbose
}

/// A line of the log on standard output: the prefix, a space, the
/// message.
pub open spec fn log_line(prefix: Seq<char>, msg: Seq<char>) -> Seq<char> {
    prefix + " "@ + msg
}

/// `n` spaces.
pub open spec fn spaces(n: nat) -> Seq<char> {
    Seq::new(n, |i: int| ' ')
}

/// A line of the log on standard error: the prefix, filled up with spaces
/// to seven characters where it is shorter, then the message.
pub open spec fn error_log_line(prefix: Seq<char>, msg: Seq<char>) -> Seq<char> {
    if prefix.len() < 7 {
        prefix + spaces((7 - prefix.len()) as nat) + msg
    } else {
        prefix + msg
    }
}

pub fn format_log_line(prefix: &str, msg: &str) -> (s: String)
    ensures
        s@ == log_line(prefix@, msg@),
{
    let mut s = String::from_str(prefix);
    s.append(" ");
    s.append(msg);
    s
}

pub fn format_error_log_line(prefix: &str, msg: &str) -> (s: String)
    ensures
        s@ == error_log_line(prefix@, msg@),
{
    let mut s = String::from_str(prefix);
    let n = chars_of(prefix).len();
    let mut i: usize = n;
    proof {
        reveal_strlit(" ");
    }
    while i < 7
        invariant
            n == prefix@.len(),
            n <= i,
            n < 7 ==> i <= 7,
            n >= 7 ==> i == n,
            s@ == prefix@ + spaces((i - n) as nat),
        decreases 7 - i,
    {
        proof {
            reveal_strlit(" ");
        }
        s.append(" ");
        i += 1;
    }
    s.append(msg);
    s
}

} // verus!
