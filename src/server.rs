//! The response protocol of the command channel.

use vstd::prelude::*;
use crate::text::cat3;

verus! {

/// The command channel's side of the dispatcher.
pub struct Server;

/// The text without line breaks.
pub open spec fn without_line_breaks(s: Seq<char>) -> Seq<char> {
    s.filter(|c: char| c != '\n' && c != '\r')
}

impl Server {
    /// A received command with its line breaks removed.
    pub fn clean_command(raw: &str) -> (r: String)
        ensures
            r@ == without_line_breaks(raw@),
    {
        let n = raw.unicode_len();
        let mut out = String::new();
        let mut i: usize = 0;
        while i < n
            invariant
                n == raw@.len(),
                0 <= i <= n,
                out@ == without_line_breaks(raw@.take(i as int)),
            decreases n - i,
        {
            let c = raw.get_char(i);
            proof {
                crate::strmap::lemma_filter_take(raw@, |c: char| c != '\n' && c != '\r', i as int);
            }
            if c != '\n' && c != '\r' {
                out.push(c);
            }
            i = i + 1;
        }
        proof {
            assert(raw@.take(n as int) =~= raw@);
        }
        out
    }

    /// The answer to a command: `Ok` or `Error: ` with the message, each on
    /// a line of its own.
    pub fn response(outcome: &Result<(), String>) -> (r: String)
        ensures
            r@ == match outcome {
                Ok(()) => "Ok\n"@,
                Err(m) => "Error: "@ + m@ + "\n"@,
            },
    {
        match outcome {
            Ok(()) => String::from_str("Ok\n"),
            Err(m) => cat3("Error: ", m.as_str(), "\n"),
        }
    }
}

} // verus!
