//! The one-line status report every node prints at shutdown:
//! `<id>:\tC:<successful>\tA:<failed>\tU:<unknown>`.

use vstd::prelude::*;
use crate::numerals::{dec_digits, u64_to_dec};

verus! {

/// The characters of a node's status line.
pub open spec fn status_line_spec(id: Seq<char>, s: u64, f: u64, u: u64) -> Seq<char> {
    id + ":\tC:"@ + dec_digits(s as nat) + "\tA:"@ + dec_digits(f as nat) + "\tU:"@ + dec_digits(
        u as nat,
    )
}

/// Renders a node's status line from its identifier and counters.
pub fn render_status_line(id: &str, s: u64, f: u64, u: u64) -> (r: String)
    ensures
        r@ == status_line_spec(id@, s, f, u),
{
    let mut out = id.to_owned();
    out.append(":\tC:");
    let cs = u64_to_dec(s);
    out.append(cs.as_str());
    out.append("\tA:");
    let fs = u64_to_dec(f);
    out.append(fs.as_str());
    out.append("\tU:");
    let us = u64_to_dec(u);
    out.append(us.as_str());
    out
}

} // verus!
