//! How a failure that ends the program is shown.

use vstd::prelude::*;
use vstd::string::*;
use crate::command::texts;

verus! {

/// The exit code of a program that ended with a failure.
pub const EXIT_FAILURE: i32 = 1;

/// The line for the message at `index` of a chain of causes: the failure
/// itself stands first, each of the others is what caused the one before.
pub open spec fn report_line(index: int, message: Seq<char>) -> Seq<char> {
    if index == 0 {
        "error: "@ + message
    } else {
        "caused by: "@ + message
    }
}

/// The lines for a chain of messages, one for each, in order.
pub open spec fn report(chain: Seq<Seq<char>>) -> Seq<Seq<char>> {
    Seq::new(chain.len(), |i: int| report_line(i, chain[i]))
}

/// Renders a failure and its causes, one line for each.
pub fn report_lines(chain: &Vec<String>) -> (lines: Vec<String>)
    ensures
        texts(lines@) == report(texts(chain@)),
{
    let mut lines: Vec<String> = Vec::new();
    let mut i: usize = 0;
    while i < chain.len()
        invariant
            i <= chain.len(),
            lines@.len() == i,
            forall|k: int| 0 <= k < i ==> (#[trigger] lines@[k])@ == report_line(k, chain@[k]@),
        decreases chain.len() - i,
    {
        let mut line: String = if i == 0 {
            "error: ".to_owned()
        } else {
            "caused by: ".to_owned()
        };
        line.append(chain[i].as_str());
        lines.push(line);
        i += 1;
    }
    assert(texts(lines@) =~= report(texts(chain@)));
    lines
}

} // verus!
