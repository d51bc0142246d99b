use vstd::prelude::*;

verus! {

/// The line that the logging service prints for an event with `args`.
pub fn log_line(args: &str) -> (r: String)
    ensures
        r@ == "log: "@ + args@,
{
    let mut r = "log: ".to_owned();
    r.append(args);
    r
}

} // verus!
