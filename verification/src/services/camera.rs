use vstd::prelude::*;

verus! {

/// The line that the camera service prints for an event on `path` with
/// `args`.
pub fn camera_line(path: &str, args: &str) -> (r: String)
    ensures
        r@ == "camera got post "@ + path@ + " "@ + args@,
{
    let mut r = "camera got post ".to_owned();
    r.append(path);
    r.append(" ");
    r.append(args);
    r
}

} // verus!
