use vstd::prelude::*;

pub mod ast;
pub mod code;
pub mod emit;
pub mod indent;
pub mod laws;
pub mod scope;

verus! {

/// The identifier of a runtime support primitive: every piece of emitted
/// code reaches the runtime library under this fixed namespace.
pub fn rt_name(method: &str) -> (r: String)
    ensures
        r@ == "__12345_runtime."@ + method@,
{
    let mut s = String::new();
    s.append("__12345_runtime.");
    s.append(method);
    proof {
        assert(s@ =~= "__12345_runtime."@ + method@);
    }
    s
}

} // verus!
