use vstd::prelude::*;
use vstd::string::StringExecFns;

verus! {

/// `base` joined with the relative component `name`, as `PathBuf::join`
/// does on Unix: a separator goes between them unless `base` is empty or
/// already ends in one.
pub open spec fn spec_join(base: Seq<char>, name: Seq<char>) -> Seq<char> {
    if base.len() == 0 || base.last() == '/' {
        base + name
    } else {
        base + seq!['/'] + name
    }
}

/// Joins `base` and the relative component `name`.
pub fn join(base: &String, name: &str) -> (r: String)
    ensures
        r@ == spec_join(base@, name@),
{
    proof {
        reveal_strlit("/");
    }
    let chars = crate::utils::chars::to_char_vec(base.as_str());
    let mut r = base.clone();
    if chars.len() > 0 && chars[chars.len() - 1] != '/' {
        r.append("/");
    }
    r.append(name);
    r
}

} // verus!
