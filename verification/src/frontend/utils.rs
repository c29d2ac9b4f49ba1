use vstd::prelude::*;

verus! {

/// The plural suffix of a noun that is counted `count` times.
pub open spec fn plural_suffix(count: nat) -> Seq<char> {
    if count > 1 {
        "s"@
    } else {
        ""@
    }
}

/// Returns `"s"` when `count` calls for a plural, and the empty string otherwise.
pub fn maybe_plural(count: usize) -> (suffix: &'static str)
    ensures
        suffix@ == plural_suffix(count as nat),
{
    if count > 1 {
        "s"
    } else {
        ""
    }
}

} // verus!
