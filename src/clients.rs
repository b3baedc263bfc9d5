use vstd::prelude::*;

verus! {

/// Window titles of monitored clients start with this prefix.
pub open spec fn client_title_prefix() -> Seq<char> {
    "EVE - "@
}

/// Whether a window with this title is a client to monitor.
pub fn is_client_title(title: &str) -> (r: bool)
    ensures
        r == client_title_prefix().is_prefix_of(title@),
{
    let prefix = "EVE - ";
    let n = prefix.unicode_len();
    if title.unicode_len() < n {
        return false;
    }
    let mut i: usize = 0;
    while i < n
        invariant
            n == prefix@.len(),
            n <= title@.len(),
            i <= n,
            prefix@ == client_title_prefix(),
            forall|j: int| 0 <= j < i ==> prefix@[j] == title@[j],
        decreases n - i,
    {
        if prefix.get_char(i) != title.get_char(i) {
            return false;
        }
        i += 1;
    }
    assert(prefix@ =~= title@.subrange(0, n as int));
    true
}

} // verus!
