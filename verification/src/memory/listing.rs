//! The list of a user's memories, most recently updated first.

use vstd::prelude::*;

verus! {

/// A stored memory as listed for its user.
#[derive(Debug, Clone)]
pub struct ListedMemory {
    pub id: String,
    pub user_id: String,
    pub fact: String,
    pub created_at: String,
    pub updated_at: String,
    /// The instant of `updated_at`, in nanoseconds since the Unix epoch; the
    /// list is ordered by it.
    pub updated_nanos: i128,
}

/// `output` is `input` reordered by `perm` (`output[i]` is `input[perm[i]]`,
/// each index taken once), most recently updated first, and memories updated
/// at the same instant keep their order from `input`.
pub open spec fn ordered_by_update(input: Seq<ListedMemory>, output: Seq<ListedMemory>, perm: Seq<int>) -> bool {
    &&& perm.len() == input.len()
    &&& output.len() == input.len()
    &&& forall|i: int| 0 <= i < perm.len() ==> 0 <= #[trigger] perm[i] < input.len()
    &&& forall|i: int| 0 <= i < perm.len() ==> #[trigger] output[i] == input[perm[i]]
    &&& forall|i: int, j: int| 0 <= i < j < perm.len() ==> perm[i] != perm[j]
    &&& forall|i: int, j: int|
        0 <= i < j < output.len() ==> output[i].updated_nanos >= output[j].updated_nanos
    &&& forall|i: int, j: int|
        0 <= i < j < output.len() && output[i].updated_nanos == output[j].updated_nanos ==> perm[i]
            < perm[j]
}

/// Orders memories as `list_memories` returns them: by update time, newest
/// first; the sort is stable.
pub fn most_recent_first(memories: Vec<ListedMemory>) -> (r: Vec<ListedMemory>)
    ensures
        exists|perm: Seq<int>| ordered_by_update(memories@, r@, perm),
{
    let ghost input = memories@;
    let total: usize = memories.len();
    let mut rest = memories;
    let mut out: Vec<ListedMemory> = Vec::new();
    let ghost mut perm: Seq<int> = Seq::empty();
    let mut n: usize = 0;
    while rest.len() > 0
        invariant
            n + rest@.len() == input.len(),
            input.len() == total,
            rest@ == input.skip(n as int),
            out@.len() == n,
            perm.len() == n,
            forall|i: int| 0 <= i < n ==> 0 <= #[trigger] perm[i] < n,
            forall|i: int| 0 <= i < n ==> #[trigger] out@[i] == input[perm[i]],
            forall|i: int, j: int| 0 <= i < j < n ==> perm[i] != perm[j],
            forall|i: int, j: int|
                0 <= i < j < n ==> out@[i].updated_nanos >= out@[j].updated_nanos,
            forall|i: int, j: int|
                0 <= i < j < n && out@[i].updated_nanos == out@[j].updated_nanos ==> perm[i]
                    < perm[j],
        decreases rest@.len(),
    {
        let item = rest.remove(0);
        assert(item == input[n as int]);
        assert(rest@ =~= input.skip(n + 1));
        let key = item.updated_nanos;
        let mut pos: usize = 0;
        while pos < out.len() && out[pos].updated_nanos >= key
            invariant
                pos <= out@.len(),
                forall|i: int| 0 <= i < pos ==> (#[trigger] out@[i]).updated_nanos >= key,
            decreases out@.len() - pos,
        {
            pos = pos + 1;
        }
        let ghost old_out = out@;
        let ghost old_perm = perm;
        out.insert(pos, item);
        proof {
            perm = old_perm.insert(pos as int, n as int);
            assert(out@ =~= old_out.insert(pos as int, item));
            assert forall|i: int| 0 <= i < pos implies (#[trigger] perm[i]) == old_perm[i]
                && out@[i] == old_out[i] by {}
            assert forall|i: int| pos < i <= n implies (#[trigger] perm[i]) == old_perm[i - 1]
                && out@[i] == old_out[i - 1] by {}
            assert forall|i: int| pos < i <= n implies (#[trigger] out@[i]).updated_nanos < key by {
                // sorted: old_out[pos] < key, and all later are no greater
                if pos < old_out.len() {
                    assert(old_out[pos as int].updated_nanos < key);
                    if i - 1 > pos {
                        assert(old_out[pos as int].updated_nanos >= old_out[i - 1].updated_nanos);
                    }
                }
            }
        }
        n = n + 1;
    }
    assert(input.skip(n as int).len() == 0);
    assert(ordered_by_update(input, out@, perm));
    out
}

} // verus!
