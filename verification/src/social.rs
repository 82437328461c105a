//! Social chat: who hears a message sent to a linkshell.

use vstd::prelude::*;

verus! {

/// Whether `id` is among `ids`.
pub open spec fn among(ids: Seq<u32>, id: u32) -> bool {
    exists|i: int| 0 <= i < ids.len() && #[trigger] ids[i] == id
}

/// The members who hear a linkshell message from `sender`: each member
/// who is online, but the sender, in member order.
pub open spec fn linkshell_audience(members: Seq<u32>, online: Seq<u32>, sender: u32) -> Seq<u32>
    decreases members.len(),
{
    if members.len() == 0 {
        Seq::empty()
    } else {
        let rest = linkshell_audience(members.drop_last(), online, sender);
        let m = members.last();
        if m != sender && among(online, m) {
            rest.push(m)
        } else {
            rest
        }
    }
}

fn is_among(ids: &Vec<u32>, id: u32) -> (res: bool)
    ensures
        res == among(ids@, id),
{
    let mut i: usize = 0;
    while i < ids.len()
        invariant
            i <= ids@.len(),
            forall|j: int| 0 <= j < i ==> #[trigger] ids@[j] != id,
        decreases ids@.len() - i,
    {
        if ids[i] == id {
            return true;
        }
        i = i + 1;
    }
    false
}

/// The characters a linkshell message from `sender` goes to: the
/// linkshell's members who are online, leaving out the sender.
pub fn linkshell_recipients(members: &Vec<u32>, online: &Vec<u32>, sender: u32) -> (res: Vec<u32>)
    ensures
        res@ == linkshell_audience(members@, online@, sender),
{
    let ghost ms = members@;
    let mut out: Vec<u32> = Vec::new();
    let mut k: usize = 0;
    assert(ms.take(0) =~= Seq::<u32>::empty());
    while k < members.len()
        invariant
            k <= ms.len(),
            ms == members@,
            out@ == linkshell_audience(ms.take(k as int), online@, sender),
        decreases ms.len() - k,
    {
        assert(ms.take(k + 1).drop_last() =~= ms.take(k as int));
        let m = members[k];
        if m != sender && is_among(online, m) {
            out.push(m);
        }
        k = k + 1;
    }
    assert(ms.take(ms.len() as int) =~= ms);
    out
}

/// A linkshell message never echoes to its sender, reaches only online
/// members, and reaches every online member but the sender.
pub proof fn law_linkshell_audience(members: Seq<u32>, online: Seq<u32>, sender: u32, id: u32)
    ensures
        among(linkshell_audience(members, online, sender), id) <==> (among(members, id) && among(
            online,
            id,
        ) && id != sender),
    decreases members.len(),
{
    if members.len() > 0 {
        let init = members.drop_last();
        law_linkshell_audience(init, online, sender, id);
        let rest = linkshell_audience(init, online, sender);
        let m = members.last();
        if among(members, id) && !among(init, id) {
            let i = choose|i: int| 0 <= i < members.len() && #[trigger] members[i] == id;
            if i < init.len() {
                assert(init[i] == id);
            }
        }
        if among(init, id) {
            let i = choose|i: int| 0 <= i < init.len() && #[trigger] init[i] == id;
            assert(members[i] == id);
        }
        if m != sender && among(online, m) {
            let r = rest.push(m);
            assert(r[rest.len() as int] == m);
            if among(r, id) && !among(rest, id) {
                let i = choose|i: int| 0 <= i < r.len() && #[trigger] r[i] == id;
                if i < rest.len() {
                    assert(rest[i] == r[i]);
                }
            }
            if among(rest, id) {
                let i = choose|i: int| 0 <= i < rest.len() && #[trigger] rest[i] == id;
                assert(r[i] == id);
            }
        }
        assert(members[members.len() - 1] == m);
    }
}

} // verus!
