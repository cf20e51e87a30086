//! Who a fan-out notification actually goes to.
//!
//! A notification may be addressed to a list in which some entries are
//! unknown users; only the known ones are notified, in the order given.

use vstd::prelude::*;

use crate::ids::UserId;

verus! {

/// The known users of an addressee list, in order.
pub open spec fn known_users(s: Seq<Option<UserId>>) -> Seq<UserId>
    decreases s.len(),
{
    if s.len() == 0 {
        Seq::empty()
    } else {
        (match s[0] {
            Some(u) => seq![u],
            None => Seq::empty(),
        }) + known_users(s.drop_first())
    }
}

/// The users a notification addressed to `targets` is delivered to: the
/// known ones, in order — an unknown entry is skipped, never an error.
pub fn recipients(targets: &Vec<Option<UserId>>) -> (r: Vec<UserId>)
    ensures
        r@ == known_users(targets@),
{
    let n = targets.len();
    let mut out: Vec<UserId> = Vec::new();
    let mut i: usize = 0;
    proof {
        assert(targets@.skip(0) =~= targets@);
        assert(out@ + known_users(targets@) =~= known_users(targets@));
    }
    while i < n
        invariant
            i <= n,
            n == targets@.len(),
            out@ + known_users(targets@.skip(i as int)) == known_users(targets@),
        decreases n - i,
    {
        proof {
            assert(targets@.skip(i as int)[0] == targets@[i as int]);
            assert(targets@.skip(i as int).drop_first() =~= targets@.skip(i as int + 1));
        }
        let ghost pre = out@;
        match targets[i] {
            Some(u) => {
                out.push(u);
                proof {
                    assert(pre + (seq![u] + known_users(targets@.skip(i as int + 1))) =~= (
                    pre.push(u)) + known_users(targets@.skip(i as int + 1)));
                }
            },
            None => {
                proof {
                    assert(pre + (Seq::<UserId>::empty() + known_users(
                        targets@.skip(i as int + 1),
                    )) =~= pre + known_users(targets@.skip(i as int + 1)));
                }
            },
        }
        i = i + 1;
    }
    proof {
        assert(targets@.skip(n as int) =~= Seq::<Option<UserId>>::empty());
        assert(out@ + Seq::<UserId>::empty() =~= out@);
    }
    out
}

} // verus!
