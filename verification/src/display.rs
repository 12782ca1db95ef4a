//! Client-side presentation decisions: which names the user list shows
//! beside one's own, and which chat lines count as system notices.

use vstd::prelude::*;
use crate::protocol::{lower_of, lowercase};

verus! {

/// The names other than one's own, in their original order.
pub open spec fn spec_others(us: Seq<Seq<char>>, own: Seq<char>) -> Seq<Seq<char>>
    decreases us.len(),
{
    if us.len() == 0 {
        Seq::empty()
    } else {
        let rest = spec_others(us.drop_first(), own);
        if us[0] == own {
            rest
        } else {
            seq![us[0]] + rest
        }
    }
}

proof fn lemma_spec_others_snoc(us: Seq<Seq<char>>, u: Seq<char>, own: Seq<char>)
    ensures
        spec_others(us.push(u), own) == if u == own {
            spec_others(us, own)
        } else {
            spec_others(us, own).push(u)
        },
    decreases us.len(),
{
    if us.len() == 0 {
        assert(us.push(u)[0] == u);
        assert(us.push(u).drop_first() =~= us);
        if u == own {
        } else {
            assert(spec_others(us.push(u), own) =~= spec_others(us, own).push(u));
        }
    } else {
        assert(us.push(u)[0] == us[0]);
        assert(us.push(u).drop_first() =~= us.drop_first().push(u));
        lemma_spec_others_snoc(us.drop_first(), u, own);
        if u == own {
        } else {
            if us[0] == own {
            } else {
                assert(spec_others(us.push(u), own) =~= spec_others(us, own).push(u));
            }
        }
    }
}

/// The user list a client renders beside its own name: every current
/// name except its own, in the order the list came in.
pub fn visible_users(users: &Vec<String>, own: &str) -> (r: Vec<String>)
    ensures
        crate::protocol::views_of(r@) == spec_others(crate::protocol::views_of(users@), own@),
{
    let own_name = own.to_owned();
    let mut r: Vec<String> = Vec::new();
    let mut k: usize = 0;
    proof {
        assert(crate::protocol::views_of(users@.subrange(0, 0)) =~= Seq::<Seq<char>>::empty());
        assert(crate::protocol::views_of(r@) =~= spec_others(
            crate::protocol::views_of(users@.subrange(0, 0)),
            own@,
        ));
    }
    while k < users.len()
        invariant
            k <= users@.len(),
            own_name@ == own@,
            crate::protocol::views_of(r@) == spec_others(
                crate::protocol::views_of(users@.subrange(0, k as int)),
                own@,
            ),
        decreases users@.len() - k,
    {
        let ghost pre = crate::protocol::views_of(users@.subrange(0, k as int));
        let ghost u = users@[k as int]@;
        proof {
            lemma_spec_others_snoc(pre, u, own@);
            assert(crate::protocol::views_of(users@.subrange(0, k as int + 1)) =~= pre.push(u));
        }
        if users[k].eq(&own_name) {
            proof {
                assert(users@[k as int]@ == own_name@);
                assert(own_name@ == own@);
                assert(u == own@);
            }
        } else {
            let ghost r0 = r@;
            r.push(users[k].clone());
            proof {
                assert(crate::protocol::views_of(r@) =~= crate::protocol::views_of(r0).push(u));
            }
        }
        k = k + 1;
    }
    proof {
        assert(users@.subrange(0, users@.len() as int) =~= users@);
    }
    r
}

/// Whether a chat line is rendered as a system notice: its author
/// case-folds to the reserved name "system".
pub fn is_system_author(author: &str) -> (r: bool)
    ensures
        r == (lower_of(author@) == "system"@),
{
    let folded = lowercase(author);
    let reserved = "system".to_owned();
    folded == reserved
}

} // verus!
