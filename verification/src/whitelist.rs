//! The whitelist that the dashboard should hold: the addresses that the
//! configured hostnames resolve to.

use vstd::prelude::*;
use crate::text::{join, join_texts};

verus! {

/// What resolving the hostnames gave, one entry for each hostname in order:
/// its addresses in the order of the answer, or none where it did not
/// resolve.
pub type Resolutions = Seq<Option<Seq<Seq<char>>>>;

/// The name of the form field that holds the whitelist.
pub const WHITELIST_FIELD: &'static str = "deviceapi_host_whitelist";

/// All addresses, hostname by hostname, each hostname's in the order of its
/// answer. A hostname that did not resolve adds none. Nothing is removed: an
/// address that two hostnames share stands twice.
pub open spec fn addresses_of(resolutions: Resolutions) -> Seq<Seq<char>>
    decreases resolutions.len(),
{
    if resolutions.len() == 0 {
        Seq::empty()
    } else {
        addresses_of(resolutions.drop_last()) + match resolutions.last() {
            Some(addresses) => addresses,
            None => Seq::empty(),
        }
    }
}

/// The whitelist value: all addresses, with `;` between.
pub open spec fn whitelist_of(resolutions: Resolutions) -> Seq<char> {
    join(addresses_of(resolutions), seq![';'])
}

/// The addresses of two lists of hostnames, one behind the other, are the
/// addresses of the first with those of the second behind.
pub proof fn lemma_addresses_concat(first: Resolutions, second: Resolutions)
    ensures
        addresses_of(first + second) == addresses_of(first) + addresses_of(second),
    decreases second.len(),
{
    if second.len() == 0 {
        assert(first + second =~= first);
        assert(addresses_of(first) + addresses_of(second) =~= addresses_of(first));
    } else {
        let last = match second.last() {
            Some(addresses) => addresses,
            None => Seq::empty(),
        };
        assert((first + second).drop_last() =~= first + second.drop_last());
        assert((first + second).last() == second.last());
        lemma_addresses_concat(first, second.drop_last());
        assert(addresses_of(first) + addresses_of(second.drop_last()) + last =~= addresses_of(
            first,
        ) + (addresses_of(second.drop_last()) + last));
    }
}

/// A hostname that does not resolve adds nothing, and the hostnames before
/// and behind it add what they add without it.
pub proof fn lemma_failed_hostname_adds_nothing(before: Resolutions, behind: Resolutions)
    ensures
        addresses_of(before + seq![None::<Seq<Seq<char>>>] + behind) == addresses_of(before)
            + addresses_of(behind),
        whitelist_of(before + seq![None::<Seq<Seq<char>>>] + behind) == whitelist_of(
            before + behind,
        ),
{
    let failed = seq![None::<Seq<Seq<char>>>];
    lemma_addresses_concat(before + failed, behind);
    lemma_addresses_concat(before, failed);
    lemma_addresses_concat(before, behind);
    assert(failed.drop_last() =~= Resolutions::empty());
    assert(addresses_of(Resolutions::empty()) =~= Seq::<Seq<char>>::empty());
    assert(addresses_of(failed) =~= Seq::<Seq<char>>::empty());
    assert(addresses_of(before) + addresses_of(failed) =~= addresses_of(before));
}

/// The whitelist value for what resolving the hostnames gave.
pub fn desired_whitelist(resolutions: &Vec<Option<Vec<String>>>) -> (r: String)
    ensures
        r@ == whitelist_of(resolutions.deep_view()),
{
    let ghost all = resolutions.deep_view();
    let mut addresses: Vec<String> = Vec::new();
    let mut i: usize = 0;
    assert(addresses.deep_view() =~= Seq::<Seq<char>>::empty());
    while i < resolutions.len()
        invariant
            i <= resolutions.len(),
            all == resolutions.deep_view(),
            addresses.deep_view() == addresses_of(all.take(i as int)),
        decreases resolutions.len() - i,
    {
        proof {
            assert(all.take(i + 1).drop_last() =~= all.take(i as int));
            assert(all.take(i + 1).last() == all[i as int]);
        }
        match &resolutions[i] {
            Some(found) => {
                let ghost before = addresses.deep_view();
                let ghost these = found.deep_view();
                let mut j: usize = 0;
                while j < found.len()
                    invariant
                        j <= found.len(),
                        these == found.deep_view(),
                        addresses.deep_view() == before + these.take(j as int),
                    decreases found.len() - j,
                {
                    let ghost so_far = addresses.deep_view();
                    let address = found[j].clone();
                    addresses.push(address);
                    assert(addresses.deep_view() =~= so_far.push(these[j as int]));
                    assert(before + these.take(j + 1) =~= (before + these.take(j as int)).push(
                        these[j as int],
                    ));
                    j = j + 1;
                }
                assert(these.take(j as int) =~= these);
            },
            None => {
                assert(addresses.deep_view() + Seq::<Seq<char>>::empty()
                    =~= addresses.deep_view());
            },
        }
        i = i + 1;
    }
    proof {
        reveal_strlit(";");
        assert(all.take(i as int) =~= all);
        assert(";"@ =~= seq![';']);
    }
    join_texts(&addresses, ";")
}

} // verus!
