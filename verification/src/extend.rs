use vstd::prelude::*;

use crate::keyid::KeyId;
use crate::status::{GpgStatus, KeyStatusV, MainKeyV};

verus! {

// ---------------------------------------------------------------------------
// The model of one extension invocation.
// ---------------------------------------------------------------------------
/// The model of one invocation of the external tool's expiry-update
/// operation: the primary key it addresses and the subordinate
/// fingerprints it covers. An empty subordinate list updates the primary
/// key itself.
#[verifier::ext_equal]
pub struct CallV {
    pub primary: Seq<char>,
    pub subkeys: Seq<Seq<char>>,
}

/// The fingerprints of a selection result, in order.
pub open spec fn spec_entry_ids(entries: Seq<(Seq<char>, i64)>) -> Seq<Seq<char>> {
    entries.map_values(|p: (Seq<char>, i64)| p.0)
}

/// The flagged subordinate fingerprints of one primary key, in their
/// original order.
pub open spec fn spec_flagged_subs(subs: Seq<KeyStatusV>, flagged: Seq<Seq<char>>) -> Seq<
    Seq<char>,
>
    decreases subs.len(),
{
    if subs.len() == 0 {
        Seq::empty()
    } else {
        let rest = spec_flagged_subs(subs.drop_last(), flagged);
        if flagged.contains(subs.last().fingerprint) {
            rest.push(subs.last().fingerprint)
        } else {
            rest
        }
    }
}

/// The invocations one primary-key block contributes: one updating the
/// primary key itself when it is flagged, and one updating its flagged
/// subordinates when there are any. The two are distinct invocations even
/// when both apply.
pub open spec fn spec_plan_one(m: MainKeyV, flagged: Seq<Seq<char>>) -> Seq<CallV> {
    let prim: Seq<CallV> = if flagged.contains(m.status.fingerprint) {
        seq![CallV { primary: m.status.fingerprint, subkeys: Seq::empty() }]
    } else {
        Seq::empty()
    };
    let flagged_subs = spec_flagged_subs(m.subkeys, flagged);
    let subcall: Seq<CallV> = if flagged_subs.len() > 0 {
        seq![CallV { primary: m.status.fingerprint, subkeys: flagged_subs }]
    } else {
        Seq::empty()
    };
    prim + subcall
}

/// The invocations of a whole inventory, in inventory order.
pub open spec fn spec_plan(inv: Seq<MainKeyV>, flagged: Seq<Seq<char>>) -> Seq<CallV>
    decreases inv.len(),
{
    if inv.len() == 0 {
        Seq::empty()
    } else {
        spec_plan(inv.drop_last(), flagged) + spec_plan_one(inv.last(), flagged)
    }
}

/// One planned invocation of the external tool's expiry-update operation,
/// addressed to `primary`; `subkeys` lists the subordinate fingerprints it
/// covers, or is empty when the primary key itself is updated.
#[derive(Debug)]
pub struct ExtendCall {
    pub primary: KeyId,
    pub subkeys: Vec<KeyId>,
}

impl View for ExtendCall {
    type V = CallV;

    open spec fn view(&self) -> CallV {
        CallV { primary: self.primary@, subkeys: self.subkeys.deep_view() }
    }
}

impl DeepView for ExtendCall {
    type V = CallV;

    open spec fn deep_view(&self) -> CallV {
        self.view()
    }
}

/// Whether `fp` is among the fingerprints of the selection result.
fn entry_ids_contain(flagged: &Vec<(KeyId, i64)>, fp: &KeyId) -> (r: bool)
    ensures
        r == spec_entry_ids(flagged.deep_view()).contains(fp@),
{
    let ghost ids = spec_entry_ids(flagged.deep_view());
    proof {
        assert(ids.len() == flagged@.len());
    }
    let mut t: usize = 0;
    while t < flagged.len()
        invariant
            t <= flagged@.len(),
            ids == spec_entry_ids(flagged.deep_view()),
            ids.len() == flagged@.len(),
            forall|j| 0 <= j < t ==> ids[j] != fp@,
        decreases flagged@.len() - t,
    {
        if flagged[t].0 == *fp {
            proof {
                assert(ids[t as int] == fp@);
            }
            return true;
        }
        t += 1;
    }
    proof {
        assert(!ids.contains(fp@));
    }
    false
}

/// Plans the extension invocations for the flagged keys of a selection:
/// for each primary key of the inventory, in order, one invocation
/// updating the primary itself when it is flagged, then one invocation
/// updating all of its flagged subordinates when there are any. Keys not
/// flagged give rise to no invocation.
pub fn plan_extensions(status: &GpgStatus, flagged: &Vec<(KeyId, i64)>) -> (r: Vec<ExtendCall>)
    ensures
        r.deep_view() == spec_plan(status@, spec_entry_ids(flagged.deep_view())),
{
    let ghost inv = status@;
    let ghost ids = spec_entry_ids(flagged.deep_view());
    let mut out: Vec<ExtendCall> = Vec::new();
    proof {
        assert(inv.len() == status.main_keys@.len());
        assert(inv.take(0) =~= Seq::<MainKeyV>::empty());
        assert(out.deep_view() =~= spec_plan(inv.take(0), ids));
    }
    let mut k: usize = 0;
    while k < status.main_keys.len()
        invariant
            k <= status.main_keys@.len(),
            inv == status@,
            ids == spec_entry_ids(flagged.deep_view()),
            inv.len() == status.main_keys@.len(),
            out.deep_view() == spec_plan(inv.take(k as int), ids),
        decreases status.main_keys@.len() - k,
    {
        let ghost done = out.deep_view();
        let primary_flagged = entry_ids_contain(flagged, &status.main_keys[k].status.fingerprint);
        if primary_flagged {
            let ghost prev = out.deep_view();
            out.push(
                ExtendCall {
                    primary: status.main_keys[k].status.fingerprint.clone(),
                    subkeys: Vec::new(),
                },
            );
            proof {
                assert(out.deep_view() =~~= prev.push(
                    CallV { primary: inv[k as int].status.fingerprint, subkeys: Seq::empty() },
                ));
            }
        }
        let subkeys = &status.main_keys[k].subkeys;
        let mut flagged_subs: Vec<KeyId> = Vec::new();
        proof {
            assert(inv[k as int].subkeys.len() == subkeys@.len());
            assert(inv[k as int].subkeys.take(0) =~= Seq::<KeyStatusV>::empty());
            assert(flagged_subs.deep_view() =~= spec_flagged_subs(
                inv[k as int].subkeys.take(0),
                ids,
            ));
        }
        let mut j: usize = 0;
        while j < subkeys.len()
            invariant
                j <= subkeys@.len(),
                inv == status@,
                ids == spec_entry_ids(flagged.deep_view()),
                inv.len() == status.main_keys@.len(),
                k < status.main_keys@.len(),
                subkeys == &status.main_keys@[k as int].subkeys,
                inv[k as int].subkeys.len() == subkeys@.len(),
                flagged_subs.deep_view() == spec_flagged_subs(
                    inv[k as int].subkeys.take(j as int),
                    ids,
                ),
            decreases subkeys@.len() - j,
        {
            let ghost prev_subs = flagged_subs.deep_view();
            if entry_ids_contain(flagged, &subkeys[j].fingerprint) {
                flagged_subs.push(subkeys[j].fingerprint.clone());
                proof {
                    assert(flagged_subs.deep_view() =~= prev_subs.push(
                        inv[k as int].subkeys[j as int].fingerprint,
                    ));
                }
            }
            j += 1;
            proof {
                let taken = inv[k as int].subkeys.take(j as int);
                assert(taken.drop_last() =~= inv[k as int].subkeys.take(j - 1));
                assert(taken.last() == inv[k as int].subkeys[j - 1]);
                assert(subkeys@[j - 1]@ == inv[k as int].subkeys[j - 1]);
            }
        }
        proof {
            assert(inv[k as int].subkeys.take(subkeys@.len() as int) =~= inv[k as int].subkeys);
        }
        if flagged_subs.len() > 0 {
            let ghost prev = out.deep_view();
            let ghost subs_v = flagged_subs.deep_view();
            out.push(
                ExtendCall {
                    primary: status.main_keys[k].status.fingerprint.clone(),
                    subkeys: flagged_subs,
                },
            );
            proof {
                assert(out.deep_view() =~~= prev.push(
                    CallV { primary: inv[k as int].status.fingerprint, subkeys: subs_v },
                ));
            }
        }
        k += 1;
        proof {
            assert(inv.take(k as int).drop_last() =~= inv.take(k - 1));
            assert(inv.take(k as int).last() == inv[k - 1]);
            assert(out.deep_view() =~= done + spec_plan_one(inv[k - 1], ids));
        }
    }
    proof {
        assert(inv.take(inv.len() as int) =~= inv);
    }
    out
}

} // verus!
