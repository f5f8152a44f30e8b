use vstd::prelude::*;

use crate::keyid::KeyId;
use crate::status::{days_until, GpgKeyStatus, GpgStatus, KeyStatusV, MainKeyV};

verus! {

// ---------------------------------------------------------------------------
// The flattened evaluation view of an inventory.
// ---------------------------------------------------------------------------
/// The primary keys of an inventory, in order.
pub open spec fn spec_primaries(inv: Seq<MainKeyV>) -> Seq<KeyStatusV> {
    inv.map_values(|m: MainKeyV| m.status)
}

/// The subordinate keys of an inventory: each primary's subordinates in
/// order, primaries in order.
pub open spec fn spec_subkeys_concat(inv: Seq<MainKeyV>) -> Seq<KeyStatusV>
    decreases inv.len(),
{
    if inv.len() == 0 {
        Seq::empty()
    } else {
        spec_subkeys_concat(inv.drop_last()) + inv.last().subkeys
    }
}

/// The flat evaluation view of an inventory: every primary key first, then
/// every subordinate key, each group in inventory order.
pub open spec fn spec_flat_view(inv: Seq<MainKeyV>) -> Seq<KeyStatusV> {
    spec_primaries(inv) + spec_subkeys_concat(inv)
}

// ---------------------------------------------------------------------------
// The selection filter.
// ---------------------------------------------------------------------------
/// The selection entry a single key contributes: its fingerprint and its
/// day count when the key is flagged — its fingerprint is among the
/// targets, it expires at all, and it expires within `warn_days` whole
/// days — and nothing otherwise.
pub open spec fn spec_select_one(
    k: KeyStatusV,
    targets: Seq<Seq<char>>,
    now_secs: u64,
    warn_days: int,
) -> Option<(Seq<char>, i64)> {
    match k.expires {
        Some(e) => if targets.contains(k.fingerprint) && days_until(e, now_secs) <= warn_days {
            Some((k.fingerprint, days_until(e, now_secs) as i64))
        } else {
            None
        },
        None => None,
    }
}

/// The selection over a sequence of keys: the entries of the flagged keys,
/// in the order the keys appear.
pub open spec fn spec_select(
    keys: Seq<KeyStatusV>,
    targets: Seq<Seq<char>>,
    now_secs: u64,
    warn_days: int,
) -> Seq<(Seq<char>, i64)>
    decreases keys.len(),
{
    if keys.len() == 0 {
        Seq::empty()
    } else {
        let rest = spec_select(keys.drop_last(), targets, now_secs, warn_days);
        match spec_select_one(keys.last(), targets, now_secs, warn_days) {
            Some(p) => rest.push(p),
            None => rest,
        }
    }
}

/// Whether `fp` is one of the target fingerprints.
fn contains_id(targets: &Vec<KeyId>, fp: &KeyId) -> (r: bool)
    ensures
        r == targets.deep_view().contains(fp@),
{
    let ghost tg = targets.deep_view();
    proof {
        assert(tg.len() == targets@.len());
    }
    let mut t: usize = 0;
    while t < targets.len()
        invariant
            t <= targets@.len(),
            tg == targets.deep_view(),
            tg.len() == targets@.len(),
            forall|j| 0 <= j < t ==> tg[j] != fp@,
        decreases targets@.len() - t,
    {
        if targets[t] == *fp {
            proof {
                assert(tg[t as int] == fp@);
            }
            return true;
        }
        t += 1;
    }
    proof {
        assert(!tg.contains(fp@));
    }
    false
}

/// The entry `key` contributes to the selection, if it is flagged.
fn select_one(key: &GpgKeyStatus, targets: &Vec<KeyId>, now_secs: u64, warn_days: i64) -> (r:
    Option<(KeyId, i64)>)
    ensures
        match r {
            Some(p) => spec_select_one(key@, targets.deep_view(), now_secs, warn_days as int)
                == Some((p.0@, p.1)),
            None => spec_select_one(key@, targets.deep_view(), now_secs, warn_days as int)
                is None,
        },
{
    match key.expire_days(now_secs) {
        None => None,
        Some(d) => {
            if d <= warn_days && contains_id(targets, &key.fingerprint) {
                Some((key.fingerprint.clone(), d))
            } else {
                None
            }
        },
    }
}

/// Selects, from the flat view of the inventory, the keys whose
/// fingerprints are among `targets` and which expire within `warn_days`
/// whole days of `now_secs`. The result keeps the flat view's order:
/// primary keys first, then subordinate keys. A target that matches no
/// key, never expires, or expires beyond the window is silently absent.
pub fn select_expiring(
    status: &GpgStatus,
    targets: &Vec<KeyId>,
    now_secs: u64,
    warn_days: i64,
) -> (r: Vec<(KeyId, i64)>)
    ensures
        r.deep_view() == spec_select(
            spec_flat_view(status@),
            targets.deep_view(),
            now_secs,
            warn_days as int,
        ),
{
    let ghost inv = status@;
    let ghost tg = targets.deep_view();
    let ghost warn = warn_days as int;
    let mut result: Vec<(KeyId, i64)> = Vec::new();
    proof {
        assert(inv.len() == status.main_keys@.len());
        assert(spec_primaries(inv).take(0) =~= Seq::<KeyStatusV>::empty());
        assert(result.deep_view() =~= spec_select(spec_primaries(inv).take(0), tg, now_secs, warn));
    }
    let mut i: usize = 0;
    while i < status.main_keys.len()
        invariant
            i <= status.main_keys@.len(),
            inv == status@,
            tg == targets.deep_view(),
            warn == warn_days as int,
            inv.len() == status.main_keys@.len(),
            result.deep_view() == spec_select(
                spec_primaries(inv).take(i as int),
                tg,
                now_secs,
                warn,
            ),
        decreases status.main_keys@.len() - i,
    {
        let ghost prev = result.deep_view();
        let ghost prefix = spec_primaries(inv).take(i as int);
        match select_one(&status.main_keys[i].status, targets, now_secs, warn_days) {
            Some(p) => {
                let ghost pv = (p.0@, p.1);
                result.push(p);
                proof {
                    assert(result.deep_view() =~= prev.push(pv));
                }
            },
            None => {},
        }
        i += 1;
        proof {
            let next = spec_primaries(inv).take(i as int);
            assert(next.drop_last() =~= prefix);
            assert(next.last() == inv[i - 1].status);
        }
    }
    proof {
        assert(spec_primaries(inv).take(i as int) =~= spec_primaries(inv));
        assert(spec_subkeys_concat(inv.take(0)) =~= Seq::<KeyStatusV>::empty());
        assert(spec_primaries(inv) + spec_subkeys_concat(inv.take(0)) =~= spec_primaries(inv));
    }
    let mut k: usize = 0;
    while k < status.main_keys.len()
        invariant
            k <= status.main_keys@.len(),
            inv == status@,
            tg == targets.deep_view(),
            warn == warn_days as int,
            inv.len() == status.main_keys@.len(),
            result.deep_view() == spec_select(
                spec_primaries(inv) + spec_subkeys_concat(inv.take(k as int)),
                tg,
                now_secs,
                warn,
            ),
        decreases status.main_keys@.len() - k,
    {
        let subkeys: &Vec<GpgKeyStatus> = &status.main_keys[k].subkeys;
        let ghost done = spec_primaries(inv) + spec_subkeys_concat(inv.take(k as int));
        proof {
            assert(inv[k as int].subkeys.len() == subkeys@.len());
            assert(done + inv[k as int].subkeys.take(0) =~= done);
        }
        let mut j: usize = 0;
        while j < subkeys.len()
            invariant
                j <= subkeys@.len(),
                inv == status@,
                tg == targets.deep_view(),
                warn == warn_days as int,
                inv.len() == status.main_keys@.len(),
                k < status.main_keys@.len(),
                subkeys == &status.main_keys@[k as int].subkeys,
                inv[k as int].subkeys.len() == subkeys@.len(),
                done == spec_primaries(inv) + spec_subkeys_concat(inv.take(k as int)),
                result.deep_view() == spec_select(
                    done + inv[k as int].subkeys.take(j as int),
                    tg,
                    now_secs,
                    warn,
                ),
            decreases subkeys@.len() - j,
        {
            let ghost prev = result.deep_view();
            let ghost prefix = done + inv[k as int].subkeys.take(j as int);
            match select_one(&subkeys[j], targets, now_secs, warn_days) {
                Some(p) => {
                    let ghost pv = (p.0@, p.1);
                    result.push(p);
                    proof {
                        assert(result.deep_view() =~= prev.push(pv));
                    }
                },
                None => {},
            }
            j += 1;
            proof {
                let next = done + inv[k as int].subkeys.take(j as int);
                assert(next.drop_last() =~= prefix);
                assert(next.last() == inv[k as int].subkeys[j - 1]);
                assert(subkeys@[j - 1]@ == inv[k as int].subkeys[j - 1]);
            }
        }
        k += 1;
        proof {
            assert(inv.take(k as int).drop_last() =~= inv.take(k - 1));
            assert(inv.take(k as int).last() == inv[k - 1]);
            assert(done + inv[k - 1].subkeys.take(inv[k - 1].subkeys.len() as int) =~= spec_primaries(
                inv,
            ) + spec_subkeys_concat(inv.take(k as int)));
        }
    }
    proof {
        assert(inv.take(inv.len() as int) =~= inv);
    }
    result
}

// ---------------------------------------------------------------------------
// Laws of the selection.
// ---------------------------------------------------------------------------
/// Every selected entry comes from a flagged key of the flat view: its
/// fingerprint is among the targets, and some key of the view carries that
/// fingerprint and contributes exactly that entry. In particular a target
/// fingerprint that matches no key never appears in the selection.
pub proof fn lemma_selected_are_present(
    keys: Seq<KeyStatusV>,
    targets: Seq<Seq<char>>,
    now_secs: u64,
    warn_days: int,
)
    ensures
        forall|idx|
            #![trigger spec_select(keys, targets, now_secs, warn_days)[idx]]
            0 <= idx < spec_select(keys, targets, now_secs, warn_days).len() ==> targets.contains(
                spec_select(keys, targets, now_secs, warn_days)[idx].0,
            ) && exists|k|
                0 <= k < keys.len() && (#[trigger] keys[k]).fingerprint == spec_select(
                    keys,
                    targets,
                    now_secs,
                    warn_days,
                )[idx].0 && spec_select_one(keys[k], targets, now_secs, warn_days) == Some(
                    spec_select(keys, targets, now_secs, warn_days)[idx],
                ),
    decreases keys.len(),
{
    if keys.len() > 0 {
        lemma_selected_are_present(keys.drop_last(), targets, now_secs, warn_days);
        let sel = spec_select(keys, targets, now_secs, warn_days);
        let rest = spec_select(keys.drop_last(), targets, now_secs, warn_days);
        assert forall|idx| 0 <= idx < sel.len() implies targets.contains(
            (#[trigger] sel[idx]).0,
        ) && exists|k|
            0 <= k < keys.len() && (#[trigger] keys[k]).fingerprint == sel[idx].0
                && spec_select_one(keys[k], targets, now_secs, warn_days) == Some(sel[idx]) by {
            let entry = sel[idx];
            if idx < rest.len() {
                assert(entry == rest[idx]);
                let k = choose|k|
                    0 <= k < keys.drop_last().len() && (#[trigger] keys.drop_last()[k]).fingerprint
                        == rest[idx].0 && spec_select_one(
                        keys.drop_last()[k],
                        targets,
                        now_secs,
                        warn_days,
                    ) == Some(rest[idx]);
                assert(keys[k] == keys.drop_last()[k]);
                assert(spec_select_one(keys[k], targets, now_secs, warn_days) == Some(entry));
            } else {
                let last = keys.len() - 1;
                assert(spec_select_one(keys[last], targets, now_secs, warn_days) == Some(entry));
                assert(keys[last].fingerprint == entry.0);
            }
        }
    }
}

} // verus!
