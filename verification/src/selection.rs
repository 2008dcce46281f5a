//! The selection engine: which profiles are active, under the
//! single-select and multi-select policies, and what a mode switch does
//! to the active flags.

use vstd::prelude::*;

verus! {

use crate::model::{
    at_most_one_active, find_index_by_id, index_of_id, lemma_index_of_id, ConfigV, MetaV, Store,
};

/// The configuration after toggling `id`.
///
/// In multi-select mode only the profile with that id flips.  In
/// single-select mode every flag is cleared and the profile with that
/// id is turned on exactly when it was not active before: toggling the
/// sole active profile deactivates everything, which is a valid state.
pub open spec fn toggle_spec(c: ConfigV, id: Seq<char>) -> ConfigV {
    if c.multi_select {
        ConfigV {
            multi_select: true,
            profiles: c.profiles.map_values(
                |p: MetaV|
                    MetaV {
                        id: p.id,
                        name: p.name,
                        active: if p.id == id {
                            !p.active
                        } else {
                            p.active
                        },
                    },
            ),
        }
    } else {
        let was = exists|i: int|
            0 <= i < c.profiles.len() && c.profiles[i].id == id && c.profiles[i].active;
        ConfigV {
            multi_select: false,
            profiles: c.profiles.map_values(
                |p: MetaV| MetaV { id: p.id, name: p.name, active: !was && p.id == id },
            ),
        }
    }
}

/// The configuration after changing the selection mode.
///
/// Turning multi-select on changes only the flag.  Turning it off keeps
/// the earliest active profile (if any) and clears every later flag.
pub open spec fn set_mode_spec(c: ConfigV, enable: bool) -> ConfigV {
    if enable {
        ConfigV { multi_select: true, profiles: c.profiles }
    } else {
        ConfigV {
            multi_select: false,
            profiles: c.profiles.map(
                |i: int, p: MetaV|
                    MetaV {
                        id: p.id,
                        name: p.name,
                        active: p.active && (forall|j: int|
                            0 <= j < i ==> !c.profiles[j].active),
                    },
            ),
        }
    }
}

/// Toggling preserves the invariant, the mode, and the profile order.
pub proof fn lemma_toggle_spec_wf(c: ConfigV, id: Seq<char>)
    requires
        c.wf(),
    ensures
        toggle_spec(c, id).wf(),
        toggle_spec(c, id).multi_select == c.multi_select,
        toggle_spec(c, id).profiles.len() == c.profiles.len(),
        forall|i: int|
            0 <= i < c.profiles.len() ==> toggle_spec(c, id).profiles[i].id == c.profiles[i].id
                && toggle_spec(c, id).profiles[i].name == c.profiles[i].name,
{
    let ps = toggle_spec(c, id).profiles;
    assert(forall|i: int|
        0 <= i < c.profiles.len() ==> ps[i].id == c.profiles[i].id && ps[i].name
            == c.profiles[i].name);
    if !c.multi_select {
        assert forall|i: int, j: int| 0 <= i < j < ps.len() implies !(ps[i].active
            && ps[j].active) by {
            if ps[i].active && ps[j].active {
                assert(c.profiles[i].id == id && c.profiles[j].id == id);
                assert(c.profiles[i].id != c.profiles[j].id);
            }
        }
    }
}

/// A sequence of toggles, applied from the first id to the last.
pub open spec fn apply_toggles(c: ConfigV, ids: Seq<Seq<char>>) -> ConfigV
    decreases ids.len(),
{
    if ids.len() == 0 {
        c
    } else {
        apply_toggles(toggle_spec(c, ids[0]), ids.drop_first())
    }
}

/// In single-select mode, after any sequence of toggles at most one
/// profile is active.
pub proof fn lemma_single_select_at_most_one(c: ConfigV, ids: Seq<Seq<char>>)
    requires
        c.wf(),
        !c.multi_select,
    ensures
        at_most_one_active(apply_toggles(c, ids).profiles),
    decreases ids.len(),
{
    if ids.len() == 0 {
    } else {
        lemma_toggle_spec_wf(c, ids[0]);
        lemma_single_select_at_most_one(toggle_spec(c, ids[0]), ids.drop_first());
    }
}

/// A mode switch preserves the invariant, the order, and the names.
pub proof fn lemma_set_mode_spec_wf(c: ConfigV, enable: bool)
    requires
        c.wf(),
    ensures
        set_mode_spec(c, enable).wf(),
        set_mode_spec(c, enable).multi_select == enable,
        set_mode_spec(c, enable).profiles.len() == c.profiles.len(),
        forall|i: int|
            0 <= i < c.profiles.len() ==> set_mode_spec(c, enable).profiles[i].id
                == c.profiles[i].id && set_mode_spec(c, enable).profiles[i].name
                == c.profiles[i].name,
{
    if !enable {
        let ps = set_mode_spec(c, false).profiles;
        assert forall|i: int, j: int| 0 <= i < j < ps.len() implies !(ps[i].active
            && ps[j].active) by {
            if ps[i].active && ps[j].active {
                assert(c.profiles[i].active);
                assert(!c.profiles[i].active);
            }
        }
    }
}

/// Switching multi→single keeps exactly the earliest previously active
/// profile active: it stays on and every other profile is off.
pub proof fn lemma_mode_switch_keeps_earliest(c: ConfigV, k: int)
    requires
        0 <= k < c.profiles.len(),
        c.profiles[k].active,
        forall|j: int| 0 <= j < k ==> !c.profiles[j].active,
    ensures
        set_mode_spec(c, false).profiles[k].active,
        forall|i: int|
            0 <= i < c.profiles.len() && i != k ==> !set_mode_spec(c, false).profiles[i].active,
{
    let ps = set_mode_spec(c, false).profiles;
    assert forall|i: int| 0 <= i < c.profiles.len() && i != k implies !ps[i].active by {
        if i > k {
            assert(c.profiles[k].active);
        }
    }
}

/// Switching multi→single with no active profile leaves none active.
pub proof fn lemma_mode_switch_none_active(c: ConfigV)
    requires
        forall|j: int| 0 <= j < c.profiles.len() ==> !c.profiles[j].active,
    ensures
        forall|i: int| 0 <= i < c.profiles.len() ==> !set_mode_spec(c, false).profiles[i].active,
{
}

/// Flips the active flag of the profile with this id, under the current
/// selection mode.  Persisting and re-applying the rendered document is
/// the caller's step afterwards.
pub fn toggle_profile_active(store: &mut Store, id: &String)
    requires
        old(store)@.wf(),
    ensures
        final(store)@.config == toggle_spec(old(store)@.config, id@),
        final(store)@.common == old(store)@.common,
        final(store)@.contents == old(store)@.contents,
        final(store)@.wf(),
{
    let ghost orig = store@;
    let ghost target = toggle_spec(orig.config, id@).profiles;
    let n = store.config.profiles.len();
    if store.config.multi_select {
        let mut i: usize = 0;
        while i < n
            invariant
                i <= n,
                n == store.config.profiles.len(),
                n == orig.config.profiles.len(),
                store.config.multi_select == orig.config.multi_select,
                orig.config.multi_select,
                target == toggle_spec(orig.config, id@).profiles,
                store@.common == orig.common,
                store@.contents == orig.contents,
                forall|j: int| 0 <= j < i ==> store.config.profiles@[j]@ == target[j],
                forall|j: int|
                    i <= j < n ==> store.config.profiles@[j]@ == orig.config.profiles[j],
            decreases n - i,
        {
            let flip = store.config.profiles[i].id == *id;
            if flip {
                let cur = store.config.profiles[i].active;
                store.config.profiles[i].active = !cur;
            }
            proof {
                assert(store.config.profiles@[i as int]@ == target[i as int]);
            }
            i += 1;
        }
    } else {
        let was: bool = match find_index_by_id(&store.config.profiles, id) {
            Some(k) => store.config.profiles[k].active,
            None => false,
        };
        proof {
            lemma_index_of_id(orig.config.profiles, id@);
            let sw = exists|i: int|
                0 <= i < orig.config.profiles.len() && orig.config.profiles[i].id == id@
                    && orig.config.profiles[i].active;
            if sw != was {
                let k = index_of_id(orig.config.profiles, id@);
                if was {
                    assert(orig.config.profiles[k].active && orig.config.profiles[k].id == id@);
                } else {
                    let w = choose|i: int|
                        0 <= i < orig.config.profiles.len() && orig.config.profiles[i].id == id@
                            && orig.config.profiles[i].active;
                    assert(orig.config.profiles[w].id == id@);
                    if k != w {
                        assert(orig.config.profiles[k].id != orig.config.profiles[w].id);
                    }
                }
            }
        }
        let mut i: usize = 0;
        while i < n
            invariant
                i <= n,
                n == store.config.profiles.len(),
                n == orig.config.profiles.len(),
                store.config.multi_select == orig.config.multi_select,
                !orig.config.multi_select,
                was == exists|j: int|
                    0 <= j < orig.config.profiles.len() && orig.config.profiles[j].id == id@
                        && orig.config.profiles[j].active,
                target == toggle_spec(orig.config, id@).profiles,
                store@.common == orig.common,
                store@.contents == orig.contents,
                forall|j: int| 0 <= j < i ==> store.config.profiles@[j]@ == target[j],
                forall|j: int|
                    i <= j < n ==> store.config.profiles@[j]@ == orig.config.profiles[j],
            decreases n - i,
        {
            let m = store.config.profiles[i].id == *id;
            store.config.profiles[i].active = !was && m;
            proof {
                assert(store.config.profiles@[i as int]@ == target[i as int]);
            }
            i += 1;
        }
    }
    proof {
        lemma_toggle_spec_wf(orig.config, id@);
        assert(store.config@.profiles =~= target);
        assert(store@.config =~= toggle_spec(orig.config, id@));
    }
}

/// Sets the selection mode.  Disabling multi-select keeps only the
/// earliest active profile active, as `set_mode_spec` states.
pub fn set_multi_select(store: &mut Store, enable: bool)
    requires
        old(store)@.wf(),
    ensures
        final(store)@.config == set_mode_spec(old(store)@.config, enable),
        final(store)@.common == old(store)@.common,
        final(store)@.contents == old(store)@.contents,
        final(store)@.wf(),
{
    let ghost orig = store@;
    let ghost target = set_mode_spec(orig.config, enable).profiles;
    store.config.multi_select = enable;
    if !enable {
        let n = store.config.profiles.len();
        let mut found = false;
        let mut i: usize = 0;
        while i < n
            invariant
                i <= n,
                n == store.config.profiles.len(),
                n == orig.config.profiles.len(),
                !store.config.multi_select,
                target == set_mode_spec(orig.config, false).profiles,
                store@.common == orig.common,
                store@.contents == orig.contents,
                found == !(forall|j: int| 0 <= j < i ==> !orig.config.profiles[j].active),
                forall|j: int| 0 <= j < i ==> store.config.profiles@[j]@ == target[j],
                forall|j: int|
                    i <= j < n ==> store.config.profiles@[j]@ == orig.config.profiles[j],
            decreases n - i,
        {
            let act = store.config.profiles[i].active;
            if act {
                if found {
                    store.config.profiles[i].active = false;
                } else {
                    found = true;
                }
            }
            proof {
                if act && !(forall|j: int| 0 <= j < i ==> !orig.config.profiles[j].active) {
                    assert(store.config.profiles@[i as int]@ == target[i as int]);
                }
                assert(store.config.profiles@[i as int]@ == target[i as int]);
                if !found {
                    assert(forall|j: int| 0 <= j < i + 1 ==> !orig.config.profiles[j].active);
                }
            }
            i += 1;
        }
    }
    proof {
        lemma_set_mode_spec_wf(orig.config, enable);
        assert(store.config@.profiles =~= target);
        assert(store@.config =~= set_mode_spec(orig.config, enable));
    }
}

} // verus!
