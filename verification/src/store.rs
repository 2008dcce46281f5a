//! The profile store: create, rename, delete, content updates, listing,
//! the common block, and first-run bootstrap.
//!
//! Every operation is a transition on the owned [`Store`] value; the
//! caller persists the new state and re-applies the rendered document
//! where the operation can change it.

use vstd::prelude::*;
use vstd::string::StringExecFns;

verus! {

use crate::model::{
    content_or_empty, find_index_by_id, find_index_by_key, find_index_by_name, has_id, has_key,
    has_name, has_name_other, ids_distinct, index_of_id, index_of_key, keys_distinct,
    lemma_index_of_id, lemma_index_of_key, names_distinct, AppConfig, DataV, MetaV,
    ProfileData, ProfileMetadata, Store,
};
use crate::HostsError;

/// Relies on `uuid::Uuid::new_v4`, which draws a random version-4 UUID,
/// and on `Uuid::to_string`, which renders it in the standard hyphenated
/// form.  The value is random, so nothing is promised of it: callers
/// check freshness against the store themselves.
#[verifier::external_body]
fn new_uuid() -> String {
    uuid::Uuid::new_v4().to_string()
}

/// Whether the profile with this id is currently active; false when no
/// profile carries the id.
pub(crate) fn profile_active(ps: &Vec<ProfileMetadata>, id: &String) -> (r: bool)
    requires
        ids_distinct(ps@.map_values(|p: ProfileMetadata| p@)),
    ensures
        ({
            let v = ps@.map_values(|p: ProfileMetadata| p@);
            r == exists|i: int| 0 <= i < v.len() && v[i].id == id@ && v[i].active
        }),
{
    let ghost v = ps@.map_values(|p: ProfileMetadata| p@);
    let r = match find_index_by_id(ps, id) {
        Some(k) => ps[k].active,
        None => false,
    };
    proof {
        lemma_index_of_id(v, id@);
        let sw = exists|i: int| 0 <= i < v.len() && v[i].id == id@ && v[i].active;
        if sw != r {
            let k = index_of_id(v, id@);
            if r {
                assert(v[k].active && v[k].id == id@);
            } else {
                let w = choose|i: int| 0 <= i < v.len() && v[i].id == id@ && v[i].active;
                assert(v[w].id == id@);
                if k != w {
                    assert(v[k].id != v[w].id);
                }
            }
        }
    }
    r
}

/// Creates a profile under a freshly drawn id, with the given content
/// (or empty content), appended inactive at the end of the order.
/// Fails with `DuplicateName` when any profile already holds the name,
/// and with `IoError` in the vanishing case that the drawn id collides
/// with an existing one; either failure leaves the store unchanged.
pub fn create_profile(store: &mut Store, name: String, content: Option<String>) -> (r: Result<
    String,
    HostsError,
>)
    requires
        old(store)@.wf(),
    ensures
        final(store)@.wf(),
        match r {
            Ok(id) => {
                &&& !has_name(old(store)@.config.profiles, name@)
                &&& !has_id(old(store)@.config.profiles, id@)
                &&& final(store)@.config.multi_select == old(store)@.config.multi_select
                &&& final(store)@.config.profiles == old(store)@.config.profiles.push(
                    (MetaV { id: id@, name: name@, active: false }),
                )
                &&& final(store)@.contents == old(store)@.contents.push(
                    ((id@, match content {
                        Some(c) => c@,
                        None => Seq::<char>::empty(),
                    })),
                )
                &&& final(store)@.common == old(store)@.common
            },
            Err(HostsError::DuplicateName) => has_name(old(store)@.config.profiles, name@)
                && final(store)@ == old(store)@,
            Err(HostsError::IoError(_)) => !has_name(old(store)@.config.profiles, name@)
                && final(store)@ == old(store)@,
            Err(_) => false,
        },
{
    let ghost orig = store@;
    if find_index_by_name(&store.config.profiles, &name).is_some() {
        return Err(HostsError::DuplicateName);
    }
    let id = new_uuid();
    let fresh_meta = find_index_by_id(&store.config.profiles, &id).is_none();
    let fresh_content = find_index_by_key(&store.contents, &id).is_none();
    if !fresh_meta || !fresh_content {
        proof {
            lemma_index_of_id(orig.config.profiles, id@);
            lemma_index_of_key(orig.contents, id@);
        }
        return Err(HostsError::IoError(String::from_str("profile id collision")));
    }
    proof {
        lemma_index_of_id(orig.config.profiles, id@);
        lemma_index_of_key(orig.contents, id@);
    }
    let initial = match content {
        Some(c) => c,
        None => String::new(),
    };
    store.config.profiles.push(ProfileMetadata { id: id.clone(), name, active: false });
    store.contents.push((id.clone(), initial));
    proof {
        let ps2 = store@.config.profiles;
        let cs2 = store@.contents;
        assert(ps2 =~= orig.config.profiles.push(MetaV { id: id@, name: name@, active: false }));
        assert(cs2 =~= orig.contents.push(
            (id@, match content {
                Some(c) => c@,
                None => Seq::<char>::empty(),
            }),
        ));
        assert forall|i: int, j: int| 0 <= i < j < ps2.len() implies ps2[i].id != ps2[j].id by {
            if j == ps2.len() - 1 {
                if ps2[i].id == id@ {
                    assert(has_id(orig.config.profiles, id@));
                }
            }
        }
        assert forall|i: int, j: int| 0 <= i < j < ps2.len() implies ps2[i].name != ps2[j].name by {
            if j == ps2.len() - 1 {
                if ps2[i].name == name@ {
                    assert(has_name(orig.config.profiles, name@));
                }
            }
        }
        assert forall|i: int, j: int| 0 <= i < j < cs2.len() implies cs2[i].0 != cs2[j].0 by {
            if j == cs2.len() - 1 {
                if cs2[i].0 == id@ {
                    assert(has_key(orig.contents, id@));
                }
            }
        }
    }
    Ok(id)
}

/// Renames the profile with this id.  Fails with `DuplicateName` when a
/// different profile already holds the new name, and with `NotFound`
/// when no profile carries the id; either failure leaves the store
/// unchanged.
pub fn rename_profile(store: &mut Store, id: &String, new_name: String) -> (r: Result<
    (),
    HostsError,
>)
    requires
        old(store)@.wf(),
    ensures
        final(store)@.wf(),
        match r {
            Ok(_) => {
                &&& !has_name_other(old(store)@.config.profiles, new_name@, id@)
                &&& has_id(old(store)@.config.profiles, id@)
                &&& ({
                    let k = index_of_id(old(store)@.config.profiles, id@);
                    let p = old(store)@.config.profiles[k];
                    final(store)@.config.profiles == old(store)@.config.profiles.update(
                        k,
                        (MetaV { id: p.id, name: new_name@, active: p.active }),
                    )
                })
                &&& final(store)@.config.multi_select == old(store)@.config.multi_select
                &&& final(store)@.contents == old(store)@.contents
                &&& final(store)@.common == old(store)@.common
            },
            Err(HostsError::DuplicateName) => has_name_other(
                old(store)@.config.profiles,
                new_name@,
                id@,
            ) && final(store)@ == old(store)@,
            Err(HostsError::NotFound) => !has_name_other(
                old(store)@.config.profiles,
                new_name@,
                id@,
            ) && !has_id(old(store)@.config.profiles, id@) && final(store)@ == old(store)@,
            Err(_) => false,
        },
{
    let ghost orig = store@;
    let ghost ps = orig.config.profiles;
    match find_index_by_name(&store.config.profiles, &new_name) {
        Some(j) => {
            if store.config.profiles[j].id != *id {
                proof {
                    assert(ps[j as int].name == new_name@ && ps[j as int].id != id@);
                }
                return Err(HostsError::DuplicateName);
            }
            proof {
                // The only holder of the name is the target itself.
                if has_name_other(ps, new_name@, id@) {
                    let w = choose|i: int|
                        0 <= i < ps.len() && ps[i].name == new_name@ && ps[i].id != id@;
                    if w != j as int {
                        assert(ps[w].name != ps[j as int].name);
                    }
                }
            }
        },
        None => {
            proof {
                if has_name_other(ps, new_name@, id@) {
                    let w = choose|i: int|
                        0 <= i < ps.len() && ps[i].name == new_name@ && ps[i].id != id@;
                    assert(ps[w].name == new_name@);
                }
            }
        },
    }
    match find_index_by_id(&store.config.profiles, id) {
        None => {
            proof {
                lemma_index_of_id(ps, id@);
            }
            Err(HostsError::NotFound)
        },
        Some(k) => {
            proof {
                lemma_index_of_id(ps, id@);
            }
            store.config.profiles[k].name = new_name;
            proof {
                let ps2 = store@.config.profiles;
                let p = ps[k as int];
                assert(ps2 =~= ps.update(
                    k as int,
                    MetaV { id: p.id, name: new_name@, active: p.active },
                ));
                assert forall|i: int, j: int| 0 <= i < j < ps2.len() implies ps2[i].name
                    != ps2[j].name by {
                    if i == k as int {
                        if ps2[j].name == new_name@ {
                            assert(ps[j].name == new_name@ && ps[j].id != id@);
                        }
                    } else if j == k as int {
                        if ps2[i].name == new_name@ {
                            assert(ps[i].name == new_name@ && ps[i].id != id@);
                        }
                    }
                }
            }
            Ok(())
        },
    }
}

/// Removes the profile's metadata entry and its stored content.  A
/// missing id is a silent no-op.  Re-rendering after a delete is the
/// caller's decision.
pub fn delete_profile(store: &mut Store, id: &String)
    requires
        old(store)@.wf(),
    ensures
        final(store)@.wf(),
        ({
            let k = index_of_id(old(store)@.config.profiles, id@);
            final(store)@.config.profiles == if k < 0 {
                old(store)@.config.profiles
            } else {
                old(store)@.config.profiles.remove(k)
            }
        }),
        final(store)@.contents == crate::model::remove_key(old(store)@.contents, id@),
        final(store)@.config.multi_select == old(store)@.config.multi_select,
        final(store)@.common == old(store)@.common,
{
    let ghost orig = store@;
    match find_index_by_id(&store.config.profiles, id) {
        Some(k) => {
            store.config.profiles.remove(k);
            proof {
                let ps2 = store@.config.profiles;
                assert(ps2 =~= orig.config.profiles.remove(k as int));
            }
        },
        None => {},
    }
    match find_index_by_key(&store.contents, id) {
        Some(m) => {
            store.contents.remove(m);
            proof {
                let cs2 = store@.contents;
                assert(cs2 =~= orig.contents.remove(m as int));
            }
        },
        None => {},
    }
}

/// Stores new content for this id (the profile need not exist: content
/// is keyed independently), and reports whether a profile with the id
/// is currently active, in which case the caller re-applies.
pub fn save_profile_content(store: &mut Store, id: &String, content: String) -> (needs_apply:
    bool)
    requires
        old(store)@.wf(),
    ensures
        final(store)@.wf(),
        final(store)@.contents == crate::model::set_key(old(store)@.contents, id@, content@),
        final(store)@.config == old(store)@.config,
        final(store)@.common == old(store)@.common,
        needs_apply == exists|i: int|
            0 <= i < old(store)@.config.profiles.len() && old(store)@.config.profiles[i].id == id@
                && old(store)@.config.profiles[i].active,
{
    let ghost orig = store@;
    match find_index_by_key(&store.contents, id) {
        Some(m) => {
            store.contents[m] = (id.clone(), content);
            proof {
                lemma_index_of_key(orig.contents, id@);
                assert(store@.contents =~= orig.contents.update(m as int, (id@, content@)));
                let cs2 = store@.contents;
                assert forall|i: int, j: int| 0 <= i < j < cs2.len() implies cs2[i].0
                    != cs2[j].0 by {
                    assert(orig.contents[m as int].0 == id@);
                }
            }
        },
        None => {
            store.contents.push((id.clone(), content));
            proof {
                lemma_index_of_key(orig.contents, id@);
                assert(store@.contents =~= orig.contents.push((id@, content@)));
                let cs2 = store@.contents;
                assert forall|i: int, j: int| 0 <= i < j < cs2.len() implies cs2[i].0
                    != cs2[j].0 by {
                    if j == cs2.len() - 1 {
                        if cs2[i].0 == id@ {
                            assert(has_key(orig.contents, id@));
                        }
                    }
                }
            }
        },
    }
    profile_active(&store.config.profiles, id)
}

/// Lists every profile in the configuration's order, joined with its
/// stored content; missing content degrades to an empty string.
pub fn list_profiles(store: &Store) -> (r: Vec<ProfileData>)
    ensures
        r@.len() == store@.config.profiles.len(),
        forall|i: int|
            0 <= i < r@.len() ==> r@[i]@ == (DataV {
                id: store@.config.profiles[i].id,
                name: store@.config.profiles[i].name,
                content: content_or_empty(store@.contents, store@.config.profiles[i].id),
                active: store@.config.profiles[i].active,
            }),
{
    let mut r: Vec<ProfileData> = Vec::new();
    let n = store.config.profiles.len();
    let mut i: usize = 0;
    while i < n
        invariant
            i <= n,
            n == store.config.profiles.len(),
            r@.len() == i,
            forall|j: int|
                0 <= j < i ==> r@[j]@ == (DataV {
                    id: store@.config.profiles[j].id,
                    name: store@.config.profiles[j].name,
                    content: content_or_empty(store@.contents, store@.config.profiles[j].id),
                    active: store@.config.profiles[j].active,
                }),
        decreases n - i,
    {
        let meta = &store.config.profiles[i];
        let content: String = match find_index_by_key(&store.contents, &meta.id) {
            Some(m) => store.contents[m].1.clone(),
            None => String::new(),
        };
        r.push(ProfileData {
            id: meta.id.clone(),
            name: meta.name.clone(),
            content,
            active: meta.active,
        });
        i += 1;
    }
    r
}

/// The id of the first profile with this name, if any.
pub fn find_profile_id_by_name(store: &Store, name: &String) -> (r: Option<String>)
    ensures
        match r {
            Some(id) => exists|i: int|
                0 <= i < store@.config.profiles.len() && store@.config.profiles[i].name == name@
                    && store@.config.profiles[i].id == id@,
            None => !has_name(store@.config.profiles, name@),
        },
{
    match find_index_by_name(&store.config.profiles, name) {
        Some(i) => {
            let id = store.config.profiles[i].id.clone();
            proof {
                assert(store@.config.profiles[i as int].name == name@
                    && store@.config.profiles[i as int].id == id@);
            }
            Some(id)
        },
        None => None,
    }
}

/// Updates the content of the profile with this name, or creates a new
/// profile with the name and content when none exists.  Returns the id
/// it wrote under.
pub fn upsert_profile(store: &mut Store, name: String, content: String) -> (r: Result<
    String,
    HostsError,
>)
    requires
        old(store)@.wf(),
    ensures
        final(store)@.wf(),
        has_name(old(store)@.config.profiles, name@) ==> match r {
            Ok(id) => {
                &&& exists|i: int|
                    0 <= i < old(store)@.config.profiles.len()
                        && old(store)@.config.profiles[i].name == name@
                        && old(store)@.config.profiles[i].id == id@
                &&& final(store)@.contents == crate::model::set_key(
                    old(store)@.contents,
                    id@,
                    content@,
                )
                &&& final(store)@.config == old(store)@.config
                &&& final(store)@.common == old(store)@.common
            },
            Err(_) => false,
        },
        !has_name(old(store)@.config.profiles, name@) ==> match r {
            Ok(id) => {
                &&& !has_id(old(store)@.config.profiles, id@)
                &&& final(store)@.config.multi_select == old(store)@.config.multi_select
                &&& final(store)@.config.profiles == old(store)@.config.profiles.push(
                    (MetaV { id: id@, name: name@, active: false }),
                )
                &&& final(store)@.contents == old(store)@.contents.push(((id@, content@)))
                &&& final(store)@.common == old(store)@.common
            },
            Err(HostsError::IoError(_)) => final(store)@ == old(store)@,
            Err(_) => false,
        },
{
    let existing = find_profile_id_by_name(store, &name);
    match existing {
        Some(id) => {
            save_profile_content(store, &id, content);
            Ok(id)
        },
        None => create_profile(store, name, Some(content)),
    }
}

/// Replaces the common block, which every render includes.
pub fn save_common_config(store: &mut Store, content: String)
    requires
        old(store)@.wf(),
    ensures
        final(store)@.wf(),
        final(store)@.common == content@,
        final(store)@.config == old(store)@.config,
        final(store)@.contents == old(store)@.contents,
{
    store.common = content;
}

/// The current common block.
pub fn load_common_config(store: &Store) -> (r: String)
    ensures
        r@ == store@.common,
{
    store.common.clone()
}

/// First-run bootstrap: a backup profile holding the current hosts
/// content (or a placeholder when reading it failed), plus three named
/// empty default profiles, all inactive, in multi-select-off mode.
/// Fails only with `IoError`, when the freshly drawn ids collide.
pub fn bootstrap_store(sys_hosts: Option<String>) -> (r: Result<Store, HostsError>)
    ensures
        match r {
            Ok(s) => {
                &&& s@.wf()
                &&& !s@.config.multi_select
                &&& s@.common == Seq::<char>::empty()
                &&& s@.config.profiles.len() == 4
                &&& s@.contents.len() == 4
                &&& (forall|i: int| 0 <= i < 4 ==> !s@.config.profiles[i].active)
                &&& (forall|i: int|
                    0 <= i < 4 ==> s@.contents[i].0 == s@.config.profiles[i].id)
                &&& s@.config.profiles[0].name == "System Hosts Backup"@
                &&& s@.config.profiles[1].name == "Dev"@
                &&& s@.config.profiles[2].name == "Test"@
                &&& s@.config.profiles[3].name == "Prod"@
                &&& s@.contents[0].1 == (match sys_hosts {
                    Some(h) => h@,
                    None => "# Backup failed"@,
                })
                &&& s@.contents[1].1 == "# New Environment\n"@
                &&& s@.contents[2].1 == "# New Environment\n"@
                &&& s@.contents[3].1 == "# New Environment\n"@
            },
            Err(HostsError::IoError(_)) => true,
            Err(_) => false,
        },
{
    let id0 = new_uuid();
    let id1 = new_uuid();
    let id2 = new_uuid();
    let id3 = new_uuid();
    if id0 == id1 || id0 == id2 || id0 == id3 || id1 == id2 || id1 == id3 || id2 == id3 {
        return Err(HostsError::IoError(String::from_str("profile id collision")));
    }
    let sys_content = match sys_hosts {
        Some(h) => h,
        None => String::from_str("# Backup failed"),
    };
    let mut profiles: Vec<ProfileMetadata> = Vec::new();
    profiles.push(
        ProfileMetadata {
            id: id0.clone(),
            name: String::from_str("System Hosts Backup"),
            active: false,
        },
    );
    profiles.push(ProfileMetadata { id: id1.clone(), name: String::from_str("Dev"), active: false });
    profiles.push(
        ProfileMetadata { id: id2.clone(), name: String::from_str("Test"), active: false },
    );
    profiles.push(
        ProfileMetadata { id: id3.clone(), name: String::from_str("Prod"), active: false },
    );
    let mut contents: Vec<(String, String)> = Vec::new();
    contents.push((id0, sys_content));
    contents.push((id1, String::from_str("# New Environment\n")));
    contents.push((id2, String::from_str("# New Environment\n")));
    contents.push((id3, String::from_str("# New Environment\n")));
    let s = Store {
        config: AppConfig { multi_select: false, profiles },
        common: String::new(),
        contents,
    };
    proof {
        reveal_strlit("System Hosts Backup");
        reveal_strlit("Dev");
        reveal_strlit("Test");
        reveal_strlit("Prod");
        let ps = s@.config.profiles;
        let cs = s@.contents;
        assert(ps.len() == 4 && cs.len() == 4);
        assert(names_distinct(ps)) by {
            assert(ps[0].name.len() == 19 && ps[1].name.len() == 3 && ps[2].name.len() == 4
                && ps[3].name.len() == 4);
            assert(ps[2].name[0] == 'T' && ps[3].name[0] == 'P');
        }
        assert(ids_distinct(ps));
        assert(keys_distinct(cs));
    }
    Ok(s)
}

} // verus!
