//! The data model: profile metadata, the configuration that orders it,
//! and the in-memory store that owns all durable state.
//!
//! The durable backend is an external key-value file store; this crate
//! works on one owned [`Store`] value that mirrors it: the configuration
//! (selection mode and the ordered profile list), the common block, and
//! each profile's content keyed by its id.  Every operation of the
//! library is a transition on this value, and its contract speaks of the
//! mathematical views defined here.

use vstd::prelude::*;

verus! {

/// One profile's metadata: an opaque immutable id, a display name that
/// is unique among all profiles, and the active flag.
#[derive(Debug)]
pub struct ProfileMetadata {
    pub id: String,
    pub name: String,
    pub active: bool,
}

/// The singleton configuration: the selection mode and the ordered
/// profile list.  The order is significant: it is the merge order.
#[derive(Debug)]
pub struct AppConfig {
    pub multi_select: bool,
    pub profiles: Vec<ProfileMetadata>,
}

/// A profile as handed to callers of the listing: metadata together
/// with the stored content.
#[derive(Debug)]
pub struct ProfileData {
    pub id: String,
    pub name: String,
    pub content: String,
    pub active: bool,
}

/// The owned state: configuration, common block, and each profile's
/// content as an association list from id to text.
#[derive(Debug)]
pub struct Store {
    pub config: AppConfig,
    pub common: String,
    pub contents: Vec<(String, String)>,
}

/// Mathematical view of [`ProfileMetadata`].
#[verifier::ext_equal]
pub struct MetaV {
    pub id: Seq<char>,
    pub name: Seq<char>,
    pub active: bool,
}

/// Mathematical view of [`AppConfig`].
#[verifier::ext_equal]
pub struct ConfigV {
    pub multi_select: bool,
    pub profiles: Seq<MetaV>,
}

/// Mathematical view of [`ProfileData`].
#[verifier::ext_equal]
pub struct DataV {
    pub id: Seq<char>,
    pub name: Seq<char>,
    pub content: Seq<char>,
    pub active: bool,
}

/// Mathematical view of [`Store`].
#[verifier::ext_equal]
pub struct StoreV {
    pub config: ConfigV,
    pub common: Seq<char>,
    pub contents: Seq<(Seq<char>, Seq<char>)>,
}

impl View for ProfileMetadata {
    type V = MetaV;

    open spec fn view(&self) -> MetaV {
        MetaV { id: self.id@, name: self.name@, active: self.active }
    }
}

impl View for AppConfig {
    type V = ConfigV;

    open spec fn view(&self) -> ConfigV {
        ConfigV {
            multi_select: self.multi_select,
            profiles: self.profiles@.map_values(|p: ProfileMetadata| p@),
        }
    }
}

impl View for ProfileData {
    type V = DataV;

    open spec fn view(&self) -> DataV {
        DataV { id: self.id@, name: self.name@, content: self.content@, active: self.active }
    }
}

impl View for Store {
    type V = StoreV;

    open spec fn view(&self) -> StoreV {
        StoreV {
            config: self.config@,
            common: self.common@,
            contents: self.contents@.map_values(|p: (String, String)| (p.0@, p.1@)),
        }
    }
}

/// Some profile carries this id.
pub open spec fn has_id(ps: Seq<MetaV>, id: Seq<char>) -> bool {
    exists|i: int| 0 <= i < ps.len() && ps[i].id == id
}

/// Some profile carries this name.
pub open spec fn has_name(ps: Seq<MetaV>, name: Seq<char>) -> bool {
    exists|i: int| 0 <= i < ps.len() && ps[i].name == name
}

/// Some profile other than `id` carries this name.
pub open spec fn has_name_other(ps: Seq<MetaV>, name: Seq<char>, id: Seq<char>) -> bool {
    exists|i: int| 0 <= i < ps.len() && ps[i].name == name && ps[i].id != id
}

/// The index of the first profile with this id, or -1 if there is none.
pub open spec fn index_of_id(ps: Seq<MetaV>, id: Seq<char>) -> int
    decreases ps.len(),
{
    if ps.len() == 0 {
        -1
    } else if ps[0].id == id {
        0
    } else {
        let r = index_of_id(ps.drop_first(), id);
        if r < 0 {
            -1
        } else {
            r + 1
        }
    }
}

/// What `index_of_id` returns: -1 exactly when the id is absent, and
/// otherwise the first index that carries it.
pub proof fn lemma_index_of_id(ps: Seq<MetaV>, id: Seq<char>)
    ensures
        index_of_id(ps, id) == -1 <==> !has_id(ps, id),
        index_of_id(ps, id) >= 0 ==> index_of_id(ps, id) < ps.len() && ps[index_of_id(ps, id)].id
            == id && (forall|j: int| 0 <= j < index_of_id(ps, id) ==> ps[j].id != id),
    decreases ps.len(),
{
    if ps.len() == 0 {
    } else if ps[0].id == id {
    } else {
        lemma_index_of_id(ps.drop_first(), id);
        let r = index_of_id(ps.drop_first(), id);
        if r < 0 {
            assert(forall|i: int|
                1 <= i < ps.len() ==> ps[i] == ps.drop_first()[i - 1] && ps[i].id != id);
        } else {
            assert(ps[r + 1] == ps.drop_first()[r]);
            assert(forall|j: int| 1 <= j < r + 1 ==> ps[j] == ps.drop_first()[j - 1]);
        }
    }
}

/// The index of the first content entry with this id, or -1.
pub open spec fn index_of_key(cs: Seq<(Seq<char>, Seq<char>)>, id: Seq<char>) -> int
    decreases cs.len(),
{
    if cs.len() == 0 {
        -1
    } else if cs[0].0 == id {
        0
    } else {
        let r = index_of_key(cs.drop_first(), id);
        if r < 0 {
            -1
        } else {
            r + 1
        }
    }
}

/// Some content entry carries this key.
pub open spec fn has_key(cs: Seq<(Seq<char>, Seq<char>)>, id: Seq<char>) -> bool {
    exists|i: int| 0 <= i < cs.len() && cs[i].0 == id
}

/// What `index_of_key` returns, in the same shape as `lemma_index_of_id`.
pub proof fn lemma_index_of_key(cs: Seq<(Seq<char>, Seq<char>)>, id: Seq<char>)
    ensures
        index_of_key(cs, id) == -1 <==> !has_key(cs, id),
        index_of_key(cs, id) >= 0 ==> index_of_key(cs, id) < cs.len() && cs[index_of_key(
            cs,
            id,
        )].0 == id && (forall|j: int| 0 <= j < index_of_key(cs, id) ==> cs[j].0 != id),
    decreases cs.len(),
{
    if cs.len() == 0 {
    } else if cs[0].0 == id {
    } else {
        lemma_index_of_key(cs.drop_first(), id);
        let r = index_of_key(cs.drop_first(), id);
        if r < 0 {
            assert(forall|i: int|
                1 <= i < cs.len() ==> cs[i] == cs.drop_first()[i - 1] && cs[i].0 != id);
        } else {
            assert(cs[r + 1] == cs.drop_first()[r]);
            assert(forall|j: int| 1 <= j < r + 1 ==> cs[j] == cs.drop_first()[j - 1]);
        }
    }
}

/// The stored content for an id, if any entry carries it.
pub open spec fn lookup(cs: Seq<(Seq<char>, Seq<char>)>, id: Seq<char>) -> Option<Seq<char>> {
    if index_of_key(cs, id) < 0 {
        None
    } else {
        Some(cs[index_of_key(cs, id)].1)
    }
}

/// The stored content for an id; a missing entry degrades to empty text.
pub open spec fn content_or_empty(cs: Seq<(Seq<char>, Seq<char>)>, id: Seq<char>) -> Seq<char> {
    match lookup(cs, id) {
        Some(c) => c,
        None => Seq::empty(),
    }
}

/// The association list after storing `content` under `id`: the first
/// entry with that key is overwritten, or a new entry is appended.
pub open spec fn set_key(
    cs: Seq<(Seq<char>, Seq<char>)>,
    id: Seq<char>,
    content: Seq<char>,
) -> Seq<(Seq<char>, Seq<char>)> {
    let k = index_of_key(cs, id);
    if k < 0 {
        cs.push((id, content))
    } else {
        cs.update(k, (id, content))
    }
}

/// The association list after removing the entry under `id`, if any.
pub open spec fn remove_key(cs: Seq<(Seq<char>, Seq<char>)>, id: Seq<char>) -> Seq<
    (Seq<char>, Seq<char>),
> {
    let k = index_of_key(cs, id);
    if k < 0 {
        cs
    } else {
        cs.remove(k)
    }
}

/// No two profiles share an id.
pub open spec fn ids_distinct(ps: Seq<MetaV>) -> bool {
    forall|i: int, j: int| 0 <= i < j < ps.len() ==> ps[i].id != ps[j].id
}

/// No two profiles share a name.
pub open spec fn names_distinct(ps: Seq<MetaV>) -> bool {
    forall|i: int, j: int| 0 <= i < j < ps.len() ==> ps[i].name != ps[j].name
}

/// No two profiles are active at once.
pub open spec fn at_most_one_active(ps: Seq<MetaV>) -> bool {
    forall|i: int, j: int| 0 <= i < j < ps.len() ==> !(ps[i].active && ps[j].active)
}

/// No two content entries share a key.
pub open spec fn keys_distinct(cs: Seq<(Seq<char>, Seq<char>)>) -> bool {
    forall|i: int, j: int| 0 <= i < j < cs.len() ==> cs[i].0 != cs[j].0
}

impl ConfigV {
    /// The configuration invariant, enforced at every mutation boundary:
    /// ids and names are unique, and in single-select mode at most one
    /// profile is active.
    pub open spec fn wf(&self) -> bool {
        &&& ids_distinct(self.profiles)
        &&& names_distinct(self.profiles)
        &&& (!self.multi_select ==> at_most_one_active(self.profiles))
    }
}

impl StoreV {
    /// The store invariant: a well-formed configuration and uniquely
    /// keyed content entries.
    pub open spec fn wf(&self) -> bool {
        &&& self.config.wf()
        &&& keys_distinct(self.contents)
    }
}

/// The state of a fresh, empty store.
pub open spec fn empty_store_v() -> StoreV {
    StoreV {
        config: ConfigV { multi_select: false, profiles: Seq::empty() },
        common: Seq::empty(),
        contents: Seq::empty(),
    }
}

/// A fresh store: multi-select off, no profiles, no common block.
pub fn new_store() -> (r: Store)
    ensures
        r@ == empty_store_v(),
        r@.wf(),
{
    let r = Store {
        config: AppConfig { multi_select: false, profiles: Vec::new() },
        common: String::new(),
        contents: Vec::new(),
    };
    proof {
        assert(r@ =~= empty_store_v());
    }
    r
}

/// Finds the first profile with this id.
pub(crate) fn find_index_by_id(ps: &Vec<ProfileMetadata>, id: &String) -> (r: Option<usize>)
    ensures
        ({
            let v = ps@.map_values(|p: ProfileMetadata| p@);
            match r {
                Some(i) => 0 <= i < v.len() && index_of_id(v, id@) == i,
                None => index_of_id(v, id@) == -1,
            }
        }),
{
    let ghost v = ps@.map_values(|p: ProfileMetadata| p@);
    proof {
        lemma_index_of_id(v, id@);
    }
    let mut i: usize = 0;
    while i < ps.len()
        invariant
            i <= ps.len(),
            v == ps@.map_values(|p: ProfileMetadata| p@),
            v.len() == ps.len(),
            forall|j: int| 0 <= j < i ==> v[j].id != id@,
        decreases ps.len() - i,
    {
        if ps[i].id == *id {
            proof {
                lemma_index_of_id(v, id@);
                assert(v[i as int].id == id@);
                assert(has_id(v, id@));
                let k = index_of_id(v, id@);
                if k < i as int {
                    assert(v[k].id != id@);
                } else if k > i as int {
                    assert(v[i as int].id != id@);
                }
            }
            return Some(i);
        }
        proof {
            assert(v[i as int].id == ps@[i as int]@.id);
        }
        i += 1;
    }
    proof {
        lemma_index_of_id(v, id@);
    }
    None
}

/// Finds the first profile with this name.
pub(crate) fn find_index_by_name(ps: &Vec<ProfileMetadata>, name: &String) -> (r: Option<usize>)
    ensures
        ({
            let v = ps@.map_values(|p: ProfileMetadata| p@);
            match r {
                Some(i) => 0 <= i < v.len() && v[i as int].name == name@ && (forall|j: int|
                    0 <= j < i ==> v[j].name != name@),
                None => !has_name(v, name@),
            }
        }),
{
    let ghost v = ps@.map_values(|p: ProfileMetadata| p@);
    let mut i: usize = 0;
    while i < ps.len()
        invariant
            i <= ps.len(),
            v == ps@.map_values(|p: ProfileMetadata| p@),
            v.len() == ps.len(),
            forall|j: int| 0 <= j < i ==> v[j].name != name@,
        decreases ps.len() - i,
    {
        if ps[i].name == *name {
            proof {
                assert(v[i as int].name == name@);
            }
            return Some(i);
        }
        proof {
            assert(v[i as int].name == ps@[i as int]@.name);
        }
        i += 1;
    }
    None
}

/// Finds the first content entry with this key.
pub(crate) fn find_index_by_key(cs: &Vec<(String, String)>, id: &String) -> (r: Option<usize>)
    ensures
        ({
            let v = cs@.map_values(|p: (String, String)| (p.0@, p.1@));
            match r {
                Some(i) => 0 <= i < v.len() && index_of_key(v, id@) == i,
                None => index_of_key(v, id@) == -1,
            }
        }),
{
    let ghost v = cs@.map_values(|p: (String, String)| (p.0@, p.1@));
    proof {
        lemma_index_of_key(v, id@);
    }
    let mut i: usize = 0;
    while i < cs.len()
        invariant
            i <= cs.len(),
            v == cs@.map_values(|p: (String, String)| (p.0@, p.1@)),
            v.len() == cs.len(),
            forall|j: int| 0 <= j < i ==> v[j].0 != id@,
        decreases cs.len() - i,
    {
        if cs[i].0 == *id {
            proof {
                lemma_index_of_key(v, id@);
                assert(v[i as int].0 == id@);
                assert(has_key(v, id@));
                let k = index_of_key(v, id@);
                if k < i as int {
                    assert(v[k].0 != id@);
                } else if k > i as int {
                    assert(v[i as int].0 != id@);
                }
            }
            return Some(i);
        }
        proof {
            assert(v[i as int].0 == cs@[i as int].0@);
        }
        i += 1;
    }
    proof {
        lemma_index_of_key(v, id@);
    }
    None
}

} // verus!
