//! The merge renderer: the deterministic document written to the hosts
//! file.
//!
//! The document is the banner, the common-block section, and one
//! section per active profile, in the configuration's stored order.
//! An empty common block still emits its header, so downstream diffs
//! stay stable.  Writing the result to the hosts path is the caller's
//! step.

use vstd::prelude::*;
use vstd::string::StringExecFns;

verus! {

use crate::model::{content_or_empty, find_index_by_key, index_of_key, MetaV, Store, StoreV};

/// The fixed first line of every rendered document.
pub open spec fn banner() -> Seq<char> {
    "# Generated by Hosts Switcher\n\n"@
}

/// The common-block section, emitted on every render.
pub open spec fn common_section(common: Seq<char>) -> Seq<char> {
    "### Common Config ###\n"@ + common + "\n\n"@
}

/// One profile's section: header with its name, then its content.
pub open spec fn profile_section(name: Seq<char>, content: Seq<char>) -> Seq<char> {
    "### Profile: "@ + name + " ###\n"@ + content + "\n\n"@
}

/// The concatenated sections of the active profiles among `ps`, in
/// order, each with its stored content (missing content is empty).
pub open spec fn sections(ps: Seq<MetaV>, cs: Seq<(Seq<char>, Seq<char>)>) -> Seq<char>
    decreases ps.len(),
{
    if ps.len() == 0 {
        Seq::empty()
    } else {
        (if ps[0].active {
            profile_section(ps[0].name, content_or_empty(cs, ps[0].id))
        } else {
            Seq::empty()
        }) + sections(ps.drop_first(), cs)
    }
}

/// The whole rendered document for a store state.
pub open spec fn render_spec(s: StoreV) -> Seq<char> {
    banner() + common_section(s.common) + sections(s.config.profiles, s.contents)
}

/// Extending the profile list by one profile extends the sections on
/// the right.
proof fn lemma_sections_push(ps: Seq<MetaV>, cs: Seq<(Seq<char>, Seq<char>)>, m: MetaV)
    ensures
        sections(ps.push(m), cs) =~= sections(ps, cs) + (if m.active {
            profile_section(m.name, content_or_empty(cs, m.id))
        } else {
            Seq::<char>::empty()
        }),
    decreases ps.len(),
{
    let sec = if m.active {
        profile_section(m.name, content_or_empty(cs, m.id))
    } else {
        Seq::<char>::empty()
    };
    if ps.len() == 0 {
        assert(ps.push(m)[0] == m);
        assert(ps.push(m).drop_first() =~= Seq::<MetaV>::empty());
        assert(sections(ps.push(m), cs) == sec + sections(Seq::<MetaV>::empty(), cs));
        assert(sections(Seq::<MetaV>::empty(), cs) == Seq::<char>::empty());
        assert(sections(ps, cs) == Seq::<char>::empty());
        assert(sec + Seq::<char>::empty() =~= Seq::<char>::empty() + sec);
    } else {
        lemma_sections_push(ps.drop_first(), cs, m);
        assert(ps.push(m).drop_first() =~= ps.drop_first().push(m));
        assert(ps.push(m)[0] == ps[0]);
        let h = if ps[0].active {
            profile_section(ps[0].name, content_or_empty(cs, ps[0].id))
        } else {
            Seq::<char>::empty()
        };
        assert(sections(ps.push(m), cs) == h + sections(ps.drop_first().push(m), cs));
        assert(sections(ps.drop_first().push(m), cs) == sections(ps.drop_first(), cs) + sec);
        assert(sections(ps, cs) == h + sections(ps.drop_first(), cs));
        assert(h + (sections(ps.drop_first(), cs) + sec) =~= (h + sections(ps.drop_first(), cs))
            + sec);
    }
}

/// The active profiles among `ps`, keeping their stored order.
pub open spec fn active_metas(ps: Seq<MetaV>) -> Seq<MetaV>
    decreases ps.len(),
{
    if ps.len() == 0 {
        Seq::empty()
    } else if ps[0].active {
        seq![ps[0]] + active_metas(ps.drop_first())
    } else {
        active_metas(ps.drop_first())
    }
}

/// Prepending one profile to the section fold.
proof fn lemma_sections_cons(m: MetaV, q: Seq<MetaV>, cs: Seq<(Seq<char>, Seq<char>)>)
    ensures
        sections(seq![m] + q, cs) == (if m.active {
            profile_section(m.name, content_or_empty(cs, m.id))
        } else {
            Seq::<char>::empty()
        }) + sections(q, cs),
{
    assert((seq![m] + q)[0] == m);
    assert((seq![m] + q).drop_first() =~= q);
}

/// The rendered sections are exactly one section per active profile,
/// in the configuration's stored order: inactive profiles contribute
/// nothing, and no reordering happens.
pub proof fn lemma_render_order(ps: Seq<MetaV>, cs: Seq<(Seq<char>, Seq<char>)>)
    ensures
        sections(ps, cs) == sections(active_metas(ps), cs),
    decreases ps.len(),
{
    if ps.len() == 0 {
    } else {
        lemma_render_order(ps.drop_first(), cs);
        if ps[0].active {
            lemma_sections_cons(ps[0], active_metas(ps.drop_first()), cs);
        }
    }
}

/// Renders the document for the current state: banner, common section,
/// then each active profile's section in stored order.
pub fn apply_config(store: &Store) -> (r: String)
    ensures
        r@ == render_spec(store@),
{
    let ghost s = store@;
    let mut r = String::from_str("# Generated by Hosts Switcher\n\n");
    r.append("### Common Config ###\n");
    r.append(store.common.as_str());
    r.append("\n\n");
    proof {
        assert(r@ =~= banner() + common_section(s.common));
        assert(s.config.profiles.take(0) =~= Seq::<MetaV>::empty());
    }
    let n = store.config.profiles.len();
    let mut i: usize = 0;
    while i < n
        invariant
            i <= n,
            n == store.config.profiles.len(),
            s == store@,
            r@ == banner() + common_section(s.common) + sections(s.config.profiles.take(i as int), s.contents),
        decreases n - i,
    {
        let ghost prefix = r@;
        let meta = &store.config.profiles[i];
        if meta.active {
            r.append("### Profile: ");
            r.append(meta.name.as_str());
            r.append(" ###\n");
            match find_index_by_key(&store.contents, &meta.id) {
                Some(m) => {
                    r.append(store.contents[m].1.as_str());
                },
                None => {},
            }
            r.append("\n\n");
            proof {
                assert(r@ =~= prefix + profile_section(
                    s.config.profiles[i as int].name,
                    content_or_empty(s.contents, s.config.profiles[i as int].id),
                ));
            }
        }
        proof {
            lemma_sections_push(s.config.profiles.take(i as int), s.contents, s.config.profiles[i as int]);
            assert(s.config.profiles.take(i as int).push(s.config.profiles[i as int])
                =~= s.config.profiles.take(i + 1));
            assert(r@ =~= banner() + common_section(s.common) + sections(
                s.config.profiles.take(i + 1),
                s.contents,
            ));
        }
        i += 1;
    }
    proof {
        assert(s.config.profiles.take(n as int) =~= s.config.profiles);
    }
    r
}

} // verus!
