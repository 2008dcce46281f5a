//! The backup document: a versioned snapshot of the configuration, the
//! common block, and every profile's content, as one portable text.
//!
//! The document is written and read by this crate's own verified
//! serializer and parser, in a fixed field order with the escaping of
//! `codec`.  Export gathers the state and stamps the schema version and
//! a timestamp; import parses, validates the configuration invariant,
//! and replaces the state, overwriting content entries one by one and
//! leaving unmentioned local entries in place.

use vstd::prelude::*;
use vstd::string::StrSliceExecFns;
use vstd::string::StringExecFns;

verus! {

use crate::codec::{
    digits_val, expect, expect_s, parse_small_number, quote, scan_digits, scan_string,
    scan_string_exec,
};
use crate::model::{
    content_or_empty, find_index_by_key, keys_distinct, lemma_index_of_key, set_key, AppConfig,
    ConfigV, MetaV, ProfileMetadata, Store, StoreV,
};
use crate::HostsError;

/// The schema version this crate writes, and the newest it accepts.
pub open spec fn backup_version() -> int {
    2
}

/// Mathematical view of [`FullBackup`].
#[verifier::ext_equal]
pub struct BackupV {
    pub version: int,
    pub timestamp: Seq<char>,
    pub config: ConfigV,
    pub common_content: Seq<char>,
    pub profiles_content: Seq<(Seq<char>, Seq<char>)>,
}

/// A parsed backup document: the schema version and timestamp it was
/// stamped with, the configuration, the common block, and each
/// profile's content keyed by id.
#[derive(Debug)]
pub struct FullBackup {
    pub version: u32,
    pub timestamp: String,
    pub config: AppConfig,
    pub common_content: String,
    pub profiles_content: Vec<(String, String)>,
}

impl View for FullBackup {
    type V = BackupV;

    open spec fn view(&self) -> BackupV {
        BackupV {
            version: self.version as int,
            timestamp: self.timestamp@,
            config: self.config@,
            common_content: self.common_content@,
            profiles_content: self.profiles_content@.map_values(
                |p: (String, String)| (p.0@, p.1@),
            ),
        }
    }
}

// ------------------------------------------------------------------
// The serialized form.
// ------------------------------------------------------------------

/// A boolean as written in the document.
pub open spec fn ser_bool(b: bool) -> Seq<char> {
    if b {
        "true"@
    } else {
        "false"@
    }
}

/// One profile's metadata object.
pub open spec fn ser_meta(m: MetaV) -> Seq<char> {
    "{\"id\":"@ + quote(m.id) + ",\"name\":"@ + quote(m.name) + ",\"active\":"@ + ser_bool(
        m.active,
    ) + "}"@
}

/// The comma-separated metadata objects of the profile list.
pub open spec fn ser_metas_inner(ms: Seq<MetaV>) -> Seq<char>
    decreases ms.len(),
{
    if ms.len() == 0 {
        Seq::empty()
    } else if ms.len() == 1 {
        ser_meta(ms[0])
    } else {
        ser_meta(ms[0]) + ","@ + ser_metas_inner(ms.drop_first())
    }
}

/// The configuration object.
pub open spec fn ser_config(c: ConfigV) -> Seq<char> {
    "{\"multi_select\":"@ + ser_bool(c.multi_select) + ",\"profiles\":["@ + ser_metas_inner(
        c.profiles,
    ) + "]"@ + "}"@
}

/// One id-to-content entry of the content map.
pub open spec fn ser_pair(p: (Seq<char>, Seq<char>)) -> Seq<char> {
    quote(p.0) + ":"@ + quote(p.1)
}

/// The comma-separated entries of the content map.
pub open spec fn ser_pairs_inner(ps: Seq<(Seq<char>, Seq<char>)>) -> Seq<char>
    decreases ps.len(),
{
    if ps.len() == 0 {
        Seq::empty()
    } else if ps.len() == 1 {
        ser_pair(ps[0])
    } else {
        ser_pair(ps[0]) + ","@ + ser_pairs_inner(ps.drop_first())
    }
}

/// The whole backup document for the given parts.
pub open spec fn ser_backup(
    c: ConfigV,
    common: Seq<char>,
    pairs: Seq<(Seq<char>, Seq<char>)>,
    ts: Seq<char>,
) -> Seq<char> {
    "{\"version\":"@ + "2"@ + ",\"timestamp\":"@ + quote(ts) + ",\"config\":"@ + ser_config(c)
        + ",\"common_content\":"@ + quote(common) + ",\"profiles_content\":{"@ + ser_pairs_inner(
        pairs,
    ) + "}"@ + "}"@
}

/// What export writes into the content map: one entry per profile, in
/// the configuration's order, with missing content as empty text.
pub open spec fn export_pairs(s: StoreV) -> Seq<(Seq<char>, Seq<char>)> {
    s.config.profiles.map_values(|m: MetaV| (m.id, content_or_empty(s.contents, m.id)))
}

/// The whole backup document for a store state and a timestamp.
pub open spec fn ser_backup_doc(s: StoreV, ts: Seq<char>) -> Seq<char> {
    ser_backup(s.config, s.common, export_pairs(s), ts)
}

// ------------------------------------------------------------------
// The parsed form.
// ------------------------------------------------------------------

/// Reads `true` or `false`.
pub open spec fn parse_bool_s(s: Seq<char>, i: int) -> Option<(bool, int)> {
    match expect_s(s, i, "true"@) {
        Some(j) => Some((true, j)),
        None => match expect_s(s, i, "false"@) {
            Some(j) => Some((false, j)),
            None => None,
        },
    }
}

/// Reads one profile metadata object.
pub open spec fn parse_meta_s(s: Seq<char>, i: int) -> Option<(MetaV, int)> {
    match expect_s(s, i, "{\"id\":"@) {
        Some(i1) => match expect_s(s, i1, "\""@) {
            Some(i2) => match scan_string(s, i2) {
                Some((id, i3)) => match expect_s(s, i3, ",\"name\":"@) {
                    Some(i4) => match expect_s(s, i4, "\""@) {
                        Some(i5) => match scan_string(s, i5) {
                            Some((name, i6)) => match expect_s(s, i6, ",\"active\":"@) {
                                Some(i7) => match parse_bool_s(s, i7) {
                                    Some((b, i8)) => match expect_s(s, i8, "}"@) {
                                        Some(i9) => Some((MetaV { id, name, active: b }, i9)),
                                        None => None,
                                    },
                                    None => None,
                                },
                                None => None,
                            },
                            None => None,
                        },
                        None => None,
                    },
                    None => None,
                },
                None => None,
            },
            None => None,
        },
        None => None,
    }
}

/// Reads the remaining entries of a non-empty profile list, up to and
/// including the closing bracket.
pub open spec fn parse_metas_loop_s(s: Seq<char>, i: int) -> Option<(Seq<MetaV>, int)>
    decreases s.len() - i,
{
    match parse_meta_s(s, i) {
        Some((m, j)) => if j <= i || j > s.len() {
            None
        } else {
            match expect_s(s, j, ","@) {
                Some(k) => if k <= i || k > s.len() {
                    None
                } else {
                    match parse_metas_loop_s(s, k) {
                        Some((rest, j2)) => Some((seq![m] + rest, j2)),
                        None => None,
                    }
                },
                None => match expect_s(s, j, "]"@) {
                    Some(k) => Some((seq![m], k)),
                    None => None,
                },
            }
        },
        None => None,
    }
}

/// Reads a profile list from just after its opening bracket, up to and
/// including the closing bracket.
pub open spec fn parse_metas_s(s: Seq<char>, i: int) -> Option<(Seq<MetaV>, int)> {
    match expect_s(s, i, "]"@) {
        Some(j) => Some((Seq::empty(), j)),
        None => parse_metas_loop_s(s, i),
    }
}

/// Reads the configuration object.
pub open spec fn parse_config_s(s: Seq<char>, i: int) -> Option<(ConfigV, int)> {
    match expect_s(s, i, "{\"multi_select\":"@) {
        Some(i1) => match parse_bool_s(s, i1) {
            Some((b, i2)) => match expect_s(s, i2, ",\"profiles\":["@) {
                Some(i3) => match parse_metas_s(s, i3) {
                    Some((ms, i4)) => match expect_s(s, i4, "}"@) {
                        Some(i5) => Some((ConfigV { multi_select: b, profiles: ms }, i5)),
                        None => None,
                    },
                    None => None,
                },
                None => None,
            },
            None => None,
        },
        None => None,
    }
}

/// Reads the remaining entries of a non-empty content map, up to and
/// including the closing brace.
pub open spec fn parse_pairs_loop_s(s: Seq<char>, i: int) -> Option<
    (Seq<(Seq<char>, Seq<char>)>, int),
>
    decreases s.len() - i,
{
    match expect_s(s, i, "\""@) {
        Some(j0) => match scan_string(s, j0) {
            Some((k, j1)) => match expect_s(s, j1, ":"@) {
                Some(j2) => match expect_s(s, j2, "\""@) {
                    Some(j3) => match scan_string(s, j3) {
                        Some((vv, j4)) => if j4 <= i || j4 > s.len() {
                            None
                        } else {
                            match expect_s(s, j4, ","@) {
                                Some(j5) => if j5 <= i || j5 > s.len() {
                                    None
                                } else {
                                    match parse_pairs_loop_s(s, j5) {
                                        Some((rest, j6)) => Some((seq![(k, vv)] + rest, j6)),
                                        None => None,
                                    }
                                },
                                None => match expect_s(s, j4, "}"@) {
                                    Some(j5) => Some((seq![(k, vv)], j5)),
                                    None => None,
                                },
                            }
                        },
                        None => None,
                    },
                    None => None,
                },
                None => None,
            },
            None => None,
        },
        None => None,
    }
}

/// Reads a content map from just after its opening brace, up to and
/// including the closing brace.
pub open spec fn parse_pairs_s(s: Seq<char>, i: int) -> Option<(Seq<(Seq<char>, Seq<char>)>, int)> {
    match expect_s(s, i, "}"@) {
        Some(j) => Some((Seq::empty(), j)),
        None => parse_pairs_loop_s(s, i),
    }
}

/// Reads a whole backup document; the entire text must be consumed.
pub open spec fn parse_backup_s(s: Seq<char>) -> Option<BackupV> {
    match expect_s(s, 0, "{\"version\":"@) {
        Some(i1) => {
            let j = scan_digits(s, i1);
            if j == i1 || j > i1 + 4 {
                None
            } else {
                let ver = digits_val(s, i1, j);
                match expect_s(s, j, ",\"timestamp\":"@) {
                    Some(i2) => match expect_s(s, i2, "\""@) {
                        Some(i3) => match scan_string(s, i3) {
                            Some((ts, i4)) => match expect_s(s, i4, ",\"config\":"@) {
                                Some(i5) => match parse_config_s(s, i5) {
                                    Some((cfg, i6)) => match expect_s(
                                        s,
                                        i6,
                                        ",\"common_content\":"@,
                                    ) {
                                        Some(i7) => match expect_s(s, i7, "\""@) {
                                            Some(i8) => match scan_string(s, i8) {
                                                Some((common, i9)) => match expect_s(
                                                    s,
                                                    i9,
                                                    ",\"profiles_content\":{"@,
                                                ) {
                                                    Some(i10) => match parse_pairs_s(s, i10) {
                                                        Some((pairs, i11)) => match expect_s(
                                                            s,
                                                            i11,
                                                            "}"@,
                                                        ) {
                                                            Some(i12) => if i12 == s.len() {
                                                                Some(
                                                                    BackupV {
                                                                        version: ver,
                                                                        timestamp: ts,
                                                                        config: cfg,
                                                                        common_content: common,
                                                                        profiles_content: pairs,
                                                                    },
                                                                )
                                                            } else {
                                                                None
                                                            },
                                                            None => None,
                                                        },
                                                        None => None,
                                                    },
                                                    None => None,
                                                },
                                                None => None,
                                            },
                                            None => None,
                                        },
                                        None => None,
                                    },
                                    None => None,
                                },
                                None => None,
                            },
                            None => None,
                        },
                        None => None,
                    },
                    None => None,
                }
            }
        },
        None => None,
    }
}

// ------------------------------------------------------------------
// The serializer.
// ------------------------------------------------------------------

/// Appends `true` or `false`.
fn append_bool(out: &mut String, b: bool)
    ensures
        final(out)@ == old(out)@ + ser_bool(b),
{
    if b {
        out.append("true");
    } else {
        out.append("false");
    }
}

/// Appends one profile's metadata object.
fn append_meta(out: &mut String, p: &ProfileMetadata)
    ensures
        final(out)@ == old(out)@ + ser_meta(p@),
{
    let ghost base = out@;
    out.append("{\"id\":");
    crate::codec::append_quoted(out, p.id.as_str());
    out.append(",\"name\":");
    crate::codec::append_quoted(out, p.name.as_str());
    out.append(",\"active\":");
    append_bool(out, p.active);
    out.append("}");
    proof {
        assert(out@ =~= base + ser_meta(p@));
    }
}

/// Adding one more profile extends the serialized list on the right.
proof fn lemma_ser_metas_inner_push(ms: Seq<MetaV>, m: MetaV)
    ensures
        ser_metas_inner(ms.push(m)) =~= if ms.len() == 0 {
            ser_meta(m)
        } else {
            ser_metas_inner(ms) + ","@ + ser_meta(m)
        },
    decreases ms.len(),
{
    if ms.len() == 0 {
        assert(ms.push(m)[0] == m);
    } else if ms.len() == 1 {
        assert(ms.push(m).drop_first() =~= seq![m]);
        assert(ms.push(m)[0] == ms[0]);
        assert(ser_metas_inner(seq![m]) == ser_meta(m));
    } else {
        lemma_ser_metas_inner_push(ms.drop_first(), m);
        assert(ms.push(m).drop_first() =~= ms.drop_first().push(m));
        assert(ms.push(m)[0] == ms[0]);
        assert(ser_metas_inner(ms.push(m)) == ser_meta(ms[0]) + ","@ + ser_metas_inner(
            ms.drop_first().push(m),
        ));
        assert(ser_metas_inner(ms.drop_first().push(m)) =~= ser_metas_inner(ms.drop_first())
            + ","@ + ser_meta(m));
        assert(ser_meta(ms[0]) + ","@ + (ser_metas_inner(ms.drop_first()) + ","@ + ser_meta(m))
            =~= (ser_meta(ms[0]) + ","@ + ser_metas_inner(ms.drop_first())) + ","@ + ser_meta(m));
    }
}

/// Adding one more entry extends the serialized map on the right.
proof fn lemma_ser_pairs_inner_push(ps: Seq<(Seq<char>, Seq<char>)>, p: (Seq<char>, Seq<char>))
    ensures
        ser_pairs_inner(ps.push(p)) =~= if ps.len() == 0 {
            ser_pair(p)
        } else {
            ser_pairs_inner(ps) + ","@ + ser_pair(p)
        },
    decreases ps.len(),
{
    if ps.len() == 0 {
        assert(ps.push(p)[0] == p);
    } else if ps.len() == 1 {
        assert(ps.push(p).drop_first() =~= seq![p]);
        assert(ps.push(p)[0] == ps[0]);
        assert(ser_pairs_inner(seq![p]) == ser_pair(p));
    } else {
        lemma_ser_pairs_inner_push(ps.drop_first(), p);
        assert(ps.push(p).drop_first() =~= ps.drop_first().push(p));
        assert(ps.push(p)[0] == ps[0]);
        assert(ser_pairs_inner(ps.push(p)) == ser_pair(ps[0]) + ","@ + ser_pairs_inner(
            ps.drop_first().push(p),
        ));
        assert(ser_pairs_inner(ps.drop_first().push(p)) =~= ser_pairs_inner(ps.drop_first())
            + ","@ + ser_pair(p));
        assert(ser_pair(ps[0]) + ","@ + (ser_pairs_inner(ps.drop_first()) + ","@ + ser_pair(p))
            =~= (ser_pair(ps[0]) + ","@ + ser_pairs_inner(ps.drop_first())) + ","@ + ser_pair(p));
    }
}

/// Appends the profile list's comma-separated objects.
fn append_metas_inner(out: &mut String, ps: &Vec<ProfileMetadata>)
    ensures
        final(out)@ == old(out)@ + ser_metas_inner(ps@.map_values(|p: ProfileMetadata| p@)),
{
    let ghost base = out@;
    let ghost ms = ps@.map_values(|p: ProfileMetadata| p@);
    let n = ps.len();
    let mut i: usize = 0;
    while i < n
        invariant
            i <= n,
            n == ps.len(),
            ms == ps@.map_values(|p: ProfileMetadata| p@),
            ms.len() == n,
            out@ == base + ser_metas_inner(ms.take(i as int)),
        decreases n - i,
    {
        if i > 0 {
            out.append(",");
        }
        append_meta(out, &ps[i]);
        proof {
            lemma_ser_metas_inner_push(ms.take(i as int), ms[i as int]);
            assert(ms.take(i as int).push(ms[i as int]) =~= ms.take(i + 1));
            if i == 0 {
                assert(out@ =~= base + ser_metas_inner(ms.take(1)));
            } else {
                assert(out@ =~= base + (ser_metas_inner(ms.take(i as int)) + ","@ + ser_meta(
                    ms[i as int],
                )));
                assert(out@ =~= base + ser_metas_inner(ms.take(i + 1)));
            }
        }
        i += 1;
    }
    proof {
        assert(ms.take(n as int) =~= ms);
    }
}

/// The configuration as persisted text.
pub fn config_json(c: &AppConfig) -> (r: String)
    ensures
        r@ == ser_config(c@),
{
    let mut out = String::new();
    out.append("{\"multi_select\":");
    append_bool(&mut out, c.multi_select);
    out.append(",\"profiles\":[");
    append_metas_inner(&mut out, &c.profiles);
    out.append("]");
    out.append("}");
    proof {
        assert(out@ =~= ser_config(c@));
    }
    out
}

/// Appends the content map's comma-separated entries.
fn append_pairs_inner(out: &mut String, ps: &Vec<(String, String)>)
    ensures
        final(out)@ == old(out)@ + ser_pairs_inner(
            ps@.map_values(|p: (String, String)| (p.0@, p.1@)),
        ),
{
    let ghost base = out@;
    let ghost ms = ps@.map_values(|p: (String, String)| (p.0@, p.1@));
    let n = ps.len();
    let mut i: usize = 0;
    while i < n
        invariant
            i <= n,
            n == ps.len(),
            ms == ps@.map_values(|p: (String, String)| (p.0@, p.1@)),
            ms.len() == n,
            out@ == base + ser_pairs_inner(ms.take(i as int)),
        decreases n - i,
    {
        if i > 0 {
            out.append(",");
        }
        crate::codec::append_quoted(out, ps[i].0.as_str());
        out.append(":");
        crate::codec::append_quoted(out, ps[i].1.as_str());
        proof {
            lemma_ser_pairs_inner_push(ms.take(i as int), ms[i as int]);
            assert(ms.take(i as int).push(ms[i as int]) =~= ms.take(i + 1));
            if i == 0 {
                assert(out@ =~= base + ser_pair(ms[0]));
                assert(out@ =~= base + ser_pairs_inner(ms.take(1)));
            } else {
                assert(out@ =~= base + (ser_pairs_inner(ms.take(i as int)) + ","@ + ser_pair(
                    ms[i as int],
                )));
                assert(out@ =~= base + ser_pairs_inner(ms.take(i + 1)));
            }
        }
        i += 1;
    }
    proof {
        assert(ms.take(n as int) =~= ms);
    }
}

/// Gathers the content map that export writes: one entry per profile,
/// in order, with its stored content or empty text.
fn gather_pairs(store: &Store) -> (r: Vec<(String, String)>)
    ensures
        r@.map_values(|p: (String, String)| (p.0@, p.1@)) == export_pairs(store@),
{
    let mut r: Vec<(String, String)> = Vec::new();
    let n = store.config.profiles.len();
    let mut i: usize = 0;
    while i < n
        invariant
            i <= n,
            n == store.config.profiles.len(),
            r@.len() == i,
            forall|j: int|
                0 <= j < i ==> r@.map_values(|p: (String, String)| (p.0@, p.1@))[j]
                    == export_pairs(store@)[j],
        decreases n - i,
    {
        let meta = &store.config.profiles[i];
        let content: String = match find_index_by_key(&store.contents, &meta.id) {
            Some(m) => store.contents[m].1.clone(),
            None => String::new(),
        };
        r.push((meta.id.clone(), content));
        i += 1;
    }
    proof {
        assert(r@.map_values(|p: (String, String)| (p.0@, p.1@)) =~= export_pairs(store@));
    }
    r
}

/// Relies on `chrono::Local::now`, the current local time, rendered by
/// `DateTime::to_rfc3339`.  The value depends on the clock, so nothing
/// is promised of it.
#[verifier::external_body]
fn now_rfc3339() -> String {
    chrono::Local::now().to_rfc3339()
}

/// The backup document for the current state and the given timestamp.
pub fn export_with_timestamp(store: &Store, ts: &str) -> (r: String)
    ensures
        r@ == ser_backup_doc(store@, ts@),
{
    let mut out = String::new();
    out.append("{\"version\":");
    out.append("2");
    out.append(",\"timestamp\":");
    crate::codec::append_quoted(&mut out, ts);
    out.append(",\"config\":");
    let cfg = config_json(&store.config);
    out.append(cfg.as_str());
    out.append(",\"common_content\":");
    crate::codec::append_quoted(&mut out, store.common.as_str());
    out.append(",\"profiles_content\":{");
    let pairs = gather_pairs(store);
    append_pairs_inner(&mut out, &pairs);
    out.append("}");
    out.append("}");
    proof {
        assert(out@ =~= ser_backup_doc(store@, ts@));
    }
    out
}

/// Exports the whole state as one backup document, stamped with the
/// schema version and the current time.
pub fn export_data(store: &Store) -> (r: String)
    ensures
        exists|ts: Seq<char>| r@ == ser_backup_doc(store@, ts),
{
    let ts = now_rfc3339();
    let r = export_with_timestamp(store, ts.as_str());
    proof {
        assert(r@ == ser_backup_doc(store@, ts@));
    }
    r
}

// ------------------------------------------------------------------
// The parser.
// ------------------------------------------------------------------

/// Reads `true` or `false`.
fn parse_bool_exec(s: &str, i: usize) -> (r: Option<(bool, usize)>)
    ensures
        match r {
            Some(p) => parse_bool_s(s@, i as int) == Some((p.0, p.1 as int)) && i < p.1
                && p.1 <= s@.len(),
            None => parse_bool_s(s@, i as int) is None,
        },
{
    proof {
        reveal_strlit("true");
        reveal_strlit("false");
    }
    match expect(s, i, "true") {
        Some(j) => Some((true, j)),
        None => match expect(s, i, "false") {
            Some(j) => Some((false, j)),
            None => None,
        },
    }
}

/// Reads one profile metadata object.
fn parse_meta_exec(s: &str, i: usize) -> (r: Option<(ProfileMetadata, usize)>)
    ensures
        match r {
            Some(p) => parse_meta_s(s@, i as int) == Some((p.0@, p.1 as int)) && i < p.1
                && p.1 <= s@.len(),
            None => parse_meta_s(s@, i as int) is None,
        },
{
    let i1 = match expect(s, i, "{\"id\":") {
        Some(j) => j,
        None => {
            return None;
        },
    };
    let i2 = match expect(s, i1, "\"") {
        Some(j) => j,
        None => {
            return None;
        },
    };
    let (id, i3) = match scan_string_exec(s, i2) {
        Some(p) => p,
        None => {
            return None;
        },
    };
    let i4 = match expect(s, i3, ",\"name\":") {
        Some(j) => j,
        None => {
            return None;
        },
    };
    let i5 = match expect(s, i4, "\"") {
        Some(j) => j,
        None => {
            return None;
        },
    };
    let (name, i6) = match scan_string_exec(s, i5) {
        Some(p) => p,
        None => {
            return None;
        },
    };
    let i7 = match expect(s, i6, ",\"active\":") {
        Some(j) => j,
        None => {
            return None;
        },
    };
    let (b, i8) = match parse_bool_exec(s, i7) {
        Some(p) => p,
        None => {
            return None;
        },
    };
    let i9 = match expect(s, i8, "}") {
        Some(j) => j,
        None => {
            return None;
        },
    };
    Some((ProfileMetadata { id, name, active: b }, i9))
}

/// Reads a profile list from just after its opening bracket.
fn parse_metas_exec(s: &str, i: usize) -> (r: Option<(Vec<ProfileMetadata>, usize)>)
    ensures
        match r {
            Some(p) => parse_metas_s(s@, i as int) == Some(
                (p.0@.map_values(|m: ProfileMetadata| m@), p.1 as int),
            ) && i < p.1 && p.1 <= s@.len(),
            None => parse_metas_s(s@, i as int) is None,
        },
{
    proof {
        reveal_strlit("]");
    }
    match expect(s, i, "]") {
        Some(j) => {
            let empty: Vec<ProfileMetadata> = Vec::new();
            proof {
                assert(empty@.map_values(|m: ProfileMetadata| m@) =~= Seq::<MetaV>::empty());
            }
            return Some((empty, j));
        },
        None => {},
    }
    let n = s.unicode_len();
    if i > n {
        return None;
    }
    let mut acc: Vec<ProfileMetadata> = Vec::new();
    let mut cur = i;
    loop
        invariant
            n == s@.len(),
            i <= cur <= n,
            expect_s(s@, i as int, "]"@) is None,
            match parse_metas_loop_s(s@, cur as int) {
                Some(pr) => parse_metas_loop_s(s@, i as int) == Some(
                    (acc@.map_values(|m: ProfileMetadata| m@) + pr.0, pr.1),
                ),
                None => parse_metas_loop_s(s@, i as int) is None,
            },
        decreases n - cur,
    {
        let ghost accv = acc@.map_values(|m: ProfileMetadata| m@);
        match parse_meta_exec(s, cur) {
            None => {
                return None;
            },
            Some((m, j)) => {
                let ghost mv = m@;
                acc.push(m);
                proof {
                    assert(acc@.map_values(|m2: ProfileMetadata| m2@) =~= accv.push(mv));
                }
                match expect(s, j, ",") {
                    Some(k) => {
                        proof {
                            match parse_metas_loop_s(s@, k as int) {
                                Some(pr) => {
                                    assert(parse_metas_loop_s(s@, cur as int) == Some(
                                        (seq![mv] + pr.0, pr.1),
                                    ));
                                    assert(accv + (seq![mv] + pr.0) =~= accv.push(mv) + pr.0);
                                },
                                None => {
                                    assert(parse_metas_loop_s(s@, cur as int) is None);
                                },
                            }
                        }
                        cur = k;
                    },
                    None => {
                        match expect(s, j, "]") {
                            Some(k) => {
                                proof {
                                    assert(parse_metas_loop_s(s@, cur as int) == Some(
                                        (seq![mv], k as int),
                                    ));
                                    assert(accv + seq![mv] =~= accv.push(mv));
                                }
                                return Some((acc, k));
                            },
                            None => {
                                return None;
                            },
                        }
                    },
                }
            },
        }
    }
}

/// Reads the configuration object.
fn parse_config_exec(s: &str, i: usize) -> (r: Option<(AppConfig, usize)>)
    ensures
        match r {
            Some(p) => parse_config_s(s@, i as int) == Some((p.0@, p.1 as int)) && i < p.1
                && p.1 <= s@.len(),
            None => parse_config_s(s@, i as int) is None,
        },
{
    let i1 = match expect(s, i, "{\"multi_select\":") {
        Some(j) => j,
        None => {
            return None;
        },
    };
    let (b, i2) = match parse_bool_exec(s, i1) {
        Some(p) => p,
        None => {
            return None;
        },
    };
    let i3 = match expect(s, i2, ",\"profiles\":[") {
        Some(j) => j,
        None => {
            return None;
        },
    };
    let (ms, i4) = match parse_metas_exec(s, i3) {
        Some(p) => p,
        None => {
            return None;
        },
    };
    let i5 = match expect(s, i4, "}") {
        Some(j) => j,
        None => {
            return None;
        },
    };
    Some((AppConfig { multi_select: b, profiles: ms }, i5))
}

/// Reads a content map from just after its opening brace.
fn parse_pairs_exec(s: &str, i: usize) -> (r: Option<(Vec<(String, String)>, usize)>)
    ensures
        match r {
            Some(p) => parse_pairs_s(s@, i as int) == Some(
                (p.0@.map_values(|q: (String, String)| (q.0@, q.1@)), p.1 as int),
            ) && i < p.1 && p.1 <= s@.len(),
            None => parse_pairs_s(s@, i as int) is None,
        },
{
    proof {
        reveal_strlit("}");
    }
    match expect(s, i, "}") {
        Some(j) => {
            let empty: Vec<(String, String)> = Vec::new();
            proof {
                assert(empty@.map_values(|q: (String, String)| (q.0@, q.1@)) =~= Seq::<
                    (Seq<char>, Seq<char>),
                >::empty());
            }
            return Some((empty, j));
        },
        None => {},
    }
    let n = s.unicode_len();
    if i > n {
        return None;
    }
    let mut acc: Vec<(String, String)> = Vec::new();
    let mut cur = i;
    loop
        invariant
            n == s@.len(),
            i <= cur <= n,
            expect_s(s@, i as int, "}"@) is None,
            match parse_pairs_loop_s(s@, cur as int) {
                Some(pr) => parse_pairs_loop_s(s@, i as int) == Some(
                    (acc@.map_values(|q: (String, String)| (q.0@, q.1@)) + pr.0, pr.1),
                ),
                None => parse_pairs_loop_s(s@, i as int) is None,
            },
        decreases n - cur,
    {
        let ghost accv = acc@.map_values(|q: (String, String)| (q.0@, q.1@));
        let j0 = match expect(s, cur, "\"") {
            Some(j) => j,
            None => {
                return None;
            },
        };
        let (key, j1) = match scan_string_exec(s, j0) {
            Some(p) => p,
            None => {
                return None;
            },
        };
        let j2 = match expect(s, j1, ":") {
            Some(j) => j,
            None => {
                return None;
            },
        };
        let j3 = match expect(s, j2, "\"") {
            Some(j) => j,
            None => {
                return None;
            },
        };
        let (val, j4) = match scan_string_exec(s, j3) {
            Some(p) => p,
            None => {
                return None;
            },
        };
        let ghost pv = (key@, val@);
        acc.push((key, val));
        proof {
            assert(acc@.map_values(|q: (String, String)| (q.0@, q.1@)) =~= accv.push(pv));
        }
        match expect(s, j4, ",") {
            Some(k) => {
                proof {
                    match parse_pairs_loop_s(s@, k as int) {
                        Some(pr) => {
                            assert(parse_pairs_loop_s(s@, cur as int) == Some(
                                (seq![pv] + pr.0, pr.1),
                            ));
                            assert(accv + (seq![pv] + pr.0) =~= accv.push(pv) + pr.0);
                        },
                        None => {
                            assert(parse_pairs_loop_s(s@, cur as int) is None);
                        },
                    }
                }
                cur = k;
            },
            None => {
                match expect(s, j4, "}") {
                    Some(k) => {
                        proof {
                            assert(parse_pairs_loop_s(s@, cur as int) == Some(
                                (seq![pv], k as int),
                            ));
                            assert(accv + seq![pv] =~= accv.push(pv));
                        }
                        return Some((acc, k));
                    },
                    None => {
                        return None;
                    },
                }
            },
        }
    }
}

/// Reads a whole backup document; trailing text is rejected.
fn parse_backup_exec(s: &str) -> (r: Option<FullBackup>)
    ensures
        match r {
            Some(b) => parse_backup_s(s@) == Some(b@),
            None => parse_backup_s(s@) is None,
        },
{
    let i1 = match expect(s, 0, "{\"version\":") {
        Some(j) => j,
        None => {
            return None;
        },
    };
    let (ver, j) = match parse_small_number(s, i1) {
        Some(p) => p,
        None => {
            return None;
        },
    };
    let i2 = match expect(s, j, ",\"timestamp\":") {
        Some(j2) => j2,
        None => {
            return None;
        },
    };
    let i3 = match expect(s, i2, "\"") {
        Some(j2) => j2,
        None => {
            return None;
        },
    };
    let (ts, i4) = match scan_string_exec(s, i3) {
        Some(p) => p,
        None => {
            return None;
        },
    };
    let i5 = match expect(s, i4, ",\"config\":") {
        Some(j2) => j2,
        None => {
            return None;
        },
    };
    let (cfg, i6) = match parse_config_exec(s, i5) {
        Some(p) => p,
        None => {
            return None;
        },
    };
    let i7 = match expect(s, i6, ",\"common_content\":") {
        Some(j2) => j2,
        None => {
            return None;
        },
    };
    let i8 = match expect(s, i7, "\"") {
        Some(j2) => j2,
        None => {
            return None;
        },
    };
    let (common, i9) = match scan_string_exec(s, i8) {
        Some(p) => p,
        None => {
            return None;
        },
    };
    let i10 = match expect(s, i9, ",\"profiles_content\":{") {
        Some(j2) => j2,
        None => {
            return None;
        },
    };
    let (pairs, i11) = match parse_pairs_exec(s, i10) {
        Some(p) => p,
        None => {
            return None;
        },
    };
    let i12 = match expect(s, i11, "}") {
        Some(j2) => j2,
        None => {
            return None;
        },
    };
    if i12 != s.unicode_len() {
        return None;
    }
    Some(
        FullBackup {
            version: ver,
            timestamp: ts,
            config: cfg,
            common_content: common,
            profiles_content: pairs,
        },
    )
}

// ------------------------------------------------------------------
// Import.
// ------------------------------------------------------------------

/// Checks the configuration invariant of a parsed document.
fn validate_config(c: &AppConfig) -> (r: bool)
    ensures
        r == c@.wf(),
{
    let ghost v = c@.profiles;
    let n = c.profiles.len();
    let mut i: usize = 0;
    while i < n
        invariant
            i <= n,
            v == c@.profiles,
            v.len() == n,
            forall|a: int, b: int|
                0 <= a < b < n && a < i ==> v[a].id != v[b].id && v[a].name != v[b].name,
        decreases n - i,
    {
        let mut j = i + 1;
        while j < n
            invariant
                i < j || j == i + 1,
                i < n,
                j <= n,
                v == c@.profiles,
                v.len() == n,
                forall|b: int| i < b < j ==> v[i as int].id != v[b].id && v[i as int].name != v[b].name,
            decreases n - j,
        {
            if c.profiles[i].id == c.profiles[j].id {
                proof {
                    assert(v[i as int].id == v[j as int].id);
                    assert(!crate::model::ids_distinct(v));
                }
                return false;
            }
            if c.profiles[i].name == c.profiles[j].name {
                proof {
                    assert(v[i as int].name == v[j as int].name);
                    assert(!crate::model::names_distinct(v));
                }
                return false;
            }
            j += 1;
        }
        i += 1;
    }
    if !c.multi_select {
        let mut seen = false;
        let mut i2: usize = 0;
        while i2 < n
            invariant
                i2 <= n,
                v == c@.profiles,
                v.len() == n,
                !c.multi_select,
                seen == exists|j: int| 0 <= j < i2 && v[j].active,
                forall|a: int, b: int| 0 <= a < b < i2 ==> !(v[a].active && v[b].active),
            decreases n - i2,
        {
            if c.profiles[i2].active {
                if seen {
                    proof {
                        let w = choose|j: int| 0 <= j < i2 && v[j].active;
                        assert(v[w].active && v[i2 as int].active);
                        assert(!crate::model::at_most_one_active(v));
                    }
                    return false;
                }
                seen = true;
                proof {
                    assert(v[i2 as int].active);
                }
            }
            i2 += 1;
        }
    }
    true
}

/// Reads and validates a persisted configuration document: the whole
/// text must be one configuration object satisfying the invariant.
pub open spec fn parse_config_doc(doc: Seq<char>) -> Option<ConfigV> {
    match parse_config_s(doc, 0) {
        Some((c, j)) => if j == doc.len() && c.wf() {
            Some(c)
        } else {
            None
        },
        None => None,
    }
}

/// Parses a persisted configuration document, rejecting trailing text
/// and any document that violates the configuration invariant.
pub fn parse_config(s: &str) -> (r: Result<AppConfig, HostsError>)
    ensures
        match r {
            Ok(c) => parse_config_doc(s@) == Some(c@) && c@.wf(),
            Err(HostsError::ParseError) => parse_config_doc(s@) is None,
            Err(_) => false,
        },
{
    match parse_config_exec(s, 0) {
        Some((c, j)) => {
            if j != s.unicode_len() {
                return Err(HostsError::ParseError);
            }
            if !validate_config(&c) {
                return Err(HostsError::ParseError);
            }
            Ok(c)
        },
        None => Err(HostsError::ParseError),
    }
}

/// The content entries after the backup's entries have been written in
/// order, each overwriting or appending as `set_key` does.
pub open spec fn apply_pairs(
    cs: Seq<(Seq<char>, Seq<char>)>,
    ps: Seq<(Seq<char>, Seq<char>)>,
) -> Seq<(Seq<char>, Seq<char>)>
    decreases ps.len(),
{
    if ps.len() == 0 {
        cs
    } else {
        apply_pairs(set_key(cs, ps[0].0, ps[0].1), ps.drop_first())
    }
}

/// Writing one more entry extends the fold on the right.
proof fn lemma_apply_pairs_push(
    cs: Seq<(Seq<char>, Seq<char>)>,
    ps: Seq<(Seq<char>, Seq<char>)>,
    p: (Seq<char>, Seq<char>),
)
    ensures
        apply_pairs(cs, ps.push(p)) == set_key(apply_pairs(cs, ps), p.0, p.1),
    decreases ps.len(),
{
    if ps.len() == 0 {
        assert(ps.push(p)[0] == p);
        assert(ps.push(p).drop_first() =~= Seq::<(Seq<char>, Seq<char>)>::empty());
        assert(apply_pairs(cs, ps.push(p)) == apply_pairs(
            set_key(cs, p.0, p.1),
            Seq::<(Seq<char>, Seq<char>)>::empty(),
        ));
        assert(apply_pairs(set_key(cs, p.0, p.1), Seq::<(Seq<char>, Seq<char>)>::empty())
            == set_key(cs, p.0, p.1));
        assert(apply_pairs(cs, ps) == cs);
    } else {
        lemma_apply_pairs_push(set_key(cs, ps[0].0, ps[0].1), ps.drop_first(), p);
        assert(ps.push(p)[0] == ps[0]);
        assert(ps.push(p).drop_first() =~= ps.drop_first().push(p));
        assert(apply_pairs(cs, ps.push(p)) == apply_pairs(
            set_key(cs, ps[0].0, ps[0].1),
            ps.drop_first().push(p),
        ));
        assert(apply_pairs(set_key(cs, ps[0].0, ps[0].1), ps.drop_first().push(p)) == set_key(
            apply_pairs(set_key(cs, ps[0].0, ps[0].1), ps.drop_first()),
            p.0,
            p.1,
        ));
        assert(apply_pairs(cs, ps) == apply_pairs(set_key(cs, ps[0].0, ps[0].1), ps.drop_first()));
    }
}

/// What a successful import leaves behind: the parsed configuration and
/// common block replace the old ones; the parsed content entries are
/// written over the old entries one by one, so local entries the backup
/// does not mention stay.  `None` is the malformed case: unparsable
/// text, a version newer than this crate writes, or a configuration
/// that violates the invariant.
pub open spec fn import_spec(s0: StoreV, doc: Seq<char>) -> Option<StoreV> {
    match parse_backup_s(doc) {
        Some(b) => if b.version <= backup_version() && b.config.wf() {
            Some(
                StoreV {
                    config: b.config,
                    common: b.common_content,
                    contents: apply_pairs(s0.contents, b.profiles_content),
                },
            )
        } else {
            None
        },
        None => None,
    }
}

/// Writes `content` under `id`, overwriting the first entry with that
/// key or appending a new one.
fn set_content_entry(cs: &mut Vec<(String, String)>, id: &String, content: String)
    requires
        keys_distinct(old(cs)@.map_values(|p: (String, String)| (p.0@, p.1@))),
    ensures
        final(cs)@.map_values(|p: (String, String)| (p.0@, p.1@)) == set_key(
            old(cs)@.map_values(|p: (String, String)| (p.0@, p.1@)),
            id@,
            content@,
        ),
        keys_distinct(final(cs)@.map_values(|p: (String, String)| (p.0@, p.1@))),
{
    let ghost orig = cs@.map_values(|p: (String, String)| (p.0@, p.1@));
    match find_index_by_key(cs, id) {
        Some(m) => {
            cs[m] = (id.clone(), content);
            proof {
                lemma_index_of_key(orig, id@);
                let cs2 = cs@.map_values(|p: (String, String)| (p.0@, p.1@));
                assert(cs2 =~= orig.update(m as int, (id@, content@)));
                assert forall|i: int, j: int| 0 <= i < j < cs2.len() implies cs2[i].0
                    != cs2[j].0 by {
                    assert(orig[m as int].0 == id@);
                }
            }
        },
        None => {
            cs.push((id.clone(), content));
            proof {
                lemma_index_of_key(orig, id@);
                let cs2 = cs@.map_values(|p: (String, String)| (p.0@, p.1@));
                assert(cs2 =~= orig.push((id@, content@)));
                assert forall|i: int, j: int| 0 <= i < j < cs2.len() implies cs2[i].0
                    != cs2[j].0 by {
                    if j == cs2.len() - 1 {
                        if cs2[i].0 == id@ {
                            assert(crate::model::has_key(orig, id@));
                        }
                    }
                }
            }
        },
    }
}

/// Restores a backup document: replaces the common block and the
/// configuration and writes every content entry it carries, leaving
/// local entries it does not mention in place.  Fails with `ParseError`
/// on malformed text, a version newer than this crate writes, or a
/// configuration violating the invariant, leaving the store unchanged.
/// Re-applying the rendered document is the caller's step afterwards.
pub fn import_data(store: &mut Store, json_content: &str) -> (r: Result<(), HostsError>)
    requires
        old(store)@.wf(),
    ensures
        final(store)@.wf(),
        match r {
            Ok(_) => import_spec(old(store)@, json_content@) == Some(final(store)@),
            Err(HostsError::ParseError) => import_spec(old(store)@, json_content@) is None
                && final(store)@ == old(store)@,
            Err(_) => false,
        },
{
    let ghost orig = store@;
    let b = match parse_backup_exec(json_content) {
        Some(b) => b,
        None => {
            return Err(HostsError::ParseError);
        },
    };
    if b.version > 2 {
        return Err(HostsError::ParseError);
    }
    if !validate_config(&b.config) {
        return Err(HostsError::ParseError);
    }
    let ghost bv = b@;
    let n = b.profiles_content.len();
    let mut k: usize = 0;
    while k < n
        invariant
            k <= n,
            n == b.profiles_content.len(),
            bv == b@,
            bv.profiles_content.len() == n,
            store@.config == orig.config,
            store@.common == orig.common,
            store@.contents == apply_pairs(orig.contents, bv.profiles_content.take(k as int)),
            keys_distinct(store@.contents),
        decreases n - k,
    {
        let id = b.profiles_content[k].0.clone();
        let content = b.profiles_content[k].1.clone();
        set_content_entry(&mut store.contents, &id, content);
        proof {
            lemma_apply_pairs_push(
                orig.contents,
                bv.profiles_content.take(k as int),
                bv.profiles_content[k as int],
            );
            assert(bv.profiles_content.take(k as int).push(bv.profiles_content[k as int])
                =~= bv.profiles_content.take(k + 1));
        }
        k += 1;
    }
    store.common = b.common_content;
    store.config = b.config;
    proof {
        assert(bv.profiles_content.take(n as int) =~= bv.profiles_content);
        assert(store@ =~= StoreV {
            config: bv.config,
            common: bv.common_content,
            contents: apply_pairs(orig.contents, bv.profiles_content),
        });
    }
    Ok(())
}

} // verus!
