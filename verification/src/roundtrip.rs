//! The backup round trip: parsing what export wrote gives the exported
//! state back, so a backup restored into a fresh store reproduces the
//! configuration, the common block, and every profile's content.

use vstd::prelude::*;

verus! {

use crate::backup::{
    apply_pairs, backup_version, import_spec, parse_backup_s, parse_bool_s, parse_config_s,
    parse_meta_s, parse_metas_loop_s, parse_metas_s, parse_pairs_loop_s, parse_pairs_s,
    ser_backup, ser_backup_doc, ser_bool, ser_config, ser_meta, ser_metas_inner, ser_pair,
    ser_pairs_inner, export_pairs, BackupV,
};
use crate::codec::{
    digits_val, esc, expect_s, is_digit, lemma_scan_esc, lemma_sub_sub, lit_at, quote,
    scan_digits, scan_string,
};
use crate::model::{
    content_or_empty, empty_store_v, has_key, ids_distinct, index_of_key, keys_distinct,
    lemma_index_of_key, lookup, set_key, ConfigV, MetaV, StoreV,
};

/// A match on a concatenation splits into matches on its halves.
proof fn lemma_lit_at_split(whole: Seq<char>, i: int, a: Seq<char>, b: Seq<char>)
    requires
        lit_at(whole, i, a + b),
    ensures
        lit_at(whole, i, a),
        lit_at(whole, i + a.len(), b),
{
    lemma_sub_sub(whole, i, a + b, 0, a.len() as int);
    assert((a + b).subrange(0, a.len() as int) =~= a);
    lemma_sub_sub(whole, i, a + b, a.len() as int, (a + b).len() as int);
    assert((a + b).subrange(a.len() as int, (a + b).len() as int) =~= b);
}

/// Matches on adjacent parts join into a match on their concatenation.
proof fn lemma_lit_at_join(whole: Seq<char>, i: int, a: Seq<char>, b: Seq<char>)
    requires
        lit_at(whole, i, a),
        lit_at(whole, i + a.len(), b),
    ensures
        lit_at(whole, i, a + b),
{
    let sa = whole.subrange(i, i + a.len());
    let sb = whole.subrange(i + a.len(), i + a.len() + b.len());
    assert(whole.subrange(i, i + (a + b).len()) =~= sa + sb);
}

/// The first character of a matched non-empty part.
proof fn lemma_lit_at_first(whole: Seq<char>, i: int, a: Seq<char>)
    requires
        lit_at(whole, i, a),
        a.len() > 0,
    ensures
        whole[i] == a[0],
{
    assert(whole.subrange(i, i + a.len())[0] == a[0]);
}

/// A one-character literal cannot match where a different character
/// stands.
proof fn lemma_expect_one_char_fails(whole: Seq<char>, i: int, lit: Seq<char>, c: char)
    requires
        0 <= i < whole.len(),
        whole[i] == c,
        lit.len() == 1,
        lit[0] != c,
    ensures
        expect_s(whole, i, lit) is None,
{
    if lit_at(whole, i, lit) {
        lemma_lit_at_first(whole, i, lit);
    }
}

/// Where the serializer wrote a boolean, the parser reads it back.
proof fn lemma_parse_bool_at(whole: Seq<char>, i: int, b: bool)
    requires
        lit_at(whole, i, ser_bool(b)),
    ensures
        parse_bool_s(whole, i) == Some((b, i + ser_bool(b).len())),
{
    reveal_strlit("true");
    reveal_strlit("false");
    if !b {
        lemma_lit_at_first(whole, i, "false"@);
        if lit_at(whole, i, "true"@) {
            lemma_lit_at_first(whole, i, "true"@);
        }
    }
}

/// Where the serializer wrote a quoted string, the scanner reads the
/// original string back and stops just after the closing quote.
proof fn lemma_parse_quoted_at(whole: Seq<char>, i: int, s: Seq<char>)
    requires
        lit_at(whole, i, quote(s)),
    ensures
        expect_s(whole, i, "\""@) == Some(i + 1),
        scan_string(whole, i + 1) == Some((s, i + quote(s).len())),
{
    reveal_strlit("\"");
    assert("\""@ =~= seq!['"']);
    assert(quote(s) == (seq!['"'] + esc(s)) + seq!['"']);
    lemma_lit_at_split(whole, i, seq!['"'] + esc(s), seq!['"']);
    lemma_lit_at_split(whole, i, seq!['"'], esc(s));
    assert(lit_at(whole, i, "\""@));
    lemma_lit_at_join(whole, i + 1, esc(s), seq!['"']);
    assert(whole.subrange(i + 1, i + 1 + (esc(s) + seq!['"']).len()) == esc(s) + seq!['"']);
    lemma_scan_esc(s, whole, i + 1);
}

/// Where the serializer wrote one metadata object, the parser reads the
/// same metadata back.
proof fn lemma_parse_meta_at(whole: Seq<char>, i: int, m: MetaV)
    requires
        lit_at(whole, i, ser_meta(m)),
    ensures
        parse_meta_s(whole, i) == Some((m, i + ser_meta(m).len())),
        ser_meta(m).len() >= 2,
{
    let l1 = "{\"id\":"@;
    let l2 = ",\"name\":"@;
    let l3 = ",\"active\":"@;
    let l4 = "}"@;
    let q1 = quote(m.id);
    let q2 = quote(m.name);
    let sb = ser_bool(m.active);
    let p5 = l1 + q1 + l2 + q2 + l3;
    let p6 = p5 + sb;
    assert(ser_meta(m) == p6 + l4);
    lemma_lit_at_split(whole, i, p6, l4);
    lemma_lit_at_split(whole, i, p5, sb);
    assert(p5 == (((l1 + q1) + l2) + q2) + l3);
    lemma_lit_at_split(whole, i, ((l1 + q1) + l2) + q2, l3);
    lemma_lit_at_split(whole, i, (l1 + q1) + l2, q2);
    lemma_lit_at_split(whole, i, l1 + q1, l2);
    lemma_lit_at_split(whole, i, l1, q1);
    let i1 = i + l1.len();
    lemma_parse_quoted_at(whole, i1, m.id);
    let i3 = i1 + q1.len();
    let i4 = i3 + l2.len();
    lemma_parse_quoted_at(whole, i4, m.name);
    let i6 = i4 + q2.len();
    let i7 = i6 + l3.len();
    lemma_parse_bool_at(whole, i7, m.active);
    let i8 = i7 + sb.len();
    assert(expect_s(whole, i8, "}"@) == Some(i8 + l4.len()));
    assert(MetaV { id: m.id, name: m.name, active: m.active } =~= m);
    assert(i8 + l4.len() == i + ser_meta(m).len());
}

/// Where the serializer wrote the entries of a non-empty profile list
/// and the closing bracket, the loop parser reads the list back.
proof fn lemma_parse_metas_loop_at(whole: Seq<char>, i: int, ms: Seq<MetaV>)
    requires
        ms.len() >= 1,
        lit_at(whole, i, ser_metas_inner(ms) + "]"@),
    ensures
        parse_metas_loop_s(whole, i) == Some((ms, i + ser_metas_inner(ms).len() + 1)),
    decreases ms.len(),
{
    reveal_strlit("]");
    reveal_strlit(",");
    assert("]"@.len() == 1 && "]"@[0] == ']');
    assert(","@.len() == 1 && ","@[0] == ',');
    if ms.len() == 1 {
        assert(ser_metas_inner(ms) == ser_meta(ms[0]));
        lemma_lit_at_split(whole, i, ser_meta(ms[0]), "]"@);
        lemma_parse_meta_at(whole, i, ms[0]);
        let j = i + ser_meta(ms[0]).len();
        lemma_lit_at_first(whole, j, "]"@);
        lemma_expect_one_char_fails(whole, j, ","@, ']');
        assert(expect_s(whole, j, "]"@) == Some(j + 1));
        assert(seq![ms[0]] =~= ms);
    } else {
        let sm = ser_meta(ms[0]);
        let rest = ms.drop_first();
        let ri = ser_metas_inner(rest);
        assert(ser_metas_inner(ms) == sm + ","@ + ri);
        assert(ser_metas_inner(ms) + "]"@ =~= (sm + ","@) + (ri + "]"@));
        lemma_lit_at_split(whole, i, sm + ","@, ri + "]"@);
        lemma_lit_at_split(whole, i, sm, ","@);
        lemma_parse_meta_at(whole, i, ms[0]);
        let j = i + sm.len();
        assert(expect_s(whole, j, ","@) == Some(j + 1));
        lemma_parse_metas_loop_at(whole, j + 1, rest);
        assert(seq![ms[0]] + rest =~= ms);
        assert(j + 1 + ri.len() + 1 == i + ser_metas_inner(ms).len() + 1);
    }
}

/// Where the serializer wrote a profile list (after its opening
/// bracket), the parser reads it back.
proof fn lemma_parse_metas_at(whole: Seq<char>, i: int, ms: Seq<MetaV>)
    requires
        lit_at(whole, i, ser_metas_inner(ms) + "]"@),
    ensures
        parse_metas_s(whole, i) == Some((ms, i + ser_metas_inner(ms).len() + 1)),
{
    reveal_strlit("]");
    reveal_strlit("{\"id\":");
    if ms.len() == 0 {
        assert(ser_metas_inner(ms) + "]"@ =~= "]"@);
        assert(expect_s(whole, i, "]"@) == Some(i + 1));
        assert(Seq::<MetaV>::empty() =~= ms);
    } else {
        let inner = ser_metas_inner(ms);
        assert(inner == if ms.len() == 1 {
            ser_meta(ms[0])
        } else {
            ser_meta(ms[0]) + ","@ + ser_metas_inner(ms.drop_first())
        });
        assert(ser_meta(ms[0])[0] == '{') by {
            assert(ser_meta(ms[0])[0] == "{\"id\":"@[0]);
        }
        assert((inner + "]"@)[0] == '{');
        lemma_lit_at_first(whole, i, inner + "]"@);
        lemma_expect_one_char_fails(whole, i, "]"@, '{');
        lemma_parse_metas_loop_at(whole, i, ms);
    }
}

/// Where the serializer wrote the configuration object, the parser
/// reads the same configuration back.
proof fn lemma_parse_config_at(whole: Seq<char>, i: int, c: ConfigV)
    requires
        lit_at(whole, i, ser_config(c)),
    ensures
        parse_config_s(whole, i) == Some((c, i + ser_config(c).len())),
{
    reveal_strlit("]");
    reveal_strlit("}");
    let l1 = "{\"multi_select\":"@;
    let l2 = ",\"profiles\":["@;
    let sb = ser_bool(c.multi_select);
    let inner = ser_metas_inner(c.profiles);
    let p4 = l1 + sb + l2 + inner;
    assert(ser_config(c) == (p4 + "]"@) + "}"@);
    lemma_lit_at_split(whole, i, p4 + "]"@, "}"@);
    lemma_lit_at_split(whole, i, p4, "]"@);
    assert(p4 == ((l1 + sb) + l2) + inner);
    lemma_lit_at_split(whole, i, (l1 + sb) + l2, inner);
    lemma_lit_at_split(whole, i, l1 + sb, l2);
    lemma_lit_at_split(whole, i, l1, sb);
    let i1 = i + l1.len();
    lemma_parse_bool_at(whole, i1, c.multi_select);
    let i2 = i1 + sb.len();
    let i3 = i2 + l2.len();
    lemma_lit_at_join(whole, i3, inner, "]"@);
    lemma_parse_metas_at(whole, i3, c.profiles);
    let i4 = i3 + inner.len() + 1;
    assert(expect_s(whole, i4, "}"@) == Some(i4 + "}"@.len()));
    assert(ConfigV { multi_select: c.multi_select, profiles: c.profiles } =~= c);
    assert(i4 + "}"@.len() == i + ser_config(c).len());
}

/// Where the serializer wrote the entries of a non-empty content map
/// and the closing brace, the loop parser reads the entries back.
proof fn lemma_parse_pairs_loop_at(whole: Seq<char>, i: int, ps: Seq<(Seq<char>, Seq<char>)>)
    requires
        ps.len() >= 1,
        lit_at(whole, i, ser_pairs_inner(ps) + "}"@),
    ensures
        parse_pairs_loop_s(whole, i) == Some((ps, i + ser_pairs_inner(ps).len() + 1)),
    decreases ps.len(),
{
    reveal_strlit("}");
    reveal_strlit(",");
    reveal_strlit(":");
    assert("}"@.len() == 1 && "}"@[0] == '}');
    assert(","@.len() == 1 && ","@[0] == ',');
    assert(":"@.len() == 1 && ":"@[0] == ':');
    let sp = ser_pair(ps[0]);
    let q1 = quote(ps[0].0);
    let q2 = quote(ps[0].1);
    assert(sp == (q1 + ":"@) + q2);
    if ps.len() == 1 {
        assert(ser_pairs_inner(ps) == sp);
        lemma_lit_at_split(whole, i, sp, "}"@);
        lemma_lit_at_split(whole, i, q1 + ":"@, q2);
        lemma_lit_at_split(whole, i, q1, ":"@);
        lemma_parse_quoted_at(whole, i, ps[0].0);
        let j1 = i + q1.len();
        assert(expect_s(whole, j1, ":"@) == Some(j1 + 1));
        lemma_parse_quoted_at(whole, j1 + 1, ps[0].1);
        let j4 = j1 + 1 + q2.len();
        lemma_lit_at_first(whole, j4, "}"@);
        lemma_expect_one_char_fails(whole, j4, ","@, '}');
        assert(expect_s(whole, j4, "}"@) == Some(j4 + 1));
        assert(seq![ps[0]] =~= ps);
    } else {
        let rest = ps.drop_first();
        let ri = ser_pairs_inner(rest);
        assert(ser_pairs_inner(ps) == sp + ","@ + ri);
        assert(ser_pairs_inner(ps) + "}"@ =~= (sp + ","@) + (ri + "}"@));
        lemma_lit_at_split(whole, i, sp + ","@, ri + "}"@);
        lemma_lit_at_split(whole, i, sp, ","@);
        lemma_lit_at_split(whole, i, q1 + ":"@, q2);
        lemma_lit_at_split(whole, i, q1, ":"@);
        lemma_parse_quoted_at(whole, i, ps[0].0);
        let j1 = i + q1.len();
        assert(expect_s(whole, j1, ":"@) == Some(j1 + 1));
        lemma_parse_quoted_at(whole, j1 + 1, ps[0].1);
        let j4 = j1 + 1 + q2.len();
        assert(expect_s(whole, j4, ","@) == Some(j4 + 1));
        lemma_parse_pairs_loop_at(whole, j4 + 1, rest);
        assert(seq![ps[0]] + rest =~= ps);
        assert(j4 + 1 + ri.len() + 1 == i + ser_pairs_inner(ps).len() + 1);
    }
}

/// Where the serializer wrote a content map (after its opening brace),
/// the parser reads it back.
proof fn lemma_parse_pairs_at(whole: Seq<char>, i: int, ps: Seq<(Seq<char>, Seq<char>)>)
    requires
        lit_at(whole, i, ser_pairs_inner(ps) + "}"@),
    ensures
        parse_pairs_s(whole, i) == Some((ps, i + ser_pairs_inner(ps).len() + 1)),
{
    reveal_strlit("}");
    reveal_strlit("\"");
    if ps.len() == 0 {
        assert(ser_pairs_inner(ps) + "}"@ =~= "}"@);
        assert(expect_s(whole, i, "}"@) == Some(i + 1));
        assert(Seq::<(Seq<char>, Seq<char>)>::empty() =~= ps);
    } else {
        let inner = ser_pairs_inner(ps);
        assert(ser_pair(ps[0])[0] == '"') by {
            assert(ser_pair(ps[0])[0] == quote(ps[0].0)[0]);
            assert(quote(ps[0].0)[0] == '"');
        }
        assert(inner[0] == '"');
        assert((inner + "}"@)[0] == '"');
        lemma_lit_at_first(whole, i, inner + "}"@);
        lemma_expect_one_char_fails(whole, i, "}"@, '"');
        lemma_parse_pairs_loop_at(whole, i, ps);
    }
}

/// Where the document lies in the text: each field's literal, the
/// version digit, and the payload parts, at their offsets.
#[verifier::rlimit(100)]
proof fn lemma_backup_layout(
    c: ConfigV,
    common: Seq<char>,
    pairs: Seq<(Seq<char>, Seq<char>)>,
    ts: Seq<char>,
)
    ensures
        ({
            let whole = ser_backup(c, common, pairs, ts);
            let l1 = "{\"version\":"@;
            let l2 = ",\"timestamp\":"@;
            let l3 = ",\"config\":"@;
            let l4 = ",\"common_content\":"@;
            let l5 = ",\"profiles_content\":{"@;
            let qt = quote(ts);
            let sc = ser_config(c);
            let qc = quote(common);
            let pi = ser_pairs_inner(pairs);
            let i1 = l1.len() as int;
            let j = i1 + 1;
            let i2 = j + l2.len();
            let i4 = i2 + qt.len();
            let i5 = i4 + l3.len();
            let i6 = i5 + sc.len();
            let i7 = i6 + l4.len();
            let i9 = i7 + qc.len();
            let i10 = i9 + l5.len();
            let i11 = i10 + pi.len() + 1;
            &&& "}"@.len() == 1
            &&& lit_at(whole, 0, l1)
            &&& scan_digits(whole, i1) == j
            &&& digits_val(whole, i1, j) == 2
            &&& lit_at(whole, j, l2)
            &&& lit_at(whole, i2, qt)
            &&& lit_at(whole, i4, l3)
            &&& lit_at(whole, i5, sc)
            &&& lit_at(whole, i6, l4)
            &&& lit_at(whole, i7, qc)
            &&& lit_at(whole, i9, l5)
            &&& lit_at(whole, i10, pi + "}"@)
            &&& lit_at(whole, i11, "}"@)
            &&& i11 + 1 == whole.len()
        }),
{
    let whole = ser_backup(c, common, pairs, ts);
    let l1 = "{\"version\":"@;
    let l2 = ",\"timestamp\":"@;
    let l3 = ",\"config\":"@;
    let l4 = ",\"common_content\":"@;
    let l5 = ",\"profiles_content\":{"@;
    let qt = quote(ts);
    let sc = ser_config(c);
    let qc = quote(common);
    let pi = ser_pairs_inner(pairs);
    let p10 = l1 + "2"@ + l2 + qt + l3 + sc + l4 + qc + l5 + pi;
    assert(whole == (p10 + "}"@) + "}"@);
    assert(lit_at(whole, 0, whole)) by {
        assert(whole.subrange(0, whole.len() as int) =~= whole);
    }
    reveal_strlit("2");
    reveal_strlit(",\"timestamp\":");
    reveal_strlit("}");
    lemma_lit_at_split(whole, 0, p10 + "}"@, "}"@);
    lemma_lit_at_split(whole, 0, p10, "}"@);
    assert(p10 == ((((((((l1 + "2"@) + l2) + qt) + l3) + sc) + l4) + qc) + l5) + pi);
    lemma_lit_at_split(whole, 0, (((((((l1 + "2"@) + l2) + qt) + l3) + sc) + l4) + qc) + l5, pi);
    lemma_lit_at_split(whole, 0, ((((((l1 + "2"@) + l2) + qt) + l3) + sc) + l4) + qc, l5);
    lemma_lit_at_split(whole, 0, (((((l1 + "2"@) + l2) + qt) + l3) + sc) + l4, qc);
    lemma_lit_at_split(whole, 0, ((((l1 + "2"@) + l2) + qt) + l3) + sc, l4);
    lemma_lit_at_split(whole, 0, (((l1 + "2"@) + l2) + qt) + l3, sc);
    lemma_lit_at_split(whole, 0, ((l1 + "2"@) + l2) + qt, l3);
    lemma_lit_at_split(whole, 0, (l1 + "2"@) + l2, qt);
    lemma_lit_at_split(whole, 0, l1 + "2"@, l2);
    lemma_lit_at_split(whole, 0, l1, "2"@);
    let i1 = l1.len() as int;
    assert("2"@.len() == 1 && "2"@[0] == '2');
    lemma_lit_at_first(whole, i1, "2"@);
    assert(whole[i1] == '2');
    assert(l2.len() > 0 && l2[0] == ',');
    lemma_lit_at_first(whole, i1 + 1, l2);
    assert(whole[i1 + 1] == ',');
    assert(is_digit('2'));
    assert(!is_digit(','));
    assert(i1 + 1 < whole.len());
    assert(scan_digits(whole, i1 + 1) == i1 + 1);
    assert(scan_digits(whole, i1) == i1 + 1);
    assert(digits_val(whole, i1, i1 + 1) == digits_val(whole, i1, i1) * 10
        + crate::codec::digit_val(whole[i1]));
    assert(crate::codec::digit_val('2') == 2);
    assert(digits_val(whole, i1, i1 + 1) == 2);
    let i10 = i1 + 1 + l2.len() + qt.len() + l3.len() + sc.len() + l4.len() + qc.len() + l5.len();
    lemma_lit_at_join(whole, i10, pi, "}"@);
}

/// Parsing what the serializer wrote gives every field back; the
/// version read is the version written.
#[verifier::rlimit(100)]
pub proof fn lemma_parse_backup_ser(
    c: ConfigV,
    common: Seq<char>,
    pairs: Seq<(Seq<char>, Seq<char>)>,
    ts: Seq<char>,
)
    ensures
        parse_backup_s(ser_backup(c, common, pairs, ts)) == Some(
            (BackupV {
                version: backup_version(),
                timestamp: ts,
                config: c,
                common_content: common,
                profiles_content: pairs,
            }),
        ),
{
    lemma_backup_layout(c, common, pairs, ts);
    let whole = ser_backup(c, common, pairs, ts);
    let l1 = "{\"version\":"@;
    let l2 = ",\"timestamp\":"@;
    let l3 = ",\"config\":"@;
    let l4 = ",\"common_content\":"@;
    let l5 = ",\"profiles_content\":{"@;
    let qt = quote(ts);
    let sc = ser_config(c);
    let qc = quote(common);
    let pi = ser_pairs_inner(pairs);
    let i1 = l1.len() as int;
    let j = i1 + 1;
    let i2 = j + l2.len();
    let i4 = i2 + qt.len();
    let i5 = i4 + l3.len();
    let i6 = i5 + sc.len();
    let i7 = i6 + l4.len();
    let i9 = i7 + qc.len();
    let i10 = i9 + l5.len();
    let i11 = i10 + pi.len() + 1;
    assert(expect_s(whole, 0, l1) == Some(i1));
    assert(expect_s(whole, j, l2) == Some(i2));
    lemma_parse_quoted_at(whole, i2, ts);
    assert(expect_s(whole, i4, l3) == Some(i5));
    lemma_parse_config_at(whole, i5, c);
    assert(expect_s(whole, i6, l4) == Some(i7));
    lemma_parse_quoted_at(whole, i7, common);
    assert(expect_s(whole, i9, l5) == Some(i10));
    lemma_parse_pairs_at(whole, i10, pairs);
    assert(expect_s(whole, i11, "}"@) == Some(i11 + 1));
    assert(i11 + 1 == whole.len());
}

/// Writing distinct fresh keys into an association list appends them.
proof fn lemma_apply_pairs_fresh(
    cs: Seq<(Seq<char>, Seq<char>)>,
    ps: Seq<(Seq<char>, Seq<char>)>,
)
    requires
        keys_distinct(ps),
        forall|a: int, b: int|
            0 <= a < cs.len() && 0 <= b < ps.len() ==> cs[a].0 != ps[b].0,
    ensures
        apply_pairs(cs, ps) =~= cs + ps,
    decreases ps.len(),
{
    if ps.len() == 0 {
        assert(apply_pairs(cs, ps) == cs);
    } else {
        lemma_index_of_key(cs, ps[0].0);
        assert(!has_key(cs, ps[0].0)) by {
            if has_key(cs, ps[0].0) {
                let w = choose|a: int| 0 <= a < cs.len() && cs[a].0 == ps[0].0;
                assert(cs[w].0 != ps[0].0);
            }
        }
        assert(index_of_key(cs, ps[0].0) == -1);
        assert(set_key(cs, ps[0].0, ps[0].1) == cs.push((ps[0].0, ps[0].1)));
        let cs2 = cs.push((ps[0].0, ps[0].1));
        let rest = ps.drop_first();
        assert(keys_distinct(rest)) by {
            assert(forall|a: int, b: int|
                0 <= a < b < rest.len() ==> rest[a] == ps[a + 1] && rest[b] == ps[b + 1]);
        }
        assert(forall|a: int, b: int|
            0 <= a < cs2.len() && 0 <= b < rest.len() ==> cs2[a].0 != rest[b].0) by {
            assert(forall|b: int| 0 <= b < rest.len() ==> rest[b] == ps[b + 1]);
        }
        lemma_apply_pairs_fresh(cs2, rest);
        assert((ps[0].0, ps[0].1) == ps[0]);
        assert(cs.push(ps[0]) + rest =~= cs + ps);
    }
}

/// In a uniquely keyed association list, looking an entry's own key up
/// gives that entry's value.
proof fn lemma_lookup_at(cs: Seq<(Seq<char>, Seq<char>)>, k: int)
    requires
        keys_distinct(cs),
        0 <= k < cs.len(),
    ensures
        lookup(cs, cs[k].0) == Some(cs[k].1),
{
    lemma_index_of_key(cs, cs[k].0);
    assert(has_key(cs, cs[k].0));
    let m = index_of_key(cs, cs[k].0);
    if m < k {
        assert(cs[m].0 != cs[k].0);
    } else if m > k {
        assert(cs[k].0 != cs[k].0);
    }
}

/// The backup round trip: importing an exported document into a fresh
/// store succeeds and reproduces the exported state — the same
/// configuration, the same common block, and, for every profile of the
/// configuration, the same content.
pub proof fn lemma_export_import_round_trip(s: StoreV, ts: Seq<char>)
    requires
        s.wf(),
    ensures
        ({
            let r = import_spec(empty_store_v(), ser_backup_doc(s, ts));
            &&& r is Some
            &&& r->Some_0.config == s.config
            &&& r->Some_0.common == s.common
            &&& forall|i: int|
                0 <= i < s.config.profiles.len() ==> content_or_empty(
                    r->Some_0.contents,
                    s.config.profiles[i].id,
                ) == content_or_empty(s.contents, s.config.profiles[i].id)
        }),
{
    let pairs = export_pairs(s);
    lemma_parse_backup_ser(s.config, s.common, pairs, ts);
    assert(keys_distinct(pairs)) by {
        assert(forall|a: int, b: int|
            0 <= a < b < pairs.len() ==> pairs[a].0 == s.config.profiles[a].id && pairs[b].0
                == s.config.profiles[b].id);
    }
    lemma_apply_pairs_fresh(Seq::empty(), pairs);
    let result = apply_pairs(Seq::empty(), pairs);
    assert(result =~= pairs);
    let r = import_spec(empty_store_v(), ser_backup_doc(s, ts));
    assert(r is Some);
    assert forall|i: int| 0 <= i < s.config.profiles.len() implies content_or_empty(
        r->Some_0.contents,
        s.config.profiles[i].id,
    ) == content_or_empty(s.contents, s.config.profiles[i].id) by {
        assert(pairs[i] == (s.config.profiles[i].id, content_or_empty(
            s.contents,
            s.config.profiles[i].id,
        )));
        lemma_lookup_at(pairs, i);
    }
}

} // verus!
