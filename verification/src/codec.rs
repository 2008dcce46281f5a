//! Text-level building blocks of the backup document: string escaping
//! and unescaping, literal matching, and digit runs.
//!
//! The serializer in this crate writes each string with `"`, `\`,
//! newline, carriage return and tab escaped; every other character is
//! carried through verbatim.  The scanner inverts exactly that, and the
//! round-trip lemma `lemma_scan_esc` is what the backup round trip
//! rests on.

use vstd::prelude::*;
use vstd::string::StrSliceExecFns;
use vstd::string::StringExecFns;

verus! {

/// How one character is written inside a quoted string.
pub open spec fn esc_char(c: char) -> Seq<char> {
    if c == '"' {
        seq!['\\', '"']
    } else if c == '\\' {
        seq!['\\', '\\']
    } else if c == '\n' {
        seq!['\\', 'n']
    } else if c == '\r' {
        seq!['\\', 'r']
    } else if c == '\t' {
        seq!['\\', 't']
    } else {
        seq![c]
    }
}

/// A whole string, escaped character by character.
pub open spec fn esc(s: Seq<char>) -> Seq<char>
    decreases s.len(),
{
    if s.len() == 0 {
        Seq::empty()
    } else {
        esc_char(s[0]) + esc(s.drop_first())
    }
}

/// A string as the serializer writes it: quoted and escaped.
pub open spec fn quote(s: Seq<char>) -> Seq<char> {
    seq!['"'] + esc(s) + seq!['"']
}

/// What a character after a backslash stands for, if anything.
pub open spec fn unesc_char(c: char) -> Option<char> {
    if c == '"' {
        Some('"')
    } else if c == '\\' {
        Some('\\')
    } else if c == 'n' {
        Some('\n')
    } else if c == 'r' {
        Some('\r')
    } else if c == 't' {
        Some('\t')
    } else {
        None
    }
}

/// Scans a quoted string's body beginning at `i` (just after the
/// opening quote): the unescaped content and the position just after
/// the closing quote.
pub open spec fn scan_string(s: Seq<char>, i: int) -> Option<(Seq<char>, int)>
    decreases s.len() - i,
{
    if i < 0 || i >= s.len() {
        None
    } else if s[i] == '"' {
        Some((Seq::empty(), i + 1))
    } else if s[i] == '\\' {
        if i + 1 < s.len() {
            match unesc_char(s[i + 1]) {
                Some(c) => match scan_string(s, i + 2) {
                    Some(r) => Some((seq![c] + r.0, r.1)),
                    None => None,
                },
                None => None,
            }
        } else {
            None
        }
    } else {
        match scan_string(s, i + 1) {
            Some(r) => Some((seq![s[i]] + r.0, r.1)),
            None => None,
        }
    }
}

/// A successful scan moves forward and stays in bounds.
pub proof fn lemma_scan_string_bounds(s: Seq<char>, i: int)
    ensures
        scan_string(s, i) matches Some(r) ==> i < r.1 <= s.len(),
    decreases s.len() - i,
{
    if 0 <= i < s.len() {
        if s[i] == '"' {
        } else if s[i] == '\\' {
            if i + 1 < s.len() {
                lemma_scan_string_bounds(s, i + 2);
            }
        } else {
            lemma_scan_string_bounds(s, i + 1);
        }
    }
}

/// A subrange of a matched part is itself matched in the whole text.
pub proof fn lemma_sub_sub(whole: Seq<char>, i: int, p: Seq<char>, a: int, b: int)
    requires
        0 <= i,
        i + p.len() <= whole.len(),
        whole.subrange(i, i + p.len()) == p,
        0 <= a <= b <= p.len(),
    ensures
        whole.subrange(i + a, i + b) == p.subrange(a, b),
{
    let q = whole.subrange(i, i + p.len());
    assert(q.subrange(a, b) =~= whole.subrange(i + a, i + b));
    assert(q.subrange(a, b) == p.subrange(a, b));
}

/// Scanning what the serializer escaped gives the original string back:
/// wherever the text holds `esc(s)` followed by a closing quote, the
/// scanner returns exactly `s` and stops just after that quote.
pub proof fn lemma_scan_esc(s: Seq<char>, whole: Seq<char>, i: int)
    requires
        0 <= i,
        i + esc(s).len() + 1 <= whole.len(),
        whole.subrange(i, i + esc(s).len() + 1) == esc(s) + seq!['"'],
    ensures
        scan_string(whole, i) == Some((s, i + esc(s).len() + 1)),
    decreases s.len(),
{
    let reg = esc(s) + seq!['"'];
    let regl = esc(s).len() + 1;
    assert forall|k: int| 0 <= k < regl implies whole[i + k] == reg[k] by {
        assert(reg[k] == whole.subrange(i, i + regl)[k]);
    }
    if s.len() == 0 {
        assert(whole[i] == reg[0]);
        assert(reg[0] == '"');
        assert(s =~= Seq::<char>::empty());
    } else {
        let c = s[0];
        let e0 = esc_char(c);
        let tail = s.drop_first();
        assert(esc(s) == e0 + esc(tail));
        // The region for the tail starts after e0.
        assert(whole.subrange(i + e0.len(), i + e0.len() + esc(tail).len() + 1) =~= esc(tail)
            + seq!['"']) by {
            assert forall|k: int| 0 <= k < esc(tail).len() + 1 implies whole[i + e0.len() + k] == (
            esc(tail) + seq!['"'])[k] by {
                assert(whole[i + e0.len() + k] == reg[e0.len() + k]);
            }
        }
        lemma_scan_esc(tail, whole, i + e0.len());
        if c == '"' || c == '\\' || c == '\n' || c == '\r' || c == '\t' {
            assert(e0.len() == 2);
            assert(whole[i] == reg[0] && whole[i + 1] == reg[1]);
            assert(reg[0] == e0[0] && reg[1] == e0[1]);
            assert(whole[i] == '\\');
            assert(unesc_char(whole[i + 1]) == Some(c));
            assert(scan_string(whole, i) == Some((seq![c] + tail, i + 2 + esc(tail).len() + 1)));
            assert(seq![c] + tail =~= s);
        } else {
            assert(e0.len() == 1);
            assert(whole[i] == reg[0]);
            assert(reg[0] == e0[0]);
            assert(whole[i] == c);
            assert(scan_string(whole, i) == Some((seq![whole[i]] + tail, i + 1 + esc(tail).len()
                + 1)));
            assert(seq![c] + tail =~= s);
        }
    }
}

/// Escaping one more character extends the escaped text on the right.
pub proof fn lemma_esc_push(s: Seq<char>, c: char)
    ensures
        esc(s.push(c)) =~= esc(s) + esc_char(c),
    decreases s.len(),
{
    if s.len() == 0 {
        assert(s.push(c)[0] == c);
        assert(s.push(c).drop_first() =~= Seq::<char>::empty());
        assert(esc(Seq::<char>::empty()) == Seq::<char>::empty());
    } else {
        lemma_esc_push(s.drop_first(), c);
        assert(s.push(c)[0] == s[0]);
        assert(s.push(c).drop_first() =~= s.drop_first().push(c));
        assert(esc(s.push(c)) == esc_char(s[0]) + esc(s.drop_first().push(c)));
        assert(esc(s) == esc_char(s[0]) + esc(s.drop_first()));
        assert(esc_char(s[0]) + (esc(s.drop_first()) + esc_char(c)) =~= (esc_char(s[0]) + esc(
            s.drop_first(),
        )) + esc_char(c));
    }
}

/// The literal `lit` stands at position `i` of `s`.
pub open spec fn lit_at(s: Seq<char>, i: int, lit: Seq<char>) -> bool {
    0 <= i && i + lit.len() <= s.len() && s.subrange(i, i + lit.len()) == lit
}

/// Consumes the literal when it stands at `i`.
pub open spec fn expect_s(s: Seq<char>, i: int, lit: Seq<char>) -> Option<int> {
    if lit_at(s, i, lit) {
        Some(i + lit.len())
    } else {
        None
    }
}

/// Matches a literal at a position of the text.
pub fn expect(s: &str, i: usize, lit: &str) -> (r: Option<usize>)
    ensures
        match r {
            Some(j) => expect_s(s@, i as int, lit@) == Some(j as int) && j == i + lit@.len()
                && j <= s@.len(),
            None => expect_s(s@, i as int, lit@) is None,
        },
{
    let n = s.unicode_len();
    let ln = lit.unicode_len();
    if i > n || ln > n - i {
        return None;
    }
    let mut k: usize = 0;
    while k < ln
        invariant
            k <= ln,
            n == s@.len(),
            ln == lit@.len(),
            i + ln <= n,
            forall|t: int| 0 <= t < k ==> s@[i + t] == lit@[t],
        decreases ln - k,
    {
        if s.get_char(i + k) != lit.get_char(k) {
            proof {
                if lit_at(s@, i as int, lit@) {
                    assert(s@.subrange(i as int, i + lit@.len())[k as int] == lit@[k as int]);
                }
            }
            return None;
        }
        k += 1;
    }
    proof {
        assert(s@.subrange(i as int, i + lit@.len()) =~= lit@);
    }
    Some(i + ln)
}

/// Scans a quoted string's body, unescaping as it goes; returns the
/// content and the position just after the closing quote.
pub fn scan_string_exec(s: &str, i: usize) -> (r: Option<(String, usize)>)
    ensures
        match r {
            Some(p) => scan_string(s@, i as int) == Some((p.0@, p.1 as int)) && i < p.1
                && p.1 <= s@.len(),
            None => scan_string(s@, i as int) is None,
        },
{
    let n = s.unicode_len();
    if i > n {
        return None;
    }
    let mut out = String::new();
    let mut j = i;
    while j < n
        invariant
            n == s@.len(),
            i <= j <= n,
            match scan_string(s@, j as int) {
                Some(r2) => scan_string(s@, i as int) == Some((out@ + r2.0, r2.1)),
                None => scan_string(s@, i as int) is None,
            },
        decreases n - j,
    {
        let ghost out0 = out@;
        let c = s.get_char(j);
        if c == '"' {
            proof {
                assert(scan_string(s@, j as int) == Some((Seq::<char>::empty(), j + 1)));
                assert(out0 + Seq::<char>::empty() =~= out0);
                lemma_scan_string_bounds(s@, i as int);
            }
            return Some((out, j + 1));
        } else if c == '\\' {
            if j + 1 >= n {
                return None;
            }
            let x = s.get_char(j + 1);
            let ok: bool;
            if x == '"' {
                out.append("\"");
                proof {
                    reveal_strlit("\"");
                }
                ok = true;
            } else if x == '\\' {
                out.append("\\");
                proof {
                    reveal_strlit("\\");
                }
                ok = true;
            } else if x == 'n' {
                out.append("\n");
                proof {
                    reveal_strlit("\n");
                }
                ok = true;
            } else if x == 'r' {
                out.append("\r");
                proof {
                    reveal_strlit("\r");
                }
                ok = true;
            } else if x == 't' {
                out.append("\t");
                proof {
                    reveal_strlit("\t");
                }
                ok = true;
            } else {
                ok = false;
            }
            if !ok {
                proof {
                    assert(unesc_char(s@[j as int + 1]) is None);
                    assert(scan_string(s@, j as int) is None);
                }
                return None;
            }
            proof {
                let uc = unesc_char(s@[j as int + 1])->Some_0;
                assert(out@ =~= out0 + seq![uc]);
                match scan_string(s@, j + 2) {
                    Some(r2) => {
                        assert(scan_string(s@, j as int) == Some((seq![uc] + r2.0, r2.1)));
                        assert(out0 + (seq![uc] + r2.0) =~= (out0 + seq![uc]) + r2.0);
                    },
                    None => {
                        assert(scan_string(s@, j as int) is None);
                    },
                }
            }
            j += 2;
        } else {
            out.append(s.substring_char(j, j + 1));
            proof {
                assert(s@.subrange(j as int, j as int + 1) =~= seq![s@[j as int]]);
                assert(out@ =~= out0 + seq![s@[j as int]]);
                match scan_string(s@, j + 1) {
                    Some(r2) => {
                        assert(scan_string(s@, j as int) == Some(
                            (seq![s@[j as int]] + r2.0, r2.1),
                        ));
                        assert(out0 + (seq![s@[j as int]] + r2.0) =~= (out0 + seq![s@[
                            j as int]]) + r2.0);
                    },
                    None => {},
                }
            }
            j += 1;
        }
    }
    None
}

/// Appends a string in its quoted, escaped form.
pub fn append_quoted(out: &mut String, s: &str)
    ensures
        final(out)@ == old(out)@ + quote(s@),
{
    let ghost base = out@;
    out.append("\"");
    proof {
        reveal_strlit("\"");
    }
    let n = s.unicode_len();
    let mut i: usize = 0;
    while i < n
        invariant
            n == s@.len(),
            i <= n,
            out@ == base + seq!['"'] + esc(s@.take(i as int)),
        decreases n - i,
    {
        let ghost pre = out@;
        let c = s.get_char(i);
        if c == '"' {
            out.append("\\\"");
            proof {
                reveal_strlit("\\\"");
                assert(out@ =~= pre + esc_char(s@[i as int]));
            }
        } else if c == '\\' {
            out.append("\\\\");
            proof {
                reveal_strlit("\\\\");
                assert(out@ =~= pre + esc_char(s@[i as int]));
            }
        } else if c == '\n' {
            out.append("\\n");
            proof {
                reveal_strlit("\\n");
                assert(out@ =~= pre + esc_char(s@[i as int]));
            }
        } else if c == '\r' {
            out.append("\\r");
            proof {
                reveal_strlit("\\r");
                assert(out@ =~= pre + esc_char(s@[i as int]));
            }
        } else if c == '\t' {
            out.append("\\t");
            proof {
                reveal_strlit("\\t");
                assert(out@ =~= pre + esc_char(s@[i as int]));
            }
        } else {
            out.append(s.substring_char(i, i + 1));
            proof {
                assert(s@.subrange(i as int, i as int + 1) =~= seq![s@[i as int]]);
                assert(out@ =~= pre + esc_char(s@[i as int]));
            }
        }
        proof {
            lemma_esc_push(s@.take(i as int), s@[i as int]);
            assert(s@.take(i as int).push(s@[i as int]) =~= s@.take(i + 1));
            assert(out@ =~= base + seq!['"'] + esc(s@.take(i + 1)));
        }
        i += 1;
    }
    out.append("\"");
    proof {
        reveal_strlit("\"");
        assert(s@.take(n as int) =~= s@);
        assert(out@ =~= base + quote(s@));
    }
}

/// A decimal digit.
pub open spec fn is_digit(c: char) -> bool {
    '0' <= c <= '9'
}

/// The numeric value of a digit character.
pub open spec fn digit_val(c: char) -> int {
    c as int - '0' as int
}

/// The position of the first non-digit at or after `i`.
pub open spec fn scan_digits(s: Seq<char>, i: int) -> int
    decreases s.len() - i,
{
    if i < 0 || i >= s.len() {
        i
    } else if is_digit(s[i]) {
        scan_digits(s, i + 1)
    } else {
        i
    }
}

/// The value of the digit run `s[i..j]`.
pub open spec fn digits_val(s: Seq<char>, i: int, j: int) -> int
    decreases j - i,
{
    if i >= j {
        0
    } else {
        digits_val(s, i, j - 1) * 10 + digit_val(s[j - 1])
    }
}

/// The first non-digit position never lies before the start.
pub proof fn lemma_scan_digits_ge(s: Seq<char>, i: int)
    ensures
        scan_digits(s, i) >= i,
    decreases s.len() - i,
{
    if 0 <= i < s.len() && is_digit(s[i]) {
        lemma_scan_digits_ge(s, i + 1);
    }
}

/// Scanning digits skips over any all-digit prefix.
pub proof fn lemma_scan_digits_from(s: Seq<char>, i: int, j: int)
    requires
        0 <= i <= j <= s.len(),
        forall|k: int| i <= k < j ==> is_digit(s[k]),
    ensures
        scan_digits(s, i) == scan_digits(s, j),
    decreases j - i,
{
    if i < j {
        assert(is_digit(s[i]));
        lemma_scan_digits_from(s, i + 1, j);
    }
}

/// Reads a digit run of one to four digits as a number.
pub fn parse_small_number(s: &str, i: usize) -> (r: Option<(u32, usize)>)
    ensures
        match r {
            Some(p) => scan_digits(s@, i as int) == p.1 && i < p.1 <= s@.len() && p.1 - i <= 4
                && p.0 == digits_val(s@, i as int, p.1 as int),
            None => scan_digits(s@, i as int) == i || scan_digits(s@, i as int) > i + 4,
        },
{
    let n = s.unicode_len();
    if i > n {
        return None;
    }
    let mut j = i;
    let mut acc: u32 = 0;
    while j < n && j - i < 4
        invariant
            n == s@.len(),
            i <= j <= n,
            j - i <= 4,
            forall|k: int| i <= k < j ==> is_digit(s@[k]),
            acc == digits_val(s@, i as int, j as int),
            j - i == 0 ==> acc == 0,
            j - i == 1 ==> acc <= 9,
            j - i == 2 ==> acc <= 99,
            j - i == 3 ==> acc <= 999,
            j - i == 4 ==> acc <= 9999,
        decreases n - j,
    {
        let c = s.get_char(j);
        if c < '0' || c > '9' {
            proof {
                lemma_scan_digits_from(s@, i as int, j as int);
            }
            if j == i {
                return None;
            }
            return Some((acc, j));
        }
        let d = c as u32 - '0' as u32;
        acc = acc * 10 + d;
        j += 1;
    }
    proof {
        lemma_scan_digits_from(s@, i as int, j as int);
    }
    if j < n {
        // Four digits read and a fifth digit or other character follows.
        let c = s.get_char(j);
        if c >= '0' && c <= '9' {
            proof {
                assert(is_digit(s@[j as int]));
                lemma_scan_digits_from(s@, j as int, j as int + 1);
                lemma_scan_digits_ge(s@, j as int + 1);
            }
            return None;
        }
        if j == i {
            return None;
        }
        return Some((acc, j));
    }
    if j == i {
        return None;
    }
    Some((acc, j))
}

} // verus!
