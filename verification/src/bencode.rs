//! Restricted dictionary-encoded documents, as a tracker announce response
//! uses them: one top-level dictionary whose keys are byte strings and whose
//! values are integers (`i<digits>e`, optionally negative) or byte strings
//! (`<digits>:<bytes>`).
//!
//! Integer and length literals are capped at 19 digits and integer values at
//! the 64-bit signed range; a document past those caps, or one holding a
//! nested list or dictionary, does not parse.

use vstd::prelude::*;

verus! {

/// A value of the restricted document: an integer or a byte string.
#[derive(Debug, Clone, PartialEq)]
pub enum BencodeValue {
    Int(i64),
    Bytes(Vec<u8>),
}

/// Mathematical image of a `BencodeValue`.
pub enum BencodeValueModel {
    Int(i64),
    Bytes(Seq<u8>),
}

impl View for BencodeValue {
    type V = BencodeValueModel;

    open spec fn view(&self) -> BencodeValueModel {
        match self {
            BencodeValue::Int(v) => BencodeValueModel::Int(*v),
            BencodeValue::Bytes(b) => BencodeValueModel::Bytes(b@),
        }
    }
}

/// The entries of a parsed dictionary, in document order.
pub type BencodeEntries = Vec<(Vec<u8>, BencodeValue)>;

/// Mathematical image of dictionary entries.
pub open spec fn entries_view(v: Seq<(Vec<u8>, BencodeValue)>) -> Seq<(Seq<u8>, BencodeValueModel)> {
    Seq::new(v.len(), |i: int| (v[i].0@, v[i].1@))
}

/// An ASCII decimal digit.
pub open spec fn is_digit(b: u8) -> bool {
    0x30 <= b <= 0x39
}

/// First position at or after `pos` holding no digit (the document's end
/// counts as such a position).
pub open spec fn digits_end(s: Seq<u8>, pos: int) -> int
    recommends
        0 <= pos <= s.len(),
    decreases s.len() - pos when 0 <= pos <= s.len()
{
    if pos >= s.len() {
        pos
    } else if is_digit(s[pos]) {
        digits_end(s, pos + 1)
    } else {
        pos
    }
}

/// The number written by the digit run `s[pos .. end]`.
pub open spec fn digits_value(s: Seq<u8>, pos: int, end: int) -> int
    recommends
        0 <= pos <= end <= s.len(),
    decreases end - pos,
{
    if pos >= end {
        0
    } else {
        digits_value(s, pos, end - 1) * 10 + (s[end - 1] - 0x30)
    }
}

/// Ten to the `k`.
pub open spec fn pow10(k: nat) -> int
    decreases k,
{
    if k == 0 {
        1
    } else {
        10 * pow10((k - 1) as nat)
    }
}

/// A digit run of length `k` writes a number below ten to the `k`.
pub proof fn lemma_digits_value_bound(s: Seq<u8>, pos: int, end: int)
    requires
        0 <= pos <= end <= s.len(),
        forall|j: int| pos <= j < end ==> is_digit(#[trigger] s[j]),
    ensures
        0 <= digits_value(s, pos, end) < pow10((end - pos) as nat),
    decreases end - pos,
{
    if pos < end {
        lemma_digits_value_bound(s, pos, end - 1);
        assert(digits_value(s, pos, end - 1) * 10 <= (pow10((end - pos - 1) as nat) - 1) * 10)
            by (nonlinear_arith)
            requires
                digits_value(s, pos, end - 1) <= pow10((end - pos - 1) as nat) - 1,
        ;
    }
}

/// Everything up to a non-digit position is a digit.
pub proof fn lemma_digits_end_digits(s: Seq<u8>, pos: int)
    requires
        0 <= pos <= s.len(),
    ensures
        pos <= digits_end(s, pos) <= s.len(),
        forall|j: int| pos <= j < digits_end(s, pos) ==> is_digit(#[trigger] s[j]),
    decreases s.len() - pos,
{
    if pos < s.len() && is_digit(s[pos]) {
        lemma_digits_end_digits(s, pos + 1);
    }
}

/// An integer literal `i<digits>e` at `pos`: its end position and value.
pub open spec fn spec_parse_bint(s: Seq<u8>, pos: int) -> Option<(int, i64)>
    recommends
        0 <= pos <= s.len(),
{
    if pos >= s.len() || s[pos] != 0x69 {
        None
    } else {
        let neg = pos + 1 < s.len() && s[pos + 1] == 0x2d;
        let dstart = if neg {
            pos + 2
        } else {
            pos + 1
        };
        let dend = digits_end(s, dstart);
        if dend == dstart || dend - dstart > 19 {
            None
        } else if dend >= s.len() || s[dend] != 0x65 {
            None
        } else {
            let v = digits_value(s, dstart, dend);
            let sv = if neg {
                -v
            } else {
                v
            };
            if sv > i64::MAX || sv < i64::MIN {
                None
            } else {
                Some((dend + 1, sv as i64))
            }
        }
    }
}

/// A byte-string literal `<digits>:<bytes>` at `pos`: its end position and
/// bytes.
pub open spec fn spec_parse_bbytes(s: Seq<u8>, pos: int) -> Option<(int, Seq<u8>)>
    recommends
        0 <= pos <= s.len(),
{
    if pos >= s.len() || !is_digit(s[pos]) {
        None
    } else {
        let dend = digits_end(s, pos);
        if dend - pos > 19 {
            None
        } else if dend >= s.len() || s[dend] != 0x3a {
            None
        } else {
            let n = digits_value(s, pos, dend);
            if n > s.len() - dend - 1 {
                None
            } else {
                Some((dend + 1 + n, s.subrange(dend + 1, dend + 1 + n)))
            }
        }
    }
}

/// A value at `pos`: an integer or a byte string.
pub open spec fn spec_parse_value(s: Seq<u8>, pos: int) -> Option<(int, BencodeValueModel)>
    recommends
        0 <= pos <= s.len(),
{
    if pos >= s.len() {
        None
    } else if s[pos] == 0x69 {
        match spec_parse_bint(s, pos) {
            Some(p) => Some((p.0, BencodeValueModel::Int(p.1))),
            None => None,
        }
    } else if is_digit(s[pos]) {
        match spec_parse_bbytes(s, pos) {
            Some(p) => Some((p.0, BencodeValueModel::Bytes(p.1))),
            None => None,
        }
    } else {
        None
    }
}

/// Dictionary entries from `pos` up to the closing `e`: the position after
/// that `e`, and the entries in document order.
pub open spec fn spec_parse_dict_entries(s: Seq<u8>, pos: int) -> Option<
    (int, Seq<(Seq<u8>, BencodeValueModel)>),
>
    recommends
        0 <= pos <= s.len(),
    decreases s.len() - pos when 0 <= pos <= s.len()
{
    if pos >= s.len() {
        None
    } else if s[pos] == 0x65 {
        Some((pos + 1, Seq::empty()))
    } else {
        match spec_parse_bbytes(s, pos) {
            None => None,
            Some((kpos, key)) => match spec_parse_value(s, kpos) {
                None => None,
                Some((vpos, value)) => if pos < vpos <= s.len() {
                    match spec_parse_dict_entries(s, vpos) {
                        None => None,
                        Some((epos, rest)) => Some((epos, seq![(key, value)] + rest)),
                    }
                } else {
                    None
                },
            },
        }
    }
}

/// A whole document: one dictionary filling all of `s`.
pub open spec fn spec_parse_dict(s: Seq<u8>) -> Option<Seq<(Seq<u8>, BencodeValueModel)>> {
    if s.len() == 0 || s[0] != 0x64 {
        None
    } else {
        match spec_parse_dict_entries(s, 1) {
            None => None,
            Some((epos, entries)) => if epos == s.len() {
                Some(entries)
            } else {
                None
            },
        }
    }
}

/// The value under `key`: the first entry with that key, if any.
pub open spec fn dict_get(entries: Seq<(Seq<u8>, BencodeValueModel)>, key: Seq<u8>) -> Option<
    BencodeValueModel,
>
    decreases entries.len(),
{
    if entries.len() == 0 {
        None
    } else if entries[0].0 == key {
        Some(entries[0].1)
    } else {
        dict_get(entries.skip(1), key)
    }
}

/// First position at or after `pos` holding no digit.
fn scan_digits(s: &[u8], pos: usize) -> (r: usize)
    requires
        pos <= s@.len(),
    ensures
        r == digits_end(s@, pos as int),
{
    let mut k: usize = pos;
    while k < s.len() && s[k] >= 0x30 && s[k] <= 0x39
        invariant
            pos <= k <= s@.len(),
            digits_end(s@, pos as int) == digits_end(s@, k as int),
        decreases s@.len() - k,
    {
        k = k + 1;
    }
    k
}

/// The number written by the digit run `s[start .. end]`.
fn parse_digits(s: &[u8], start: usize, end: usize) -> (r: u64)
    requires
        start <= end <= s@.len(),
        end - start <= 19,
        forall|j: int| start <= j < end ==> is_digit(#[trigger] s@[j]),
    ensures
        r == digits_value(s@, start as int, end as int),
{
    proof {
        lemma_digits_value_bound(s@, start as int, end as int);
    }
    let mut acc: u64 = 0;
    let mut k: usize = start;
    while k < end
        invariant
            start <= k <= end <= s@.len(),
            end - start <= 19,
            forall|j: int| start <= j < end ==> is_digit(#[trigger] s@[j]),
            acc == digits_value(s@, start as int, k as int),
        decreases end - k,
    {
        proof {
            lemma_digits_value_bound(s@, start as int, k as int);
            lemma_pow10_monotone((k - start) as nat, 18);
            reveal_with_fuel(pow10, 20);
            assert(pow10(18) == 1000000000000000000);
            assert(is_digit(s@[k as int]));
            assert(acc < 1000000000000000000);
        }
        acc = acc * 10 + ((s[k] - 0x30) as u64);
        k = k + 1;
    }
    acc
}

/// Ten to a larger power is at least ten to a smaller one.
proof fn lemma_pow10_monotone(a: nat, b: nat)
    requires
        a <= b,
    ensures
        pow10(a) <= pow10(b),
    decreases b,
{
    if a < b {
        lemma_pow10_monotone(a, (b - 1) as nat);
        assert(pow10(b) == 10 * pow10((b - 1) as nat));
        assert(pow10(a) >= 1) by {
            lemma_pow10_positive(a);
        }
    }
}

/// Ten to any power is positive.
proof fn lemma_pow10_positive(k: nat)
    ensures
        pow10(k) >= 1,
    decreases k,
{
    if k > 0 {
        lemma_pow10_positive((k - 1) as nat);
    }
}

/// Reads the integer literal at `pos`.
pub fn parse_bint(s: &[u8], pos: usize) -> (r: Option<(usize, i64)>)
    requires
        pos <= s@.len(),
    ensures
        r matches Some(p) ==> (spec_parse_bint(s@, pos as int) matches Some(q) && q.0 == p.0 && q.1
            == p.1),
        r is None ==> spec_parse_bint(s@, pos as int) is None,
{
    if pos >= s.len() || s[pos] != 0x69 {
        return None;
    }
    let neg: bool = pos + 1 < s.len() && s[pos + 1] == 0x2d;
    let dstart: usize = if neg {
        pos + 2
    } else {
        pos + 1
    };
    if dstart > s.len() {
        proof {
            assert(digits_end(s@, dstart as int) == dstart);
        }
        return None;
    }
    let dend: usize = scan_digits(s, dstart);
    proof {
        lemma_digits_end_digits(s@, dstart as int);
    }
    if dend == dstart || dend - dstart > 19 {
        return None;
    }
    if dend >= s.len() || s[dend] != 0x65 {
        return None;
    }
    let v: u64 = parse_digits(s, dstart, dend);
    if neg {
        if v > 9223372036854775808u64 {
            None
        } else if v == 9223372036854775808u64 {
            Some((dend + 1, i64::MIN))
        } else {
            Some((dend + 1, -(v as i64)))
        }
    } else {
        if v > 9223372036854775807u64 {
            None
        } else {
            Some((dend + 1, v as i64))
        }
    }
}

/// Reads the byte-string literal at `pos`.
pub fn parse_bbytes(s: &[u8], pos: usize) -> (r: Option<(usize, Vec<u8>)>)
    requires
        pos <= s@.len(),
    ensures
        r matches Some(p) ==> (spec_parse_bbytes(s@, pos as int) matches Some(q) && q.0 == p.0
            && q.1 == p.1@),
        r is None ==> spec_parse_bbytes(s@, pos as int) is None,
{
    if pos >= s.len() || s[pos] < 0x30 || s[pos] > 0x39 {
        return None;
    }
    let dend: usize = scan_digits(s, pos);
    proof {
        lemma_digits_end_digits(s@, pos as int);
    }
    if dend - pos > 19 {
        return None;
    }
    if dend >= s.len() || s[dend] != 0x3a {
        return None;
    }
    let n: u64 = parse_digits(s, pos, dend);
    let avail: usize = s.len() - dend - 1;
    if n > avail as u64 {
        return None;
    }
    let start: usize = dend + 1;
    let bytes = crate::parser::copy_range(s, start, start + n as usize);
    Some((start + n as usize, bytes))
}

/// Reads the value at `pos`: an integer or a byte string.
pub fn parse_value(s: &[u8], pos: usize) -> (r: Option<(usize, BencodeValue)>)
    requires
        pos <= s@.len(),
    ensures
        r matches Some(p) ==> (spec_parse_value(s@, pos as int) matches Some(q) && q.0 == p.0 && q.1
            == p.1@),
        r is None ==> spec_parse_value(s@, pos as int) is None,
{
    if pos >= s.len() {
        return None;
    }
    if s[pos] == 0x69 {
        match parse_bint(s, pos) {
            Some((e, v)) => Some((e, BencodeValue::Int(v))),
            None => None,
        }
    } else if s[pos] >= 0x30 && s[pos] <= 0x39 {
        match parse_bbytes(s, pos) {
            Some((e, b)) => Some((e, BencodeValue::Bytes(b))),
            None => None,
        }
    } else {
        None
    }
}

/// Reads dictionary entries from `pos` up to the closing `e`.
pub fn parse_dict_entries(s: &[u8], pos: usize) -> (r: Option<(usize, BencodeEntries)>)
    requires
        pos <= s@.len(),
    ensures
        r matches Some(p) ==> (spec_parse_dict_entries(s@, pos as int) matches Some(q) && q.0 == p.0
            && q.1 == entries_view(p.1@)),
        r is None ==> spec_parse_dict_entries(s@, pos as int) is None,
    decreases s@.len() - pos,
{
    if pos >= s.len() {
        return None;
    }
    if s[pos] == 0x65 {
        let entries: BencodeEntries = Vec::new();
        proof {
            assert(entries_view(entries@) =~= Seq::empty());
        }
        return Some((pos + 1, entries));
    }
    let (kpos, key) = match parse_bbytes(s, pos) {
        Some(p) => p,
        None => {
            return None;
        },
    };
    let (vpos, value) = match parse_value(s, kpos) {
        Some(p) => p,
        None => {
            return None;
        },
    };
    if !(pos < vpos && vpos <= s.len()) {
        return None;
    }
    let (epos, mut rest) = match parse_dict_entries(s, vpos) {
        Some(p) => p,
        None => {
            return None;
        },
    };
    rest.insert(0, (key, value));
    proof {
        let q = spec_parse_dict_entries(s@, pos as int).unwrap();
        assert(entries_view(rest@) =~= q.1);
    }
    Some((epos, rest))
}

/// Reads a whole document: one dictionary filling all of `s`.
pub fn parse_dict(s: &[u8]) -> (r: Option<BencodeEntries>)
    ensures
        r matches Some(p) ==> (spec_parse_dict(s@) matches Some(q) && q == entries_view(p@)),
        r is None ==> spec_parse_dict(s@) is None,
{
    if s.len() == 0 || s[0] != 0x64 {
        return None;
    }
    match parse_dict_entries(s, 1) {
        None => None,
        Some((epos, entries)) => if epos == s.len() {
            Some(entries)
        } else {
            None
        },
    }
}

/// Index of the first entry under `key`, if any.
pub fn dict_find(entries: &BencodeEntries, key: &[u8]) -> (r: Option<usize>)
    ensures
        r matches Some(i) ==> (i < entries@.len() && entries@[i as int].0@ == key@ && dict_get(
            entries_view(entries@),
            key@,
        ) == Some(entries@[i as int].1@)),
        r is None ==> dict_get(entries_view(entries@), key@) is None,
{
    let ghost full = entries_view(entries@);
    proof {
        assert(full.skip(0) =~= full);
    }
    let mut k: usize = 0;
    while k < entries.len()
        invariant
            k <= entries@.len(),
            full == entries_view(entries@),
            dict_get(full, key@) == dict_get(full.skip(k as int), key@),
        decreases entries@.len() - k,
    {
        if crate::message::bytes_eq(entries[k].0.as_slice(), key) {
            proof {
                assert(full.skip(k as int)[0] == full[k as int]);
            }
            return Some(k);
        }
        proof {
            assert(full.skip(k as int).skip(1) =~= full.skip(k as int + 1));
            assert(full.skip(k as int)[0] == full[k as int]);
        }
        k = k + 1;
    }
    proof {
        assert(full.skip(k as int).len() == 0);
    }
    None
}

} // verus!
