use vstd::prelude::*;

use crate::error::Error;
use crate::keyid::{ascii_chars_of, is_valid_key_bytes, KeyId};
use crate::record::{clone_record, lemma_bytes_deep_view, spec_tokenize, tokenize};

verus! {

use vstd::string::StringSliceAdditionalSpecFns;

// ---------------------------------------------------------------------------
// The mathematical model of the inventory.
// ---------------------------------------------------------------------------
/// The model of one key: its fingerprint text and its expiry timestamp in
/// seconds, absent when the key never expires.
pub struct KeyStatusV {
    pub fingerprint: Seq<char>,
    pub expires: Option<u64>,
}

/// The model of one primary key with its subordinate keys, in the order
/// the external tool reported them.
pub struct MainKeyV {
    pub status: KeyStatusV,
    pub subkeys: Seq<KeyStatusV>,
}

// ---------------------------------------------------------------------------
// Record classification.
// ---------------------------------------------------------------------------
/// The tag of a primary-key record: the bytes of `pub`.
pub open spec fn primary_tag() -> Seq<u8> {
    seq![112u8, 117u8, 98u8]
}

/// The tag of a subordinate-key record: the bytes of `sub`.
pub open spec fn subordinate_tag() -> Seq<u8> {
    seq![115u8, 117u8, 98u8]
}

/// The tag of a fingerprint record: the bytes of `fpr`.
pub open spec fn fingerprint_tag() -> Seq<u8> {
    seq![102u8, 112u8, 114u8]
}

/// The type tag of a record: its first field.
pub open spec fn record_tag(r: Seq<Seq<u8>>) -> Seq<u8> {
    if r.len() > 0 {
        r[0]
    } else {
        Seq::empty()
    }
}

pub open spec fn is_primary_record(r: Seq<Seq<u8>>) -> bool {
    record_tag(r) == primary_tag()
}

pub open spec fn is_subordinate_record(r: Seq<Seq<u8>>) -> bool {
    record_tag(r) == subordinate_tag()
}

pub open spec fn is_fingerprint_record(r: Seq<Seq<u8>>) -> bool {
    record_tag(r) == fingerprint_tag()
}

/// Only primary, subordinate and fingerprint records carry expiry
/// information; every other record type is discarded.
pub open spec fn is_relevant_record(r: Seq<Seq<u8>>) -> bool {
    is_primary_record(r) || is_subordinate_record(r) || is_fingerprint_record(r)
}

/// The relevant records of a stream, in their original order.
pub open spec fn spec_filter_records(rs: Seq<Seq<Seq<u8>>>) -> Seq<Seq<Seq<u8>>>
    decreases rs.len(),
{
    if rs.len() == 0 {
        Seq::empty()
    } else {
        let rest = spec_filter_records(rs.drop_last());
        if is_relevant_record(rs.last()) {
            rest.push(rs.last())
        } else {
            rest
        }
    }
}

/// Whether one field spells the three given bytes.
fn field_is(f: &Vec<u8>, a: u8, b: u8, c: u8) -> (r: bool)
    ensures
        r == (f@ == seq![a, b, c]),
{
    if f.len() != 3 {
        return false;
    }
    let r = f[0] == a && f[1] == b && f[2] == c;
    proof {
        if r {
            assert(f@ =~= seq![a, b, c]);
        }
    }
    r
}

/// Whether a record is a primary-key record.
pub fn record_is_primary(rec: &Vec<Vec<u8>>) -> (r: bool)
    ensures
        r == is_primary_record(rec.deep_view()),
{
    proof {
        assert(rec.deep_view().len() == rec@.len());
    }
    if rec.len() == 0 {
        proof {
            assert(primary_tag().len() == 3);
        }
        return false;
    }
    proof {
        assert(rec.deep_view()[0] == rec@[0].deep_view());
        lemma_bytes_deep_view(rec@[0]);
    }
    field_is(&rec[0], 112, 117, 98)
}

/// Whether a record is a subordinate-key record.
pub fn record_is_subordinate(rec: &Vec<Vec<u8>>) -> (r: bool)
    ensures
        r == is_subordinate_record(rec.deep_view()),
{
    proof {
        assert(rec.deep_view().len() == rec@.len());
    }
    if rec.len() == 0 {
        proof {
            assert(subordinate_tag().len() == 3);
        }
        return false;
    }
    proof {
        assert(rec.deep_view()[0] == rec@[0].deep_view());
        lemma_bytes_deep_view(rec@[0]);
    }
    field_is(&rec[0], 115, 117, 98)
}

/// Whether a record is a fingerprint record.
pub fn record_is_fingerprint(rec: &Vec<Vec<u8>>) -> (r: bool)
    ensures
        r == is_fingerprint_record(rec.deep_view()),
{
    proof {
        assert(rec.deep_view().len() == rec@.len());
    }
    if rec.len() == 0 {
        proof {
            assert(fingerprint_tag().len() == 3);
        }
        return false;
    }
    proof {
        assert(rec.deep_view()[0] == rec@[0].deep_view());
        lemma_bytes_deep_view(rec@[0]);
    }
    field_is(&rec[0], 102, 112, 114)
}

/// Whether a record carries expiry information at all.
pub fn record_is_relevant(rec: &Vec<Vec<u8>>) -> (r: bool)
    ensures
        r == is_relevant_record(rec.deep_view()),
{
    record_is_primary(rec) || record_is_subordinate(rec) || record_is_fingerprint(rec)
}

// ---------------------------------------------------------------------------
// The expiry field: a decimal timestamp, or empty for "never expires".
// ---------------------------------------------------------------------------
/// A byte that spells a decimal digit in ASCII.
pub open spec fn is_digit_byte(b: u8) -> bool {
    48 <= b && b <= 57
}

/// The integer spelled by a sequence of decimal digit bytes.
pub open spec fn dec_value(s: Seq<u8>) -> int
    decreases s.len(),
{
    if s.len() == 0 {
        0
    } else {
        dec_value(s.drop_last()) * 10 + (s.last() - 48)
    }
}

/// The expiry timestamp carried by a record field: a non-empty, all-digit
/// field that fits a 64-bit count is a timestamp; anything else means
/// "never expires".
pub open spec fn spec_expiry(s: Seq<u8>) -> Option<u64> {
    if s.len() > 0 && (forall|i| 0 <= i < s.len() ==> is_digit_byte(#[trigger] s[i])) && dec_value(
        s,
    ) <= u64::MAX {
        Some(dec_value(s) as u64)
    } else {
        None
    }
}

/// An all-digit field spells a non-negative value.
proof fn lemma_dec_value_nonneg(s: Seq<u8>)
    requires
        forall|i| 0 <= i < s.len() ==> is_digit_byte(#[trigger] s[i]),
    ensures
        dec_value(s) >= 0,
    decreases s.len(),
{
    if s.len() > 0 {
        lemma_dec_value_nonneg(s.drop_last());
    }
}

/// In an all-digit field, the value of a prefix never exceeds the value of
/// the whole field.
proof fn lemma_dec_value_prefix(s: Seq<u8>, j: int)
    requires
        0 <= j <= s.len(),
        forall|i| 0 <= i < s.len() ==> is_digit_byte(#[trigger] s[i]),
    ensures
        dec_value(s.take(j)) <= dec_value(s),
    decreases s.len() - j,
{
    if j < s.len() {
        assert(s.take(j + 1).drop_last() =~= s.take(j));
        assert(forall|i| 0 <= i < s.take(j).len() ==> is_digit_byte(#[trigger] s.take(j)[i]));
        lemma_dec_value_nonneg(s.take(j));
        assert(dec_value(s.take(j)) <= dec_value(s.take(j + 1)));
        lemma_dec_value_prefix(s, j + 1);
    } else {
        assert(s.take(j) =~= s);
    }
}

/// Reads the expiry field of a key record.
pub fn parse_expiry(field: &Vec<u8>) -> (r: Option<u64>)
    ensures
        r == spec_expiry(field@),
{
    if field.len() == 0 {
        return None;
    }
    let mut acc: u64 = 0;
    let mut i: usize = 0;
    while i < field.len()
        invariant
            0 < field@.len(),
            i <= field@.len(),
            forall|j| 0 <= j < i ==> is_digit_byte(#[trigger] field@[j]),
            acc == dec_value(field@.take(i as int)),
        decreases field@.len() - i,
    {
        let b: u8 = field[i];
        if b < 48 || b > 57 {
            return None;
        }
        let d: u64 = (b - 48) as u64;
        let next: Option<u64> = match acc.checked_mul(10) {
            Some(m) => m.checked_add(d),
            None => None,
        };
        match next {
            Some(v) => {
                acc = v;
            },
            None => {
                proof {
                    assert(field@.take(i + 1).drop_last() =~= field@.take(i as int));
                    assert(dec_value(field@.take(i + 1)) > u64::MAX);
                    if forall|j| 0 <= j < field@.len() ==> is_digit_byte(#[trigger] field@[j]) {
                        lemma_dec_value_prefix(field@, i + 1);
                    }
                }
                return None;
            },
        }
        i += 1;
        proof {
            assert(field@.take(i as int).drop_last() =~= field@.take(i - 1));
        }
    }
    proof {
        assert(field@.take(field@.len() as int) =~= field@);
    }
    Some(acc)
}

// ---------------------------------------------------------------------------
// One key: a key record paired with its fingerprint record.
// ---------------------------------------------------------------------------
/// The column of a key record that carries the expiry timestamp.
pub const EXPIRY_FIELD: usize = 6;

/// The column of a fingerprint record that carries the fingerprint.
pub const FINGERPRINT_FIELD: usize = 9;

/// The key described by a key record `line1` (primary or subordinate) and
/// the fingerprint record `line2` that follows it. `None` when either line
/// is truncated or the fingerprint field is not a valid fingerprint.
pub open spec fn spec_key_status(line1: Seq<Seq<u8>>, line2: Seq<Seq<u8>>) -> Option<KeyStatusV> {
    if line1.len() > EXPIRY_FIELD && line2.len() > FINGERPRINT_FIELD && is_valid_key_bytes(
        line2[FINGERPRINT_FIELD as int],
    ) {
        Some(
            KeyStatusV {
                fingerprint: ascii_chars_of(line2[FINGERPRINT_FIELD as int]),
                expires: spec_expiry(line1[EXPIRY_FIELD as int]),
            },
        )
    } else {
        None
    }
}

/// One primary or subordinate key as reported by the external tool.
#[derive(Debug)]
pub struct GpgKeyStatus {
    pub fingerprint: KeyId,
    pub expires: Option<u64>,
}

impl View for GpgKeyStatus {
    type V = KeyStatusV;

    open spec fn view(&self) -> KeyStatusV {
        KeyStatusV { fingerprint: self.fingerprint@, expires: self.expires }
    }
}

impl DeepView for GpgKeyStatus {
    type V = KeyStatusV;

    open spec fn deep_view(&self) -> KeyStatusV {
        self.view()
    }
}

/// The number of whole days from `now` until `expires`, truncated toward
/// zero: a key expired by a fraction of a day counts as zero days.
pub open spec fn days_until(expires: u64, now: u64) -> int {
    if expires >= now {
        (expires - now) / 86400
    } else {
        -((now - expires) / 86400)
    }
}

/// A key that expires at the reference time, or that expired less than a
/// whole day before it, is due in exactly zero days: the day count
/// truncates toward zero.
pub proof fn lemma_days_until_truncates(expires: u64, now_secs: u64)
    requires
        expires <= now_secs,
        now_secs - expires < 86400,
    ensures
        days_until(expires, now_secs) == 0,
{
    vstd::arithmetic::div_mod::lemma_basic_div(now_secs - expires, 86400);
    if expires == now_secs {
        vstd::arithmetic::div_mod::lemma_basic_div(0, 86400);
    }
}

/// A key that expires exactly `n` whole days after the reference time is
/// due in exactly `n` days.
pub proof fn lemma_days_until_exact(now_secs: u64, n: u64)
    requires
        now_secs + 86400 * n <= u64::MAX,
    ensures
        days_until((now_secs + 86400 * n) as u64, now_secs) == n,
{
    vstd::arithmetic::div_mod::lemma_div_multiples_vanish(n as int, 86400);
}

impl GpgKeyStatus {
    /// The number of whole days until this key expires, relative to
    /// `now_secs`; `None` when the key never expires. Negative for a key
    /// that expired more than a day ago; truncation is toward zero.
    pub fn expire_days(&self, now_secs: u64) -> (r: Option<i64>)
        ensures
            match self@.expires {
                Some(e) => r matches Some(d) && d == days_until(e, now_secs),
                None => r is None,
            },
    {
        match self.expires {
            None => None,
            Some(e) => {
                if e >= now_secs {
                    let diff: u64 = e - now_secs;
                    let d: u64 = diff / 86400;
                    proof {
                        assert(d <= diff);
                    }
                    Some(d as i64)
                } else {
                    let diff: u64 = now_secs - e;
                    let d: u64 = diff / 86400;
                    proof {
                        assert(d <= diff);
                    }
                    Some(-(d as i64))
                }
            },
        }
    }

    /// Builds one key from its key record and its fingerprint record,
    /// pulling the expiry timestamp and the fingerprint from their fixed
    /// columns. A truncated line or an invalid fingerprint is a structural
    /// parse failure.
    pub fn parse_from(line1: &Vec<Vec<u8>>, line2: &Vec<Vec<u8>>) -> (r: Result<
        GpgKeyStatus,
        Error,
    >)
        ensures
            r is Ok <==> spec_key_status(line1.deep_view(), line2.deep_view()) is Some,
            r matches Ok(ks) ==> spec_key_status(line1.deep_view(), line2.deep_view()) == Some(
                ks@,
            ),
            r matches Err(e) ==> e == Error::StructuralParse,
    {
        if line1.len() <= EXPIRY_FIELD || line2.len() <= FINGERPRINT_FIELD {
            return Err(Error::StructuralParse);
        }
        proof {
            lemma_bytes_deep_view(line1@[EXPIRY_FIELD as int]);
            lemma_bytes_deep_view(line2@[FINGERPRINT_FIELD as int]);
        }
        let fingerprint = match KeyId::parse_bytes(&line2[FINGERPRINT_FIELD]) {
            Ok(k) => k,
            Err(_) => {
                return Err(Error::StructuralParse);
            },
        };
        let expires = parse_expiry(&line1[EXPIRY_FIELD]);
        Ok(GpgKeyStatus { fingerprint, expires })
    }
}

// ---------------------------------------------------------------------------
// One primary key with its subordinate keys.
// ---------------------------------------------------------------------------
/// Parses subordinate-key pairs from position `i` of the filtered record
/// stream `rs`, accumulating into `acc`, until the next primary record or
/// the end of the stream. Returns the subordinate keys and the position of
/// the next unconsumed record; `None` on any grammar violation.
pub open spec fn spec_parse_subkeys(rs: Seq<Seq<Seq<u8>>>, i: int, acc: Seq<KeyStatusV>) -> Option<
    (Seq<KeyStatusV>, int),
>
    decreases rs.len() - i,
{
    if !(0 <= i < rs.len()) {
        Some((acc, i))
    } else if is_primary_record(rs[i]) {
        Some((acc, i))
    } else if is_subordinate_record(rs[i]) {
        if i + 1 < rs.len() && is_fingerprint_record(rs[i + 1]) {
            match spec_key_status(rs[i], rs[i + 1]) {
                Some(k) => spec_parse_subkeys(rs, i + 2, acc.push(k)),
                None => None,
            }
        } else {
            None
        }
    } else {
        None
    }
}

/// Parses one primary-key block from position `i` of the filtered record
/// stream: a primary record, its fingerprint record, then subordinate
/// pairs up to the next primary record or the end. Returns the block and
/// the position of the next unconsumed record.
pub open spec fn spec_parse_main(rs: Seq<Seq<Seq<u8>>>, i: int) -> Option<(MainKeyV, int)> {
    if 0 <= i && i + 1 < rs.len() && is_primary_record(rs[i]) && is_fingerprint_record(
        rs[i + 1],
    ) {
        match spec_key_status(rs[i], rs[i + 1]) {
            Some(st) => match spec_parse_subkeys(rs, i + 2, Seq::empty()) {
                Some((subs, j)) => Some((MainKeyV { status: st, subkeys: subs }, j)),
                None => None,
            },
            None => None,
        }
    } else {
        None
    }
}

/// One primary key and the subordinate keys it owns.
#[derive(Debug)]
pub struct GpgMainKeyStatus {
    pub status: GpgKeyStatus,
    pub subkeys: Vec<GpgKeyStatus>,
}

impl View for GpgMainKeyStatus {
    type V = MainKeyV;

    open spec fn view(&self) -> MainKeyV {
        MainKeyV { status: self.status@, subkeys: self.subkeys.deep_view() }
    }
}

impl DeepView for GpgMainKeyStatus {
    type V = MainKeyV;

    open spec fn deep_view(&self) -> MainKeyV {
        self.view()
    }
}

impl GpgMainKeyStatus {
    /// Parses one primary-key block starting at `start` in the filtered
    /// record stream `records`, and returns it together with the position
    /// of the first record it did not consume.
    pub fn parse_from(records: &Vec<Vec<Vec<u8>>>, start: usize) -> (r: Result<
        (GpgMainKeyStatus, usize),
        Error,
    >)
        ensures
            r is Ok <==> spec_parse_main(records.deep_view(), start as int) is Some,
            r matches Ok((m, j)) ==> spec_parse_main(records.deep_view(), start as int) == Some(
                (m@, j as int),
            ) && start < j <= records@.len(),
            r matches Err(e) ==> e == Error::StructuralParse,
    {
        let ghost rs = records.deep_view();
        if start >= records.len() || !record_is_primary(&records[start]) {
            return Err(Error::StructuralParse);
        }
        if start + 1 >= records.len() || !record_is_fingerprint(&records[start + 1]) {
            return Err(Error::StructuralParse);
        }
        let status = match GpgKeyStatus::parse_from(&records[start], &records[start + 1]) {
            Ok(s) => s,
            Err(e) => {
                return Err(e);
            },
        };
        let mut subkeys: Vec<GpgKeyStatus> = Vec::new();
        let mut pos: usize = start + 2;
        proof {
            assert(subkeys.deep_view() =~= Seq::<KeyStatusV>::empty());
        }
        while pos < records.len() && !record_is_primary(&records[pos])
            invariant
                start + 2 <= pos <= records@.len(),
                rs == records.deep_view(),
                rs.len() == records@.len(),
                spec_parse_subkeys(rs, start + 2, Seq::empty()) == spec_parse_subkeys(
                    rs,
                    pos as int,
                    subkeys.deep_view(),
                ),
            decreases records@.len() - pos,
        {
            if !record_is_subordinate(&records[pos]) {
                return Err(Error::StructuralParse);
            }
            if pos + 1 >= records.len() || !record_is_fingerprint(&records[pos + 1]) {
                return Err(Error::StructuralParse);
            }
            let k = match GpgKeyStatus::parse_from(&records[pos], &records[pos + 1]) {
                Ok(k) => k,
                Err(e) => {
                    return Err(e);
                },
            };
            let ghost prev = subkeys.deep_view();
            subkeys.push(k);
            pos = pos + 2;
            proof {
                assert(subkeys.deep_view() =~= prev.push(k@));
            }
        }
        Ok((GpgMainKeyStatus { status, subkeys }, pos))
    }
}

// ---------------------------------------------------------------------------
// The whole inventory.
// ---------------------------------------------------------------------------
/// Parses primary-key blocks from position `i` of the filtered record
/// stream until the stream is exhausted, accumulating into `acc`.
pub open spec fn spec_parse_mains(rs: Seq<Seq<Seq<u8>>>, i: int, acc: Seq<MainKeyV>) -> Option<
    Seq<MainKeyV>,
>
    decreases rs.len() - i,
{
    if !(0 <= i < rs.len()) {
        Some(acc)
    } else {
        match spec_parse_main(rs, i) {
            Some((m, j)) => if i < j <= rs.len() {
                spec_parse_mains(rs, j, acc.push(m))
            } else {
                None
            },
            None => None,
        }
    }
}

/// The inventory described by an unfiltered record stream: its relevant
/// records parsed as a sequence of primary-key blocks.
pub open spec fn spec_parse_status(rs: Seq<Seq<Seq<u8>>>) -> Option<Seq<MainKeyV>> {
    spec_parse_mains(spec_filter_records(rs), 0, Seq::empty())
}

/// The key inventory: one entry per primary key, in the order the
/// external tool reported them.
#[derive(Debug)]
pub struct GpgStatus {
    pub main_keys: Vec<GpgMainKeyStatus>,
}

impl View for GpgStatus {
    type V = Seq<MainKeyV>;

    open spec fn view(&self) -> Seq<MainKeyV> {
        self.main_keys.deep_view()
    }
}

impl GpgStatus {
    /// Builds the inventory from a record stream: keeps the primary,
    /// subordinate and fingerprint records, and groups them into
    /// primary-key blocks. Any violation of the pairing and ordering
    /// grammar is a structural parse failure and yields no inventory.
    pub fn parse_from(records: &Vec<Vec<Vec<u8>>>) -> (r: Result<GpgStatus, Error>)
        ensures
            r is Ok <==> spec_parse_status(records.deep_view()) is Some,
            r matches Ok(st) ==> spec_parse_status(records.deep_view()) == Some(st@),
            r matches Err(e) ==> e == Error::StructuralParse,
    {
        let ghost rs = records.deep_view();
        let mut filtered: Vec<Vec<Vec<u8>>> = Vec::new();
        let mut idx: usize = 0;
        proof {
            assert(rs.take(0) =~= Seq::<Seq<Seq<u8>>>::empty());
            assert(filtered.deep_view() =~= spec_filter_records(rs.take(0)));
        }
        while idx < records.len()
            invariant
                idx <= records@.len(),
                rs == records.deep_view(),
                rs.len() == records@.len(),
                filtered.deep_view() == spec_filter_records(rs.take(idx as int)),
            decreases records@.len() - idx,
        {
            let ghost prev = filtered.deep_view();
            if record_is_relevant(&records[idx]) {
                filtered.push(clone_record(&records[idx]));
            }
            idx += 1;
            proof {
                assert(rs.take(idx as int).drop_last() =~= rs.take(idx - 1));
                assert(rs.take(idx as int).last() == rs[idx - 1]);
                assert(rs[idx - 1] == records@[idx - 1].deep_view());
                if is_relevant_record(rs[idx - 1]) {
                    assert(filtered.deep_view() =~= prev.push(rs[idx - 1]));
                } else {
                    assert(filtered.deep_view() == prev);
                }
            }
        }
        proof {
            assert(rs.take(rs.len() as int) =~= rs);
        }
        let ghost frs = filtered.deep_view();
        let mut main_keys: Vec<GpgMainKeyStatus> = Vec::new();
        let mut pos: usize = 0;
        proof {
            assert(main_keys.deep_view() =~= Seq::<MainKeyV>::empty());
        }
        while pos < filtered.len()
            invariant
                pos <= filtered@.len(),
                frs == filtered.deep_view(),
                frs.len() == filtered@.len(),
                frs == spec_filter_records(records.deep_view()),
                spec_parse_mains(frs, 0, Seq::empty()) == spec_parse_mains(
                    frs,
                    pos as int,
                    main_keys.deep_view(),
                ),
            decreases filtered@.len() - pos,
        {
            let ghost prev = main_keys.deep_view();
            match GpgMainKeyStatus::parse_from(&filtered, pos) {
                Ok((m, j)) => {
                    let ghost mv = m@;
                    main_keys.push(m);
                    pos = j;
                    proof {
                        assert(main_keys.deep_view() =~= prev.push(mv));
                    }
                },
                Err(e) => {
                    return Err(e);
                },
            }
        }
        Ok(GpgStatus { main_keys })
    }
}

/// Builds the inventory straight from the text of the external tool's
/// listing: tokenizes the text into records and parses them.
pub fn parse_inventory(text: &str) -> (r: Result<GpgStatus, Error>)
    ensures
        r is Ok <==> spec_parse_status(spec_tokenize(text.spec_bytes())) is Some,
        r matches Ok(st) ==> spec_parse_status(spec_tokenize(text.spec_bytes())) == Some(st@),
        r matches Err(e) ==> e == Error::StructuralParse,
{
    let records = tokenize(text);
    GpgStatus::parse_from(&records)
}

} // verus!
