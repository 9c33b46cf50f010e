//! The BYO control-stream wire format: a plain-text line
//! `source_name,partition_count,partition_id,timestamp,offset`, the four
//! numeric fields being ASCII decimal integers.  Parsing is total: a
//! malformed message yields `None` and is discarded by the caller.

use vstd::prelude::*;

verus! {

pub const COMMA: u8 = 44;
pub const PLUS: u8 = 43;
pub const MINUS: u8 = 45;
pub const ZERO_DIGIT: u8 = 48;

pub open spec fn is_ascii_digit(b: u8) -> bool {
    48 <= b <= 57
}

pub open spec fn all_digits(s: Seq<u8>) -> bool {
    forall|k: int| 0 <= k < s.len() ==> is_ascii_digit(#[trigger] s[k])
}

/// The value of a string of ASCII digits read in base ten.
pub open spec fn digits_val(s: Seq<u8>) -> int
    decreases s.len(),
{
    if s.len() == 0 {
        0
    } else {
        digits_val(s.drop_last()) * 10 + (s.last() - ZERO_DIGIT)
    }
}

pub proof fn lemma_digits_val_nonneg(s: Seq<u8>)
    requires
        all_digits(s),
    ensures
        digits_val(s) >= 0,
    decreases s.len(),
{
    if s.len() > 0 {
        assert(all_digits(s.drop_last()));
        lemma_digits_val_nonneg(s.drop_last());
    }
}

/// Reading more digits never decreases the value.
pub proof fn lemma_digits_val_prefix_le(s: Seq<u8>, i: int, j: int)
    requires
        0 <= i <= j <= s.len(),
        forall|k: int| 0 <= k < j ==> is_ascii_digit(#[trigger] s[k]),
    ensures
        0 <= digits_val(s.take(i)),
        digits_val(s.take(i)) <= digits_val(s.take(j)),
    decreases j - i,
{
    assert(all_digits(s.take(i)));
    lemma_digits_val_nonneg(s.take(i));
    if i < j {
        lemma_digits_val_prefix_le(s, i, j - 1);
        assert(s.take(j).drop_last() =~= s.take(j - 1));
        assert(digits_val(s.take(j)) == digits_val(s.take(j - 1)) * 10 + (s[j - 1] - ZERO_DIGIT));
        lemma_digits_val_nonneg(s.take(j - 1));
    }
}

/// Parses a nonempty, all-digit suffix `s[start..]` in base ten, refusing
/// values that do not fit in a `u64`.
pub fn parse_digits(s: &[u8], start: usize) -> (r: Option<u64>)
    requires
        start <= s@.len(),
    ensures
        r == ({
            let t = s@.skip(start as int);
            if t.len() > 0 && all_digits(t) && digits_val(t) <= u64::MAX {
                Some(digits_val(t) as u64)
            } else {
                None::<u64>
            }
        }),
{
    let ghost t = s@.skip(start as int);
    let n = s.len();
    if start >= n {
        return None;
    }
    let mut acc: u64 = 0;
    let mut i: usize = start;
    while i < n
        invariant
            start <= i <= n,
            n == s@.len(),
            t == s@.skip(start as int),
            forall|k: int| start <= k < i ==> is_ascii_digit(#[trigger] s@[k]),
            acc == digits_val(t.take(i - start)),
        decreases n - i,
    {
        let b = s[i];
        proof {
            assert(t.take(i + 1 - start).drop_last() =~= t.take(i - start));
            assert(t.take(i + 1 - start).last() == s@[i as int]);
        }
        if b < 48 || b > 57 {
            proof {
                assert(t[i - start] == s@[i as int]);
                assert(!all_digits(t));
            }
            return None;
        }
        let d: u64 = (b - 48) as u64;
        proof {
            assert(forall|k: int| 0 <= k < i + 1 - start ==> is_ascii_digit(#[trigger] t[k]));
        }
        if acc > u64::MAX / 10 {
            proof {
                assert(digits_val(t.take(i + 1 - start)) == acc * 10 + d);
                assert(acc * 10 + d > u64::MAX);
                if all_digits(t) {
                    lemma_digits_val_prefix_le(t, i + 1 - start, t.len() as int);
                    assert(t.take(t.len() as int) =~= t);
                }
            }
            return None;
        }
        let acc10: u64 = acc * 10;
        if d > u64::MAX - acc10 {
            proof {
                assert(digits_val(t.take(i + 1 - start)) == acc * 10 + d);
                if all_digits(t) {
                    lemma_digits_val_prefix_le(t, i + 1 - start, t.len() as int);
                    assert(t.take(t.len() as int) =~= t);
                }
            }
            return None;
        }
        acc = acc10 + d;
        i = i + 1;
    }
    proof {
        assert(t.take(i - start) =~= t);
        assert(all_digits(t));
    }
    Some(acc)
}

/// What `u64` parsing accepts: an optional leading `+`, then one or more
/// ASCII digits whose value fits.
pub open spec fn spec_parse_u64(s: Seq<u8>) -> Option<u64> {
    let t = if s.len() > 0 && s[0] == PLUS {
        s.skip(1)
    } else {
        s
    };
    if t.len() > 0 && all_digits(t) && digits_val(t) <= u64::MAX {
        Some(digits_val(t) as u64)
    } else {
        None
    }
}

pub fn parse_u64_bytes(s: &[u8]) -> (r: Option<u64>)
    ensures
        r == spec_parse_u64(s@),
{
    let start: usize = if s.len() > 0 && s[0] == PLUS {
        1
    } else {
        0
    };
    proof {
        assert(s@.skip(0) =~= s@);
    }
    parse_digits(s, start)
}

/// What `i64` parsing accepts: an optional sign, then one or more ASCII
/// digits; the signed value must fit.
pub open spec fn spec_parse_i64(s: Seq<u8>) -> Option<i64> {
    let neg = s.len() > 0 && s[0] == MINUS;
    let t = if s.len() > 0 && (s[0] == PLUS || s[0] == MINUS) {
        s.skip(1)
    } else {
        s
    };
    if t.len() > 0 && all_digits(t) {
        let v = digits_val(t);
        if !neg && v <= i64::MAX {
            Some(v as i64)
        } else if neg && v <= i64::MAX + 1 {
            Some((-v) as i64)
        } else {
            None
        }
    } else {
        None
    }
}

pub fn parse_i64_bytes(s: &[u8]) -> (r: Option<i64>)
    ensures
        r == spec_parse_i64(s@),
{
    let signed: bool = s.len() > 0 && (s[0] == PLUS || s[0] == MINUS);
    let neg: bool = s.len() > 0 && s[0] == MINUS;
    let start: usize = if signed {
        1
    } else {
        0
    };
    proof {
        assert(s@.skip(0) =~= s@);
    }
    let mag = match parse_digits(s, start) {
        Some(m) => m,
        None => {
            proof {
                let t = s@.skip(start as int);
                if t.len() > 0 && all_digits(t) {
                    lemma_digits_val_nonneg(t);
                }
            }
            return None;
        },
    };
    proof {
        lemma_digits_val_nonneg(s@.skip(start as int));
    }
    if !neg {
        if mag <= i64::MAX as u64 {
            Some(mag as i64)
        } else {
            None
        }
    } else {
        if mag <= i64::MAX as u64 {
            Some(-(mag as i64))
        } else if mag == i64::MAX as u64 + 1 {
            Some(i64::MIN)
        } else {
            None
        }
    }
}

/// What `i32` parsing accepts, in the same shape as `spec_parse_i64`.
pub open spec fn spec_parse_i32(s: Seq<u8>) -> Option<i32> {
    let neg = s.len() > 0 && s[0] == MINUS;
    let t = if s.len() > 0 && (s[0] == PLUS || s[0] == MINUS) {
        s.skip(1)
    } else {
        s
    };
    if t.len() > 0 && all_digits(t) {
        let v = digits_val(t);
        if !neg && v <= i32::MAX {
            Some(v as i32)
        } else if neg && v <= i32::MAX + 1 {
            Some((-v) as i32)
        } else {
            None
        }
    } else {
        None
    }
}

pub fn parse_i32_bytes(s: &[u8]) -> (r: Option<i32>)
    ensures
        r == spec_parse_i32(s@),
{
    let signed: bool = s.len() > 0 && (s[0] == PLUS || s[0] == MINUS);
    let neg: bool = s.len() > 0 && s[0] == MINUS;
    let start: usize = if signed {
        1
    } else {
        0
    };
    proof {
        assert(s@.skip(0) =~= s@);
    }
    let mag = match parse_digits(s, start) {
        Some(m) => m,
        None => {
            proof {
                let t = s@.skip(start as int);
                if t.len() > 0 && all_digits(t) {
                    lemma_digits_val_nonneg(t);
                }
            }
            return None;
        },
    };
    proof {
        lemma_digits_val_nonneg(s@.skip(start as int));
    }
    if !neg {
        if mag <= i32::MAX as u64 {
            Some(mag as i32)
        } else {
            None
        }
    } else {
        if mag <= i32::MAX as u64 {
            Some(-(mag as i32))
        } else if mag == i32::MAX as u64 + 1 {
            Some(i32::MIN)
        } else {
            None
        }
    }
}

/// The fields of `s`, split on every comma: one more field than there are
/// commas, each field free of commas, in order.
pub open spec fn split_commas(s: Seq<u8>) -> Seq<Seq<u8>>
    decreases s.len(),
{
    if s.len() == 0 {
        seq![Seq::<u8>::empty()]
    } else if s[0] == COMMA {
        seq![Seq::<u8>::empty()] + split_commas(s.drop_first())
    } else {
        let rest = split_commas(s.drop_first());
        rest.update(0, seq![s[0]] + rest[0])
    }
}

pub proof fn lemma_split_commas_nonempty(s: Seq<u8>)
    ensures
        split_commas(s).len() >= 1,
    decreases s.len(),
{
    if s.len() > 0 {
        lemma_split_commas_nonempty(s.drop_first());
    }
}

pub fn split_on_commas(s: &[u8]) -> (fields: Vec<Vec<u8>>)
    ensures
        fields@.map_values(|f: Vec<u8>| f@) == split_commas(s@),
{
    let n = s.len();
    let mut fields: Vec<Vec<u8>> = Vec::new();
    let mut cur: Vec<u8> = Vec::new();
    let mut i: usize = 0;
    proof {
        assert(s@.skip(0) =~= s@);
        lemma_split_commas_nonempty(s@);
        assert(split_commas(s@) =~~= fields@.map_values(|f: Vec<u8>| f@) + split_commas(
            s@.skip(0),
        ).update(0, cur@ + split_commas(s@.skip(0))[0]));
    }
    while i < n
        invariant
            0 <= i <= n,
            n == s@.len(),
            split_commas(s@.skip(i as int)).len() >= 1,
            split_commas(s@) == fields@.map_values(|f: Vec<u8>| f@) + split_commas(
                s@.skip(i as int),
            ).update(0, cur@ + split_commas(s@.skip(i as int))[0]),
        decreases n - i,
    {
        let ghost rem = split_commas(s@.skip(i as int));
        let ghost rem_next = split_commas(s@.skip(i + 1));
        let ghost cur0 = cur@;
        let ghost fmap = fields@.map_values(|f: Vec<u8>| f@);
        proof {
            assert(s@.skip(i as int)[0] == s@[i as int]);
            assert(s@.skip(i as int).drop_first() =~= s@.skip(i + 1));
            lemma_split_commas_nonempty(s@.skip(i + 1));
        }
        let b = s[i];
        if b == COMMA {
            proof {
                assert(rem == seq![Seq::<u8>::empty()] + rem_next);
            }
            fields.push(cur);
            cur = Vec::new();
            proof {
                assert(fmap + rem.update(0, cur0 + rem[0]) =~~= fields@.map_values(
                    |f: Vec<u8>| f@,
                ) + rem_next.update(0, cur@ + rem_next[0]));
            }
        } else {
            proof {
                assert(rem == rem_next.update(0, seq![s@[i as int]] + rem_next[0]));
            }
            cur.push(b);
            proof {
                assert(fmap + rem.update(0, cur0 + rem[0]) =~~= fields@.map_values(
                    |f: Vec<u8>| f@,
                ) + rem_next.update(0, cur@ + rem_next[0]));
            }
        }
        i = i + 1;
    }
    let ghost fmap = fields@.map_values(|f: Vec<u8>| f@);
    let ghost cur0 = cur@;
    let ghost rem = split_commas(s@.skip(n as int));
    proof {
        assert(s@.skip(n as int) =~= Seq::<u8>::empty());
        assert(rem == seq![Seq::<u8>::empty()]);
    }
    fields.push(cur);
    proof {
        assert(fmap + rem.update(0, cur0 + rem[0]) =~~= fields@.map_values(|f: Vec<u8>| f@));
    }
    fields
}

/// What one well-formed control message holds: its source name and the
/// declared `(partition_count, partition_id, timestamp, offset)` tuple.
pub open spec fn spec_parse_message(p: Seq<u8>) -> Option<(Seq<u8>, i32, i32, u64, i64)> {
    let fs = split_commas(p);
    if fs.len() != 5 {
        None
    } else {
        match (spec_parse_i32(fs[1]), spec_parse_i32(fs[2]), spec_parse_u64(fs[3]), spec_parse_i64(
            fs[4],
        )) {
            (Some(pcount), Some(pid), Some(ts), Some(offset)) => Some(
                (fs[0], pcount, pid, ts, offset),
            ),
            _ => None,
        }
    }
}

pub fn parse_message(payload: &[u8]) -> (r: Option<(Vec<u8>, i32, i32, u64, i64)>)
    ensures
        match r {
            Some(m) => spec_parse_message(payload@) == Some((m.0@, m.1, m.2, m.3, m.4)),
            None => spec_parse_message(payload@) is None,
        },
{
    let mut fields = split_on_commas(payload);
    if fields.len() != 5 {
        return None;
    }
    let offset_field = fields.pop().unwrap();
    let ts_field = fields.pop().unwrap();
    let pid_field = fields.pop().unwrap();
    let pcount_field = fields.pop().unwrap();
    let name_field = fields.pop().unwrap();
    proof {
        assert(split_commas(payload@)[0] == name_field@);
        assert(split_commas(payload@)[1] == pcount_field@);
        assert(split_commas(payload@)[2] == pid_field@);
        assert(split_commas(payload@)[3] == ts_field@);
        assert(split_commas(payload@)[4] == offset_field@);
    }
    let pcount = match parse_i32_bytes(pcount_field.as_slice()) {
        Some(v) => v,
        None => {
            return None;
        },
    };
    let pid = match parse_i32_bytes(pid_field.as_slice()) {
        Some(v) => v,
        None => {
            return None;
        },
    };
    let ts = match parse_u64_bytes(ts_field.as_slice()) {
        Some(v) => v,
        None => {
            return None;
        },
    };
    let offset = match parse_i64_bytes(offset_field.as_slice()) {
        Some(v) => v,
        None => {
            return None;
        },
    };
    Some((name_field, pcount, pid, ts, offset))
}

pub fn clone_bytes(v: &Vec<u8>) -> (r: Vec<u8>)
    ensures
        r@ == v@,
{
    let n = v.len();
    let mut r: Vec<u8> = Vec::new();
    let mut i: usize = 0;
    while i < n
        invariant
            0 <= i <= n,
            n == v@.len(),
            r@ =~= v@.take(i as int),
        decreases n - i,
    {
        r.push(v[i]);
        i = i + 1;
    }
    proof {
        assert(r@ =~= v@);
    }
    r
}

pub fn bytes_eq(a: &[u8], b: &[u8]) -> (r: bool)
    ensures
        r == (a@ == b@),
{
    if a.len() != b.len() {
        return false;
    }
    let n = a.len();
    let mut i: usize = 0;
    while i < n
        invariant
            0 <= i <= n,
            n == a@.len() == b@.len(),
            forall|k: int| 0 <= k < i ==> a@[k] == b@[k],
        decreases n - i,
    {
        if a[i] != b[i] {
            return false;
        }
        i = i + 1;
    }
    proof {
        assert(a@ =~= b@);
    }
    true
}

/// The tuples that a batch of raw control messages declares for the named
/// source: each message that parses and whose first field equals `name`,
/// in arrival order.  Malformed messages and other sources' messages
/// contribute nothing.
pub open spec fn spec_extracted(name: Seq<u8>, msgs: Seq<Seq<u8>>) -> Seq<(i32, i32, u64, i64)>
    decreases msgs.len(),
{
    if msgs.len() == 0 {
        Seq::empty()
    } else {
        let front = spec_extracted(name, msgs.drop_last());
        match spec_parse_message(msgs.last()) {
            Some(m) => if m.0 == name {
                front.push((m.1, m.2, m.3, m.4))
            } else {
                front
            },
            None => front,
        }
    }
}

/// Extracts the timestamp updates addressed to `source_name` from a batch
/// of raw control messages.
pub fn byo_extract_ts_update(source_name: &Vec<u8>, messages: &Vec<Vec<u8>>) -> (ups: Vec<
    (i32, i32, u64, i64),
>)
    ensures
        ups@ == spec_extracted(source_name@, messages@.map_values(|m: Vec<u8>| m@)),
{
    let ghost msgs = messages@.map_values(|m: Vec<u8>| m@);
    let n = messages.len();
    let mut ups: Vec<(i32, i32, u64, i64)> = Vec::new();
    let mut i: usize = 0;
    while i < n
        invariant
            0 <= i <= n,
            n == messages@.len(),
            msgs == messages@.map_values(|m: Vec<u8>| m@),
            ups@ == spec_extracted(source_name@, msgs.take(i as int)),
        decreases n - i,
    {
        proof {
            assert(msgs.take(i + 1).drop_last() =~= msgs.take(i as int));
            assert(msgs.take(i + 1).last() == msgs[i as int]);
            assert(msgs[i as int] == messages@[i as int]@);
        }
        match parse_message(messages[i].as_slice()) {
            Some(m) => {
                if bytes_eq(m.0.as_slice(), source_name.as_slice()) {
                    ups.push((m.1, m.2, m.3, m.4));
                }
            },
            None => {},
        }
        i = i + 1;
    }
    proof {
        assert(msgs.take(n as int) =~= msgs);
    }
    ups
}

} // verus!
