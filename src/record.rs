use vstd::prelude::*;

verus! {

/// One keyed write: the unit that views enqueue and checkpointers accumulate.
/// Tables without event time leave `time` at zero.
#[derive(Debug)]
pub struct Record {
    pub key: String,
    pub time: u64,
    pub value: i64,
}

/// The value that replaying `rs` in order leaves under key `k`: the last write wins.
pub open spec fn lookup(rs: Seq<Record>, k: Seq<char>) -> Option<i64>
    decreases rs.len(),
{
    if rs.len() == 0 {
        None
    } else if rs.last().key@ == k {
        Some(rs.last().value)
    } else {
        lookup(rs.drop_last(), k)
    }
}

/// An entry stamped `time` is still present under `watermark` when `time + retention`
/// has not fallen strictly below it.
pub open spec fn is_live(time: u64, retention: u64, watermark: Option<u64>) -> bool {
    match watermark {
        None => true,
        Some(w) => time + retention >= w,
    }
}

/// Like `lookup`, but only entries that are live under the watermark count.
pub open spec fn lookup_live(rs: Seq<Record>, k: Seq<char>, retention: u64, watermark: Option<u64>) -> Option<i64>
    decreases rs.len(),
{
    if rs.len() == 0 {
        None
    } else if rs.last().key@ == k && is_live(rs.last().time, retention, watermark) {
        Some(rs.last().value)
    } else {
        lookup_live(rs.drop_last(), k, retention, watermark)
    }
}

/// The entries of `rs` that are live under the watermark, in their order.
pub open spec fn live_records(rs: Seq<Record>, retention: u64, watermark: Option<u64>) -> Seq<Record>
    decreases rs.len(),
{
    if rs.len() == 0 {
        Seq::empty()
    } else if is_live(rs.last().time, retention, watermark) {
        live_records(rs.drop_last(), retention, watermark).push(rs.last())
    } else {
        live_records(rs.drop_last(), retention, watermark)
    }
}

/// Dropping dead entries changes no live read.
pub proof fn lemma_live_records_lookup(rs: Seq<Record>, k: Seq<char>, retention: u64, watermark: Option<u64>)
    ensures
        lookup_live(live_records(rs, retention, watermark), k, retention, watermark)
            == lookup_live(rs, k, retention, watermark),
        lookup(live_records(rs, retention, watermark), k) == lookup_live(rs, k, retention, watermark),
    decreases rs.len(),
{
    if rs.len() > 0 {
        lemma_live_records_lookup(rs.drop_last(), k, retention, watermark);
        let l = live_records(rs.drop_last(), retention, watermark);
        if is_live(rs.last().time, retention, watermark) {
            assert(l.push(rs.last()).drop_last() =~= l);
        }
    }
}

/// Expiry: once the watermark lies beyond every event time written under `k` by more than
/// the retention, `k` reads as absent.
pub proof fn lemma_expired_key_absent(rs: Seq<Record>, k: Seq<char>, retention: u64, watermark: u64)
    requires
        forall|i: int| 0 <= i < rs.len() && (#[trigger] rs[i]).key@ == k ==> rs[i].time + retention < watermark,
    ensures
        lookup_live(rs, k, retention, Some(watermark)) == None::<i64>,
    decreases rs.len(),
{
    if rs.len() > 0 {
        assert forall|i: int| 0 <= i < rs.drop_last().len() && (#[trigger] rs.drop_last()[i]).key@ == k implies
            rs.drop_last()[i].time + retention < watermark by {
            assert(rs.drop_last()[i] == rs[i]);
        }
        lemma_expired_key_absent(rs.drop_last(), k, retention, watermark);
    }
}

/// Whether the entry stamped `time` survives the watermark; written without overflow.
pub fn live(time: u64, retention: u64, watermark: Option<u64>) -> (r: bool)
    ensures
        r == is_live(time, retention, watermark),
{
    match watermark {
        None => true,
        Some(w) => w <= time || w - time <= retention,
    }
}

impl Record {
    pub fn new(key: String, time: u64, value: i64) -> (r: Record)
        ensures
            r.key == key,
            r.time == time,
            r.value == value,
    {
        Record { key, time, value }
    }

    /// A field-by-field copy.
    pub fn duplicate(&self) -> (r: Record)
        ensures
            r == *self,
    {
        Record { key: self.key.clone(), time: self.time, value: self.value }
    }
}

/// A copy of every record, in order.
pub fn duplicate_records(rs: &Vec<Record>) -> (r: Vec<Record>)
    ensures
        r@ == rs@,
{
    let mut out: Vec<Record> = Vec::new();
    let mut i: usize = 0;
    while i < rs.len()
        invariant
            i <= rs.len(),
            out@ == rs@.take(i as int),
        decreases rs.len() - i,
    {
        out.push(rs[i].duplicate());
        assert(rs@.take(i as int).push(rs@[i as int]) =~= rs@.take(i + 1));
        i = i + 1;
    }
    assert(rs@.take(rs.len() as int) =~= rs@);
    out
}

/// `a` followed by a copy of `b`.
pub fn append_records(a: Vec<Record>, b: &Vec<Record>) -> (r: Vec<Record>)
    ensures
        r@ == a@ + b@,
{
    let mut out = a;
    let ghost a0 = out@;
    let mut i: usize = 0;
    while i < b.len()
        invariant
            i <= b.len(),
            out@ == a0 + b@.take(i as int),
        decreases b.len() - i,
    {
        out.push(b[i].duplicate());
        assert(a0 + b@.take(i as int).push(b@[i as int]) =~= a0 + b@.take(i + 1));
        i = i + 1;
    }
    assert(b@.take(b.len() as int) =~= b@);
    out
}

/// The value last written under `key`.
pub fn find_latest(rs: &Vec<Record>, key: &String) -> (r: Option<i64>)
    ensures
        r == lookup(rs@, key@),
{
    let mut i: usize = rs.len();
    assert(rs@.take(i as int) =~= rs@);
    while i > 0
        invariant
            i <= rs.len(),
            lookup(rs@, key@) == lookup(rs@.take(i as int), key@),
        decreases i,
    {
        assert(rs@.take(i as int).drop_last() =~= rs@.take(i - 1));
        if rs[i - 1].key == *key {
            return Some(rs[i - 1].value);
        }
        i = i - 1;
    }
    None
}

/// The value last written under `key` among the entries live under the watermark.
pub fn find_latest_live(rs: &Vec<Record>, key: &String, retention: u64, watermark: Option<u64>) -> (r: Option<i64>)
    ensures
        r == lookup_live(rs@, key@, retention, watermark),
{
    let mut i: usize = rs.len();
    assert(rs@.take(i as int) =~= rs@);
    while i > 0
        invariant
            i <= rs.len(),
            lookup_live(rs@, key@, retention, watermark)
                == lookup_live(rs@.take(i as int), key@, retention, watermark),
        decreases i,
    {
        assert(rs@.take(i as int).drop_last() =~= rs@.take(i - 1));
        if rs[i - 1].key == *key && live(rs[i - 1].time, retention, watermark) {
            return Some(rs[i - 1].value);
        }
        i = i - 1;
    }
    None
}

/// The entries live under the watermark, in their order.
pub fn retain_live(rs: &Vec<Record>, retention: u64, watermark: Option<u64>) -> (r: Vec<Record>)
    ensures
        r@ == live_records(rs@, retention, watermark),
{
    let mut out: Vec<Record> = Vec::new();
    let mut i: usize = 0;
    while i < rs.len()
        invariant
            i <= rs.len(),
            out@ == live_records(rs@.take(i as int), retention, watermark),
        decreases rs.len() - i,
    {
        assert(rs@.take(i + 1).drop_last() =~= rs@.take(i as int));
        if live(rs[i].time, retention, watermark) {
            out.push(rs[i].duplicate());
        }
        i = i + 1;
    }
    assert(rs@.take(rs.len() as int) =~= rs@);
    out
}

} // verus!
