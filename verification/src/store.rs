//! What the release store writes, reads back, counts and finds. Each
//! channel has its own table keyed by date with the version as value; the
//! database file itself is opened and written outside the library, which
//! hands the table contents to the functions here.

use vstd::prelude::*;
use crate::config::{spec_table_name, store_channels, table_name};
use crate::constants::{CHANNEL_BETA, CHANNEL_NIGHTLY, CHANNEL_STABLE};
use crate::release::{
    insert_by_date, lemma_older_stays_older, lemma_sort_sorted, newer, sorted_by_date_desc,
    pair_texts, records_texts, release_texts, sort_by_date, sort_releases_by_date_desc, RustRelease,
};
use crate::text::{
    ascii_lower, contains_seq, lowercase, str_contains, str_eq, string_texts, to_lowercase,
};

verus! {

broadcast use vstd::string::group_string_axioms;

/// The table entry of a record: key date, value version.
pub open spec fn entry_of(r: RustRelease) -> (Seq<char>, Seq<char>) {
    (r.date@, r.version@)
}

/// The entries that the records of channel `ch` put in its table, in order.
pub open spec fn channel_entries(rs: Seq<RustRelease>, ch: Seq<char>) -> Seq<(Seq<char>, Seq<char>)>
    decreases rs.len(),
{
    if rs.len() == 0 {
        Seq::empty()
    } else {
        channel_entries(rs.drop_last(), ch) + if rs.last().channel@ == ch {
            seq![entry_of(rs.last())]
        } else {
            Seq::empty()
        }
    }
}

/// The records of channel `ch`, in order, by their texts.
pub open spec fn channel_records(rs: Seq<RustRelease>, ch: Seq<char>) -> Seq<(Seq<char>, Seq<char>, Seq<char>)>
    decreases rs.len(),
{
    if rs.len() == 0 {
        Seq::empty()
    } else {
        channel_records(rs.drop_last(), ch) + if rs.last().channel@ == ch {
            seq![release_texts(rs.last())]
        } else {
            Seq::empty()
        }
    }
}

/// The writes into one table.
#[derive(Debug)]
pub struct TableBatch {
    /// The table's name, `{prefix}_{channel}`.
    pub table: String,
    /// (date, version) entries, in the order they are inserted.
    pub entries: Vec<(String, String)>,
}

/// The writes of one store operation and the number of records written.
#[derive(Debug)]
pub struct UpsertPlan {
    pub batches: Vec<TableBatch>,
    pub count: u64,
}

/// A batch by its texts.
pub open spec fn batch_texts(b: TableBatch) -> (Seq<char>, Seq<(Seq<char>, Seq<char>)>) {
    (b.table@, pair_texts(b.entries@))
}

/// The batch for channel `ch`, or none when it has no record.
pub open spec fn planned_batch(prefix: Seq<char>, rs: Seq<RustRelease>, ch: Seq<char>) -> Seq<
    (Seq<char>, Seq<(Seq<char>, Seq<char>)>),
> {
    let e = channel_entries(rs, ch);
    if e.len() == 0 {
        Seq::empty()
    } else {
        seq![(spec_table_name(prefix, ch), e)]
    }
}

/// The batches for stable, beta and nightly, in that order, skipping a
/// channel without records; records of any other channel are not written.
pub open spec fn planned_batches(prefix: Seq<char>, rs: Seq<RustRelease>) -> Seq<
    (Seq<char>, Seq<(Seq<char>, Seq<char>)>),
> {
    planned_batch(prefix, rs, CHANNEL_STABLE@) + planned_batch(prefix, rs, CHANNEL_BETA@)
        + planned_batch(prefix, rs, CHANNEL_NIGHTLY@)
}

/// The number of records on one of the three channels.
pub open spec fn known_count(rs: Seq<RustRelease>) -> nat {
    channel_entries(rs, CHANNEL_STABLE@).len() + channel_entries(rs, CHANNEL_BETA@).len()
        + channel_entries(rs, CHANNEL_NIGHTLY@).len()
}

/// The last record adds one to the count of its own channel, if it is one
/// of the three (which are distinct), and nothing to the others.
proof fn lemma_known_count_step(rs: Seq<RustRelease>)
    requires
        rs.len() > 0,
    ensures
        ({
            let t = rs.drop_last();
            let c = rs.last().channel@;
            &&& channel_entries(rs, CHANNEL_STABLE@).len() == channel_entries(t, CHANNEL_STABLE@).len()
                + if c == CHANNEL_STABLE@ { 1int } else { 0int }
            &&& channel_entries(rs, CHANNEL_BETA@).len() == channel_entries(t, CHANNEL_BETA@).len()
                + if c == CHANNEL_BETA@ { 1int } else { 0int }
            &&& channel_entries(rs, CHANNEL_NIGHTLY@).len() == channel_entries(t, CHANNEL_NIGHTLY@).len()
                + if c == CHANNEL_NIGHTLY@ { 1int } else { 0int }
            &&& CHANNEL_STABLE@ != CHANNEL_BETA@
            &&& CHANNEL_STABLE@ != CHANNEL_NIGHTLY@
            &&& CHANNEL_BETA@ != CHANNEL_NIGHTLY@
        }),
{
    reveal_strlit("stable");
    reveal_strlit("beta");
    reveal_strlit("nightly");
    assert(CHANNEL_STABLE@.len() == 6 && CHANNEL_BETA@.len() == 4 && CHANNEL_NIGHTLY@.len() == 7);
}

/// The three channels' records together are at most all records.
proof fn lemma_known_count_bounded(rs: Seq<RustRelease>)
    ensures
        known_count(rs) <= rs.len(),
    decreases rs.len(),
{
    if rs.len() > 0 {
        lemma_known_count_bounded(rs.drop_last());
        lemma_known_count_step(rs);
    }
}

/// A record is on one of the three channels.
pub open spec fn on_known_channel(r: RustRelease) -> bool {
    store_channels().contains(r.channel@)
}

/// Law: when every record is on stable, beta or nightly, a store operation
/// writes every one of them; otherwise it writes fewer.
pub proof fn law_upsert_writes_known_records(rs: Seq<RustRelease>)
    ensures
        known_count(rs) <= rs.len(),
        (forall|i: int| 0 <= i < rs.len() ==> on_known_channel(#[trigger] rs[i])) ==> known_count(rs)
            == rs.len(),
    decreases rs.len(),
{
    lemma_known_count_bounded(rs);
    if rs.len() > 0 {
        let t = rs.drop_last();
        law_upsert_writes_known_records(t);
        if forall|i: int| 0 <= i < rs.len() ==> on_known_channel(#[trigger] rs[i]) {
            assert forall|i: int| 0 <= i < t.len() implies on_known_channel(#[trigger] t[i]) by {
                assert(t[i] == rs[i]);
            }
            let c = rs.last().channel@;
            assert(on_known_channel(rs[rs.len() - 1]));
            assert(store_channels()[0] == CHANNEL_STABLE@);
            assert(store_channels()[1] == CHANNEL_BETA@);
            assert(store_channels()[2] == CHANNEL_NIGHTLY@);
            assert(c == CHANNEL_STABLE@ || c == CHANNEL_BETA@ || c == CHANNEL_NIGHTLY@);
            lemma_known_count_step(rs);
        }
    }
}

/// The number of entries in a list of batches.
pub open spec fn batch_entry_total(bs: Seq<(Seq<char>, Seq<(Seq<char>, Seq<char>)>)>) -> nat
    decreases bs.len(),
{
    if bs.len() == 0 {
        0
    } else {
        batch_entry_total(bs.drop_last()) + bs.last().1.len()
    }
}

/// The entries of two lists of batches add up.
proof fn lemma_batch_entry_total_concat(
    a: Seq<(Seq<char>, Seq<(Seq<char>, Seq<char>)>)>,
    b: Seq<(Seq<char>, Seq<(Seq<char>, Seq<char>)>)>,
)
    ensures
        batch_entry_total(a + b) == batch_entry_total(a) + batch_entry_total(b),
    decreases b.len(),
{
    if b.len() == 0 {
        assert(a + b =~= a);
    } else {
        lemma_batch_entry_total_concat(a, b.drop_last());
        assert((a + b).drop_last() =~= a + b.drop_last());
        assert((a + b).last() == b.last());
    }
}

/// The batch of one channel holds as many entries as the channel has records.
proof fn lemma_planned_batch_total(prefix: Seq<char>, rs: Seq<RustRelease>, ch: Seq<char>)
    ensures
        batch_entry_total(planned_batch(prefix, rs, ch)) == channel_entries(rs, ch).len(),
        planned_batch(prefix, rs, ch).len() <= 1,
{
    let b = planned_batch(prefix, rs, ch);
    let none = Seq::<(Seq<char>, Seq<(Seq<char>, Seq<char>)>)>::empty();
    assert(batch_entry_total(none) == 0);
    if channel_entries(rs, ch).len() > 0 {
        assert(b.drop_last() =~= none);
        assert(b.last().1 == channel_entries(rs, ch));
    } else {
        assert(b =~= none);
    }
}

/// Law: a store operation writes every record of stable, beta and nightly.
/// Each batch is the table `{prefix}_{channel}` of one of the three channels
/// with all of that channel's (date, version) entries, in input order; each
/// channel with records has its batch; and the entries of all batches
/// together number the records counted.
pub proof fn law_plan_writes_every_entry(prefix: Seq<char>, rs: Seq<RustRelease>)
    ensures
        batch_entry_total(planned_batches(prefix, rs)) == known_count(rs),
        forall|j: int|
            0 <= j < planned_batches(prefix, rs).len() ==> exists|c: Seq<char>|
                store_channels().contains(c) && #[trigger] planned_batches(prefix, rs)[j] == (
                    spec_table_name(prefix, c),
                    channel_entries(rs, c),
                ),
        forall|c: Seq<char>|
            store_channels().contains(c) && channel_entries(rs, c).len() > 0 ==> #[trigger] planned_batches(
                prefix,
                rs,
            ).contains((spec_table_name(prefix, c), channel_entries(rs, c))),
{
    let a = planned_batch(prefix, rs, CHANNEL_STABLE@);
    let b = planned_batch(prefix, rs, CHANNEL_BETA@);
    let n = planned_batch(prefix, rs, CHANNEL_NIGHTLY@);
    let all = planned_batches(prefix, rs);
    assert(all == a + b + n);
    lemma_planned_batch_total(prefix, rs, CHANNEL_STABLE@);
    lemma_planned_batch_total(prefix, rs, CHANNEL_BETA@);
    lemma_planned_batch_total(prefix, rs, CHANNEL_NIGHTLY@);
    lemma_batch_entry_total_concat(a, b);
    lemma_batch_entry_total_concat(a + b, n);
    assert(store_channels()[0] == CHANNEL_STABLE@);
    assert(store_channels()[1] == CHANNEL_BETA@);
    assert(store_channels()[2] == CHANNEL_NIGHTLY@);
    assert forall|j: int| 0 <= j < all.len() implies exists|c: Seq<char>|
        store_channels().contains(c) && #[trigger] all[j] == (
            spec_table_name(prefix, c),
            channel_entries(rs, c),
        ) by {
        if j < a.len() {
            assert(all[j] == a[j]);
            assert(store_channels().contains(CHANNEL_STABLE@));
        } else if j < a.len() + b.len() {
            assert(all[j] == b[j - a.len()]);
            assert(store_channels().contains(CHANNEL_BETA@));
        } else {
            assert(all[j] == n[j - a.len() - b.len()]);
            assert(store_channels().contains(CHANNEL_NIGHTLY@));
        }
    }
    assert forall|c: Seq<char>|
        store_channels().contains(c) && channel_entries(rs, c).len() > 0 implies #[trigger] all.contains(
        (spec_table_name(prefix, c), channel_entries(rs, c)),
    ) by {
        let k = choose|k: int| 0 <= k < store_channels().len() && store_channels()[k] == c;
        if k == 0 {
            assert(all[0] == a[0]);
        } else if k == 1 {
            assert(all[a.len() as int] == b[0]);
        } else {
            assert(all[(a.len() + b.len()) as int] == n[0]);
        }
    }
}

/// The (date, version) entries of the records on channel `channel`.
fn entries_for_channel(releases: &Vec<RustRelease>, channel: &str) -> (entries: Vec<(String, String)>)
    ensures
        pair_texts(entries@) == channel_entries(releases@, channel@),
{
    let mut out: Vec<(String, String)> = Vec::new();
    let mut i: usize = 0;
    while i < releases.len()
        invariant
            i <= releases.len(),
            pair_texts(out@) == channel_entries(releases@.take(i as int), channel@),
        decreases releases.len() - i,
    {
        let r = &releases[i];
        assert(releases@.take(i + 1).drop_last() =~= releases@.take(i as int));
        assert(releases@.take(i + 1).last() == *r);
        if str_eq(r.channel.as_str(), channel) {
            out.push((r.date.clone(), r.version.clone()));
        }
        assert(pair_texts(out@) =~= channel_entries(releases@.take(i + 1), channel@));
        i = i + 1;
    }
    assert(releases@.take(releases@.len() as int) =~= releases@);
    out
}

/// Plan the writes of a batch of records: per channel, in the order stable,
/// beta, nightly, the table `{prefix}_{channel}` receives the (date,
/// version) entry of each of the channel's records, in input order; the
/// count is the number of entries written.
pub fn plan_upserts(prefix: &str, releases: &Vec<RustRelease>) -> (plan: UpsertPlan)
    ensures
        plan.batches@.map_values(|b: TableBatch| batch_texts(b)) == planned_batches(
            prefix@,
            releases@,
        ),
        plan.count == known_count(releases@),
        batch_entry_total(plan.batches@.map_values(|b: TableBatch| batch_texts(b))) == plan.count,
{
    proof {
        lemma_known_count_bounded(releases@);
    }
    let mut batches: Vec<TableBatch> = Vec::new();
    let mut count: u64 = 0;

    let stable = entries_for_channel(releases, CHANNEL_STABLE);
    let beta = entries_for_channel(releases, CHANNEL_BETA);
    let nightly = entries_for_channel(releases, CHANNEL_NIGHTLY);
    let ghost e1 = pair_texts(stable@);
    let ghost e2 = pair_texts(beta@);
    let ghost e3 = pair_texts(nightly@);
    assert(e1.len() + e2.len() + e3.len() <= releases.len());
    let n1 = stable.len();
    let n2 = beta.len();
    let n3 = nightly.len();

    if n1 > 0 {
        count = count + n1 as u64;
        batches.push(TableBatch { table: table_name(prefix, CHANNEL_STABLE), entries: stable });
    }
    let ghost after1 = batches@;
    if n2 > 0 {
        count = count + n2 as u64;
        batches.push(TableBatch { table: table_name(prefix, CHANNEL_BETA), entries: beta });
    }
    let ghost after2 = batches@;
    if n3 > 0 {
        count = count + n3 as u64;
        batches.push(TableBatch { table: table_name(prefix, CHANNEL_NIGHTLY), entries: nightly });
    }
    let ghost views = batches@.map_values(|b: TableBatch| batch_texts(b));
    assert(after1.map_values(|b: TableBatch| batch_texts(b)) =~= planned_batch(
        prefix@,
        releases@,
        CHANNEL_STABLE@,
    ));
    assert(after2.map_values(|b: TableBatch| batch_texts(b)) =~= planned_batch(
        prefix@,
        releases@,
        CHANNEL_STABLE@,
    ) + planned_batch(prefix@, releases@, CHANNEL_BETA@));
    assert(views =~= planned_batches(prefix@, releases@));
    proof {
        law_plan_writes_every_entry(prefix@, releases@);
    }
    UpsertPlan { batches, count }
}

/// The records a table's entries stand for: version from the value, date
/// from the key, and the table's channel.
pub open spec fn entry_records(ch: Seq<char>, entries: Seq<(Seq<char>, Seq<char>)>) -> Seq<
    (Seq<char>, Seq<char>, Seq<char>),
> {
    entries.map_values(|e: (Seq<char>, Seq<char>)| (e.1, e.0, ch))
}

/// Rebuild the records of channel `channel` from its table's (date,
/// version) entries, in table order.
pub fn releases_from_entries(channel: &str, entries: Vec<(String, String)>) -> (releases: Vec<
    RustRelease,
>)
    ensures
        records_texts(releases@) == entry_records(channel@, pair_texts(entries@)),
{
    let ghost input = entries@;
    let mut out: Vec<RustRelease> = Vec::new();
    for e in it: entries.into_iter()
        invariant
            it.seq() == input,
            records_texts(out@) == entry_records(channel@, pair_texts(input.take(it.index()))),
    {
        assert(input.take(it.index() + 1) =~= input.take(it.index()).push(e));
        let ghost ev = (e.0@, e.1@);
        let ghost before = out@;
        out.push(RustRelease { version: e.1, date: e.0, channel: String::from_str(channel) });
        assert(pair_texts(input.take(it.index() + 1)) =~= pair_texts(input.take(it.index())).push(ev));
        assert(out@ =~= before.push(out@.last()));
        assert(records_texts(out@) =~= records_texts(before).push((ev.1, ev.0, channel@)));
        assert(entry_records(channel@, pair_texts(input.take(it.index())).push(ev)) =~= entry_records(
            channel@,
            pair_texts(input.take(it.index())),
        ).push((ev.1, ev.0, channel@)));
    }
    assert(input.take(input.len() as int) =~= input);
    out
}

/// Law: the entries a store operation plans for a channel's table, turned
/// back into records as a read does, are that channel's records in input
/// order. (The table itself keeps one version per date, the last written,
/// and may hold rows from earlier writes; `law_table_read_back` states what
/// a read of it gives.)
pub proof fn law_written_entries_read_back(rs: Seq<RustRelease>, ch: Seq<char>)
    ensures
        entry_records(ch, channel_entries(rs, ch)) == channel_records(rs, ch),
    decreases rs.len(),
{
    if rs.len() > 0 {
        law_written_entries_read_back(rs.drop_last(), ch);
        let prev = channel_entries(rs.drop_last(), ch);
        if rs.last().channel@ == ch {
            assert(entry_records(ch, prev.push(entry_of(rs.last()))) =~= entry_records(ch, prev).push(
                release_texts(rs.last()),
            ));
            assert(prev + seq![entry_of(rs.last())] =~= prev.push(entry_of(rs.last())));
            assert(channel_records(rs.drop_last(), ch) + seq![release_texts(rs.last())]
                =~= channel_records(rs.drop_last(), ch).push(release_texts(rs.last())));
        } else {
            assert(prev + Seq::empty() =~= prev);
            assert(channel_records(rs.drop_last(), ch) + Seq::empty() =~= channel_records(
                rs.drop_last(),
                ch,
            ));
        }
    } else {
        assert(entry_records(ch, Seq::empty()) =~= Seq::empty());
    }
}

/// A key-value table after inserting `entries` in order into `m`: a later
/// entry with the same key replaces the earlier value.
pub open spec fn table_after(m: Map<Seq<char>, Seq<char>>, entries: Seq<(Seq<char>, Seq<char>)>) -> Map<
    Seq<char>,
    Seq<char>,
>
    decreases entries.len(),
{
    if entries.len() == 0 {
        m
    } else {
        table_after(m, entries.drop_last()).insert(entries.last().0, entries.last().1)
    }
}

/// The value last written for key `k` among `entries`, if any.
pub open spec fn last_written(entries: Seq<(Seq<char>, Seq<char>)>, k: Seq<char>) -> Option<Seq<char>>
    decreases entries.len(),
{
    if entries.len() == 0 {
        None
    } else if entries.last().0 == k {
        Some(entries.last().1)
    } else {
        last_written(entries.drop_last(), k)
    }
}

/// A read of table `m` handed out `es`: each key once, each with its value,
/// and every key of the table.
pub open spec fn reads_table(es: Seq<(Seq<char>, Seq<char>)>, m: Map<Seq<char>, Seq<char>>) -> bool {
    &&& forall|i: int, j: int| 0 <= i < j < es.len() ==> (#[trigger] es[i]).0 != (#[trigger] es[j]).0
    &&& forall|i: int|
        0 <= i < es.len() ==> m.contains_key((#[trigger] es[i]).0) && m[es[i].0] == es[i].1
    &&& forall|k: Seq<char>| m.contains_key(k) ==> exists|i: int| 0 <= i < es.len() && (#[trigger] es[i]).0 == k
}

/// A table `m` written with `entries` holds, for each key written, the last
/// value written for it, and for every other key what `m` held.
proof fn lemma_table_after(m: Map<Seq<char>, Seq<char>>, entries: Seq<(Seq<char>, Seq<char>)>, k: Seq<char>)
    ensures
        table_after(m, entries).contains_key(k) <==> (last_written(entries, k) is Some
            || m.contains_key(k)),
        last_written(entries, k) matches Some(v) ==> table_after(m, entries)[k] == v,
        last_written(entries, k) is None && m.contains_key(k) ==> table_after(m, entries)[k] == m[k],
    decreases entries.len(),
{
    if entries.len() > 0 {
        lemma_table_after(m, entries.drop_last(), k);
    }
}

/// Law: what a read gives back of a write. Write a channel's entries into a
/// table holding `m` (empty or already filled), read the table back in any
/// order: every date written comes back exactly once, as a record of that
/// channel with the version last written for the date; every date of `m`
/// that was not written comes back once with the version `m` held; and
/// every record read back is one of these.
pub proof fn law_table_read_back(
    m: Map<Seq<char>, Seq<char>>,
    rs: Seq<RustRelease>,
    ch: Seq<char>,
    es: Seq<(Seq<char>, Seq<char>)>,
)
    requires
        reads_table(es, table_after(m, channel_entries(rs, ch))),
    ensures
        forall|d: Seq<char>|
            #![trigger last_written(channel_entries(rs, ch), d)]
            last_written(channel_entries(rs, ch), d) matches Some(v) ==> exists|i: int|
                0 <= i < es.len() && entry_records(ch, es)[i] == (v, d, ch),
        forall|d: Seq<char>|
            #![trigger m.contains_key(d)]
            m.contains_key(d) && last_written(channel_entries(rs, ch), d) is None ==> exists|i: int|
                0 <= i < es.len() && entry_records(ch, es)[i] == (m[d], d, ch),
        forall|i: int, j: int|
            0 <= i < j < es.len() ==> (#[trigger] entry_records(ch, es)[i]).1 != (#[trigger] entry_records(
                ch,
                es,
            )[j]).1,
        forall|i: int|
            0 <= i < es.len() ==> match last_written(
                channel_entries(rs, ch),
                (#[trigger] entry_records(ch, es)[i]).1,
            ) {
                Some(v) => entry_records(ch, es)[i].0 == v,
                None => m.contains_key(entry_records(ch, es)[i].1) && entry_records(ch, es)[i].0
                    == m[entry_records(ch, es)[i].1],
            },
{
    let w = channel_entries(rs, ch);
    let t = table_after(m, w);
    let out = entry_records(ch, es);
    assert forall|d: Seq<char>|
        #![trigger last_written(w, d)]
        last_written(w, d) is Some implies exists|i: int|
            0 <= i < es.len() && out[i] == (last_written(w, d)->0, d, ch) by {
        lemma_table_after(m, w, d);
        let i = choose|i: int| 0 <= i < es.len() && (#[trigger] es[i]).0 == d;
        assert(out[i] == (es[i].1, es[i].0, ch));
    }
    assert forall|d: Seq<char>|
        #![trigger m.contains_key(d)]
        m.contains_key(d) && last_written(w, d) is None implies exists|i: int|
            0 <= i < es.len() && out[i] == (m[d], d, ch) by {
        lemma_table_after(m, w, d);
        let i = choose|i: int| 0 <= i < es.len() && (#[trigger] es[i]).0 == d;
        assert(out[i] == (es[i].1, es[i].0, ch));
    }
    assert forall|i: int, j: int| 0 <= i < j < es.len() implies (#[trigger] out[i]).1 != (#[trigger] out[j]).1 by {
        assert(out[i].1 == es[i].0 && out[j].1 == es[j].0);
    }
    assert forall|i: int|
        0 <= i < es.len() implies match last_written(w, (#[trigger] out[i]).1) {
        Some(v) => out[i].0 == v,
        None => m.contains_key(out[i].1) && out[i].0 == m[out[i].1],
    } by {
        assert(out[i] == (es[i].1, es[i].0, ch));
        lemma_table_after(m, w, es[i].0);
    }
}

/// The records of several tables read in order: each channel's entries
/// turned into records, one table after the other.
pub open spec fn tables_records(tables: Seq<(Seq<char>, Seq<(Seq<char>, Seq<char>)>)>) -> Seq<
    (Seq<char>, Seq<char>, Seq<char>),
>
    decreases tables.len(),
{
    if tables.len() == 0 {
        Seq::empty()
    } else {
        tables_records(tables.drop_last()) + entry_records(tables.last().0, tables.last().1)
    }
}

/// The texts of (channel, entries) tables.
pub open spec fn tables_texts(tables: Seq<(String, Vec<(String, String)>)>) -> Seq<
    (Seq<char>, Seq<(Seq<char>, Seq<char>)>),
> {
    tables.map_values(|t: (String, Vec<(String, String)>)| (t.0@, pair_texts(t.1@)))
}

/// The records of the tables a read covers, in table order: for each
/// (channel, entries) pair, the records its entries stand for.
pub fn releases_from_tables(tables: Vec<(String, Vec<(String, String)>)>) -> (releases: Vec<
    RustRelease,
>)
    ensures
        records_texts(releases@) == tables_records(tables_texts(tables@)),
{
    let ghost input = tables@;
    let mut out: Vec<RustRelease> = Vec::new();
    for t in it: tables.into_iter()
        invariant
            it.seq() == input,
            records_texts(out@) == tables_records(tables_texts(input.take(it.index()))),
    {
        assert(input.take(it.index() + 1) =~= input.take(it.index()).push(t));
        let ghost tv = (t.0@, pair_texts(t.1@));
        assert(tables_texts(input.take(it.index() + 1)) =~= tables_texts(input.take(it.index())).push(
            tv,
        ));
        let (channel, entries) = t;
        let mut part = releases_from_entries(channel.as_str(), entries);
        let ghost before = out@;
        let ghost added = part@;
        out.append(&mut part);
        assert(out@ =~= before + added);
        assert(records_texts(out@) =~= records_texts(before) + records_texts(added));
        assert(tables_texts(input.take(it.index())).push(tv).drop_last() =~= tables_texts(
            input.take(it.index()),
        ));
    }
    assert(input.take(input.len() as int) =~= input);
    out
}

/// Law: when each table's count is its number of entries, the total count
/// is the number of records a read of those tables gives, which is the
/// length of the listing (sorting keeps every record).
pub proof fn law_count_is_listing_length(
    tables: Seq<(Seq<char>, Seq<(Seq<char>, Seq<char>)>)>,
    counts: Seq<u64>,
)
    requires
        counts.len() == tables.len(),
        forall|i: int| 0 <= i < tables.len() ==> counts[i] == (#[trigger] tables[i]).1.len(),
    ensures
        sum_counts(counts) == tables_records(tables).len(),
    decreases tables.len(),
{
    if tables.len() > 0 {
        let t = tables.drop_last();
        let c = counts.drop_last();
        assert forall|i: int| 0 <= i < t.len() implies c[i] == (#[trigger] t[i]).1.len() by {
            assert(t[i] == tables[i]);
        }
        law_count_is_listing_length(t, c);
        assert(counts.last() == tables[tables.len() - 1].1.len());
    }
}

/// The channels whose tables a read covers: the one asked for, or all three.
pub open spec fn spec_channels_for(channel: Option<Seq<char>>) -> Seq<Seq<char>> {
    match channel {
        Some(c) => seq![c],
        None => store_channels(),
    }
}

/// The channels to read for an optional channel filter.
pub fn channels_for(channel: Option<&str>) -> (channels: Vec<String>)
    ensures
        string_texts(channels@) == spec_channels_for(
            match channel {
                Some(c) => Some(c@),
                None => None,
            },
        ),
{
    let mut out: Vec<String> = Vec::new();
    match channel {
        Some(c) => {
            out.push(String::from_str(c));
        },
        None => {
            out.push(String::from_str(CHANNEL_STABLE));
            out.push(String::from_str(CHANNEL_BETA));
            out.push(String::from_str(CHANNEL_NIGHTLY));
        },
    }
    assert(string_texts(out@) =~= spec_channels_for(
        match channel {
            Some(c) => Some(c@),
            None => None,
        },
    ));
    out
}

/// The sum of a sequence of counts.
pub open spec fn sum_counts(s: Seq<u64>) -> nat
    decreases s.len(),
{
    if s.len() == 0 {
        0
    } else {
        sum_counts(s.drop_last()) + (s.last() as nat)
    }
}

/// The total of per-table record counts, or `None` when it does not fit
/// in 64 bits.
pub fn total_count(counts: &Vec<u64>) -> (total: Option<u64>)
    ensures
        sum_counts(counts@) <= u64::MAX ==> total == Some(sum_counts(counts@) as u64),
        sum_counts(counts@) > u64::MAX ==> total is None,
{
    let mut sum: u64 = 0;
    let mut i: usize = 0;
    while i < counts.len()
        invariant
            i <= counts.len(),
            sum == sum_counts(counts@.take(i as int)),
        decreases counts.len() - i,
    {
        assert(counts@.take(i + 1).drop_last() =~= counts@.take(i as int));
        match sum.checked_add(counts[i]) {
            Some(s) => {
                sum = s;
            },
            None => {
                proof {
                    lemma_sum_prefix_grows(counts@, i + 1);
                }
                return None;
            },
        }
        i = i + 1;
    }
    assert(counts@.take(counts@.len() as int) =~= counts@);
    Some(sum)
}

/// Sums of longer prefixes are at least as large.
proof fn lemma_sum_prefix_grows(s: Seq<u64>, k: int)
    requires
        0 <= k <= s.len(),
    ensures
        sum_counts(s.take(k)) <= sum_counts(s),
    decreases s.len() - k,
{
    if k < s.len() {
        lemma_sum_prefix_grows(s, k + 1);
        assert(s.take(k + 1).drop_last() =~= s.take(k));
    } else {
        assert(s.take(k) =~= s);
    }
}

/// A record matches a lowercase keyword when its lowercase version or its
/// date contains it.
pub open spec fn keyword_matches(r: RustRelease, kw: Seq<char>) -> bool {
    contains_seq(lowercase(r.version@), kw) || contains_seq(r.date@, kw)
}

/// The records matching `kw`, in order.
pub open spec fn matching(rs: Seq<RustRelease>, kw: Seq<char>) -> Seq<RustRelease>
    decreases rs.len(),
{
    if rs.len() == 0 {
        Seq::empty()
    } else {
        matching(rs.drop_last(), kw) + if keyword_matches(rs.last(), kw) {
            seq![rs.last()]
        } else {
            Seq::empty()
        }
    }
}

/// Search records by keyword: those whose version (ignoring case) or date
/// contains the keyword, newest first.
pub fn search_releases(all: Vec<RustRelease>, keyword: &str) -> (found: Vec<RustRelease>)
    ensures
        found@ == sort_by_date(matching(all@, lowercase(keyword@))),
        vstd::utf8::is_ascii_chars(keyword@) ==> found@ == sort_by_date(
            matching(all@, ascii_lower(keyword@)),
        ),
        forall|i: int|
            0 <= i < all@.len() ==> (found@.contains(#[trigger] all@[i]) <==> (contains_seq(
                lowercase(all@[i].version@),
                lowercase(keyword@),
            ) || contains_seq(all@[i].date@, lowercase(keyword@)))),
{
    let kw = to_lowercase(keyword);
    let ghost input = all@;
    let mut hits: Vec<RustRelease> = Vec::new();
    for r in it: all.into_iter()
        invariant
            it.seq() == input,
            hits@ == matching(input.take(it.index()), kw@),
    {
        assert(input.take(it.index() + 1).drop_last() =~= input.take(it.index()));
        assert(input.take(it.index() + 1).last() == r);
        let v = to_lowercase(r.version.as_str());
        let hit = str_contains(v.as_str(), kw.as_str()) || str_contains(r.date.as_str(), kw.as_str());
        if hit {
            hits.push(r);
        }
        assert(hits@ =~= matching(input.take(it.index() + 1), kw@));
    }
    assert(input.take(input.len() as int) =~= input);
    proof {
        law_search_finds_every_match(input, kw@);
    }
    sort_releases_by_date_desc(hits)
}

/// The empty keyword occurs in every text.
proof fn lemma_empty_everywhere(s: Seq<char>)
    ensures
        contains_seq(s, Seq::empty()),
{
    assert(s.subrange(0, 0) =~= Seq::<char>::empty());
    assert(crate::text::occurs_at(s, Seq::empty(), 0));
}

/// Every record matches the empty keyword.
proof fn lemma_matching_empty(rs: Seq<RustRelease>)
    ensures
        matching(rs, Seq::empty()) == rs,
    decreases rs.len(),
{
    if rs.len() > 0 {
        lemma_matching_empty(rs.drop_last());
        lemma_empty_everywhere(rs.last().date@);
        assert(rs.drop_last() + seq![rs.last()] =~= rs);
    }
}

/// Law: searching with the empty keyword lists every record, newest first,
/// exactly as the plain listing does.
pub proof fn law_empty_search_is_listing(rs: Seq<RustRelease>)
    ensures
        sort_by_date(matching(rs, ascii_lower(Seq::empty()))) == sort_by_date(rs),
{
    assert(ascii_lower(Seq::empty()) =~= Seq::<char>::empty());
    lemma_matching_empty(rs);
}

/// Law: every search result matches the keyword and comes from the records
/// searched.
pub proof fn law_search_results_match(rs: Seq<RustRelease>, kw: Seq<char>)
    ensures
        forall|i: int|
            0 <= i < sort_by_date(matching(rs, kw)).len() ==> keyword_matches(
                #[trigger] sort_by_date(matching(rs, kw))[i],
                kw,
            ) && rs.contains(sort_by_date(matching(rs, kw))[i]),
{
    let m = matching(rs, kw);
    lemma_matching_sub(rs, kw);
    crate::release::law_sort_orders_and_keeps(m);
    assert forall|i: int| 0 <= i < sort_by_date(m).len() implies keyword_matches(
        #[trigger] sort_by_date(m)[i],
        kw,
    ) && rs.contains(sort_by_date(m)[i]) by {
        let x = sort_by_date(m)[i];
        vstd::seq_lib::to_multiset_contains(sort_by_date(m), x);
        vstd::seq_lib::to_multiset_contains(m, x);
        assert(sort_by_date(m).contains(x));
    }
}

/// Matching distributes over concatenation.
proof fn lemma_matching_concat(a: Seq<RustRelease>, b: Seq<RustRelease>, kw: Seq<char>)
    ensures
        matching(a + b, kw) == matching(a, kw) + matching(b, kw),
    decreases b.len(),
{
    if b.len() == 0 {
        assert(a + b =~= a);
        assert(matching(a, kw) + matching(b, kw) =~= matching(a, kw));
    } else {
        lemma_matching_concat(a, b.drop_last(), kw);
        assert((a + b).drop_last() =~= a + b.drop_last());
        assert((a + b).last() == b.last());
        if keyword_matches(b.last(), kw) {
            assert(matching(a, kw) + matching(b.drop_last(), kw) + seq![b.last()] =~= matching(a, kw)
                + (matching(b.drop_last(), kw) + seq![b.last()]));
        } else {
            assert(matching(a, kw) + matching(b.drop_last(), kw) + Seq::empty() =~= matching(a, kw)
                + (matching(b.drop_last(), kw) + Seq::empty()));
        }
    }
}

/// Matching a single record.
proof fn lemma_matching_one(x: RustRelease, kw: Seq<char>)
    ensures
        matching(seq![x], kw) == if keyword_matches(x, kw) {
            seq![x]
        } else {
            Seq::<RustRelease>::empty()
        },
{
    assert(seq![x].drop_last() =~= Seq::<RustRelease>::empty());
    assert(seq![x].last() == x);
    assert(matching(Seq::<RustRelease>::empty(), kw) == Seq::<RustRelease>::empty());
    assert(matching(seq![x].drop_last(), kw) == Seq::<RustRelease>::empty());
    assert(Seq::<RustRelease>::empty() + seq![x] =~= seq![x]);
    assert(Seq::<RustRelease>::empty() + Seq::<RustRelease>::empty() =~= Seq::<RustRelease>::empty());
}

/// The tail of a newest-first sequence is newest first.
proof fn lemma_sorted_tail(s: Seq<RustRelease>)
    requires
        sorted_by_date_desc(s),
        s.len() > 0,
    ensures
        sorted_by_date_desc(s.drop_first()),
{
    let t = s.drop_first();
    assert forall|i: int, j: int| 0 <= i < j < t.len() implies !newer(#[trigger] t[j], #[trigger] t[i]) by {
        assert(t[i] == s[i + 1] && t[j] == s[j + 1]);
    }
}

/// The record goes in front: it is newer than the first record, so it is
/// newer than every matching record too.
proof fn lemma_insert_matching_front(s: Seq<RustRelease>, x: RustRelease, kw: Seq<char>)
    requires
        sorted_by_date_desc(s),
        s.len() > 0,
        newer(x, s[0]),
    ensures
        matching(insert_by_date(s, x), kw) == if keyword_matches(x, kw) {
            insert_by_date(matching(s, kw), x)
        } else {
            matching(s, kw)
        },
{
    lemma_matching_one(x, kw);
    assert(insert_by_date(s, x) == seq![x] + s);
    lemma_matching_concat(seq![x], s, kw);
    let m = matching(s, kw);
    if keyword_matches(x, kw) {
        if m.len() > 0 {
            lemma_matching_sub(s, kw);
            assert(s.contains(m[0]));
            let j = choose|j: int| 0 <= j < s.len() && s[j] == m[0];
            if j > 0 {
                lemma_older_stays_older(s, x, 0, j);
            }
            assert(newer(x, m[0]));
            assert(insert_by_date(m, x) == seq![x] + m);
        } else {
            assert(m =~= Seq::<RustRelease>::empty());
            assert(seq![x] + m =~= seq![x]);
        }
    } else {
        assert(Seq::<RustRelease>::empty() + m =~= m);
    }
}

/// The record goes behind the first record: the first record is kept in
/// front, if it matches, and the rest follows the insertion into the tail.
proof fn lemma_insert_matching_behind(s: Seq<RustRelease>, x: RustRelease, kw: Seq<char>)
    requires
        s.len() > 0,
        !newer(x, s[0]),
        matching(insert_by_date(s.drop_first(), x), kw) == if keyword_matches(x, kw) {
            insert_by_date(matching(s.drop_first(), kw), x)
        } else {
            matching(s.drop_first(), kw)
        },
    ensures
        matching(insert_by_date(s, x), kw) == if keyword_matches(x, kw) {
            insert_by_date(matching(s, kw), x)
        } else {
            matching(s, kw)
        },
{
    let t = s.drop_first();
    assert(insert_by_date(s, x) == seq![s[0]] + insert_by_date(t, x));
    lemma_matching_concat(seq![s[0]], insert_by_date(t, x), kw);
    lemma_matching_concat(seq![s[0]], t, kw);
    assert(seq![s[0]] + t =~= s);
    lemma_matching_one(s[0], kw);
    if keyword_matches(s[0], kw) {
        let m = seq![s[0]] + matching(t, kw);
        assert(m.drop_first() =~= matching(t, kw));
        assert(m[0] == s[0]);
        if keyword_matches(x, kw) {
            assert(insert_by_date(m, x) == seq![s[0]] + insert_by_date(matching(t, kw), x));
        }
    } else {
        assert(Seq::<RustRelease>::empty() + matching(t, kw) =~= matching(t, kw));
        assert(Seq::<RustRelease>::empty() + matching(insert_by_date(t, x), kw) =~= matching(
            insert_by_date(t, x),
            kw,
        ));
    }
}

/// Filtering a newest-first insertion: the record lands, among the matching
/// records, where it lands among all records.
proof fn lemma_insert_matching(s: Seq<RustRelease>, x: RustRelease, kw: Seq<char>)
    requires
        sorted_by_date_desc(s),
    ensures
        matching(insert_by_date(s, x), kw) == if keyword_matches(x, kw) {
            insert_by_date(matching(s, kw), x)
        } else {
            matching(s, kw)
        },
    decreases s.len(),
{
    if s.len() == 0 {
        lemma_matching_one(x, kw);
        assert(matching(s, kw) =~= Seq::<RustRelease>::empty());
    } else if newer(x, s[0]) {
        lemma_insert_matching_front(s, x, kw);
    } else {
        lemma_sorted_tail(s);
        lemma_insert_matching(s.drop_first(), x, kw);
        lemma_insert_matching_behind(s, x, kw);
    }
}

/// Law: a search gives the listing filtered by the keyword, in listing
/// order: sorting the matching records equals picking the matching records
/// of the sorted listing.
pub proof fn law_search_is_filtered_listing(rs: Seq<RustRelease>, kw: Seq<char>)
    ensures
        sort_by_date(matching(rs, kw)) == matching(sort_by_date(rs), kw),
    decreases rs.len(),
{
    if rs.len() > 0 {
        let t = rs.drop_last();
        let x = rs.last();
        law_search_is_filtered_listing(t, kw);
        lemma_sort_sorted(t);
        lemma_insert_matching(sort_by_date(t), x, kw);
        if keyword_matches(x, kw) {
            let m = matching(rs, kw);
            assert(m =~= matching(t, kw) + seq![x]);
            assert(m.drop_last() =~= matching(t, kw));
            assert(m.last() == x);
        } else {
            assert(matching(rs, kw) =~= matching(t, kw));
        }
    }
}

/// What `matching` keeps matches and comes from the input.
proof fn lemma_matching_sub(rs: Seq<RustRelease>, kw: Seq<char>)
    ensures
        forall|j: int|
            0 <= j < matching(rs, kw).len() ==> keyword_matches(#[trigger] matching(rs, kw)[j], kw)
                && rs.contains(matching(rs, kw)[j]),
    decreases rs.len(),
{
    if rs.len() > 0 {
        lemma_matching_sub(rs.drop_last(), kw);
        let prev = matching(rs.drop_last(), kw);
        assert forall|j: int| 0 <= j < matching(rs, kw).len() implies keyword_matches(
            #[trigger] matching(rs, kw)[j],
            kw,
        ) && rs.contains(matching(rs, kw)[j]) by {
            if j < prev.len() {
                assert(matching(rs, kw)[j] == prev[j]);
                let k = choose|k: int| 0 <= k < rs.drop_last().len() && rs.drop_last()[k] == prev[j];
                assert(rs[k] == prev[j]);
            } else {
                assert(matching(rs, kw)[j] == rs.last());
                assert(rs[rs.len() - 1] == rs.last());
            }
        }
    }
}

/// Every record that matches is kept by `matching`.
proof fn lemma_matching_keeps(rs: Seq<RustRelease>, kw: Seq<char>)
    ensures
        forall|i: int|
            0 <= i < rs.len() && keyword_matches(#[trigger] rs[i], kw) ==> matching(rs, kw).contains(
                rs[i],
            ),
    decreases rs.len(),
{
    if rs.len() > 0 {
        let t = rs.drop_last();
        lemma_matching_keeps(t, kw);
        let prev = matching(t, kw);
        assert forall|i: int| 0 <= i < rs.len() && keyword_matches(#[trigger] rs[i], kw) implies matching(
            rs,
            kw,
        ).contains(rs[i]) by {
            if i < t.len() {
                assert(t[i] == rs[i]);
                let k = choose|k: int| 0 <= k < prev.len() && prev[k] == t[i];
                assert(matching(rs, kw)[k] == prev[k]);
            } else {
                assert(rs[i] == rs.last());
                assert(matching(rs, kw)[prev.len() as int] == rs.last());
            }
        }
    }
}

/// Law: a record is found exactly when its lowercase version or its date
/// contains the (lowercase) keyword anywhere, at the end of the text or as
/// the whole text included.
pub proof fn law_search_finds_every_match(rs: Seq<RustRelease>, kw: Seq<char>)
    ensures
        forall|i: int|
            0 <= i < rs.len() ==> (sort_by_date(matching(rs, kw)).contains(#[trigger] rs[i]) <==> (
            contains_seq(lowercase(rs[i].version@), kw) || contains_seq(rs[i].date@, kw))),
{
    broadcast use vstd::seq_lib::group_to_multiset_ensures;

    let m = matching(rs, kw);
    lemma_matching_keeps(rs, kw);
    law_search_results_match(rs, kw);
    crate::release::law_sort_orders_and_keeps(m);
    assert forall|i: int| 0 <= i < rs.len() implies (sort_by_date(m).contains(#[trigger] rs[i]) <==> (
    contains_seq(lowercase(rs[i].version@), kw) || contains_seq(rs[i].date@, kw))) by {
        let x = rs[i];
        vstd::seq_lib::to_multiset_contains(sort_by_date(m), x);
        vstd::seq_lib::to_multiset_contains(m, x);
        if sort_by_date(m).contains(x) {
            let k = choose|k: int| 0 <= k < sort_by_date(m).len() && sort_by_date(m)[k] == x;
            assert(keyword_matches(sort_by_date(m)[k], kw));
        }
        if keyword_matches(x, kw) {
            assert(m.contains(x));
            assert(m.to_multiset().count(x) > 0);
            assert(sort_by_date(m).to_multiset().count(x) > 0);
        }
    }
}

/// Law: searching for a record's own full version finds that record.
pub proof fn law_found_by_own_version(rs: Seq<RustRelease>, i: int)
    requires
        0 <= i < rs.len(),
    ensures
        sort_by_date(matching(rs, lowercase(rs[i].version@))).contains(rs[i]),
{
    let v = lowercase(rs[i].version@);
    assert(v.subrange(0, v.len() as int) =~= v);
    assert(crate::text::occurs_at(v, v, 0));
    law_search_finds_every_match(rs, v);
}

/// `matching` keeps each matching record as many times as it occurs and
/// drops every other record.
proof fn lemma_matching_counts(rs: Seq<RustRelease>, kw: Seq<char>, x: RustRelease)
    ensures
        matching(rs, kw).to_multiset().count(x) == if keyword_matches(x, kw) {
            rs.to_multiset().count(x)
        } else {
            0
        },
    decreases rs.len(),
{
    broadcast use vstd::seq_lib::group_to_multiset_ensures;

    if rs.len() == 0 {
        assert(matching(rs, kw) =~= Seq::<RustRelease>::empty());
    } else {
        let t = rs.drop_last();
        let y = rs.last();
        lemma_matching_counts(t, kw, x);
        assert(rs =~= t.push(y));
        if keyword_matches(y, kw) {
            assert(matching(rs, kw) =~= matching(t, kw).push(y));
        } else {
            assert(matching(rs, kw) =~= matching(t, kw));
        }
    }
}

/// Law: a search gives each record whose lowercase version or date contains
/// the keyword as many times as it was given, and no other record.
pub proof fn law_search_keeps_matching_counts(rs: Seq<RustRelease>, kw: Seq<char>)
    ensures
        forall|x: RustRelease|
            #[trigger] sort_by_date(matching(rs, kw)).to_multiset().count(x) == if contains_seq(
                lowercase(x.version@),
                kw,
            ) || contains_seq(x.date@, kw) {
                rs.to_multiset().count(x)
            } else {
                0
            },
{
    crate::release::law_sort_orders_and_keeps(matching(rs, kw));
    assert forall|x: RustRelease| #[trigger]
        sort_by_date(matching(rs, kw)).to_multiset().count(x) == if contains_seq(
            lowercase(x.version@),
            kw,
        ) || contains_seq(x.date@, kw) {
            rs.to_multiset().count(x)
        } else {
            0
        } by {
        lemma_matching_counts(rs, kw, x);
    }
}

} // verus!
