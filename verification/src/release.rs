//! The release record and the order in which records are listed.

use vstd::prelude::*;
use crate::text::{lex_lt, lemma_lex_total, lemma_lex_transitive, str_lt};

verus! {

broadcast use vstd::string::group_string_axioms;

/// Rust release information.
///
/// Core data model shared by the store, the fetchers and the listings.
#[derive(Debug)]
pub struct RustRelease {
    pub version: String,
    pub date: String,
    pub channel: String,
}

impl Clone for RustRelease {
    fn clone(&self) -> (r: Self)
        ensures
            r == *self,
    {
        RustRelease {
            version: self.version.clone(),
            date: self.date.clone(),
            channel: self.channel.clone(),
        }
    }
}

/// The store key of a record: `channel:version:date`.
pub open spec fn spec_db_key(r: RustRelease) -> Seq<char> {
    r.channel@ + ":"@ + r.version@ + ":"@ + r.date@
}

impl RustRelease {
    /// Generate the primary key: "channel:version:date".
    pub fn db_key(&self) -> (key: String)
        ensures
            key@ == spec_db_key(*self),
    {
        let key = self.channel.clone();
        let key = key.concat(":");
        let key = key.concat(self.version.as_str());
        let key = key.concat(":");
        key.concat(self.date.as_str())
    }
}

/// A record's (version, date, channel) texts.
pub open spec fn release_texts(r: RustRelease) -> (Seq<char>, Seq<char>, Seq<char>) {
    (r.version@, r.date@, r.channel@)
}

/// The texts of a sequence of records.
pub open spec fn records_texts(s: Seq<RustRelease>) -> Seq<(Seq<char>, Seq<char>, Seq<char>)> {
    s.map_values(|r: RustRelease| release_texts(r))
}

/// The texts of string pairs: table entries, captured (version, date) pairs.
pub open spec fn pair_texts(caps: Seq<(String, String)>) -> Seq<(Seq<char>, Seq<char>)> {
    caps.map_values(|c: (String, String)| (c.0@, c.1@))
}

/// `a` is strictly newer than `b`: its date comes later.
pub open spec fn newer(a: RustRelease, b: RustRelease) -> bool {
    lex_lt(b.date@, a.date@)
}

/// No record is followed by a strictly newer one.
pub open spec fn sorted_by_date_desc(s: Seq<RustRelease>) -> bool {
    forall|i: int, j: int| 0 <= i < j < s.len() ==> !newer(#[trigger] s[j], #[trigger] s[i])
}

/// Insert `x` into `s` in front of the first record strictly older than `x`.
pub open spec fn insert_by_date(s: Seq<RustRelease>, x: RustRelease) -> Seq<RustRelease>
    decreases s.len(),
{
    if s.len() == 0 {
        seq![x]
    } else if newer(x, s[0]) {
        seq![x] + s
    } else {
        seq![s[0]] + insert_by_date(s.drop_first(), x)
    }
}

/// Stable sort by date, newest first: each record, in input order, goes in
/// front of the first record strictly older than it.
pub open spec fn sort_by_date(s: Seq<RustRelease>) -> Seq<RustRelease>
    decreases s.len(),
{
    if s.len() == 0 {
        s
    } else {
        insert_by_date(sort_by_date(s.drop_last()), s.last())
    }
}

/// Where `insert_by_date` puts `x`: after the `p` records that are not older.
proof fn lemma_insert_position(s: Seq<RustRelease>, x: RustRelease, p: int)
    requires
        0 <= p <= s.len(),
        forall|k: int| 0 <= k < p ==> !newer(x, #[trigger] s[k]),
        p < s.len() ==> newer(x, s[p]),
    ensures
        insert_by_date(s, x) == s.take(p) + seq![x] + s.skip(p),
    decreases s.len(),
{
    if s.len() == 0 {
        assert(s.take(p) + seq![x] + s.skip(p) =~= seq![x]);
    } else if p == 0 {
        assert(s.take(0) + seq![x] + s.skip(0) =~= seq![x] + s);
    } else {
        assert(!newer(x, s[0]));
        let t = s.drop_first();
        assert forall|k: int| 0 <= k < p - 1 implies !newer(x, #[trigger] t[k]) by {
            assert(t[k] == s[k + 1]);
        }
        lemma_insert_position(t, x, p - 1);
        assert(seq![s[0]] + (t.take(p - 1) + seq![x] + t.skip(p - 1)) =~= s.take(p) + seq![x]
            + s.skip(p));
    }
}

/// Inserting keeps the records and adds `x`.
proof fn lemma_insert_multiset(s: Seq<RustRelease>, x: RustRelease)
    ensures
        insert_by_date(s, x).to_multiset() == s.to_multiset().insert(x),
    decreases s.len(),
{
    broadcast use vstd::seq_lib::group_to_multiset_ensures;

    if s.len() == 0 {
        assert(seq![x] =~= Seq::<RustRelease>::empty().push(x));
    } else if newer(x, s[0]) {
        vstd::seq_lib::lemma_multiset_commutative(seq![x], s);
        assert(seq![x] =~= Seq::<RustRelease>::empty().push(x));
    } else {
        lemma_insert_multiset(s.drop_first(), x);
        vstd::seq_lib::lemma_multiset_commutative(seq![s[0]], insert_by_date(s.drop_first(), x));
        vstd::seq_lib::lemma_multiset_commutative(seq![s[0]], s.drop_first());
        assert(seq![s[0]] + s.drop_first() =~= s);
        assert(seq![s[0]] =~= Seq::<RustRelease>::empty().push(s[0]));
    }
}

/// Inserting into a sorted sequence gives a sorted sequence.
proof fn lemma_insert_sorted(s: Seq<RustRelease>, x: RustRelease)
    requires
        sorted_by_date_desc(s),
    ensures
        sorted_by_date_desc(insert_by_date(s, x)),
    decreases s.len(),
{
    if s.len() == 0 {
    } else if newer(x, s[0]) {
        let r = seq![x] + s;
        assert forall|i: int, j: int| 0 <= i < j < r.len() implies !newer(#[trigger] r[j], #[trigger] r[i]) by {
            if i == 0 {
                // r[j] = s[j-1] is not newer than s[0], which is older than x
                let y = s[j - 1];
                if j - 1 > 0 {
                    assert(!newer(s[j - 1], s[0]));
                }
                lemma_lex_total(y.date@, s[0].date@);
                lemma_lex_total(x.date@, y.date@);
                if lex_lt(x.date@, y.date@) {
                    if lex_lt(y.date@, s[0].date@) {
                        lemma_lex_transitive(x.date@, y.date@, s[0].date@);
                        lemma_lex_total(x.date@, s[0].date@);
                    } else if y.date@ == s[0].date@ {
                        lemma_lex_total(x.date@, s[0].date@);
                    }
                }
            } else {
                assert(r[i] == s[i - 1] && r[j] == s[j - 1]);
            }
        }
    } else {
        let t = s.drop_first();
        assert(sorted_by_date_desc(t)) by {
            assert forall|i: int, j: int| 0 <= i < j < t.len() implies !newer(#[trigger] t[j], #[trigger] t[i]) by {
                assert(t[i] == s[i + 1] && t[j] == s[j + 1]);
            }
        }
        lemma_insert_sorted(t, x);
        lemma_insert_multiset(t, x);
        let u = insert_by_date(t, x);
        let r = seq![s[0]] + u;
        assert forall|i: int, j: int| 0 <= i < j < r.len() implies !newer(#[trigger] r[j], #[trigger] r[i]) by {
            if i == 0 {
                let y = u[j - 1];
                // y is x or an element of t, none of which is newer than s[0]
                assert(u.to_multiset().count(y) > 0) by {
                    vstd::seq_lib::to_multiset_contains(u, y);
                    assert(u.contains(y)) by { assert(u[j - 1] == y); }
                }
                assert(t.to_multiset().insert(x).count(y) > 0);
                if y != x {
                    assert(t.to_multiset().count(y) > 0);
                    vstd::seq_lib::to_multiset_contains(t, y);
                    let k = choose|k: int| 0 <= k < t.len() && t[k] == y;
                    assert(s[k + 1] == y);
                }
            } else {
                assert(r[i] == u[i - 1] && r[j] == u[j - 1]);
            }
        }
    }
}

/// The sorted sequence holds the same records as the input.
proof fn lemma_sort_multiset(s: Seq<RustRelease>)
    ensures
        sort_by_date(s).to_multiset() == s.to_multiset(),
    decreases s.len(),
{
    broadcast use vstd::seq_lib::group_to_multiset_ensures;

    if s.len() > 0 {
        lemma_sort_multiset(s.drop_last());
        lemma_insert_multiset(sort_by_date(s.drop_last()), s.last());
        assert(s.drop_last().push(s.last()) =~= s);
    }
}

/// The sorted sequence is ordered newest first.
pub(crate) proof fn lemma_sort_sorted(s: Seq<RustRelease>)
    ensures
        sorted_by_date_desc(sort_by_date(s)),
    decreases s.len(),
{
    if s.len() > 0 {
        lemma_sort_sorted(s.drop_last());
        lemma_insert_sorted(sort_by_date(s.drop_last()), s.last());
    }
}

/// Inserting a record that no record in `s` is older than appends it.
proof fn lemma_insert_at_end(s: Seq<RustRelease>, x: RustRelease)
    requires
        forall|k: int| 0 <= k < s.len() ==> !newer(x, #[trigger] s[k]),
    ensures
        insert_by_date(s, x) == s.push(x),
{
    lemma_insert_position(s, x, s.len() as int);
    assert(s.take(s.len() as int) + seq![x] + s.skip(s.len() as int) =~= s.push(x));
}

/// Sorting a sequence that is already newest first leaves it unchanged.
proof fn lemma_sort_of_sorted(s: Seq<RustRelease>)
    requires
        sorted_by_date_desc(s),
    ensures
        sort_by_date(s) == s,
    decreases s.len(),
{
    if s.len() > 0 {
        let t = s.drop_last();
        assert(sorted_by_date_desc(t)) by {
            assert forall|i: int, j: int| 0 <= i < j < t.len() implies !newer(#[trigger] t[j], #[trigger] t[i]) by {
                assert(t[i] == s[i] && t[j] == s[j]);
            }
        }
        lemma_sort_of_sorted(t);
        assert forall|k: int| 0 <= k < t.len() implies !newer(s.last(), #[trigger] t[k]) by {
            assert(t[k] == s[k]);
        }
        lemma_insert_at_end(t, s.last());
        assert(t.push(s.last()) =~= s);
    }
}

/// Law: the listing order puts newer dates first and keeps exactly the
/// records it was given, each as many times as it occurred.
pub proof fn law_sort_orders_and_keeps(s: Seq<RustRelease>)
    ensures
        sorted_by_date_desc(sort_by_date(s)),
        sort_by_date(s).to_multiset() == s.to_multiset(),
        sort_by_date(s).len() == s.len(),
{
    broadcast use vstd::seq_lib::group_to_multiset_ensures;

    lemma_sort_sorted(s);
    lemma_sort_multiset(s);
    assert(sort_by_date(s).to_multiset().len() == s.to_multiset().len());
}

/// The records dated `d`, in order.
pub open spec fn with_date(s: Seq<RustRelease>, d: Seq<char>) -> Seq<RustRelease>
    decreases s.len(),
{
    if s.len() == 0 {
        Seq::empty()
    } else {
        with_date(s.drop_last(), d) + if s.last().date@ == d {
            seq![s.last()]
        } else {
            Seq::empty()
        }
    }
}

/// Picking the records of a date distributes over concatenation.
proof fn lemma_with_date_concat(a: Seq<RustRelease>, b: Seq<RustRelease>, d: Seq<char>)
    ensures
        with_date(a + b, d) == with_date(a, d) + with_date(b, d),
    decreases b.len(),
{
    if b.len() == 0 {
        assert(a + b =~= a);
        assert(with_date(a, d) + with_date(b, d) =~= with_date(a, d));
    } else {
        lemma_with_date_concat(a, b.drop_last(), d);
        assert((a + b).drop_last() =~= a + b.drop_last());
        assert((a + b).last() == b.last());
        if b.last().date@ == d {
            assert(with_date(a, d) + with_date(b.drop_last(), d) + seq![b.last()] =~= with_date(a, d)
                + (with_date(b.drop_last(), d) + seq![b.last()]));
        } else {
            assert(with_date(a, d) + with_date(b.drop_last(), d) + Seq::empty() =~= with_date(a, d)
                + (with_date(b.drop_last(), d) + Seq::empty()));
        }
    }
}

/// The records of a date, for a single record.
proof fn lemma_with_date_one(x: RustRelease, d: Seq<char>)
    ensures
        with_date(seq![x], d) == if x.date@ == d {
            seq![x]
        } else {
            Seq::<RustRelease>::empty()
        },
{
    assert(seq![x].drop_last() =~= Seq::<RustRelease>::empty());
    assert(seq![x].last() == x);
    assert(with_date(Seq::<RustRelease>::empty(), d) == Seq::<RustRelease>::empty());
    assert(with_date(seq![x].drop_last(), d) == Seq::<RustRelease>::empty());
    assert(Seq::<RustRelease>::empty() + seq![x] =~= seq![x]);
    assert(Seq::<RustRelease>::empty() + Seq::<RustRelease>::empty() =~= Seq::<RustRelease>::empty());
}

/// A date that no record has picks nothing.
proof fn lemma_with_date_absent(s: Seq<RustRelease>, d: Seq<char>)
    requires
        forall|k: int| 0 <= k < s.len() ==> (#[trigger] s[k]).date@ != d,
    ensures
        with_date(s, d) == Seq::<RustRelease>::empty(),
    decreases s.len(),
{
    if s.len() > 0 {
        lemma_with_date_absent(s.drop_last(), d);
        assert(s[s.len() - 1] == s.last());
        assert(Seq::<RustRelease>::empty() + Seq::<RustRelease>::empty() =~= Seq::<RustRelease>::empty());
    }
}

/// Inserting `x` into a sorted sequence puts it after every record of its
/// date and leaves the other dates' records as they were.
proof fn lemma_insert_with_date(s: Seq<RustRelease>, x: RustRelease, d: Seq<char>)
    requires
        sorted_by_date_desc(s),
    ensures
        with_date(insert_by_date(s, x), d) == if x.date@ == d {
            with_date(s, d).push(x)
        } else {
            with_date(s, d)
        },
    decreases s.len(),
{
    lemma_with_date_one(x, d);
    if s.len() == 0 {
        assert(with_date(s, d) =~= Seq::<RustRelease>::empty());
        assert(Seq::<RustRelease>::empty().push(x) =~= seq![x]);
    } else if newer(x, s[0]) {
        lemma_with_date_concat(seq![x], s, d);
        if x.date@ == d {
            assert forall|k: int| 0 <= k < s.len() implies (#[trigger] s[k]).date@ != d by {
                if k == 0 {
                    lemma_lex_total(s[0].date@, x.date@);
                } else {
                    lemma_older_stays_older(s, x, 0, k);
                    lemma_lex_total(s[k].date@, x.date@);
                }
            }
            lemma_with_date_absent(s, d);
            assert(seq![x] + Seq::<RustRelease>::empty() =~= Seq::<RustRelease>::empty().push(x));
        } else {
            assert(Seq::<RustRelease>::empty() + with_date(s, d) =~= with_date(s, d));
        }
    } else {
        let t = s.drop_first();
        assert(sorted_by_date_desc(t)) by {
            assert forall|i: int, j: int| 0 <= i < j < t.len() implies !newer(#[trigger] t[j], #[trigger] t[i]) by {
                assert(t[i] == s[i + 1] && t[j] == s[j + 1]);
            }
        }
        lemma_insert_with_date(t, x, d);
        lemma_with_date_concat(seq![s[0]], insert_by_date(t, x), d);
        lemma_with_date_concat(seq![s[0]], t, d);
        assert(seq![s[0]] + t =~= s);
        lemma_with_date_one(s[0], d);
        if x.date@ == d {
            assert(with_date(seq![s[0]], d) + with_date(t, d).push(x) =~= (with_date(seq![s[0]], d)
                + with_date(t, d)).push(x));
        }
    }
}

/// Law: the listing order is stable; for every date, the records of that
/// date come out in the order they went in.
pub proof fn law_sort_stable(s: Seq<RustRelease>, d: Seq<char>)
    ensures
        with_date(sort_by_date(s), d) == with_date(s, d),
    decreases s.len(),
{
    if s.len() > 0 {
        law_sort_stable(s.drop_last(), d);
        lemma_sort_sorted(s.drop_last());
        lemma_insert_with_date(sort_by_date(s.drop_last()), s.last(), d);
        if s.last().date@ == d {
            assert(with_date(s.drop_last(), d) + seq![s.last()] =~= with_date(s.drop_last(), d).push(
                s.last(),
            ));
        } else {
            assert(with_date(s.drop_last(), d) + Seq::<RustRelease>::empty() =~= with_date(
                s.drop_last(),
                d,
            ));
        }
    }
}

/// Law: sorting an already sorted listing changes nothing.
pub proof fn law_sort_idempotent(s: Seq<RustRelease>)
    ensures
        sort_by_date(sort_by_date(s)) == sort_by_date(s),
{
    lemma_sort_sorted(s);
    lemma_sort_of_sorted(sort_by_date(s));
}

/// In a newest-first sequence, a record older than `x` is followed only by
/// records older than `x`.
pub(crate) proof fn lemma_older_stays_older(s: Seq<RustRelease>, x: RustRelease, k: int, m: int)
    requires
        sorted_by_date_desc(s),
        0 <= k < m < s.len(),
        newer(x, s[k]),
    ensures
        newer(x, s[m]),
{
    assert(!newer(s[m], s[k]));
    lemma_lex_total(s[m].date@, s[k].date@);
    if lex_lt(s[m].date@, s[k].date@) {
        lemma_lex_transitive(s[m].date@, s[k].date@, x.date@);
    }
}

/// Where `x` goes in a newest-first sequence: after every record that is
/// not older than it, found by binary search.
fn insertion_point(out: &Vec<RustRelease>, x: &RustRelease) -> (p: usize)
    requires
        sorted_by_date_desc(out@),
    ensures
        p <= out.len(),
        forall|k: int| 0 <= k < p ==> !newer(*x, #[trigger] out@[k]),
        p < out.len() ==> newer(*x, out@[p as int]),
{
    let mut lo: usize = 0;
    let mut hi: usize = out.len();
    while lo < hi
        invariant
            sorted_by_date_desc(out@),
            lo <= hi <= out.len(),
            forall|k: int| 0 <= k < lo ==> !newer(*x, #[trigger] out@[k]),
            hi < out.len() ==> newer(*x, out@[hi as int]),
        decreases hi - lo,
    {
        let mid = lo + (hi - lo) / 2;
        if str_lt(out[mid].date.as_str(), x.date.as_str()) {
            hi = mid;
        } else {
            assert forall|k: int| 0 <= k < mid + 1 implies !newer(*x, #[trigger] out@[k]) by {
                if k < mid && newer(*x, out@[k]) {
                    lemma_older_stays_older(out@, *x, k, mid as int);
                }
            }
            lo = mid + 1;
        }
    }
    lo
}

/// Sort records by date, newest first; records with equal dates keep their
/// input order.
pub fn sort_releases_by_date_desc(releases: Vec<RustRelease>) -> (sorted: Vec<RustRelease>)
    ensures
        sorted@ == sort_by_date(releases@),
        sorted_by_date_desc(sorted@),
        sorted@.to_multiset() == releases@.to_multiset(),
        forall|d: Seq<char>| #[trigger] with_date(sorted@, d) == with_date(releases@, d),
{
    let ghost input = releases@;
    let mut out: Vec<RustRelease> = Vec::new();
    for x in it: releases.into_iter()
        invariant
            it.seq() == input,
            out@ == sort_by_date(input.take(it.index())),
    {
        let ghost prefix = input.take(it.index() + 1);
        assert(prefix.drop_last() =~= input.take(it.index()));
        assert(prefix.last() == x);
        proof {
            lemma_sort_sorted(input.take(it.index()));
        }
        let p = insertion_point(&out, &x);
        proof {
            lemma_insert_position(out@, x, p as int);
        }
        let ghost before = out@;
        out.insert(p, x);
        assert(out@ =~= before.take(p as int) + seq![x] + before.skip(p as int));
    }
    assert(input.take(input.len() as int) =~= input);
    proof {
        law_sort_orders_and_keeps(input);
        assert forall|d: Seq<char>| #[trigger] with_date(out@, d) == with_date(input, d) by {
            law_sort_stable(input, d);
        }
    }
    out
}

} // verus!
