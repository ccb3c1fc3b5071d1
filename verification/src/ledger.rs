//! The history ledger: an ordered, deduplicated, capacity-bounded append
//! log of uploaded-image records. Recording replaces any entry of the same
//! identity and drops the oldest entries beyond the cap; listing returns a
//! stable copy sorted by upload time, newest first; deleting removes the
//! entries a delete identity matches and reports whether anything changed.
//! Persistence of the log is the caller's business: the ledger works on the
//! decoded entries.
use vstd::prelude::*;
use crate::numtext::lemma_lex_lt_asym;
use crate::numtext::lemma_lex_lt_trans;
use crate::numtext::lex_lt;
use crate::numtext::str_lex_lt;
use crate::record::DeleteIdentity;
use crate::record::DeleteIdentityV;
use crate::record::RecordV;
use crate::record::UploadedImageRecord;
use crate::record::clone_record;
use crate::record::delete_matches;
use crate::record::delete_matches_record;
use crate::record::same_identity;
use crate::record::same_identity_v;

verus! {

/// The views of a run of records.
pub open spec fn views_of(v: Seq<UploadedImageRecord>) -> Seq<RecordV> {
    v.map_values(|r: UploadedImageRecord| r@)
}

/// The records whose identity differs from `e`'s, in order.
pub open spec fn keep_others(s: Seq<RecordV>, e: RecordV) -> Seq<RecordV>
    decreases s.len(),
{
    if s.len() == 0 {
        s
    } else {
        let rest = keep_others(s.drop_last(), e);
        if same_identity_v(s.last(), e) {
            rest
        } else {
            rest.push(s.last())
        }
    }
}

/// The records a delete identity does not match, in order.
pub open spec fn keep_unmatched(s: Seq<RecordV>, q: DeleteIdentityV) -> Seq<RecordV>
    decreases s.len(),
{
    if s.len() == 0 {
        s
    } else {
        let rest = keep_unmatched(s.drop_last(), q);
        if delete_matches(q, s.last()) {
            rest
        } else {
            rest.push(s.last())
        }
    }
}

/// No two records share an identity.
pub open spec fn distinct_identities(s: Seq<RecordV>) -> bool {
    forall|i: int, j: int| 0 <= i < j < s.len() ==> !same_identity_v(s[i], s[j])
}

/// What recording `e` over `s` leaves: the other-identity records, then
/// `e`, with the oldest dropped beyond the cap of 2000.
pub open spec fn record_result(s: Seq<RecordV>, e: RecordV) -> Seq<RecordV> {
    let deduped = keep_others(s, e).push(e);
    if deduped.len() > 2000 {
        deduped.skip(deduped.len() - 2000)
    } else {
        deduped
    }
}

pub(crate) proof fn lemma_keep_others_props(s: Seq<RecordV>, e: RecordV)
    ensures
        keep_others(s, e).len() <= s.len(),
        forall|i: int|
            0 <= i < keep_others(s, e).len() ==> !same_identity_v(
                #[trigger] keep_others(s, e)[i],
                e,
            ),
        forall|i: int|
            0 <= i < keep_others(s, e).len() ==> s.contains(#[trigger] keep_others(s, e)[i]),
        distinct_identities(s) ==> distinct_identities(keep_others(s, e)),
    decreases s.len(),
{
    if s.len() > 0 {
        let rest = s.drop_last();
        lemma_keep_others_props(rest, e);
        assert(forall|i: int| 0 <= i < rest.len() ==> rest[i] == s[i]);
        assert(forall|i: int|
            0 <= i < keep_others(rest, e).len() ==> rest.contains(
                #[trigger] keep_others(rest, e)[i],
            ) ==> s.contains(keep_others(rest, e)[i]));
        if distinct_identities(s) {
            assert(distinct_identities(rest));
            if !same_identity_v(s.last(), e) {
                let out = keep_others(rest, e).push(s.last());
                assert(forall|i: int| 0 <= i < out.len() - 1 ==> rest.contains(#[trigger] out[i]));
                assert forall|i: int, j: int| 0 <= i < j < out.len() implies !same_identity_v(
                    out[i],
                    out[j],
                ) by {
                    if j == out.len() - 1 {
                        assert(rest.contains(out[i]));
                        let w = choose|w: int| 0 <= w < rest.len() && rest[w] == out[i];
                        assert(!same_identity_v(s[w], s.last()));
                    }
                }
            }
        }
    }
}

pub(crate) proof fn lemma_keep_unmatched_props(s: Seq<RecordV>, q: DeleteIdentityV)
    ensures
        keep_unmatched(s, q).len() <= s.len(),
        forall|i: int|
            0 <= i < keep_unmatched(s, q).len() ==> !delete_matches(
                q,
                #[trigger] keep_unmatched(s, q)[i],
            ),
        forall|i: int|
            0 <= i < keep_unmatched(s, q).len() ==> s.contains(#[trigger] keep_unmatched(s, q)[i]),
        distinct_identities(s) ==> distinct_identities(keep_unmatched(s, q)),
    decreases s.len(),
{
    if s.len() > 0 {
        let rest = s.drop_last();
        lemma_keep_unmatched_props(rest, q);
        assert(forall|i: int| 0 <= i < rest.len() ==> rest[i] == s[i]);
        assert(forall|i: int|
            0 <= i < keep_unmatched(rest, q).len() ==> rest.contains(
                #[trigger] keep_unmatched(rest, q)[i],
            ) ==> s.contains(keep_unmatched(rest, q)[i]));
        if distinct_identities(s) {
            assert(distinct_identities(rest));
            if !delete_matches(q, s.last()) {
                let out = keep_unmatched(rest, q).push(s.last());
                assert(forall|i: int| 0 <= i < out.len() - 1 ==> rest.contains(#[trigger] out[i]));
                assert forall|i: int, j: int| 0 <= i < j < out.len() implies !same_identity_v(
                    out[i],
                    out[j],
                ) by {
                    if j == out.len() - 1 {
                        assert(rest.contains(out[i]));
                        let w = choose|w: int| 0 <= w < rest.len() && rest[w] == out[i];
                        assert(!same_identity_v(s[w], s.last()));
                    }
                }
            }
        }
    }
}

/// When no record shares `e`'s identity, deduplication keeps everything.
pub proof fn lemma_keep_others_all(s: Seq<RecordV>, e: RecordV)
    requires
        forall|i: int| 0 <= i < s.len() ==> !same_identity_v(#[trigger] s[i], e),
    ensures
        keep_others(s, e) == s,
    decreases s.len(),
{
    if s.len() > 0 {
        let rest = s.drop_last();
        assert(forall|i: int| 0 <= i < rest.len() ==> rest[i] == s[i]);
        lemma_keep_others_all(rest, e);
        assert(keep_others(s, e) =~= s);
    }
}

/// The ledger itself: the entries it owns, always identity-distinct and at
/// most 2000 long.
pub struct Ledger {
    entries: Vec<UploadedImageRecord>,
}

impl View for Ledger {
    type V = Seq<RecordV>;

    closed spec fn view(&self) -> Seq<RecordV> {
        views_of(self.entries@)
    }
}

impl Ledger {
    /// Identity uniqueness and the size cap hold.
    pub open spec fn wf(self) -> bool {
        distinct_identities(self@) && self@.len() <= 2000
    }

    /// An empty ledger.
    pub fn new() -> (l: Ledger)
        ensures
            l.wf(),
            l@ == Seq::<RecordV>::empty(),
    {
        let l = Ledger { entries: Vec::new() };
        proof {
            assert(l@ =~= Seq::<RecordV>::empty());
        }
        l
    }

    /// How many records the ledger holds.
    pub fn len(&self) -> (n: usize)
        ensures
            n == self@.len(),
    {
        self.entries.len()
    }

    /// Records an upload: any existing entry of the same identity is
    /// replaced (the new entry's fields win), the new entry goes last, and
    /// the oldest entries are dropped once the cap of 2000 is exceeded.
    pub fn record(&mut self, entry: UploadedImageRecord)
        requires
            old(self).wf(),
        ensures
            final(self).wf(),
            final(self)@ == record_result(old(self)@, entry@),
    {
        let ghost s0 = self@;
        let ghost e = entry@;
        let n = self.entries.len();
        let mut kept: Vec<UploadedImageRecord> = Vec::new();
        let mut i: usize = 0;
        proof {
            assert(views_of(kept@) =~= keep_others(s0.take(0), e));
        }
        while i < n
            invariant
                i <= n,
                n == self.entries@.len(),
                self@ == s0,
                entry@ == e,
                views_of(kept@) == keep_others(s0.take(i as int), e),
                kept@.len() <= i,
            decreases n - i,
        {
            let r = clone_record(&self.entries[i]);
            proof {
                assert(r@ == s0[i as int]);
                assert(s0.take(i + 1).len() == i + 1);
                assert(s0.take(i + 1).drop_last() =~= s0.take(i as int));
                assert(s0.take(i + 1).last() == s0[i as int]);
            }
            if !same_identity(&r, &entry) {
                kept.push(r);
                proof {
                    assert(!same_identity_v(s0[i as int], e));
                    assert(keep_others(s0.take(i + 1), e) =~= keep_others(
                        s0.take(i as int),
                        e,
                    ).push(s0[i as int]));
                    assert(views_of(kept@) =~= keep_others(s0.take(i + 1), e));
                }
            } else {
                proof {
                    assert(keep_others(s0.take(i + 1), e) =~= keep_others(s0.take(i as int), e));
                }
            }
            i = i + 1;
        }
        proof {
            assert(s0.take(n as int) =~= s0);
        }
        kept.push(entry);
        let ghost dd = keep_others(s0, e).push(e);
        proof {
            assert(views_of(kept@) =~= dd);
        }
        while kept.len() > 2000
            invariant
                views_of(kept@) == dd.skip(dd.len() - kept@.len()),
                kept@.len() <= dd.len(),
                dd.len() > 2000 ==> kept@.len() >= 2000,
                dd.len() <= 2000 ==> kept@.len() == dd.len(),
            decreases kept@.len(),
        {
            kept.remove(0);
            proof {
                let k = dd.len() - kept@.len();
                assert(dd.skip(k - 1).skip(1) =~= dd.skip(k));
                assert(views_of(kept@) =~= dd.skip(k - 1).skip(1));
            }
        }
        self.entries = kept;
        proof {
            lemma_keep_others_props(s0, e);
            assert(distinct_identities(dd)) by {
                let ko = keep_others(s0, e);
                assert forall|i: int, j: int| 0 <= i < j < dd.len() implies !same_identity_v(
                    dd[i],
                    dd[j],
                ) by {
                    if j == dd.len() - 1 {
                        assert(!same_identity_v(ko[i], e));
                    }
                }
            }
            let k = dd.len() - self@.len();
            assert(self@ == dd.skip(k));
            assert(distinct_identities(self@)) by {
                assert forall|i: int, j: int| 0 <= i < j < self@.len() implies !same_identity_v(
                    self@[i],
                    self@[j],
                ) by {
                    assert(self@[i] == dd[i + k]);
                    assert(self@[j] == dd[j + k]);
                }
            }
            if dd.len() > 2000 {
                assert(self@.len() == 2000);
                assert(self@ == record_result(s0, e));
            } else {
                assert(dd.skip(0) =~= dd);
                assert(self@ == record_result(s0, e));
            }
        }
    }

    /// Removes every record the delete identity matches, keeping order;
    /// says whether anything was removed, so the caller persists only on
    /// change.
    pub fn delete_by_identity(&mut self, q: &DeleteIdentity) -> (changed: bool)
        requires
            old(self).wf(),
        ensures
            final(self).wf(),
            final(self)@ == keep_unmatched(old(self)@, q@),
            changed == (final(self)@.len() != old(self)@.len()),
    {
        let ghost s0 = self@;
        let ghost qv = q@;
        let n = self.entries.len();
        let mut kept: Vec<UploadedImageRecord> = Vec::new();
        let mut i: usize = 0;
        proof {
            assert(views_of(kept@) =~= keep_unmatched(s0.take(0), qv));
        }
        while i < n
            invariant
                i <= n,
                n == self.entries@.len(),
                self@ == s0,
                q@ == qv,
                views_of(kept@) == keep_unmatched(s0.take(i as int), qv),
                kept@.len() <= i,
            decreases n - i,
        {
            let r = clone_record(&self.entries[i]);
            proof {
                assert(r@ == s0[i as int]);
                assert(s0.take(i + 1).len() == i + 1);
                assert(s0.take(i + 1).drop_last() =~= s0.take(i as int));
                assert(s0.take(i + 1).last() == s0[i as int]);
            }
            if !delete_matches_record(q, &r) {
                kept.push(r);
                proof {
                    assert(!delete_matches(qv, s0[i as int]));
                    assert(keep_unmatched(s0.take(i + 1), qv) =~= keep_unmatched(
                        s0.take(i as int),
                        qv,
                    ).push(s0[i as int]));
                    assert(views_of(kept@) =~= keep_unmatched(s0.take(i + 1), qv));
                }
            } else {
                proof {
                    assert(keep_unmatched(s0.take(i + 1), qv) =~= keep_unmatched(
                        s0.take(i as int),
                        qv,
                    ));
                }
            }
            i = i + 1;
        }
        proof {
            assert(s0.take(n as int) =~= s0);
        }
        let changed = kept.len() != n;
        self.entries = kept;
        proof {
            lemma_keep_unmatched_props(s0, qv);
        }
        changed
    }
}

} // verus!

verus! {

/// `a` may stand before `b` in the newest-first listing: `a`'s upload time
/// is not lexicographically below `b`'s.
pub open spec fn ge_uploaded(a: RecordV, b: RecordV) -> bool {
    !lex_lt(a.uploaded_at, b.uploaded_at)
}

/// Where a record lands in a newest-first run: after every record at least
/// as new, so records of equal time keep their old order.
pub open spec fn insert_desc(s: Seq<RecordV>, x: RecordV) -> Seq<RecordV>
    decreases s.len(),
{
    if s.len() == 0 {
        seq![x]
    } else if ge_uploaded(s[0], x) {
        seq![s[0]] + insert_desc(s.drop_first(), x)
    } else {
        seq![x] + s
    }
}

/// The stable newest-first ordering of a run of records.
pub open spec fn sort_desc(s: Seq<RecordV>) -> Seq<RecordV>
    decreases s.len(),
{
    if s.len() == 0 {
        s
    } else {
        insert_desc(sort_desc(s.drop_last()), s.last())
    }
}

/// Newest first, by upload time.
pub open spec fn sorted_desc(s: Seq<RecordV>) -> bool {
    forall|i: int, j: int| 0 <= i < j < s.len() ==> ge_uploaded(s[i], s[j])
}

proof fn lemma_insert_desc_props(s: Seq<RecordV>, x: RecordV)
    requires
        sorted_desc(s),
    ensures
        sorted_desc(insert_desc(s, x)),
        insert_desc(s, x).len() == s.len() + 1,
        forall|i: int|
            0 <= i < insert_desc(s, x).len() ==> insert_desc(s, x)[i] == x || s.contains(
                #[trigger] insert_desc(s, x)[i],
            ),
    decreases s.len(),
{
    if s.len() == 0 {
    } else if ge_uploaded(s[0], x) {
        let rest = s.drop_first();
        assert(forall|i: int| 0 <= i < rest.len() ==> rest[i] == s[i + 1]);
        assert(sorted_desc(rest));
        lemma_insert_desc_props(rest, x);
        let tail = insert_desc(rest, x);
        let out = seq![s[0]] + tail;
        assert(forall|i: int| 0 <= i < tail.len() ==> out[i + 1] == tail[i]);
        assert forall|i: int, j: int| 0 <= i < j < out.len() implies ge_uploaded(
            out[i],
            out[j],
        ) by {
            if i == 0 {
                if tail[j - 1] == x {
                } else {
                    assert(rest.contains(tail[j - 1]));
                    let w = choose|w: int| 0 <= w < rest.len() && rest[w] == tail[j - 1];
                    assert(ge_uploaded(s[0], s[w + 1]));
                }
            } else {
                assert(out[i] == tail[i - 1]);
                assert(out[j] == tail[j - 1]);
            }
        }
        assert forall|i: int|
            0 <= i < out.len() implies out[i] == x || s.contains(#[trigger] out[i]) by {
            if i == 0 {
                assert(s.contains(s[0]));
            } else if out[i] == x {
            } else {
                assert(rest.contains(out[i]));
                let w = choose|w: int| 0 <= w < rest.len() && rest[w] == out[i];
                assert(s[w + 1] == out[i]);
                assert(s.contains(s[w + 1]));
            }
        }
    } else {
        lemma_lex_lt_asym(s[0].uploaded_at, x.uploaded_at);
        assert forall|k: int| 0 <= k < s.len() implies ge_uploaded(x, s[k]) by {
            if lex_lt(x.uploaded_at, s[k].uploaded_at) {
                lemma_lex_lt_trans(s[0].uploaded_at, x.uploaded_at, s[k].uploaded_at);
                if k > 0 {
                    assert(ge_uploaded(s[0], s[k]));
                }
            }
        }
        let out = seq![x] + s;
        assert(forall|i: int| 1 <= i < out.len() ==> out[i] == s[i - 1]);
        assert forall|i: int, j: int| 0 <= i < j < out.len() implies ge_uploaded(
            out[i],
            out[j],
        ) by {
            if i == 0 {
                assert(ge_uploaded(x, s[j - 1]));
            }
        }
        assert forall|i: int|
            0 <= i < out.len() implies out[i] == x || s.contains(#[trigger] out[i]) by {
            if i > 0 {
                assert(out[i] == s[i - 1]);
                assert(s.contains(s[i - 1]));
            }
        }
    }
}

/// Law: the stable sort orders the records newest first and keeps exactly
/// as many as it was given.
pub proof fn lemma_sort_desc_sorted(s: Seq<RecordV>)
    ensures
        sorted_desc(sort_desc(s)),
        sort_desc(s).len() == s.len(),
    decreases s.len(),
{
    if s.len() > 0 {
        lemma_sort_desc_sorted(s.drop_last());
        lemma_insert_desc_props(sort_desc(s.drop_last()), s.last());
    }
}

proof fn lemma_insert_desc_at(s: Seq<RecordV>, x: RecordV, j: int)
    requires
        0 <= j <= s.len(),
        forall|k: int| 0 <= k < j ==> ge_uploaded(#[trigger] s[k], x),
        j < s.len() ==> !ge_uploaded(s[j], x),
    ensures
        insert_desc(s, x) == s.insert(j, x),
    decreases s.len(),
{
    if s.len() == 0 {
        assert(insert_desc(s, x) =~= s.insert(0, x));
    } else if j == 0 {
        assert(insert_desc(s, x) =~= s.insert(0, x));
    } else {
        assert(ge_uploaded(s[0], x));
        let rest = s.drop_first();
        assert(forall|k: int| 0 <= k < rest.len() ==> rest[k] == s[k + 1]);
        lemma_insert_desc_at(rest, x, j - 1);
        assert(insert_desc(s, x) =~= s.insert(j, x));
    }
}

/// Executable mirror of [`ge_uploaded`].
fn record_ge_uploaded(a: &UploadedImageRecord, b: &UploadedImageRecord) -> (r: bool)
    ensures
        r == ge_uploaded(a@, b@),
{
    !str_lex_lt(a.uploaded_at.as_str(), b.uploaded_at.as_str())
}

impl Ledger {
    /// A copy of the records, sorted by upload time, newest first; records
    /// of equal time keep their ledger order (a stable sort).
    pub fn list(&self) -> (r: Vec<UploadedImageRecord>)
        ensures
            views_of(r@) == sort_desc(self@),
            r@.len() == self@.len(),
    {
        let ghost s0 = self@;
        let n = self.entries.len();
        let mut out: Vec<UploadedImageRecord> = Vec::new();
        let mut i: usize = 0;
        proof {
            assert(views_of(out@) =~= sort_desc(s0.take(0)));
        }
        while i < n
            invariant
                i <= n,
                n == self.entries@.len(),
                self@ == s0,
                views_of(out@) == sort_desc(s0.take(i as int)),
                out@.len() == i,
            decreases n - i,
        {
            let x = clone_record(&self.entries[i]);
            proof {
                assert(x@ == s0[i as int]);
            }
            let mut j: usize = 0;
            while j < out.len() && record_ge_uploaded(&out[j], &x)
                invariant
                    j <= out@.len(),
                    x@ == s0[i as int],
                    forall|k: int|
                        0 <= k < j ==> ge_uploaded(#[trigger] views_of(out@)[k], x@),
                decreases out@.len() - j,
            {
                proof {
                    assert(views_of(out@)[j as int] == out@[j as int]@);
                }
                j = j + 1;
            }
            proof {
                if j < out@.len() {
                    assert(views_of(out@)[j as int] == out@[j as int]@);
                }
                lemma_insert_desc_at(views_of(out@), x@, j as int);
            }
            out.insert(j, x);
            proof {
                assert(s0.take(i + 1).drop_last() =~= s0.take(i as int));
                assert(s0.take(i + 1).last() == s0[i as int]);
                assert(views_of(out@) =~= sort_desc(s0.take(i as int)).insert(
                    j as int,
                    s0[i as int],
                ));
                assert(views_of(out@) =~= sort_desc(s0.take(i + 1)));
            }
            i = i + 1;
        }
        proof {
            assert(s0.take(n as int) =~= s0);
            lemma_sort_desc_sorted(s0);
        }
        out
    }

    /// Rebuilds a ledger from decoded entries by recording each in turn:
    /// whatever the file held, identity uniqueness and the cap hold of the
    /// result.
    pub fn from_entries(entries: &Vec<UploadedImageRecord>) -> (l: Ledger)
        ensures
            l.wf(),
            l@ == load_fold(views_of(entries@)),
    {
        let mut l = Ledger::new();
        let mut i: usize = 0;
        let n = entries.len();
        proof {
            assert(load_fold(views_of(entries@).take(0)) =~= Seq::<RecordV>::empty());
        }
        while i < n
            invariant
                i <= n,
                n == entries@.len(),
                l.wf(),
                l@ == load_fold(views_of(entries@).take(i as int)),
            decreases n - i,
        {
            let r = clone_record(&entries[i]);
            proof {
                assert(r@ == views_of(entries@)[i as int]);
            }
            l.record(r);
            proof {
                let vs = views_of(entries@);
                assert(vs.take(i + 1).drop_last() =~= vs.take(i as int));
                assert(vs.take(i + 1).last() == vs[i as int]);
            }
            i = i + 1;
        }
        proof {
            assert(views_of(entries@).take(n as int) =~= views_of(entries@));
        }
        l
    }
}

/// What loading a run of entries leaves: each recorded in turn over the
/// empty ledger.
pub open spec fn load_fold(s: Seq<RecordV>) -> Seq<RecordV>
    decreases s.len(),
{
    if s.len() == 0 {
        Seq::empty()
    } else {
        record_result(load_fold(s.drop_last()), s.last())
    }
}

/// Law: recording leaves the new entry last, and no other surviving entry
/// shares its identity — a replace, never a duplicate.
pub proof fn lemma_record_dedup(s: Seq<RecordV>, e: RecordV)
    ensures
        record_result(s, e).len() >= 1,
        record_result(s, e).last() == e,
        forall|i: int|
            0 <= i < record_result(s, e).len() - 1 ==> !same_identity_v(
                #[trigger] record_result(s, e)[i],
                e,
            ),
{
    lemma_keep_others_props(s, e);
    let dd = keep_others(s, e).push(e);
    if dd.len() > 2000 {
        let k = dd.len() - 2000;
        assert(forall|i: int|
            0 <= i < record_result(s, e).len() ==> record_result(s, e)[i] == dd[i + k]);
    }
}

/// Law: the result of recording never exceeds the cap; a fresh identity
/// appends, and once the ledger is full the oldest entries give way, the
/// new entry still last.
pub proof fn lemma_record_cap(s: Seq<RecordV>, e: RecordV)
    requires
        forall|i: int| 0 <= i < s.len() ==> !same_identity_v(#[trigger] s[i], e),
    ensures
        record_result(s, e).len() <= 2000,
        s.len() < 2000 ==> record_result(s, e) == s.push(e),
        s.len() >= 2000 ==> record_result(s, e) == s.skip(s.len() - 1999).push(e),
{
    lemma_keep_others_all(s, e);
    let dd = s.push(e);
    if s.len() >= 2000 {
        assert(dd.skip(dd.len() - 2000) =~= s.skip(s.len() - 1999).push(e));
    }
}

} // verus!
