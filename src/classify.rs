use vstd::prelude::*;
use crate::names::{MarkerKind, valid_repo_name, is_marker_path, is_repo_name, is_marker};
use crate::lexicon::{message_hit, message_hits};
use crate::record::ActivityRecord;

verus! {

/// Some commit of the record has a message that hits the lexicon.
pub open spec fn record_hit(r: ActivityRecord, lexicon: Seq<String>) -> bool {
    exists|j: int| 0 <= j < r.commits@.len() && message_hit(r.commits@[j].message@, lexicon)
}

/// Some commit of the record adds a marker file of `kind`.
pub open spec fn record_marks(r: ActivityRecord, kind: MarkerKind) -> bool {
    exists|j: int, f: int|
        0 <= j < r.commits@.len() && 0 <= f < r.commits@[j].added@.len() && is_marker_path(
            kind,
            r.commits@[j].added@[f]@,
        )
}

/// Well-formed repository names with a lexicon hit in one of the first `n` records.
pub open spec fn hit_names_upto(recs: Seq<ActivityRecord>, lexicon: Seq<String>, n: int) -> Set<
    Seq<char>,
> {
    Set::new(
        |name: Seq<char>|
            valid_repo_name(name) && exists|i: int|
                0 <= i < n && recs[i].repo@ == name && record_hit(recs[i], lexicon),
    )
}

/// Well-formed repository names with a marker file of `kind` added in one of
/// the first `n` records.
pub open spec fn marked_names_upto(recs: Seq<ActivityRecord>, kind: MarkerKind, n: int) -> Set<
    Seq<char>,
> {
    Set::new(
        |name: Seq<char>|
            valid_repo_name(name) && exists|i: int|
                0 <= i < n && recs[i].repo@ == name && record_marks(recs[i], kind),
    )
}

/// What a set of records shows about each repository: which ones had a
/// lexicon hit, and which ones were confirmed locally for each marker kind.
pub struct EvidenceView {
    pub hit: Set<Seq<char>>,
    pub hardhat: Set<Seq<char>>,
    pub foundry: Set<Seq<char>>,
}

/// The evidence that `recs` give, as a function of the records alone.
pub open spec fn evidence_of(recs: Seq<ActivityRecord>, lexicon: Seq<String>) -> EvidenceView {
    EvidenceView {
        hit: hit_names_upto(recs, lexicon, recs.len() as int),
        hardhat: marked_names_upto(recs, MarkerKind::Hardhat, recs.len() as int),
        foundry: marked_names_upto(recs, MarkerKind::Foundry, recs.len() as int),
    }
}

/// The union of two pieces of evidence.
pub open spec fn union_of(a: EvidenceView, b: EvidenceView) -> EvidenceView {
    EvidenceView {
        hit: a.hit.union(b.hit),
        hardhat: a.hardhat.union(b.hardhat),
        foundry: a.foundry.union(b.foundry),
    }
}

/// The names that a list of strings holds.
pub open spec fn names_of(v: Seq<String>) -> Set<Seq<char>> {
    Set::new(|n: Seq<char>| exists|i: int| 0 <= i < v.len() && v[i]@ == n)
}

/// No name occurs twice.
pub open spec fn distinct_names(v: Seq<String>) -> bool {
    forall|i: int, j: int| 0 <= i < j < v.len() ==> v[i]@ != v[j]@
}

/// Which repositories must still be checked remotely, given which marker
/// kinds were confirmed locally.
#[derive(Clone, Copy, Debug, PartialEq, Eq, Structural)]
pub enum MissingPolicy {
    /// Check a repository when either marker kind lacks local confirmation.
    EitherMissing,
    /// Check a repository only when both marker kinds lack local confirmation.
    BothMissing,
}

pub open spec fn policy_needs_check(policy: MissingPolicy, hardhat_missing: bool, foundry_missing: bool) -> bool {
    match policy {
        MissingPolicy::EitherMissing => hardhat_missing || foundry_missing,
        MissingPolicy::BothMissing => hardhat_missing && foundry_missing,
    }
}

/// The repositories to verify remotely: those with a lexicon hit whose
/// local confirmations leave a marker kind missing under `policy`.
pub open spec fn needs_check(ev: EvidenceView, policy: MissingPolicy) -> Set<Seq<char>> {
    ev.hit.filter(
        |n: Seq<char>| policy_needs_check(policy, !ev.hardhat.contains(n), !ev.foundry.contains(n)),
    )
}

/// Per-repository evidence gathered from records, each list without repeats.
pub struct Evidence {
    pub hit: Vec<String>,
    pub hardhat: Vec<String>,
    pub foundry: Vec<String>,
}

impl View for Evidence {
    type V = EvidenceView;

    open spec fn view(&self) -> EvidenceView {
        EvidenceView {
            hit: names_of(self.hit@),
            hardhat: names_of(self.hardhat@),
            foundry: names_of(self.foundry@),
        }
    }
}

impl Evidence {
    pub open spec fn wf(&self) -> bool {
        distinct_names(self.hit@) && distinct_names(self.hardhat@) && distinct_names(
            self.foundry@,
        )
    }

    /// Evidence of no records.
    pub fn new() -> (r: Evidence)
        ensures
            r.wf(),
            r@.hit.is_empty() && r@.hardhat.is_empty() && r@.foundry.is_empty(),
    {
        let r = Evidence { hit: Vec::new(), hardhat: Vec::new(), foundry: Vec::new() };
        assert(r@.hit =~= Set::empty());
        assert(r@.hardhat =~= Set::empty());
        assert(r@.foundry =~= Set::empty());
        r
    }
}

/// Tells whether `v` holds `name`.
pub fn contains_name(v: &Vec<String>, name: &String) -> (r: bool)
    ensures
        r == names_of(v@).contains(name@),
{
    let mut i: usize = 0;
    while i < v.len()
        invariant
            i <= v@.len(),
            forall|j: int| 0 <= j < i ==> v@[j]@ != name@,
        decreases v@.len() - i,
    {
        if v[i] == *name {
            assert(names_of(v@).contains(name@));
            return true;
        }
        i = i + 1;
    }
    false
}

/// Adds `name` to `v` unless it is there already.
pub fn insert_name(v: &mut Vec<String>, name: &String)
    requires
        distinct_names(old(v)@),
    ensures
        distinct_names(final(v)@),
        names_of(final(v)@) == names_of(old(v)@).insert(name@),
{
    if !contains_name(v, name) {
        let ghost pre = v@;
        let copy = name.clone();
        v.push(copy);
        assert(v@ == pre.push(copy));
        assert forall|n: Seq<char>| names_of(v@).contains(n) == names_of(pre).insert(name@).contains(n) by {
            if names_of(pre).contains(n) {
                let i = choose|i: int| 0 <= i < pre.len() && pre[i]@ == n;
                assert(v@[i] == pre[i]);
                assert(names_of(v@).contains(n));
            }
            if n == name@ {
                assert(v@[pre.len() as int]@ == n);
                assert(names_of(v@).contains(n));
            }
        }
        assert forall|i: int, j: int| 0 <= i < j < v@.len() implies v@[i]@ != v@[j]@ by {
            if j == pre.len() {
                assert(v@[i] == pre[i]);
                assert(names_of(pre).contains(pre[i]@));
            } else {
                assert(v@[i] == pre[i] && v@[j] == pre[j]);
            }
        }
        assert(names_of(v@) =~= names_of(pre).insert(name@));
    } else {
        assert(names_of(v@) =~= names_of(v@).insert(name@));
    }
}

/// Tells whether some commit of `rec` hits the lexicon.
pub fn record_hits(rec: &ActivityRecord, lexicon: &Vec<String>) -> (r: bool)
    ensures
        r == record_hit(*rec, lexicon@),
{
    let mut j: usize = 0;
    while j < rec.commits.len()
        invariant
            j <= rec.commits@.len(),
            forall|k: int| 0 <= k < j ==> !message_hit(rec.commits@[k].message@, lexicon@),
        decreases rec.commits@.len() - j,
    {
        if message_hits(rec.commits[j].message.as_str(), lexicon) {
            return true;
        }
        j = j + 1;
    }
    false
}

/// Tells whether some commit of `rec` adds a marker file of `kind`.
pub fn record_adds_marker(rec: &ActivityRecord, kind: MarkerKind) -> (r: bool)
    ensures
        r == record_marks(*rec, kind),
{
    let mut j: usize = 0;
    while j < rec.commits.len()
        invariant
            j <= rec.commits@.len(),
            forall|k: int, f: int|
                0 <= k < j && 0 <= f < rec.commits@[k].added@.len() ==> !is_marker_path(
                    kind,
                    rec.commits@[k].added@[f]@,
                ),
        decreases rec.commits@.len() - j,
    {
        let added = &rec.commits[j].added;
        let mut f: usize = 0;
        while f < added.len()
            invariant
                j < rec.commits@.len(),
                *added == rec.commits@[j as int].added,
                f <= added@.len(),
                forall|g: int| 0 <= g < f ==> !is_marker_path(kind, added@[g]@),
            decreases added@.len() - f,
        {
            if is_marker(kind, added[f].as_str()) {
                return true;
            }
            f = f + 1;
        }
        j = j + 1;
    }
    false
}

/// Scans the records of one shard: for each well-formed repository name,
/// whether some commit hit the lexicon and which marker files were added.
/// Records whose repository name is not `owner/name` are skipped.
pub fn filter_solidity_repos(records: &Vec<ActivityRecord>, lexicon: &Vec<String>) -> (r: Evidence)
    ensures
        r.wf(),
        r@ == evidence_of(records@, lexicon@),
{
    let mut ev = Evidence::new();
    let ghost recs = records@;
    proof {
        assert(ev@.hit =~= hit_names_upto(recs, lexicon@, 0));
        assert(ev@.hardhat =~= marked_names_upto(recs, MarkerKind::Hardhat, 0));
        assert(ev@.foundry =~= marked_names_upto(recs, MarkerKind::Foundry, 0));
    }
    let mut i: usize = 0;
    while i < records.len()
        invariant
            recs == records@,
            i <= recs.len(),
            ev.wf(),
            ev@.hit == hit_names_upto(recs, lexicon@, i as int),
            ev@.hardhat == marked_names_upto(recs, MarkerKind::Hardhat, i as int),
            ev@.foundry == marked_names_upto(recs, MarkerKind::Foundry, i as int),
        decreases recs.len() - i,
    {
        let rec = &records[i];
        let ghost name = rec.repo@;
        if is_repo_name(rec.repo.as_str()) {
            if record_hits(rec, lexicon) {
                insert_name(&mut ev.hit, &rec.repo);
            }
            if record_adds_marker(rec, MarkerKind::Hardhat) {
                insert_name(&mut ev.hardhat, &rec.repo);
            }
            if record_adds_marker(rec, MarkerKind::Foundry) {
                insert_name(&mut ev.foundry, &rec.repo);
            }
        }
        proof {
            let n = i as int;
            let h1 = hit_names_upto(recs, lexicon@, n + 1);
            let h0 = hit_names_upto(recs, lexicon@, n);
            if valid_repo_name(name) && record_hit(recs[n], lexicon@) {
                assert(h1 =~= h0.insert(name));
            } else {
                assert(h1 =~= h0);
            }
            let a1 = marked_names_upto(recs, MarkerKind::Hardhat, n + 1);
            let a0 = marked_names_upto(recs, MarkerKind::Hardhat, n);
            if valid_repo_name(name) && record_marks(recs[n], MarkerKind::Hardhat) {
                assert(a1 =~= a0.insert(name));
            } else {
                assert(a1 =~= a0);
            }
            let b1 = marked_names_upto(recs, MarkerKind::Foundry, n + 1);
            let b0 = marked_names_upto(recs, MarkerKind::Foundry, n);
            if valid_repo_name(name) && record_marks(recs[n], MarkerKind::Foundry) {
                assert(b1 =~= b0.insert(name));
            } else {
                assert(b1 =~= b0);
            }
        }
        i = i + 1;
    }
    ev
}

/// Adds every name of `from` to `into`.
fn absorb_names(into: &mut Vec<String>, from: &Vec<String>)
    requires
        distinct_names(old(into)@),
    ensures
        distinct_names(final(into)@),
        names_of(final(into)@) == names_of(old(into)@).union(names_of(from@)),
{
    let ghost start = into@;
    let mut i: usize = 0;
    proof {
        assert(names_of(from@.subrange(0, 0)) =~= Set::empty());
        assert(names_of(start) =~= names_of(start).union(Set::empty()));
    }
    while i < from.len()
        invariant
            i <= from@.len(),
            distinct_names(into@),
            names_of(into@) == names_of(start).union(names_of(from@.subrange(0, i as int))),
        decreases from@.len() - i,
    {
        insert_name(into, &from[i]);
        proof {
            let pre = from@.subrange(0, i as int);
            let post = from@.subrange(0, i as int + 1);
            assert forall|n: Seq<char>| names_of(post).contains(n) == names_of(pre).insert(from@[i as int]@).contains(n) by {
                if names_of(post).contains(n) {
                    let k = choose|k: int| 0 <= k < post.len() && post[k]@ == n;
                    if k < i {
                        assert(pre[k] == post[k]);
                    }
                }
                if names_of(pre).contains(n) {
                    let k = choose|k: int| 0 <= k < pre.len() && pre[k]@ == n;
                    assert(pre[k] == post[k]);
                }
                if n == from@[i as int]@ {
                    assert(post[i as int] == from@[i as int]);
                }
            }
            assert(names_of(post) =~= names_of(pre).insert(from@[i as int]@));
            assert(names_of(into@) =~= names_of(start).union(names_of(post)));
        }
        i = i + 1;
    }
    assert(from@.subrange(0, from@.len() as int) =~= from@);
}

/// Folds the evidence of one shard into the evidence gathered so far.
/// Names are only ever added.
pub fn merge_evidence(acc: &mut Evidence, part: &Evidence)
    requires
        old(acc).wf(),
    ensures
        final(acc).wf(),
        final(acc)@ == union_of(old(acc)@, part@),
{
    absorb_names(&mut acc.hit, &part.hit);
    absorb_names(&mut acc.hardhat, &part.hardhat);
    absorb_names(&mut acc.foundry, &part.foundry);
}

/// A repository to verify remotely, with the marker kinds still to look for.
pub struct Pending {
    pub repo: String,
    pub check_hardhat: bool,
    pub check_foundry: bool,
}

/// The repositories to verify remotely, once all shards are merged: each
/// repository with a lexicon hit whose local confirmations leave a marker
/// kind missing under `policy`, together with the kinds that lack local
/// confirmation.
pub fn pending_checks(ev: &Evidence, policy: MissingPolicy) -> (r: Vec<Pending>)
    ensures
        names_of(r@.map_values(|p: Pending| p.repo)) == needs_check(ev@, policy),
        ev.wf() ==> distinct_names(r@.map_values(|p: Pending| p.repo)),
        forall|k: int|
            0 <= k < r@.len() ==> {
                &&& r@[k].check_hardhat == !ev@.hardhat.contains(r@[k].repo@)
                &&& r@[k].check_foundry == !ev@.foundry.contains(r@[k].repo@)
            },
{
    let mut out: Vec<Pending> = Vec::new();
    let mut i: usize = 0;
    while i < ev.hit.len()
        invariant
            i <= ev.hit@.len(),
            names_of(out@.map_values(|p: Pending| p.repo)) == needs_check(ev@, policy).intersect(
                names_of(ev.hit@.subrange(0, i as int)),
            ),
            ev.wf() ==> distinct_names(out@.map_values(|p: Pending| p.repo)),
            forall|k: int|
                0 <= k < out@.len() ==> {
                    &&& out@[k].check_hardhat == !ev@.hardhat.contains(out@[k].repo@)
                    &&& out@[k].check_foundry == !ev@.foundry.contains(out@[k].repo@)
                },
        decreases ev.hit@.len() - i,
    {
        let name = &ev.hit[i];
        let check_hardhat = !contains_name(&ev.hardhat, name);
        let check_foundry = !contains_name(&ev.foundry, name);
        let wanted = match policy {
            MissingPolicy::EitherMissing => check_hardhat || check_foundry,
            MissingPolicy::BothMissing => check_hardhat && check_foundry,
        };
        let ghost before = out@;
        if wanted {
            out.push(Pending { repo: name.clone(), check_hardhat, check_foundry });
        }
        proof {
            let pre = ev.hit@.subrange(0, i as int);
            let post = ev.hit@.subrange(0, i as int + 1);
            assert forall|n: Seq<char>| names_of(post).contains(n) == names_of(pre).insert(name@).contains(n) by {
                if names_of(post).contains(n) {
                    let k = choose|k: int| 0 <= k < post.len() && post[k]@ == n;
                    if k < i {
                        assert(pre[k] == post[k]);
                    }
                }
                if names_of(pre).contains(n) {
                    let k = choose|k: int| 0 <= k < pre.len() && pre[k]@ == n;
                    assert(pre[k] == post[k]);
                }
                if n == name@ {
                    assert(post[i as int] == ev.hit@[i as int]);
                }
            }
            assert(names_of(post) =~= names_of(pre).insert(name@));
            assert(names_of(ev.hit@).contains(name@));
            let rb = before.map_values(|p: Pending| p.repo);
            let ra = out@.map_values(|p: Pending| p.repo);
            if wanted {
                assert(ra.len() == rb.len() + 1);
                assert forall|n: Seq<char>| names_of(ra).contains(n) == names_of(rb).insert(name@).contains(n) by {
                    if names_of(ra).contains(n) {
                        let k = choose|k: int| 0 <= k < ra.len() && ra[k]@ == n;
                        if k < rb.len() {
                            assert(ra[k] == rb[k]);
                        }
                    }
                    if names_of(rb).contains(n) {
                        let k = choose|k: int| 0 <= k < rb.len() && rb[k]@ == n;
                        assert(ra[k] == rb[k]);
                    }
                    if n == name@ {
                        assert(ra[rb.len() as int]@ == n);
                    }
                }
                assert(names_of(ra) =~= needs_check(ev@, policy).intersect(names_of(post)));
                if ev.wf() {
                    assert(!names_of(pre).contains(name@)) by {
                        if names_of(pre).contains(name@) {
                            let k = choose|k: int| 0 <= k < pre.len() && pre[k]@ == name@;
                            assert(pre[k] == ev.hit@[k]);
                        }
                    }
                    assert forall|a: int, b: int| 0 <= a < b < ra.len() implies ra[a]@ != ra[b]@ by {
                        if b == rb.len() {
                            assert(ra[a] == rb[a]);
                            assert(names_of(rb).contains(rb[a]@));
                        } else {
                            assert(ra[a] == rb[a] && ra[b] == rb[b]);
                        }
                    }
                }
            } else {
                assert(ra =~= rb);
                assert(names_of(ra) =~= needs_check(ev@, policy).intersect(names_of(post)));
            }
        }
        i = i + 1;
    }
    proof {
        assert(ev.hit@.subrange(0, ev.hit@.len() as int) =~= ev.hit@);
        assert(needs_check(ev@, policy).intersect(names_of(ev.hit@)) =~= needs_check(ev@, policy));
    }
    out
}

/// The outcome of a run: repositories confirmed (locally or remotely) for
/// each marker kind, and how many remote checks found nothing new.
pub struct Report {
    pub hardhat: Vec<String>,
    pub foundry: Vec<String>,
    pub nothing_found: u64,
}

impl Report {
    pub open spec fn wf(&self) -> bool {
        distinct_names(self.hardhat@) && distinct_names(self.foundry@)
    }

    /// The report before any remote check: the local confirmations.
    pub fn from_evidence(ev: &Evidence) -> (r: Report)
        ensures
            r.wf(),
            names_of(r.hardhat@) == ev@.hardhat,
            names_of(r.foundry@) == ev@.foundry,
            r.nothing_found == 0,
    {
        let mut hardhat: Vec<String> = Vec::new();
        let mut foundry: Vec<String> = Vec::new();
        proof {
            assert(names_of(hardhat@) =~= Set::empty());
        }
        absorb_names(&mut hardhat, &ev.hardhat);
        absorb_names(&mut foundry, &ev.foundry);
        assert(names_of(hardhat@) =~= ev@.hardhat);
        assert(names_of(foundry@) =~= ev@.foundry);
        Report { hardhat, foundry, nothing_found: 0 }
    }

    /// Records the remote outcome for one pending repository. A kind that
    /// was not to be checked is left as it was.
    pub fn record_check(&mut self, p: &Pending, hardhat_found: bool, foundry_found: bool)
        requires
            old(self).wf(),
        ensures
            final(self).wf(),
            names_of(final(self).hardhat@) == if p.check_hardhat && hardhat_found {
                names_of(old(self).hardhat@).insert(p.repo@)
            } else {
                names_of(old(self).hardhat@)
            },
            names_of(final(self).foundry@) == if p.check_foundry && foundry_found {
                names_of(old(self).foundry@).insert(p.repo@)
            } else {
                names_of(old(self).foundry@)
            },
            final(self).nothing_found == if (p.check_hardhat && hardhat_found) || (p.check_foundry
                && foundry_found) || old(self).nothing_found == u64::MAX {
                old(self).nothing_found
            } else {
                (old(self).nothing_found + 1) as u64
            },
    {
        let new_hardhat = p.check_hardhat && hardhat_found;
        let new_foundry = p.check_foundry && foundry_found;
        if new_hardhat {
            insert_name(&mut self.hardhat, &p.repo);
        }
        if new_foundry {
            insert_name(&mut self.foundry, &p.repo);
        }
        if !new_hardhat && !new_foundry && self.nothing_found < u64::MAX {
            self.nothing_found = self.nothing_found + 1;
        }
    }
}

/// A repository name that is not of the shape `owner/name` is in no set
/// that classification produces, whatever the records hold.
pub proof fn lemma_malformed_name_never_reported(
    recs: Seq<ActivityRecord>,
    lexicon: Seq<String>,
    policy: MissingPolicy,
    name: Seq<char>,
)
    requires
        !valid_repo_name(name),
    ensures
        !evidence_of(recs, lexicon).hit.contains(name),
        !evidence_of(recs, lexicon).hardhat.contains(name),
        !evidence_of(recs, lexicon).foundry.contains(name),
        !needs_check(evidence_of(recs, lexicon), policy).contains(name),
{
}

/// Classifying shards one by one and merging the results gives the same
/// evidence as classifying all their records at once.
pub proof fn lemma_merge_matches_whole(
    a: Seq<ActivityRecord>,
    b: Seq<ActivityRecord>,
    lexicon: Seq<String>,
)
    ensures
        evidence_of(a + b, lexicon) == union_of(evidence_of(a, lexicon), evidence_of(b, lexicon)),
{
    let ab = a + b;
    assert forall|i: int| 0 <= i < a.len() implies ab[i] == a[i] by {}
    assert forall|i: int| 0 <= i < b.len() implies ab[a.len() + i] == b[i] by {}
    let w = evidence_of(ab, lexicon);
    let u = union_of(evidence_of(a, lexicon), evidence_of(b, lexicon));
    assert forall|n: Seq<char>| w.hit.contains(n) == u.hit.contains(n) by {
        if w.hit.contains(n) {
            let i = choose|i: int| 0 <= i < ab.len() && ab[i].repo@ == n && record_hit(ab[i], lexicon);
            if i >= a.len() {
                assert(b[i - a.len()] == ab[i]);
            }
        }
        if evidence_of(b, lexicon).hit.contains(n) {
            let i = choose|i: int| 0 <= i < b.len() && b[i].repo@ == n && record_hit(b[i], lexicon);
            assert(ab[a.len() + i] == b[i]);
        }
    }
    assert forall|n: Seq<char>| w.hardhat.contains(n) == u.hardhat.contains(n) by {
        if w.hardhat.contains(n) {
            let i = choose|i: int|
                0 <= i < ab.len() && ab[i].repo@ == n && record_marks(ab[i], MarkerKind::Hardhat);
            if i >= a.len() {
                assert(b[i - a.len()] == ab[i]);
            }
        }
        if evidence_of(b, lexicon).hardhat.contains(n) {
            let i = choose|i: int|
                0 <= i < b.len() && b[i].repo@ == n && record_marks(b[i], MarkerKind::Hardhat);
            assert(ab[a.len() + i] == b[i]);
        }
    }
    assert forall|n: Seq<char>| w.foundry.contains(n) == u.foundry.contains(n) by {
        if w.foundry.contains(n) {
            let i = choose|i: int|
                0 <= i < ab.len() && ab[i].repo@ == n && record_marks(ab[i], MarkerKind::Foundry);
            if i >= a.len() {
                assert(b[i - a.len()] == ab[i]);
            }
        }
        if evidence_of(b, lexicon).foundry.contains(n) {
            let i = choose|i: int|
                0 <= i < b.len() && b[i].repo@ == n && record_marks(b[i], MarkerKind::Foundry);
            assert(ab[a.len() + i] == b[i]);
        }
    }
    assert(w.hit =~= u.hit);
    assert(w.hardhat =~= u.hardhat);
    assert(w.foundry =~= u.foundry);
}

/// Merging is commutative and idempotent: the order in which shard results
/// are folded does not matter, and folding the same result again changes
/// nothing.
pub proof fn lemma_merge_commutes_and_repeats(a: EvidenceView, b: EvidenceView)
    ensures
        union_of(a, b) == union_of(b, a),
        union_of(union_of(a, b), b) == union_of(a, b),
        union_of(a, a) == a,
{
    assert(union_of(a, b).hit =~= union_of(b, a).hit);
    assert(union_of(a, b).hardhat =~= union_of(b, a).hardhat);
    assert(union_of(a, b).foundry =~= union_of(b, a).foundry);
    assert(union_of(union_of(a, b), b).hit =~= union_of(a, b).hit);
    assert(union_of(union_of(a, b), b).hardhat =~= union_of(a, b).hardhat);
    assert(union_of(union_of(a, b), b).foundry =~= union_of(a, b).foundry);
    assert(union_of(a, a).hit =~= a.hit);
    assert(union_of(a, a).hardhat =~= a.hardhat);
    assert(union_of(a, a).foundry =~= a.foundry);
}

/// Classification is a function of the records: classifying the same
/// records again, even all of them twice over, yields the same evidence and
/// the same set of repositories to verify.
pub proof fn lemma_classification_repeatable(
    recs: Seq<ActivityRecord>,
    lexicon: Seq<String>,
    policy: MissingPolicy,
)
    ensures
        evidence_of(recs + recs, lexicon) == evidence_of(recs, lexicon),
        needs_check(evidence_of(recs + recs, lexicon), policy) == needs_check(
            evidence_of(recs, lexicon),
            policy,
        ),
{
    lemma_merge_matches_whole(recs, recs, lexicon);
    lemma_merge_commutes_and_repeats(evidence_of(recs, lexicon), evidence_of(recs, lexicon));
}

/// A repository with a commit that adds a Hardhat configuration (at any
/// depth, such as `contracts/hardhat.config.js`) is confirmed locally for
/// Hardhat, so no remote Hardhat check is scheduled for it, lexicon hit or
/// not; under the either-missing policy it is checked remotely only if it
/// lacks a local Foundry confirmation.
pub proof fn lemma_local_hardhat_suppresses_check(
    recs: Seq<ActivityRecord>,
    lexicon: Seq<String>,
    i: int,
    j: int,
    f: int,
)
    requires
        0 <= i < recs.len(),
        valid_repo_name(recs[i].repo@),
        0 <= j < recs[i].commits@.len(),
        0 <= f < recs[i].commits@[j].added@.len(),
        crate::names::has_suffix(recs[i].commits@[j].added@[f]@, crate::names::hardhat_js()),
    ensures
        evidence_of(recs, lexicon).hardhat.contains(recs[i].repo@),
        needs_check(evidence_of(recs, lexicon), MissingPolicy::EitherMissing).contains(
            recs[i].repo@,
        ) ==> !evidence_of(recs, lexicon).foundry.contains(recs[i].repo@),
        !needs_check(evidence_of(recs, lexicon), MissingPolicy::BothMissing).contains(
            recs[i].repo@,
        ),
{
    assert(crate::names::marker_files(MarkerKind::Hardhat)[0] == crate::names::hardhat_js());
    assert(is_marker_path(MarkerKind::Hardhat, recs[i].commits@[j].added@[f]@));
    assert(record_marks(recs[i], MarkerKind::Hardhat));
}

/// The union of a list of pieces of evidence, folded from the first.
pub open spec fn union_all(parts: Seq<EvidenceView>) -> EvidenceView
    decreases parts.len(),
{
    if parts.len() == 0 {
        EvidenceView { hit: Set::empty(), hardhat: Set::empty(), foundry: Set::empty() }
    } else {
        union_of(union_all(parts.drop_last()), parts.last())
    }
}

pub open spec fn evidence_views(parts: Seq<Evidence>) -> Seq<EvidenceView> {
    parts.map_values(|e: Evidence| e@)
}

/// Folds the evidence of every shard, in one non-concurrent step.
pub fn fold_evidence(parts: &Vec<Evidence>) -> (r: Evidence)
    ensures
        r.wf(),
        r@ == union_all(evidence_views(parts@)),
{
    let mut acc = Evidence::new();
    let ghost pv = evidence_views(parts@);
    proof {
        assert(pv.take(0) =~= Seq::<EvidenceView>::empty());
        assert(acc@ == union_all(pv.take(0)));
    }
    let mut k: usize = 0;
    while k < parts.len()
        invariant
            k <= parts@.len(),
            pv == evidence_views(parts@),
            acc.wf(),
            acc@ == union_all(pv.take(k as int)),
        decreases parts@.len() - k,
    {
        merge_evidence(&mut acc, &parts[k]);
        assert(pv.take(k as int + 1).drop_last() =~= pv.take(k as int));
        assert(pv.take(k as int + 1).last() == parts@[k as int]@);
        k = k + 1;
    }
    assert(pv.take(parts@.len() as int) =~= pv);
    acc
}

/// Every name in the evidence has the shape `owner/name`.
pub open spec fn names_valid(e: EvidenceView) -> bool {
    forall|n: Seq<char>|
        (e.hit.contains(n) || e.hardhat.contains(n) || e.foundry.contains(n)) ==> valid_repo_name(n)
}

/// A repository name that is not of the shape `owner/name` is in no set of
/// the evidence of any shards, however their results are folded, nor among
/// the repositories to verify.
pub proof fn lemma_malformed_name_never_in_fold(
    shards: Seq<Seq<ActivityRecord>>,
    lexicon: Seq<String>,
    policy: MissingPolicy,
    name: Seq<char>,
)
    requires
        !valid_repo_name(name),
    ensures
        ({
            let all = union_all(shards.map_values(|s: Seq<ActivityRecord>| evidence_of(s, lexicon)));
            &&& !all.hit.contains(name)
            &&& !all.hardhat.contains(name)
            &&& !all.foundry.contains(name)
            &&& !needs_check(all, policy).contains(name)
        }),
{
    let parts = shards.map_values(|s: Seq<ActivityRecord>| evidence_of(s, lexicon));
    assert forall|i: int| 0 <= i < parts.len() implies names_valid(#[trigger] parts[i]) by {}
    lemma_union_all_valid(parts);
}

proof fn lemma_union_all_valid(parts: Seq<EvidenceView>)
    requires
        forall|i: int| 0 <= i < parts.len() ==> names_valid(#[trigger] parts[i]),
    ensures
        names_valid(union_all(parts)),
    decreases parts.len(),
{
    if parts.len() > 0 {
        assert forall|i: int| 0 <= i < parts.len() - 1 implies names_valid(#[trigger] parts.drop_last()[i]) by {
            assert(parts.drop_last()[i] == parts[i]);
        }
        lemma_union_all_valid(parts.drop_last());
        assert(names_valid(parts[parts.len() - 1]));
    }
}

} // verus!
