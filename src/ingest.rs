//! Accounting for a whole ingestion run: every archive ends up either as a
//! package record or as a failure with its path, and the run goes on.

use vstd::multiset::Multiset;
use vstd::prelude::*;

use crate::error::{ErrorKind, IngestError};
use crate::record::{Package, PackageModel};

verus! {

/// What became of one archive, with its path.
pub type Outcome = (String, Result<Package, IngestError>);

/// The records of the archives that succeeded, in order.
pub open spec fn successes(os: Seq<Outcome>) -> Seq<PackageModel>
    decreases os.len(),
{
    if os.len() == 0 {
        Seq::empty()
    } else {
        match os.last().1 {
            Ok(p) => successes(os.drop_last()).push(p@),
            Err(_) => successes(os.drop_last()),
        }
    }
}

/// The path and error of each archive that failed, in order.
pub open spec fn failures(os: Seq<Outcome>) -> Seq<(Seq<char>, (ErrorKind, Seq<char>))>
    decreases os.len(),
{
    if os.len() == 0 {
        Seq::empty()
    } else {
        match os.last().1 {
            Ok(_) => failures(os.drop_last()),
            Err(e) => failures(os.drop_last()).push((os.last().0@, e@)),
        }
    }
}

/// How many archives failed.
pub open spec fn failed_count(os: Seq<Outcome>) -> nat
    decreases os.len(),
{
    if os.len() == 0 {
        0
    } else {
        failed_count(os.drop_last()) + if os.last().1 is Err {
            1nat
        } else {
            0nat
        }
    }
}

/// The result of a run: the records built, and each failure with its path.
#[derive(Clone, Debug)]
pub struct IngestReport {
    pub packages: Vec<Package>,
    pub failures: Vec<(String, IngestError)>,
}

pub open spec fn failures_model(fs: Seq<(String, IngestError)>) -> Seq<(Seq<char>, (ErrorKind, Seq<char>))> {
    fs.map_values(|f: (String, IngestError)| (f.0@, f.1@))
}

/// Sorts the outcomes of a run into records and failures, keeping their
/// order; nothing is dropped.
pub fn aggregate(outcomes: Vec<Outcome>) -> (r: IngestReport)
    ensures
        r.packages@.map_values(|p: Package| p@) == successes(outcomes@),
        failures_model(r.failures@) == failures(outcomes@),
        r.failures@.len() == failed_count(outcomes@),
        r.packages@.len() + r.failures@.len() == outcomes@.len(),
{
    let ghost os = outcomes@;
    let mut packages: Vec<Package> = Vec::new();
    let mut fails: Vec<(String, IngestError)> = Vec::new();
    for o in it: outcomes
        invariant
            it.seq() == os,
            packages@.map_values(|p: Package| p@) == successes(os.subrange(0, it.index() as int)),
            failures_model(fails@) == failures(os.subrange(0, it.index() as int)),
            fails@.len() == failed_count(os.subrange(0, it.index() as int)),
            packages@.len() + fails@.len() == it.index(),
    {
        let ghost i = it.index();
        let ghost pre = os.subrange(0, i + 1);
        assert(pre.drop_last() =~= os.subrange(0, i as int));
        assert(pre.last() == o);
        let (path, res) = o;
        match res {
            Ok(p) => {
                let ghost before = packages@.map_values(|p: Package| p@);
                packages.push(p);
                assert(packages@.map_values(|p: Package| p@) =~= before.push(p@));
            },
            Err(e) => {
                let ghost before = failures_model(fails@);
                fails.push((path, e));
                assert(failures_model(fails@) =~= before.push((path@, e@)));
            },
        }
    }
    assert(os.subrange(0, os.len() as int) =~= os);
    IngestReport { packages, failures: fails }
}

/// Whether a failure of kind `k` is among the first `n` of `fs`.
pub open spec fn kind_among(fs: Seq<(String, IngestError)>, n: int, k: ErrorKind) -> bool {
    exists|j: int| 0 <= j < n && #[trigger] fs[j].1@.0 == k
}

impl IngestReport {
    /// How many archives became records.
    pub fn succeeded(&self) -> (r: usize)
        ensures
            r == self.packages@.len(),
    {
        self.packages.len()
    }

    /// How many archives failed.
    pub fn failed(&self) -> (r: usize)
        ensures
            r == self.failures@.len(),
    {
        self.failures.len()
    }

    /// The distinct kinds of failure in the run, each once.
    pub fn distinct_causes(&self) -> (r: Vec<ErrorKind>)
        ensures
            r@.no_duplicates(),
            forall|k: ErrorKind|
                r@.contains(k) <==> kind_among(self.failures@, self.failures@.len() as int, k),
    {
        let mut r: Vec<ErrorKind> = Vec::new();
        let n = self.failures.len();
        let mut i: usize = 0;
        while i < n
            invariant
                n == self.failures@.len(),
                i <= n,
                r@.no_duplicates(),
                forall|k: ErrorKind| r@.contains(k) <==> kind_among(self.failures@, i as int, k),
            decreases n - i,
        {
            let k = self.failures[i].1.kind();
            let mut seen = false;
            let mut j: usize = 0;
            while j < r.len()
                invariant
                    j <= r@.len(),
                    seen <==> exists|m: int| 0 <= m < j && r@[m] == k,
                decreases r@.len() - j,
            {
                if r[j] == k {
                    seen = true;
                }
                j = j + 1;
            }
            let ghost before = r@;
            if !seen {
                r.push(k);
                assert forall|x: ErrorKind| r@.contains(x) <==> (before.contains(x) || x == k) by {
                    if r@.contains(x) {
                        let m = choose|m: int| 0 <= m < r@.len() && r@[m] == x;
                        if m < before.len() {
                            assert(before[m] == x);
                        }
                    }
                    if before.contains(x) {
                        let m = choose|m: int| 0 <= m < before.len() && before[m] == x;
                        assert(r@[m] == x);
                    }
                    if x == k {
                        assert(r@[before.len() as int] == x);
                    }
                }
            } else {
                proof {
                    let m = choose|m: int| 0 <= m < j && r@[m] == k;
                    assert(r@.contains(k));
                }
            }
            assert forall|x: ErrorKind|
                #[trigger] kind_among(self.failures@, i + 1, x) <==> (kind_among(
                    self.failures@,
                    i as int,
                    x,
                ) || x == k) by {
                if x == k {
                    assert(self.failures@[i as int].1@.0 == x);
                }
                if kind_among(self.failures@, i + 1, x) {
                    let j2 = choose|j2: int| 0 <= j2 < i + 1 && #[trigger] self.failures@[j2].1@.0 == x;
                    if j2 < i {
                        assert(kind_among(self.failures@, i as int, x));
                    }
                }
            }
            assert forall|x: ErrorKind|
                r@.contains(x) <==> kind_among(self.failures@, i + 1, x) by {
                assert(kind_among(self.failures@, i + 1, x) <==> (kind_among(
                    self.failures@,
                    i as int,
                    x,
                ) || x == k));
                assert(before.contains(x) <==> kind_among(self.failures@, i as int, x));
            }
            i = i + 1;
        }
        r
    }
}

/// The records and the failures of a run together count every archive, and
/// the failures are exactly the archives that failed: of N archives of which
/// K fail, N - K become records and K are reported as failures.
pub proof fn lemma_run_accounts_for_every_archive(os: Seq<Outcome>)
    ensures
        successes(os).len() + failures(os).len() == os.len(),
        failures(os).len() == failed_count(os),
        successes(os).len() == os.len() - failed_count(os),
    decreases os.len(),
{
    if os.len() > 0 {
        lemma_run_accounts_for_every_archive(os.drop_last());
    }
}

pub open spec fn is_failure(o: Outcome) -> bool {
    o.1 is Err
}

proof fn lemma_failed_count_multiset(os: Seq<Outcome>)
    ensures
        failed_count(os) == os.to_multiset().filter(|o: Outcome| is_failure(o)).len(),
    decreases os.len(),
{
    broadcast use vstd::seq_lib::group_to_multiset_ensures, vstd::multiset::group_multiset_axioms;

    let f = |o: Outcome| is_failure(o);
    if os.len() == 0 {
        assert(os.to_multiset() =~= Multiset::empty());
        assert(Multiset::<Outcome>::empty().filter(f) =~= Multiset::empty());
    } else {
        let pre = os.drop_last();
        let x = os.last();
        lemma_failed_count_multiset(pre);
        assert(os =~= pre.push(x));
        let m = pre.to_multiset();
        if is_failure(x) {
            assert(m.insert(x).filter(f) =~= m.filter(f).insert(x));
        } else {
            assert(m.insert(x).filter(f) =~= m.filter(f));
        }
    }
}

/// How many archives of a run fail, and so how many become records, does not
/// depend on the order in which their outcomes arrive.
pub proof fn lemma_counts_ignore_order(a: Seq<Outcome>, b: Seq<Outcome>)
    requires
        a.to_multiset() == b.to_multiset(),
    ensures
        failed_count(a) == failed_count(b),
        successes(a).len() == successes(b).len(),
{
    broadcast use vstd::seq_lib::group_to_multiset_ensures;

    lemma_failed_count_multiset(a);
    lemma_failed_count_multiset(b);
    lemma_run_accounts_for_every_archive(a);
    lemma_run_accounts_for_every_archive(b);
    assert(a.len() == a.to_multiset().len());
    assert(b.len() == b.to_multiset().len());
}

proof fn lemma_concat(s: Seq<Outcome>, t: Seq<Outcome>)
    ensures
        successes(s + t) == successes(s) + successes(t),
        failures(s + t) == failures(s) + failures(t),
    decreases t.len(),
{
    if t.len() == 0 {
        assert(s + t =~= s);
        assert(successes(s) + successes(t) =~= successes(s));
        assert(failures(s) + failures(t) =~= failures(s));
    } else {
        lemma_concat(s, t.drop_last());
        assert((s + t).drop_last() =~= s + t.drop_last());
        assert((s + t).last() == t.last());
        assert(successes(s) + successes(t.drop_last()).push(successes(t).last())
            =~= (successes(s) + successes(t.drop_last())).push(successes(t).last()));
        match t.last().1 {
            Ok(p) => {
                assert(successes(s) + successes(t) =~= (successes(s) + successes(
                    t.drop_last(),
                )).push(p@));
            },
            Err(e) => {
                assert(failures(s) + failures(t) =~= (failures(s) + failures(t.drop_last())).push(
                    (t.last().0@, e@),
                ));
            },
        }
    }
}

/// Two runs whose outcomes are the same but arrive in another order, as a
/// pool of any size may deliver them, yield the same records and the same
/// failures, counted with multiplicity.
pub proof fn lemma_results_ignore_order(a: Seq<Outcome>, b: Seq<Outcome>)
    requires
        a.to_multiset() == b.to_multiset(),
    ensures
        successes(a).to_multiset() == successes(b).to_multiset(),
        failures(a).to_multiset() == failures(b).to_multiset(),
    decreases a.len(),
{
    broadcast use vstd::seq_lib::group_to_multiset_ensures, vstd::multiset::group_multiset_axioms;

    if a.len() == 0 {
        assert(b.len() == b.to_multiset().len());
        assert(b =~= Seq::<Outcome>::empty());
        assert(a =~= b);
    } else {
        let x = a.last();
        let a1 = a.drop_last();
        assert(a =~= a1.push(x));
        assert(a.to_multiset().count(x) > 0);
        assert(b.to_multiset().count(x) > 0);
        assert(b.contains(x));
        let j = choose|j: int| 0 <= j < b.len() && b[j] == x;
        let s = b.subrange(0, j);
        let t = b.subrange(j + 1, b.len() as int);
        let b1 = b.remove(j);
        assert(b1 =~= s + t);
        assert(b =~= s + seq![x] + t);
        assert(b1.to_multiset() =~= b.to_multiset().remove(x));
        assert(a1.to_multiset() =~= a.to_multiset().remove(x));
        lemma_results_ignore_order(a1, b1);
        let one = seq![x];
        assert(a =~= a1 + one);
        lemma_concat(a1, one);
        lemma_concat(s, t);
        lemma_concat(s, one);
        lemma_concat(s + one, t);
        vstd::seq_lib::lemma_multiset_commutative(successes(a1), successes(one));
        vstd::seq_lib::lemma_multiset_commutative(successes(s), successes(t));
        vstd::seq_lib::lemma_multiset_commutative(successes(s), successes(one));
        vstd::seq_lib::lemma_multiset_commutative(successes(s) + successes(one), successes(t));
        assert forall|v: PackageModel|
            successes(a).to_multiset().count(v) == successes(b).to_multiset().count(v) by {
            assert(successes(a1).to_multiset().count(v) == successes(b1).to_multiset().count(v));
        }
        assert(successes(a).to_multiset() =~= successes(b).to_multiset());
        vstd::seq_lib::lemma_multiset_commutative(failures(a1), failures(one));
        vstd::seq_lib::lemma_multiset_commutative(failures(s), failures(t));
        vstd::seq_lib::lemma_multiset_commutative(failures(s), failures(one));
        vstd::seq_lib::lemma_multiset_commutative(failures(s) + failures(one), failures(t));
        assert forall|v: (Seq<char>, (ErrorKind, Seq<char>))|
            failures(a).to_multiset().count(v) == failures(b).to_multiset().count(v) by {
            assert(failures(a1).to_multiset().count(v) == failures(b1).to_multiset().count(v));
        }
        assert(failures(a).to_multiset() =~= failures(b).to_multiset());
    }
}

} // verus!
