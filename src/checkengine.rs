//! Per-address probe outcomes and their worst-first aggregation.

use vstd::prelude::*;
use vstd::seq_lib::lemma_multiset_commutative;

use crate::text::{comma_list, comma_list_string};

verus! {

/// How one address answered.
#[derive(Debug, Clone, Copy, PartialEq, Eq, Structural)]
pub enum CheckStatus {
    Alive,
    Degraded,
    Failed,
}

/// A resolved network address, as its integer value.
#[derive(Debug, Clone, Copy, PartialEq, Eq, Structural)]
pub enum ProbeAddr {
    V4(u32),
    V6(u128),
}

/// A named stretch of one probe, in nanoseconds on the probe's own clock.
/// Only observed, never used to decide anything.
#[derive(Debug)]
pub struct CheckTimeSpan {
    pub name: &'static str,
    pub started_at: u64,
    pub ended_at: u64,
}

impl CheckTimeSpan {
    /// How long the span lasted; zero when the clock readings are reversed.
    pub fn length(&self) -> (r: u64)
        ensures
            self.started_at <= self.ended_at ==> r == self.ended_at - self.started_at,
            self.started_at > self.ended_at ==> r == 0,
    {
        if self.started_at <= self.ended_at {
            self.ended_at - self.started_at
        } else {
            0
        }
    }
}

/// The outcome of probing one address.
#[derive(Debug)]
pub struct CheckResultElement {
    pub target: ProbeAddr,
    pub check_status: CheckStatus,
    pub status_code: Option<u16>,
    pub err_msg: Option<String>,
    pub timeline: Vec<CheckTimeSpan>,
}

impl CheckResultElement {
    pub fn status_code(&self) -> (r: Option<u16>)
        ensures
            r == self.status_code,
    {
        self.status_code
    }

    pub fn err_msg(&self) -> (r: Option<String>)
        ensures
            r == self.err_msg,
    {
        match &self.err_msg {
            Some(m) => Some(m.clone()),
            None => None,
        }
    }
}

/// The outcomes of one poll cycle of one target, one element per address.
#[derive(Debug)]
pub struct CheckResult {
    pub name: &'static str,
    pub elements: Vec<CheckResultElement>,
}

/// Some outcome among `elems` has status `s`.
pub open spec fn has_status(elems: Seq<CheckResultElement>, s: CheckStatus) -> bool {
    exists|e: CheckResultElement| #[trigger] elems.contains(e) && e.check_status == s
}

/// The worst status under Failed > Degraded > Alive. A cycle without any
/// address counts as failed.
pub open spec fn worst_status(elems: Seq<CheckResultElement>) -> CheckStatus {
    if elems.len() == 0 {
        CheckStatus::Failed
    } else if has_status(elems, CheckStatus::Failed) {
        CheckStatus::Failed
    } else if has_status(elems, CheckStatus::Degraded) {
        CheckStatus::Degraded
    } else {
        CheckStatus::Alive
    }
}

/// Every HTTP status code that some outcome among `elems` observed.
pub open spec fn codes_of(elems: Seq<CheckResultElement>) -> Set<u16> {
    Set::new(|c: u16| exists|e: CheckResultElement| #[trigger] elems.contains(e) && e.status_code == Some(c))
}

pub open spec fn strictly_increasing(v: Seq<u16>) -> bool {
    forall|i: int, j: int| 0 <= i < j < v.len() ==> v[i] < v[j]
}

/// `v` lists exactly the members of `s`, in increasing order.
pub open spec fn lists_in_order(v: Seq<u16>, s: Set<u16>) -> bool {
    &&& strictly_increasing(v)
    &&& forall|c: u16| #[trigger] v.contains(c) <==> s.contains(c)
}

/// The codes observed among `elems`, sorted and without repeats.
pub open spec fn sorted_codes(elems: Seq<CheckResultElement>) -> Seq<u16> {
    choose|v: Seq<u16>| lists_in_order(v, codes_of(elems))
}

/// The status-code summary: the sorted distinct codes, comma-separated, or
/// `"no servers found"` when no code was observed.
pub open spec fn code_summary(elems: Seq<CheckResultElement>) -> Seq<char> {
    if codes_of(elems).is_empty() {
        no_servers_text()
    } else {
        comma_list(sorted_codes(elems))
    }
}

pub open spec fn no_servers_text() -> Seq<char> {
    seq!['n', 'o', ' ', 's', 'e', 'r', 'v', 'e', 'r', 's', ' ', 'f', 'o', 'u', 'n', 'd']
}

/// All outcomes of the given results, in order.
pub open spec fn all_elements(rs: Seq<CheckResult>) -> Seq<CheckResultElement>
    decreases rs.len(),
{
    if rs.len() == 0 {
        Seq::empty()
    } else {
        rs[0].elements@ + all_elements(rs.drop_first())
    }
}

/// Two increasing lists of the same codes are the same list.
pub proof fn lemma_sorted_unique(a: Seq<u16>, b: Seq<u16>)
    requires
        strictly_increasing(a),
        strictly_increasing(b),
        forall|c: u16| #[trigger] a.contains(c) <==> b.contains(c),
    ensures
        a == b,
    decreases a.len(),
{
    if a.len() == 0 {
        if b.len() > 0 {
            assert(b.contains(b[0]));
            assert(a.contains(b[0]));
        }
        assert(a =~= b);
    } else {
        assert(a.contains(a[0]));
        assert(b.contains(a[0]));
        assert(b.contains(b[0]));
        assert(a.contains(b[0]));
        assert(a[0] == b[0]) by {
            let j = choose|j: int| 0 <= j < b.len() && b[j] == a[0];
            let k = choose|k: int| 0 <= k < a.len() && a[k] == b[0];
            assert(b[0] <= b[j]);
            assert(a[0] <= a[k]);
        }
        let a1 = a.drop_first();
        let b1 = b.drop_first();
        assert forall|c: u16| #[trigger] a1.contains(c) <==> b1.contains(c) by {
            if a1.contains(c) {
                let k = choose|k: int| 0 <= k < a1.len() && a1[k] == c;
                assert(a[k + 1] == c);
                assert(a.contains(c));
                assert(b.contains(c));
                let j = choose|j: int| 0 <= j < b.len() && b[j] == c;
                assert(j != 0);
                assert(b1[j - 1] == c);
            }
            if b1.contains(c) {
                let k = choose|k: int| 0 <= k < b1.len() && b1[k] == c;
                assert(b[k + 1] == c);
                assert(b.contains(c));
                assert(a.contains(c));
                let j = choose|j: int| 0 <= j < a.len() && a[j] == c;
                assert(j != 0);
                assert(a1[j - 1] == c);
            }
        }
        lemma_sorted_unique(a1, b1);
        assert(a =~= seq![a[0]] + a1);
        assert(b =~= seq![b[0]] + b1);
    }
}

/// Once some list orders the codes of `elems`, `sorted_codes` is that list.
pub proof fn lemma_sorted_codes_is(elems: Seq<CheckResultElement>, v: Seq<u16>)
    requires
        lists_in_order(v, codes_of(elems)),
    ensures
        sorted_codes(elems) == v,
{
    let w = sorted_codes(elems);
    assert(lists_in_order(w, codes_of(elems)));
    lemma_sorted_unique(w, v);
}

/// Aggregation ignores the order of the outcomes: any rearrangement of the
/// same outcomes has the same worst status, the same sorted codes and the
/// same code summary.
pub proof fn lemma_aggregation_order_independent(
    a: Seq<CheckResultElement>,
    b: Seq<CheckResultElement>,
)
    requires
        a.to_multiset() == b.to_multiset(),
    ensures
        worst_status(a) == worst_status(b),
        sorted_codes(a) == sorted_codes(b),
        code_summary(a) == code_summary(b),
{
    a.to_multiset_ensures();
    b.to_multiset_ensures();
    assert(a.len() == b.len());
    assert forall|x: CheckResultElement| #[trigger] a.contains(x) <==> b.contains(x) by {
        assert(a.contains(x) <==> a.to_multiset().count(x) > 0);
        assert(b.contains(x) <==> b.to_multiset().count(x) > 0);
    }
    assert forall|c: u16| codes_of(a).contains(c) == codes_of(b).contains(c) by {
        if codes_of(a).contains(c) {
            let x = choose|x: CheckResultElement| a.contains(x) && x.status_code == Some(c);
            assert(b.contains(x));
        }
        if codes_of(b).contains(c) {
            let x = choose|x: CheckResultElement| b.contains(x) && x.status_code == Some(c);
            assert(a.contains(x));
        }
    }
    assert(codes_of(a) =~= codes_of(b));
    assert forall|st: CheckStatus| has_status(a, st) == has_status(b, st) by {
        if has_status(a, st) {
            let x = choose|x: CheckResultElement| a.contains(x) && x.check_status == st;
            assert(b.contains(x));
        }
        if has_status(b, st) {
            let x = choose|x: CheckResultElement| b.contains(x) && x.check_status == st;
            assert(a.contains(x));
        }
    }
}

/// Aggregating a single outcome gives back that outcome: its own status and
/// exactly its own status code.
pub proof fn lemma_aggregation_singleton(e: CheckResultElement)
    ensures
        worst_status(seq![e]) == e.check_status,
        sorted_codes(seq![e]) == (match e.status_code {
            Some(c) => seq![c],
            None => Seq::<u16>::empty(),
        }),
{
    let s = seq![e];
    assert(s[0] == e);
    assert(s.contains(e));
    assert forall|x: CheckResultElement| #[trigger] s.contains(x) implies x == e by {
        let j = choose|j: int| 0 <= j < s.len() && s[j] == x;
        assert(j == 0);
    }
    let v = match e.status_code {
        Some(c) => seq![c],
        None => Seq::<u16>::empty(),
    };
    assert forall|c: u16| #[trigger] v.contains(c) <==> codes_of(s).contains(c) by {
        if v.contains(c) {
            assert(v[0] == c);
            assert(e.status_code == Some(c));
            assert(codes_of(s).contains(c));
        }
        if codes_of(s).contains(c) {
            let x = choose|x: CheckResultElement| s.contains(x) && x.status_code == Some(c);
            assert(x == e);
            assert(v[0] == c);
        }
    }
    lemma_sorted_codes_is(s, v);
}

/// Merging a single result gives back that result's outcomes unchanged.
pub proof fn lemma_merge_singleton(x: CheckResult)
    ensures
        all_elements(seq![x]) == x.elements@,
{
    let s = seq![x];
    assert(s.drop_first() =~= Seq::<CheckResult>::empty());
    assert(all_elements(s.drop_first()) == Seq::<CheckResultElement>::empty());
    assert(x.elements@ + Seq::<CheckResultElement>::empty() =~= x.elements@);
}

/// Taking one result out of a list takes exactly its outcomes out of the
/// gathered outcomes, whatever their order.
proof fn lemma_all_elements_remove(s: Seq<CheckResult>, k: int)
    requires
        0 <= k < s.len(),
    ensures
        all_elements(s).to_multiset() =~= all_elements(s.remove(k)).to_multiset().add(
            s[k].elements@.to_multiset(),
        ),
    decreases k,
{
    lemma_multiset_commutative(s[0].elements@, all_elements(s.drop_first()));
    if k == 0 {
        assert(s.remove(0) =~= s.drop_first());
    } else {
        let t = s.drop_first();
        lemma_all_elements_remove(t, k - 1);
        let r = s.remove(k);
        assert(r.drop_first() =~= t.remove(k - 1));
        assert(r[0] == s[0]);
        lemma_multiset_commutative(r[0].elements@, all_elements(r.drop_first()));
    }
}

/// Gathering a rearranged list of results gives the same outcomes, as a
/// multiset.
proof fn lemma_all_elements_permutation(rs: Seq<CheckResult>, ps: Seq<CheckResult>)
    requires
        rs.to_multiset() == ps.to_multiset(),
    ensures
        all_elements(rs).to_multiset() == all_elements(ps).to_multiset(),
    decreases rs.len(),
{
    rs.to_multiset_ensures();
    ps.to_multiset_ensures();
    if rs.len() == 0 {
        assert(ps.len() == 0);
        assert(rs =~= ps);
    } else {
        let x = rs[0];
        assert(rs.contains(x));
        assert(rs.to_multiset().count(x) > 0);
        assert(ps.contains(x));
        let k = choose|k: int| 0 <= k < ps.len() && ps[k] == x;
        assert(rs.remove(0).to_multiset() =~= rs.to_multiset().remove(x));
        assert(ps.remove(k).to_multiset() =~= ps.to_multiset().remove(ps[k]));
        lemma_all_elements_permutation(rs.remove(0), ps.remove(k));
        lemma_all_elements_remove(rs, 0);
        lemma_all_elements_remove(ps, k);
    }
}

/// Merging the per-address results of a cycle in any order gives the same
/// worst status and the same code summary.
pub proof fn lemma_merge_order_independent(rs: Seq<CheckResult>, ps: Seq<CheckResult>)
    requires
        rs.to_multiset() == ps.to_multiset(),
    ensures
        all_elements(rs).to_multiset() == all_elements(ps).to_multiset(),
        worst_status(all_elements(rs)) == worst_status(all_elements(ps)),
        code_summary(all_elements(rs)) == code_summary(all_elements(ps)),
{
    lemma_all_elements_permutation(rs, ps);
    lemma_aggregation_order_independent(all_elements(rs), all_elements(ps));
}

impl CheckResult {
    /// A result holding the one outcome `e`.
    pub fn new(name: &'static str, e: CheckResultElement) -> (r: CheckResult)
        ensures
            r.name == name,
            r.elements@ == seq![e],
    {
        CheckResult { name, elements: vec![e] }
    }

    pub fn elements(&self) -> (r: &[CheckResultElement])
        ensures
            r@ == self.elements@,
    {
        self.elements.as_slice()
    }

    /// The worst status among the outcomes; `Failed` when there are none.
    pub fn status(&self) -> (r: CheckStatus)
        ensures
            r == worst_status(self.elements@),
    {
        if self.elements.len() == 0 {
            return CheckStatus::Failed;
        }
        let mut i: usize = 0;
        while i < self.elements.len()
            invariant
                i <= self.elements@.len(),
                forall|j: int| 0 <= j < i ==> self.elements@[j].check_status != CheckStatus::Failed,
            decreases self.elements@.len() - i,
        {
            if self.elements[i].check_status == CheckStatus::Failed {
                assert(self.elements@.contains(self.elements@[i as int]));
                return CheckStatus::Failed;
            }
            i = i + 1;
        }
        let mut i: usize = 0;
        while i < self.elements.len()
            invariant
                i <= self.elements@.len(),
                !has_status(self.elements@, CheckStatus::Failed),
                forall|j: int| 0 <= j < i ==> self.elements@[j].check_status != CheckStatus::Degraded,
            decreases self.elements@.len() - i,
        {
            if self.elements[i].check_status == CheckStatus::Degraded {
                assert(self.elements@.contains(self.elements@[i as int]));
                return CheckStatus::Degraded;
            }
            i = i + 1;
        }
        CheckStatus::Alive
    }

    /// Gathers the outcomes of several results into the first of them.
    pub fn merge(from: Vec<CheckResult>) -> (r: CheckResult)
        requires
            from@.len() > 0,
        ensures
            r.name == from@[0].name,
            r.elements@ == all_elements(from@),
    {
        let ghost all = all_elements(from@);
        let mut rest = from;
        let mut out = rest.remove(0);
        assert(rest@ =~= from@.drop_first());
        while rest.len() > 0
            invariant
                out.name == from@[0].name,
                all == out.elements@ + all_elements(rest@),
            decreases rest@.len(),
        {
            let ghost before = rest@;
            let mut next = rest.remove(0);
            assert(rest@ =~= before.drop_first());
            out.elements.append(&mut next.elements);
            assert(all == out.elements@ + all_elements(rest@)) by {
                assert(all_elements(before) == before[0].elements@ + all_elements(rest@));
            }
        }
        assert(out.elements@ =~= all);
        out
    }
}

/// Renders the distinct status codes of the outcomes in increasing order,
/// separated by `", "`; `"no servers found"` when none was observed.
pub fn format_status_codes(e: &[CheckResultElement]) -> (r: String)
    ensures
        r@ == code_summary(e@),
{
    let mut codes: Vec<u16> = Vec::new();
    let mut i: usize = 0;
    while i < e.len()
        invariant
            i <= e@.len(),
            strictly_increasing(codes@),
            forall|c: u16|
                #[trigger] codes@.contains(c) <==> exists|j: int|
                    0 <= j < i && e@[j].status_code == Some(c),
        decreases e@.len() - i,
    {
        if let Some(c) = e[i].status_code {
            let mut p: usize = 0;
            while p < codes.len() && codes[p] < c
                invariant
                    p <= codes@.len(),
                    forall|k: int| 0 <= k < p ==> codes@[k] < c,
                decreases codes@.len() - p,
            {
                p = p + 1;
            }
            if p < codes.len() && codes[p] == c {
                assert forall|d: u16|
                    #[trigger] codes@.contains(d) <==> exists|j: int|
                        0 <= j < i + 1 && e@[j].status_code == Some(d) by {
                    if d == c {
                        assert(codes@[p as int] == d);
                    }
                    if exists|j: int| 0 <= j < i + 1 && e@[j].status_code == Some(d) {
                        let j = choose|j: int| 0 <= j < i + 1 && e@[j].status_code == Some(d);
                        if j < i {
                        } else {
                            assert(codes@[p as int] == d);
                        }
                    }
                }
            } else {
                let ghost old_codes = codes@;
                codes.insert(p, c);
                assert forall|a: int, b: int| 0 <= a < b < codes@.len() implies codes@[a] < codes@[b] by {
                    if b < p {
                    } else if a < p && b == p {
                    } else if a < p {
                        assert(codes@[b] == old_codes[b - 1]);
                    } else if a == p {
                        assert(codes@[b] == old_codes[b - 1]);
                        assert(old_codes[p as int] >= c);
                        if b - 1 > p {
                            assert(old_codes[p as int] < old_codes[b - 1]);
                        }
                    } else {
                        assert(codes@[a] == old_codes[a - 1]);
                        assert(codes@[b] == old_codes[b - 1]);
                    }
                }
                assert forall|d: u16|
                    #[trigger] codes@.contains(d) <==> exists|j: int|
                        0 <= j < i + 1 && e@[j].status_code == Some(d) by {
                    if codes@.contains(d) {
                        let k = choose|k: int| 0 <= k < codes@.len() && codes@[k] == d;
                        if k < p {
                            assert(old_codes[k] == d);
                            assert(old_codes.contains(d));
                        } else if k > p {
                            assert(old_codes[k - 1] == d);
                            assert(old_codes.contains(d));
                        }
                    }
                    if exists|j: int| 0 <= j < i + 1 && e@[j].status_code == Some(d) {
                        let j = choose|j: int| 0 <= j < i + 1 && e@[j].status_code == Some(d);
                        if j < i {
                            assert(old_codes.contains(d));
                            let k = choose|k: int| 0 <= k < old_codes.len() && old_codes[k] == d;
                            if k < p {
                                assert(codes@[k] == d);
                            } else {
                                assert(codes@[k + 1] == d);
                            }
                        } else {
                            assert(codes@[p as int] == d);
                        }
                    }
                }
            }
        } else {
            assert forall|d: u16|
                #[trigger] codes@.contains(d) <==> exists|j: int|
                    0 <= j < i + 1 && e@[j].status_code == Some(d) by {
                if exists|j: int| 0 <= j < i + 1 && e@[j].status_code == Some(d) {
                    let j = choose|j: int| 0 <= j < i + 1 && e@[j].status_code == Some(d);
                    assert(j < i);
                }
            }
        }
        i = i + 1;
    }
    proof {
        assert forall|c: u16| #[trigger] codes@.contains(c) <==> codes_of(e@).contains(c) by {
            if codes@.contains(c) {
                let j = choose|j: int| 0 <= j < e@.len() && e@[j].status_code == Some(c);
                assert(e@.contains(e@[j]));
            }
            if codes_of(e@).contains(c) {
                let x = choose|x: CheckResultElement| e@.contains(x) && x.status_code == Some(c);
                let j = choose|j: int| 0 <= j < e@.len() && e@[j] == x;
                assert(e@[j].status_code == Some(c));
            }
        }
        lemma_sorted_codes_is(e@, codes@);
    }
    if codes.len() == 0 {
        proof {
            assert forall|c: u16| !codes_of(e@).contains(c) by {
                if codes_of(e@).contains(c) {
                    assert(codes@.contains(c));
                }
            }
            assert(codes_of(e@) =~= Set::empty());
        }
        let r = String::from_str("no servers found");
        proof {
            reveal_strlit("no servers found");
        }
        r
    } else {
        proof {
            assert(codes@.contains(codes@[0]));
            assert(codes_of(e@).contains(codes@[0]));
        }
        comma_list_string(codes.as_slice())
    }
}

} // verus!
