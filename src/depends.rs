//! The Debian relationship grammar: comma-separated groups of `|`-separated
//! alternatives, each a package name with an optional `(comparator version)`.

use vstd::prelude::*;
use vstd::string::StrSliceExecFns;
use vstd::string::StringExecFns;

use crate::error::{ErrorKind, IngestError};
use crate::text::{
    chars_of, find_first, find_last, first_index, last_index, same_text, split_on, strip_bounds,
    strip_leading, strip_trailing, trim, trim_bounds,
};

verus! {

/// The five version relations of a constraint.
#[derive(Clone, Copy, Debug, PartialEq, Eq, Structural, Hash)]
pub enum Comparator {
    StrictlyEarlier,
    EarlierOrEqual,
    ExactlyEqual,
    LaterOrEqual,
    StrictlyLater,
}

/// The comparator a token spells, if any.
pub open spec fn comparator_of(tok: Seq<char>) -> Option<Comparator> {
    if tok == "<<"@ {
        Some(Comparator::StrictlyEarlier)
    } else if tok == "<="@ {
        Some(Comparator::EarlierOrEqual)
    } else if tok == "="@ {
        Some(Comparator::ExactlyEqual)
    } else if tok == ">="@ {
        Some(Comparator::LaterOrEqual)
    } else if tok == ">>"@ {
        Some(Comparator::StrictlyLater)
    } else {
        None
    }
}

/// Reads a comparator token; any text but the five literals gives `None`.
pub fn deb_str_to_comparator(s: &str) -> (r: Option<Comparator>)
    ensures
        r == comparator_of(s@),
{
    if same_text(s, "<<") {
        Some(Comparator::StrictlyEarlier)
    } else if same_text(s, "<=") {
        Some(Comparator::EarlierOrEqual)
    } else if same_text(s, "=") {
        Some(Comparator::ExactlyEqual)
    } else if same_text(s, ">=") {
        Some(Comparator::LaterOrEqual)
    } else if same_text(s, ">>") {
        Some(Comparator::StrictlyLater)
    } else {
        None
    }
}

/// A required relation to a version.
#[derive(Clone, Debug)]
pub struct VersionConstraint {
    pub comparator: Comparator,
    pub version: String,
}

pub type ConstraintModel = (Comparator, Seq<char>);

impl View for VersionConstraint {
    type V = ConstraintModel;

    open spec fn view(&self) -> ConstraintModel {
        (self.comparator, self.version@)
    }
}

pub open spec fn constraint_model(c: Option<VersionConstraint>) -> Option<ConstraintModel> {
    match c {
        Some(v) => Some(v@),
        None => None,
    }
}

/// One relationship group: the alternatives in order of preference, each with
/// its optional constraint at the same index.
#[derive(Clone, Debug)]
pub struct Dependency {
    pub alternatives: Vec<String>,
    pub constraints: Vec<Option<VersionConstraint>>,
}

/// What a group holds, as mathematical values.
pub struct DependencyModel {
    pub alternatives: Seq<Seq<char>>,
    pub constraints: Seq<Option<ConstraintModel>>,
}

impl View for Dependency {
    type V = DependencyModel;

    open spec fn view(&self) -> DependencyModel {
        DependencyModel {
            alternatives: self.alternatives@.map_values(|s: String| s@),
            constraints: self.constraints@.map_values(
                |c: Option<VersionConstraint>| constraint_model(c),
            ),
        }
    }
}

impl Dependency {
    /// Both lists have one entry per alternative.
    pub open spec fn wf(&self) -> bool {
        self.alternatives@.len() == self.constraints@.len()
    }
}

pub open spec fn deps_model(v: Seq<Dependency>) -> Seq<DependencyModel> {
    v.map_values(|d: Dependency| d@)
}

pub type Fault = (ErrorKind, Seq<char>);

/// One alternative: its trimmed name and, where a `(` follows the name, the
/// constraint: the trimmed text from the last `(` on, without its opening
/// and closing parentheses, split on its last space into comparator token and
/// version.
pub open spec fn parse_alternative_spec(a: Seq<char>) -> Result<
    (Seq<char>, Option<ConstraintModel>),
    Fault,
> {
    match last_index(a, '(') {
        None => Ok((trim(a), None)),
        Some(m) => {
            let name = trim(a.subrange(0, m));
            let vl = trim(
                strip_trailing(strip_leading(trim(a.subrange(m, a.len() as int)), '('), ')'),
            );
            match last_index(vl, ' ') {
                None => Err((ErrorKind::InvalidConstraint, vl)),
                Some(k) => {
                    let tok = trim(vl.subrange(0, k));
                    let ver = trim(vl.subrange(k, vl.len() as int));
                    match comparator_of(tok) {
                        None => Err((ErrorKind::UnknownComparator, tok)),
                        Some(c) => Ok((name, Some((c, ver)))),
                    }
                },
            }
        },
    }
}

/// The alternatives of one group, parsed in order; the first failure wins.
pub open spec fn parse_alternatives_spec(alts: Seq<Seq<char>>) -> Result<DependencyModel, Fault>
    decreases alts.len(),
{
    if alts.len() == 0 {
        Ok(DependencyModel { alternatives: Seq::empty(), constraints: Seq::empty() })
    } else {
        match parse_alternative_spec(alts[0]) {
            Err(e) => Err(e),
            Ok((name, c)) => match parse_alternatives_spec(alts.drop_first()) {
                Err(e) => Err(e),
                Ok(rest) => Ok(
                    DependencyModel {
                        alternatives: seq![name] + rest.alternatives,
                        constraints: seq![c] + rest.constraints,
                    },
                ),
            },
        }
    }
}

/// One comma-separated group.
pub open spec fn parse_group_spec(g: Seq<char>) -> Result<DependencyModel, Fault> {
    parse_alternatives_spec(split_on(g, '|'))
}

/// The groups of a field, parsed in order; the first failure wins.
pub open spec fn parse_groups_spec(gs: Seq<Seq<char>>) -> Result<Seq<DependencyModel>, Fault>
    decreases gs.len(),
{
    if gs.len() == 0 {
        Ok(Seq::empty())
    } else {
        match parse_group_spec(gs[0]) {
            Err(e) => Err(e),
            Ok(d) => match parse_groups_spec(gs.drop_first()) {
                Err(e) => Err(e),
                Ok(rest) => Ok(seq![d] + rest),
            },
        }
    }
}

/// A whole relationship field such as the value of `Depends`.
pub open spec fn parse_depends_spec(line: Seq<char>) -> Result<Seq<DependencyModel>, Fault> {
    parse_groups_spec(split_on(line, ','))
}

/// The text of `s` between two character positions.
fn text_between(s: &str, lo: usize, hi: usize) -> (r: String)
    requires
        lo <= hi <= s@.len(),
    ensures
        r@ == s@.subrange(lo as int, hi as int),
{
    String::from_str(s.substring_char(lo, hi))
}

/// Parses the alternative `s[lo..hi]`; `cs` holds the characters of `s`.
fn parse_alternative(s: &str, cs: &Vec<char>, lo: usize, hi: usize) -> (r: Result<
    (String, Option<VersionConstraint>),
    IngestError,
>)
    requires
        cs@ == s@,
        lo <= hi <= s@.len(),
    ensures
        (match r {
            Ok((n, c)) => parse_alternative_spec(s@.subrange(lo as int, hi as int)) == Ok::<
                (Seq<char>, Option<ConstraintModel>),
                Fault,
            >((n@, constraint_model(c))),
            Err(e) => parse_alternative_spec(s@.subrange(lo as int, hi as int)) == Err::<
                (Seq<char>, Option<ConstraintModel>),
                Fault,
            >(e@),
        }),
{
    let ghost a = s@.subrange(lo as int, hi as int);
    match find_last(cs, lo, hi, '(') {
        None => {
            let (x, y) = trim_bounds(cs, lo, hi);
            Ok((text_between(s, x, y), None))
        },
        Some(m) => {
            let mid = lo + m;
            assert(a.subrange(0, m as int) =~= cs@.subrange(lo as int, mid as int));
            assert(a.subrange(m as int, a.len() as int) =~= cs@.subrange(mid as int, hi as int));
            let (x, y) = trim_bounds(cs, lo, mid);
            let name = text_between(s, x, y);
            let (u0, u1) = trim_bounds(cs, mid, hi);
            let (p, q) = strip_bounds(cs, u0, u1, '(', ')');
            let (v0, v1) = trim_bounds(cs, p, q);
            let ghost vl = cs@.subrange(v0 as int, v1 as int);
            match find_last(cs, v0, v1, ' ') {
                None => Err(IngestError::InvalidConstraint(text_between(s, v0, v1))),
                Some(k) => {
                    let split = v0 + k;
                    assert(vl.subrange(0, k as int) =~= cs@.subrange(v0 as int, split as int));
                    assert(vl.subrange(k as int, vl.len() as int) =~= cs@.subrange(
                        split as int,
                        v1 as int,
                    ));
                    let (t0, t1) = trim_bounds(cs, v0, split);
                    let tok = text_between(s, t0, t1);
                    let (w0, w1) = trim_bounds(cs, split, v1);
                    match deb_str_to_comparator(tok.as_str()) {
                        None => Err(IngestError::UnknownComparator(tok)),
                        Some(c) => Ok(
                            (
                                name,
                                Some(
                                    VersionConstraint {
                                        comparator: c,
                                        version: text_between(s, w0, w1),
                                    },
                                ),
                            ),
                        ),
                    }
                },
            }
        },
    }
}

proof fn lemma_alternatives_aligned(alts: Seq<Seq<char>>)
    ensures
        parse_alternatives_spec(alts) matches Ok(d) ==> d.alternatives.len() == d.constraints.len(),
    decreases alts.len(),
{
    if alts.len() > 0 {
        lemma_alternatives_aligned(alts.drop_first());
    }
}

proof fn lemma_groups_aligned(gs: Seq<Seq<char>>)
    ensures
        parse_groups_spec(gs) matches Ok(v) ==> forall|i: int|
            0 <= i < v.len() ==> #[trigger] v[i].alternatives.len() == v[i].constraints.len(),
    decreases gs.len(),
{
    if gs.len() > 0 {
        lemma_groups_aligned(gs.drop_first());
        lemma_alternatives_aligned(split_on(gs[0], '|'));
        if let Ok(v) = parse_groups_spec(gs) {
            let rest = parse_groups_spec(gs.drop_first())->Ok_0;
            assert forall|i: int| 0 < i < v.len() implies #[trigger] v[i].alternatives.len()
                == v[i].constraints.len() by {
                assert(v[i] == rest[i - 1]);
            }
        }
    }
}

/// Every group of a successfully parsed field has as many constraints as
/// alternatives.
pub proof fn lemma_parsed_groups_aligned(line: Seq<char>)
    ensures
        parse_depends_spec(line) matches Ok(v) ==> forall|i: int|
            0 <= i < v.len() ==> #[trigger] v[i].alternatives.len() == v[i].constraints.len(),
{
    lemma_groups_aligned(split_on(line, ','));
}

/// `acc` followed by what `r` holds, or the failure of `r`.
pub open spec fn after_alternatives(acc: DependencyModel, r: Result<DependencyModel, Fault>) -> Result<
    DependencyModel,
    Fault,
> {
    match r {
        Ok(v) => Ok(
            DependencyModel {
                alternatives: acc.alternatives + v.alternatives,
                constraints: acc.constraints + v.constraints,
            },
        ),
        Err(e) => Err(e),
    }
}

/// `acc` followed by what `r` holds, or the failure of `r`.
pub open spec fn after_groups(acc: Seq<DependencyModel>, r: Result<Seq<DependencyModel>, Fault>) -> Result<
    Seq<DependencyModel>,
    Fault,
> {
    match r {
        Ok(v) => Ok(acc + v),
        Err(e) => Err(e),
    }
}

/// `split_on` takes off the piece up to the first separator.
proof fn lemma_split_step(s: Seq<char>, sep: char, k: Option<int>)
    requires
        first_index(s, sep) == k,
        k matches Some(i) ==> 0 <= i < s.len(),
    ensures
        (match k {
            Some(i) => split_on(s, sep) == seq![s.subrange(0, i)] + split_on(
                s.subrange(i + 1, s.len() as int),
                sep,
            ),
            None => split_on(s, sep) == seq![s],
        }),
{
}

/// Parses the group `s[lo..hi]`; `cs` holds the characters of `s`.
fn parse_group(s: &str, cs: &Vec<char>, lo: usize, hi: usize) -> (r: Result<Dependency, IngestError>)
    requires
        cs@ == s@,
        lo <= hi <= s@.len(),
    ensures
        (match r {
            Ok(d) => d.wf() && parse_group_spec(s@.subrange(lo as int, hi as int)) == Ok::<
                DependencyModel,
                Fault,
            >(d@),
            Err(e) => parse_group_spec(s@.subrange(lo as int, hi as int)) == Err::<
                DependencyModel,
                Fault,
            >(e@),
        }),
{
    let mut d = Dependency { alternatives: Vec::new(), constraints: Vec::new() };
    let mut start = lo;
    proof {
        let r = parse_alternatives_spec(split_on(s@.subrange(lo as int, hi as int), '|'));
        match r {
            Ok(v) => {
                assert(d@.alternatives + v.alternatives =~= v.alternatives);
                assert(d@.constraints + v.constraints =~= v.constraints);
            },
            Err(_) => {},
        }
    }
    loop
        invariant
            cs@ == s@,
            lo <= start <= hi <= s@.len(),
            d.wf(),
            parse_group_spec(s@.subrange(lo as int, hi as int)) == after_alternatives(
                d@,
                parse_alternatives_spec(split_on(s@.subrange(start as int, hi as int), '|')),
            ),
        decreases hi - start,
    {
        let ghost rest = s@.subrange(start as int, hi as int);
        let k = find_first(cs, start, hi, '|');
        let end = match k {
            Some(k) => start + k,
            None => hi,
        };
        let ghost gk = match k {
            Some(k) => Some(k as int),
            None => None::<int>,
        };
        proof {
            lemma_split_step(rest, '|', gk);
            assert(rest.subrange(0, end - start) =~= s@.subrange(start as int, end as int));
            if end < hi {
                assert(rest.subrange(end - start + 1, rest.len() as int) =~= s@.subrange(
                    end + 1,
                    hi as int,
                ));
            }
        }
        let ghost pieces = split_on(rest, '|');
        assert(pieces[0] == s@.subrange(start as int, end as int));
        match parse_alternative(s, cs, start, end) {
            Err(e) => {
                return Err(e);
            },
            Ok((name, c)) => {
                let ghost old_d = d@;
                d.alternatives.push(name);
                d.constraints.push(c);
                proof {
                    assert(d@.alternatives =~= old_d.alternatives.push(name@));
                    assert(d@.constraints =~= old_d.constraints.push(constraint_model(c)));
                    let tail = parse_alternatives_spec(pieces.drop_first());
                    match tail {
                        Ok(v) => {
                            assert(old_d.alternatives + (seq![name@] + v.alternatives)
                                =~= d@.alternatives + v.alternatives);
                            assert(old_d.constraints + (seq![constraint_model(c)] + v.constraints)
                                =~= d@.constraints + v.constraints);
                        },
                        Err(_) => {},
                    }
                }
                if end == hi {
                    proof {
                        assert(pieces.drop_first() =~= Seq::<Seq<char>>::empty());
                        assert(d@.alternatives + Seq::<Seq<char>>::empty() =~= d@.alternatives);
                        assert(d@.constraints + Seq::<Option<ConstraintModel>>::empty()
                            =~= d@.constraints);
                    }
                    return Ok(d);
                }
                assert(pieces.drop_first() =~= split_on(
                    s@.subrange(end + 1, hi as int),
                    '|',
                ));
                start = end + 1;
            },
        }
    }
}

/// Parses a relationship field into its groups, in order. The first
/// alternative, in reading order, whose constraint holds no space or names an
/// unknown comparator makes the whole field fail with that error.
pub fn parse_depends(line: &str) -> (r: Result<Vec<Dependency>, IngestError>)
    ensures
        (match r {
            Ok(v) => (forall|i: int| 0 <= i < v@.len() ==> #[trigger] v@[i].wf())
                && parse_depends_spec(line@) == Ok::<Seq<DependencyModel>, Fault>(deps_model(v@)),
            Err(e) => parse_depends_spec(line@) == Err::<Seq<DependencyModel>, Fault>(e@),
        }),
{
    let cs = chars_of(line);
    let n = cs.len();
    let mut out: Vec<Dependency> = Vec::new();
    let mut start: usize = 0;
    proof {
        assert(line@.subrange(0, n as int) =~= line@);
        match parse_groups_spec(split_on(line@, ',')) {
            Ok(v) => {
                assert(deps_model(out@) + v =~= v);
            },
            Err(_) => {},
        }
    }
    loop
        invariant
            cs@ == line@,
            n == line@.len(),
            start <= n,
            forall|i: int| 0 <= i < out@.len() ==> #[trigger] out@[i].wf(),
            parse_depends_spec(line@) == after_groups(
                deps_model(out@),
                parse_groups_spec(split_on(line@.subrange(start as int, n as int), ',')),
            ),
        decreases n - start,
    {
        let ghost rest = line@.subrange(start as int, n as int);
        let k = find_first(&cs, start, n, ',');
        let end = match k {
            Some(k) => start + k,
            None => n,
        };
        let ghost gk = match k {
            Some(k) => Some(k as int),
            None => None::<int>,
        };
        proof {
            lemma_split_step(rest, ',', gk);
            assert(rest.subrange(0, end - start) =~= line@.subrange(start as int, end as int));
            if end < n {
                assert(rest.subrange(end - start + 1, rest.len() as int) =~= line@.subrange(
                    end + 1,
                    n as int,
                ));
            }
        }
        let ghost pieces = split_on(rest, ',');
        assert(pieces[0] == line@.subrange(start as int, end as int));
        match parse_group(line, &cs, start, end) {
            Err(e) => {
                return Err(e);
            },
            Ok(d) => {
                let ghost old_m = deps_model(out@);
                out.push(d);
                proof {
                    assert(deps_model(out@) =~= old_m.push(d@));
                    match parse_groups_spec(pieces.drop_first()) {
                        Ok(v) => {
                            assert(old_m + (seq![d@] + v) =~= deps_model(out@) + v);
                        },
                        Err(_) => {},
                    }
                }
                if end == n {
                    proof {
                        assert(pieces.drop_first() =~= Seq::<Seq<char>>::empty());
                        assert(deps_model(out@) + Seq::<DependencyModel>::empty() =~= deps_model(
                            out@,
                        ));
                    }
                    return Ok(out);
                }
                assert(pieces.drop_first() =~= split_on(line@.subrange(end + 1, n as int), ','));
                start = end + 1;
            },
        }
    }
}

} // verus!
