//! Input generation: descriptors drawn from weighted choices over a path
//! corpus, directory handles and flag sets, and the shrinking of a failing
//! draw toward a smallest one that still fails.
use crate::flags::{named_flags, named_flags_spec};
use crate::syscall::{opt_view, Operation, SyscallModel};
use vstd::prelude::*;

verus! {

/// A drawn descriptor as indices: the corpus entry of the path, the corpus
/// entry the directory handle is opened from (if any), and the flag set.
#[derive(PartialEq, Eq, Structural, Clone, Copy, Debug)]
pub struct Params {
    pub path: usize,
    pub dir: Option<usize>,
    pub flags: i32,
}

/// The sum of the first `k` weights.
pub open spec fn prefix_sum(w: Seq<u64>, k: int) -> int
    decreases k,
{
    if k <= 0 || k > w.len() {
        0
    } else {
        prefix_sum(w, k - 1) + w[k - 1]
    }
}

proof fn lemma_prefix_sum_mono(w: Seq<u64>, j: int, k: int)
    requires
        0 <= j <= k <= w.len(),
    ensures
        prefix_sum(w, j) <= prefix_sum(w, k),
    decreases k - j,
{
    if j < k {
        lemma_prefix_sum_mono(w, j, k - 1);
    }
}

/// Picks the entry whose share of the total weight holds `draw`, taken modulo
/// the total.
pub fn pick_weighted(weights: &Vec<u64>, draw: u64) -> (r: usize)
    requires
        0 < prefix_sum(weights@, weights@.len() as int) <= u64::MAX,
    ensures
        r < weights@.len(),
        prefix_sum(weights@, r as int) <= draw as int % prefix_sum(weights@, weights@.len() as int)
            < prefix_sum(weights@, r as int + 1),
{
    let ghost w = weights@;
    let ghost n = w.len() as int;
    let mut total: u64 = 0;
    let mut k: usize = 0;
    while k < weights.len()
        invariant
            k <= n,
            w == weights@,
            n == weights@.len(),
            0 < prefix_sum(w, n) <= u64::MAX,
            total as int == prefix_sum(w, k as int),
        decreases n - k,
    {
        proof {
            lemma_prefix_sum_mono(w, k as int + 1, n);
        }
        total = total + weights[k];
        k = k + 1;
    }
    let target = draw % total;
    let mut acc: u64 = 0;
    let mut k: usize = 0;
    while k < weights.len()
        invariant
            k <= n,
            w == weights@,
            n == weights@.len(),
            total as int == prefix_sum(w, n),
            0 < total,
            target < total,
            target as int == draw as int % total as int,
            acc as int == prefix_sum(w, k as int),
            acc <= target,
        decreases n - k,
    {
        proof {
            lemma_prefix_sum_mono(w, k as int + 1, n);
        }
        if target < acc + weights[k] {
            return k;
        }
        acc = acc + weights[k];
        k = k + 1;
    }
    proof {
        assert(false);
    }
    0
}

/// The flag sets a draw chooses among: the empty set, then each named flag.
pub open spec fn flag_choices() -> Seq<i32> {
    seq![0i32] + named_flags_spec()
}

/// Their weights: the empty set ten times as likely as any one flag.
pub open spec fn flag_weights() -> Seq<u64> {
    seq![10u64, 1, 1, 1, 1, 1]
}

/// The index of the weighted choice that `draw` lands on.
pub open spec fn lands_on(w: Seq<u64>, draw: u64, k: int) -> bool {
    0 <= k < w.len() && prefix_sum(w, k) <= draw as int % prefix_sum(w, w.len() as int)
        < prefix_sum(w, k + 1)
}

/// Draws a flag set.
pub fn draw_flags(draw: u64) -> (r: i32)
    ensures
        exists|k: int| lands_on(flag_weights(), draw, k) && r == flag_choices()[k],
{
    let weights: Vec<u64> = vec![10, 1, 1, 1, 1, 1];
    assert(weights@ =~= flag_weights());
    assert(prefix_sum(weights@, 6) == 15) by {
        reveal_with_fuel(prefix_sum, 7);
    }
    let k = pick_weighted(&weights, draw);
    let mut choices: Vec<i32> = vec![0];
    let mut named = named_flags();
    choices.append(&mut named);
    assert(choices@ =~= flag_choices());
    let r = choices[k];
    assert(lands_on(flag_weights(), draw, k as int));
    r
}

/// Draws a corpus entry uniformly.
pub fn draw_path(corpus_len: usize, draw: u64) -> (r: usize)
    requires
        corpus_len > 0,
    ensures
        r as int == draw as int % corpus_len as int,
        r < corpus_len,
{
    (draw % (corpus_len as u64)) as usize
}

/// Draws a directory handle: no handle for half of all draws, the other half
/// split evenly over the corpus entries.
pub fn draw_dir(corpus_len: usize, draw: u64) -> (r: Option<usize>)
    requires
        0 < corpus_len <= u32::MAX,
    ensures
        r == (if (draw as int % (2 * corpus_len as int)) < corpus_len as int {
            None::<usize>
        } else {
            Some((draw as int % (2 * corpus_len as int) - corpus_len as int) as usize)
        }),
{
    let t = draw % (2 * corpus_len as u64);
    if t < corpus_len as u64 {
        None
    } else {
        Some((t - corpus_len as u64) as usize)
    }
}

/// Draws the parameters of a metadata query over a corpus of `corpus_len`
/// paths from three independent draws.
pub fn draw_params(corpus_len: usize, path_draw: u64, dir_draw: u64, flag_draw: u64) -> (r: Params)
    requires
        0 < corpus_len <= u32::MAX,
    ensures
        r.path < corpus_len,
        r.dir matches Some(d) ==> d < corpus_len,
        r.path as int == path_draw as int % corpus_len as int,
        r.dir == (if (dir_draw as int % (2 * corpus_len as int)) < corpus_len as int {
            None::<usize>
        } else {
            Some((dir_draw as int % (2 * corpus_len as int) - corpus_len as int) as usize)
        }),
        exists|k: int| lands_on(flag_weights(), flag_draw, k) && r.flags == flag_choices()[k],
{
    Params {
        path: draw_path(corpus_len, path_draw),
        dir: draw_dir(corpus_len, dir_draw),
        flags: draw_flags(flag_draw),
    }
}

/// The metadata query that parameters stand for over a corpus.
pub fn to_syscall(corpus: &Vec<String>, p: Params) -> (r: Operation)
    requires
        p.path < corpus@.len(),
        p.dir matches Some(d) ==> d < corpus@.len(),
    ensures
        r@ == (SyscallModel::Fstatat {
            path: corpus@[p.path as int]@,
            dir: match p.dir {
                Some(d) => Some(corpus@[d as int]@),
                None => None,
            },
            flags: p.flags,
        }),
{
    let dir = match p.dir {
        Some(d) => Some(corpus[d].clone()),
        None => None,
    };
    let r = Operation::Fstatat { path: corpus[p.path].clone(), dir, flags: p.flags };
    assert(opt_view(dir) == match p.dir {
        Some(d) => Some(corpus@[d as int]@),
        None => None::<Seq<char>>,
    });
    r
}

// ---------------------------------------------------------------- shrinking

/// Where a shrinking run stands.
#[derive(PartialEq, Eq, Structural, Clone, Copy, Debug)]
pub enum Stage {
    /// Next: the best failure without its directory handle.
    DropDir,
    /// Next: the best failure with the empty flag set.
    DropFlags,
    /// Next: the best failure with this smaller corpus index.
    Index(usize),
    /// Nothing is left to try.
    Done,
}

/// `c` is no larger than `b` in any dimension.
pub open spec fn no_larger(c: Params, b: Params) -> bool {
    &&& c.path <= b.path
    &&& (c.dir is None || c.dir == b.dir)
    &&& (c.flags == 0 || c.flags == b.flags)
}

/// `p` with the corpus index `j`.
pub open spec fn with_path(p: Params, j: usize) -> Params {
    Params { path: j, ..p }
}

/// The candidate that a stage proposes for a best failure.
pub open spec fn candidate_of(best: Params, stage: Stage) -> Option<Params> {
    match stage {
        Stage::DropDir => Some(Params { dir: None, ..best }),
        Stage::DropFlags => Some(Params { flags: 0, ..best }),
        Stage::Index(i) => Some(Params { path: i, ..best }),
        Stage::Done => None,
    }
}

/// The first stage from `stage` on that proposes a strictly smaller candidate.
pub open spec fn settle(best: Params, stage: Stage) -> Stage {
    let s1 = if stage == Stage::DropDir && best.dir is None {
        Stage::DropFlags
    } else {
        stage
    };
    let s2 = if s1 == Stage::DropFlags && best.flags == 0 {
        Stage::Index(0)
    } else {
        s1
    };
    match s2 {
        Stage::Index(i) => if i >= best.path {
            Stage::Done
        } else {
            s2
        },
        _ => s2,
    }
}

/// How much is left to try: it falls with every recorded result.
pub open spec fn rank(best: Params, stage: Stage) -> int {
    match stage {
        Stage::DropDir => best.path + 3,
        Stage::DropFlags => best.path + 2,
        Stage::Index(i) => best.path - i + 1,
        Stage::Done => 0,
    }
}

fn settle_exec(best: Params, stage: Stage) -> (r: Stage)
    ensures
        r == settle(best, stage),
{
    let s1 = if stage == Stage::DropDir && best.dir.is_none() {
        Stage::DropFlags
    } else {
        stage
    };
    let s2 = if s1 == Stage::DropFlags && best.flags == 0 {
        Stage::Index(0)
    } else {
        s1
    };
    match s2 {
        Stage::Index(i) => if i >= best.path {
            Stage::Done
        } else {
            s2
        },
        _ => s2,
    }
}

/// A candidate without a handle, no smaller in index than `best`, was rejected.
pub open spec fn handle_needed(best: Params, rejected: Set<Params>) -> bool {
    exists|c: Params| #[trigger] rejected.contains(c) && c.dir is None && c.path >= best.path
}

/// A candidate with the empty flag set and `best`'s handle, no smaller in
/// index than `best`, was rejected.
pub open spec fn flags_needed(best: Params, rejected: Set<Params>) -> bool {
    exists|c: Params|
        #[trigger] rejected.contains(c) && c.flags == 0 && c.dir == best.dir && c.path
            >= best.path
}

/// A shrinking run: it proposes candidates one at a time, each no larger than
/// the best failure so far, and keeps the candidates that still fail.
pub struct Shrinker {
    best: Params,
    stage: Stage,
    rejected: Ghost<Set<Params>>,
}

impl Shrinker {
    pub closed spec fn best_spec(&self) -> Params {
        self.best
    }

    pub closed spec fn stage_spec(&self) -> Stage {
        self.stage
    }

    /// The candidates that were tried and did not fail.
    pub closed spec fn rejected(&self) -> Set<Params> {
        self.rejected@
    }

    pub closed spec fn wf(&self) -> bool {
        &&& self.stage == settle(self.best, self.stage)
        &&& (self.stage != Stage::DropDir && self.best.dir is Some ==> handle_needed(
            self.best,
            self.rejected@,
        ))
        &&& (self.stage != Stage::DropDir && self.stage != Stage::DropFlags && self.best.flags
            != 0 ==> flags_needed(self.best, self.rejected@))
        &&& (self.stage matches Stage::Index(i) ==> i < self.best.path && forall|j: usize|
            j < i ==> self.rejected@.contains(#[trigger] with_path(self.best, j)))
        &&& (self.stage == Stage::Done ==> forall|j: usize|
            j < self.best.path ==> self.rejected@.contains(#[trigger] with_path(self.best, j)))
    }

    /// Starts from a failing draw.
    pub fn new(failing: Params) -> (r: Shrinker)
        ensures
            r.wf(),
            r.best_spec() == failing,
            r.rejected() == Set::<Params>::empty(),
    {
        Shrinker {
            best: failing,
            stage: settle_exec(failing, Stage::DropDir),
            rejected: Ghost(Set::empty()),
        }
    }

    /// The smallest failing draw found so far.
    pub fn best(&self) -> (r: Params)
        ensures
            r == self.best_spec(),
    {
        self.best
    }

    /// Whether nothing is left to try.
    pub fn is_done(&self) -> (r: bool)
        ensures
            r == (self.stage_spec() == Stage::Done),
    {
        self.stage == Stage::Done
    }

    /// The next draw to try, strictly smaller than the best failure in one
    /// dimension and no larger in any; `None` once the run is done.
    pub fn candidate(&self) -> (r: Option<Params>)
        requires
            self.wf(),
        ensures
            r == candidate_of(self.best_spec(), self.stage_spec()),
            r matches Some(c) ==> no_larger(c, self.best_spec()) && c != self.best_spec(),
            r is None <==> self.stage_spec() == Stage::Done,
    {
        match self.stage {
            Stage::DropDir => Some(Params { dir: None, ..self.best }),
            Stage::DropFlags => Some(Params { flags: 0, ..self.best }),
            Stage::Index(i) => Some(Params { path: i, ..self.best }),
            Stage::Done => None,
        }
    }

    /// Records whether the current candidate still failed: if so it becomes
    /// the best failure, if not it is rejected.
    pub fn record(&mut self, failed: bool)
        requires
            old(self).wf(),
            old(self).stage_spec() != Stage::Done,
        ensures
            final(self).wf(),
            ({
                let c = candidate_of(old(self).best_spec(), old(self).stage_spec())->0;
                &&& final(self).best_spec() == (if failed {
                    c
                } else {
                    old(self).best_spec()
                })
                &&& final(self).rejected() == (if failed {
                    old(self).rejected()
                } else {
                    old(self).rejected().insert(c)
                })
            }),
            no_larger(final(self).best_spec(), old(self).best_spec()),
            0 <= rank(final(self).best_spec(), final(self).stage_spec()) < rank(
                old(self).best_spec(),
                old(self).stage_spec(),
            ),
    {
        let c = self.candidate().unwrap();
        if failed {
            self.best = c;
        } else {
            self.rejected = Ghost(self.rejected@.insert(c));
        }
        let next = match self.stage {
            Stage::DropDir => Stage::DropFlags,
            Stage::DropFlags => Stage::Index(0),
            Stage::Index(i) => if failed {
                Stage::Done
            } else {
                Stage::Index(i + 1)
            },
            Stage::Done => Stage::Done,
        };
        self.stage = settle_exec(self.best, next);
        proof {
            let ob = old(self).best;
            let orj = old(self).rejected@;
            if old(self).stage != Stage::DropDir && ob.dir is Some {
                let w = choose|w: Params| #[trigger] orj.contains(w) && w.dir is None && w.path >= ob.path;
                assert(self.rejected@.contains(w));
            }
            if old(self).stage != Stage::DropDir && old(self).stage != Stage::DropFlags && ob.flags != 0 {
                let w = choose|w: Params|
                    #[trigger] orj.contains(w) && w.flags == 0 && w.dir == ob.dir && w.path >= ob.path;
                assert(self.rejected@.contains(w));
            }
            if old(self).stage == Stage::DropFlags && old(self).best.dir is Some {
                let w = choose|w: Params| #[trigger] orj.contains(w) && w.dir is None && w.path >= ob.path;
                assert(self.rejected@.contains(w));
            }
            if !failed {
                assert(self.rejected@.contains(c));
            }
            if let Stage::Index(i) = old(self).stage {
                let ob = old(self).best;
                assert(c == with_path(ob, i));
                assert forall|j: usize| j < self.best.path && (j < i || !failed) implies #[trigger] with_path(
                    self.best,
                    j,
                ) == with_path(ob, j) by {}
                if failed {
                    assert forall|j: usize| j < self.best.path implies self.rejected@.contains(
                        #[trigger] with_path(self.best, j),
                    ) by {
                        assert(with_path(self.best, j) == with_path(ob, j));
                    }
                } else {
                    assert forall|j: usize| j < i + 1 implies self.rejected@.contains(
                        #[trigger] with_path(self.best, j),
                    ) by {
                        if j < i {
                            assert(old(self).rejected@.contains(with_path(ob, j)));
                        }
                    }
                }
            }
        }
    }
}

/// Shrinking law: in a finished run, every smaller corpus index under the
/// result's handle and flags was tried and did not fail; if the result keeps a
/// handle, a draw without one (and no smaller index) did not fail; if it keeps
/// flags, a draw with the empty set, the same handle and no smaller index did
/// not fail. With `record` (the result only moves to a failing candidate) and
/// `candidate` (never larger in any dimension), this is the smallest failure.
pub proof fn lemma_shrink_minimal(s: Shrinker, j: usize)
    requires
        s.wf(),
        s.stage_spec() == Stage::Done,
        j < s.best_spec().path,
    ensures
        s.rejected().contains(with_path(s.best_spec(), j)),
        s.best_spec().dir is Some ==> handle_needed(s.best_spec(), s.rejected()),
        s.best_spec().flags != 0 ==> flags_needed(s.best_spec(), s.rejected()),
{
}

} // verus!
