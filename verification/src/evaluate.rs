//! The fitness evaluator: a deterministic typing pass of a corpus over a
//! layout, and the fixed-point scoring formula on top of it.
//!
//! Fitness is kept in integer milli-units so that identical inputs give
//! bit-identical scores: a straight step of one key costs 1000 distance
//! units, and all four fitness terms are scaled by 1000.

use vstd::prelude::*;
use crate::distance::{finger_of, finger_of_pos, home_of, home_positions, lemma_same_finger_cost,
    spec_entry, DistanceMatrix};
use crate::errors::OptError;
use crate::layout::Layout;

verus! {

/// A byte the evaluator accepts: a lower-case letter or a newline.
pub open spec fn valid_byte(b: u8) -> bool {
    b == 10 || (97 <= b && b <= 122)
}

/// Every byte of the corpus is a lower-case letter or a newline.
pub open spec fn corpus_ok(s: Seq<u8>) -> bool {
    forall|k: int| 0 <= k < s.len() ==> valid_byte(#[trigger] s[k])
}

/// The hand a finger belongs to: fingers 0..4 are the left hand.
pub open spec fn hand_of(f: int) -> int {
    if f < 4 {
        0
    } else {
        1
    }
}

/// Each finger resting on its home position.
pub open spec fn home_seq() -> Seq<int> {
    Seq::new(8, |f: int| home_of(f))
}

/// The state of the simulated typing pass: where each finger rests, which
/// finger struck last, and the running totals.
pub ghost struct SimState {
    /// Current position of each of the 8 fingers.
    pub fingers: Seq<int>,
    /// Finger used by the previous counted keystroke.
    pub prev: int,
    /// Counted keystrokes so far.
    pub keys: int,
    /// Accumulated travel distance in 1/1000 key units.
    pub dist: int,
    /// Successive strokes of one finger that actually moved it.
    pub rep_f: int,
    /// Successive strokes within one hand that moved the finger.
    pub rep_h: int,
    /// Keystrokes per finger.
    pub usage: Seq<int>,
}

/// The state before any keystroke: all fingers at home; the notional
/// previous finger is the left pinky.
pub open spec fn sim_init() -> SimState {
    SimState {
        fingers: home_seq(),
        prev: 0,
        keys: 0,
        dist: 0,
        rep_f: 0,
        rep_h: 0,
        usage: Seq::new(8, |f: int| 0),
    }
}

/// One byte of the pass. A newline sends the hands back to rest and counts
/// nothing. A letter moves the finger assigned to its position there, pays
/// the travel cost, and is checked against the previous stroke for
/// same-finger and same-hand repeats; a stroke that leaves the finger in
/// place is no repeat.
pub open spec fn sim_step(layout: Seq<u8>, st: SimState, b: u8) -> SimState {
    if b == 10 {
        SimState { fingers: home_seq(), ..st }
    } else {
        let p = layout[b - 97] as int;
        let f = finger_of(p);
        let src = st.fingers[f];
        let c = spec_entry(src, p)->Some_0 as int;
        SimState {
            fingers: st.fingers.update(f, p),
            prev: f,
            keys: st.keys + 1,
            dist: st.dist + c,
            rep_f: st.rep_f + (if p != src && f == st.prev {
                1int
            } else {
                0int
            }),
            rep_h: st.rep_h + (if p != src && hand_of(f) == hand_of(st.prev) {
                1int
            } else {
                0int
            }),
            usage: st.usage.update(f, st.usage[f] + 1),
        }
    }
}

/// The whole pass of a corpus over a layout.
pub open spec fn sim(layout: Seq<u8>, s: Seq<u8>) -> SimState
    decreases s.len(),
{
    if s.len() <= 0 {
        sim_init()
    } else {
        sim_step(layout, sim(layout, s.drop_last()), s.last())
    }
}

/// The raw counts of one typing pass.
pub struct TypingStats {
    pub total_keys: u64,
    pub total_distance: u64,
    pub repeat_fingers: u64,
    pub repeat_hands: u64,
    pub usage: Vec<u64>,
}

impl TypingStats {
    /// The counts a typing pass can actually produce, as far as the scoring
    /// arithmetic needs them.
    pub open spec fn wf(self) -> bool {
        &&& self.usage@.len() == 8
        &&& self.total_keys <= 0xFFFF_FFFFu64
        &&& forall|f: int| 0 <= f < 8 ==> self.usage@[f] <= self.total_keys
    }
}

/// The stats report exactly the totals of the simulated pass.
pub open spec fn stats_agree(st: TypingStats, m: SimState) -> bool {
    &&& st.total_keys as int == m.keys
    &&& st.total_distance as int == m.dist
    &&& st.repeat_fingers as int == m.rep_f
    &&& st.repeat_hands as int == m.rep_h
    &&& st.usage@.len() == 8
    &&& forall|f: int| 0 <= f < 8 ==> st.usage@[f] as int == m.usage[f]
}

/// Runs the typing pass of `corpus` over `layout`. Rejects the first byte
/// outside the alphabet; otherwise reports the exact totals of the pass.
pub fn simulate(layout: &Layout, corpus: &Vec<u8>, dm: &DistanceMatrix) -> (r: Result<
    TypingStats,
    OptError,
>)
    requires
        layout.wf(),
        dm.wf(),
        corpus@.len() < 0x1000_0000,
    ensures
        (r is Ok) <==> corpus_ok(corpus@),
        r is Err ==> r->Err_0 == OptError::InvalidCharacter,
        r is Ok ==> stats_agree(r->Ok_0, sim(layout.keys@, corpus@)),
        r is Ok ==> r->Ok_0.wf(),
        r is Ok ==> sim(layout.keys@, corpus@).usage.len() == 8,
{
    let n = corpus.len();
    let mut fingers: Vec<u8> = home_positions();
    let mut prev: u8 = 0;
    let mut total_keys: u64 = 0;
    let mut dist: u64 = 0;
    let mut rep_f: u64 = 0;
    let mut rep_h: u64 = 0;
    let mut usage: Vec<u64> = Vec::new();
    for f in 0..8usize
        invariant
            usage@.len() == f,
            forall|k: int| 0 <= k < f ==> usage@[k] == 0,
    {
        usage.push(0);
    }
    proof {
        assert forall|f: int| 0 <= f < 8 implies fingers@[f] < 26 && finger_of(
            fingers@[f] as int,
        ) == f by {
            crate::distance::lemma_home_positions(f);
        }
        assert(corpus@.subrange(0, 0).len() == 0);
    }
    for idx in 0..n
        invariant
            sim(layout.keys@, corpus@.subrange(0, idx as int)).fingers.len() == 8,
            sim(layout.keys@, corpus@.subrange(0, idx as int)).usage.len() == 8,
            n == corpus@.len(),
            n < 0x1000_0000,
            layout.wf(),
            dm.wf(),
            forall|k: int| 0 <= k < idx ==> valid_byte(#[trigger] corpus@[k]),
            fingers@.len() == 8,
            usage@.len() == 8,
            forall|f: int| 0 <= f < 8 ==> fingers@[f] < 26,
            forall|f: int| 0 <= f < 8 ==> finger_of(#[trigger] fingers@[f] as int) == f,
            forall|f: int|
                0 <= f < 8 ==> fingers@[f] as int == sim(layout.keys@, corpus@.subrange(0, idx as int)).fingers[f],
            forall|f: int|
                0 <= f < 8 ==> usage@[f] as int == sim(layout.keys@, corpus@.subrange(0, idx as int)).usage[f],
            prev < 8,
            prev as int == sim(layout.keys@, corpus@.subrange(0, idx as int)).prev,
            total_keys as int == sim(layout.keys@, corpus@.subrange(0, idx as int)).keys,
            dist as int == sim(layout.keys@, corpus@.subrange(0, idx as int)).dist,
            rep_f as int == sim(layout.keys@, corpus@.subrange(0, idx as int)).rep_f,
            rep_h as int == sim(layout.keys@, corpus@.subrange(0, idx as int)).rep_h,
            total_keys <= idx,
            rep_f <= total_keys,
            rep_h <= total_keys,
            dist <= 2236 * total_keys,
            forall|f: int| 0 <= f < 8 ==> usage@[f] <= total_keys,
    {
        let ghost pre = corpus@.subrange(0, idx as int);
        let ghost post = corpus@.subrange(0, idx as int + 1);
        proof {
            assert(post.drop_last() =~= pre);
            assert(post.last() == corpus@[idx as int]);
        }
        let b = corpus[idx];
        if b == 10 {
            fingers = home_positions();
            proof {
                assert(sim(layout.keys@, post) == sim_step(layout.keys@, sim(layout.keys@, pre), b));
                assert forall|f: int| 0 <= f < 8 implies fingers@[f] < 26 && finger_of(
                    fingers@[f] as int,
                ) == f by {
                    crate::distance::lemma_home_positions(f);
                }
            }
        } else if b < 97 || b > 122 {
            return Err(OptError::InvalidCharacter);
        } else {
            let letter = (b - 97) as usize;
            let pos = layout.keys[letter];
            let f = finger_of_pos(pos);
            let fu = f as usize;
            let src = fingers[fu];
            proof {
                lemma_same_finger_cost(src as int, pos as int);
            }
            let c = dm.get(src as usize, pos as usize).unwrap();
            total_keys = total_keys + 1;
            let cur = usage[fu];
            usage[fu] = cur + 1;
            dist = dist + c as u64;
            if pos != src {
                if f == prev {
                    rep_f = rep_f + 1;
                    rep_h = rep_h + 1;
                } else if (f < 4 && prev < 4) || (f >= 4 && prev >= 4) {
                    rep_h = rep_h + 1;
                }
            }
            fingers[fu] = pos;
            prev = f;
            proof {
                assert(sim(layout.keys@, post) == sim_step(layout.keys@, sim(layout.keys@, pre), b));
            }
        }
    }
    proof {
        assert(corpus@.subrange(0, n as int) =~= corpus@);
    }
    Ok(TypingStats { total_keys, total_distance: dist, repeat_fingers: rep_f, repeat_hands: rep_h, usage })
}

/// How far apart two totals are.
pub open spec fn abs_diff(a: int, b: int) -> int {
    if a >= b {
        a - b
    } else {
        b - a
    }
}

/// The distance of the realized per-finger load from the desired one, in
/// hundredths of a keystroke: the desired split is 0/14/14/22/22/14/14/0
/// percent from left pinky to right pinky.
pub open spec fn deviation_sum(tk: int, usage: Seq<int>) -> int {
    abs_diff(0, 100 * usage[0]) + abs_diff(14 * tk, 100 * usage[1]) + abs_diff(
        14 * tk,
        100 * usage[2],
    ) + abs_diff(22 * tk, 100 * usage[3]) + abs_diff(22 * tk, 100 * usage[4]) + abs_diff(
        14 * tk,
        100 * usage[5],
    ) + abs_diff(14 * tk, 100 * usage[6]) + abs_diff(0, 100 * usage[7])
}

/// The fitness of a pass, in milli-units; higher is better. Travel is
/// rewarded per keystroke, repeats are penalized by rewarding their rarity
/// (a pass without repeats of a kind earns that term's maximum), and the
/// deviation of the per-finger load from the desired split is subtracted
/// from its weight. Weights: distance 50, finger repeats 1, hand repeats 6,
/// deviation 15.
pub open spec fn spec_fitness(tk: int, td: int, rf: int, rh: int, usage: Seq<int>) -> int {
    let dterm = tk * 50_000_000 / td;
    let fterm = if rf > 0 {
        tk * 1000 / rf
    } else {
        tk * 1000
    };
    let hterm = if rh > 0 {
        tk * 6000 / rh
    } else {
        tk * 6000
    };
    let dev = 15000 - 150 * deviation_sum(tk, usage) / tk;
    dterm + fterm + hterm + dev
}

/// The per-finger counts as mathematical integers.
pub open spec fn usage_ints(u: Seq<u64>) -> Seq<int> {
    u.map_values(|x: u64| x as int)
}

/// `|a - b|` on machine words.
fn abs_diff_u64(a: u64, b: u64) -> (r: u64)
    ensures
        r as int == abs_diff(a as int, b as int),
{
    if a >= b {
        a - b
    } else {
        b - a
    }
}

/// Scores a pass. Degenerate passes - no counted keystroke, or no finger
/// travel at all - are rejected rather than divided by; a pass without
/// same-finger or same-hand repeats gets that term capped at its maximum.
#[verifier::rlimit(100)]
pub fn score(stats: &TypingStats) -> (r: Result<i64, OptError>)
    requires
        stats.wf(),
    ensures
        (r is Ok) <==> (stats.total_keys > 0 && stats.total_distance > 0),
        r is Err ==> r->Err_0 == OptError::EvaluationDegenerate,
        r is Ok ==> r->Ok_0 as int == spec_fitness(
            stats.total_keys as int,
            stats.total_distance as int,
            stats.repeat_fingers as int,
            stats.repeat_hands as int,
            usage_ints(stats.usage@),
        ),
{
    if stats.total_keys == 0 || stats.total_distance == 0 {
        return Err(OptError::EvaluationDegenerate);
    }
    let tk = stats.total_keys;
    let dterm: u64 = tk * 50_000_000 / stats.total_distance;
    let fterm: u64 = if stats.repeat_fingers > 0 {
        tk * 1000 / stats.repeat_fingers
    } else {
        tk * 1000
    };
    let hterm: u64 = if stats.repeat_hands > 0 {
        tk * 6000 / stats.repeat_hands
    } else {
        tk * 6000
    };
    let t0 = abs_diff_u64(0, 100 * stats.usage[0]);
    let t1 = abs_diff_u64(14 * tk, 100 * stats.usage[1]);
    let t2 = abs_diff_u64(14 * tk, 100 * stats.usage[2]);
    let t3 = abs_diff_u64(22 * tk, 100 * stats.usage[3]);
    let t4 = abs_diff_u64(22 * tk, 100 * stats.usage[4]);
    let t5 = abs_diff_u64(14 * tk, 100 * stats.usage[5]);
    let t6 = abs_diff_u64(14 * tk, 100 * stats.usage[6]);
    let t7 = abs_diff_u64(0, 100 * stats.usage[7]);
    proof {
        assert(t0 <= 100 * tk && t1 <= 114 * tk && t2 <= 114 * tk && t3 <= 122 * tk && t4 <= 122
            * tk && t5 <= 114 * tk && t6 <= 114 * tk && t7 <= 100 * tk);
    }
    let sum_abs: u64 = t0 + t1 + t2 + t3 + t4 + t5 + t6 + t7;
    let q: u64 = 150 * sum_abs / tk;
    proof {
        assert(dterm <= tk * 50_000_000);
        assert(fterm <= tk * 1000);
        assert(hterm <= tk * 6000);
    }
    let fit: i64 = (dterm + fterm + hterm) as i64 + 15000 - q as i64;
    Ok(fit)
}

/// A layout together with its score: one member of the population.
pub struct EvaluationResult {
    pub layout: Layout,
    pub fitness_milli: i64,
    pub total_distance: u64,
}

/// The fitness that a full evaluation of `corpus` over `layout` reports.
pub open spec fn spec_eval_fitness(layout: Seq<u8>, corpus: Seq<u8>) -> int {
    let m = sim(layout, corpus);
    spec_fitness(m.keys, m.dist, m.rep_f, m.rep_h, m.usage)
}

/// Evaluates a layout against a corpus: one typing pass, then the score.
/// Fails on a byte outside the alphabet and on a degenerate pass; any
/// other corpus earns exactly the fitness of the simulated pass.
pub fn evaluate(layout: &Layout, corpus: &Vec<u8>, dm: &DistanceMatrix) -> (r: Result<
    EvaluationResult,
    OptError,
>)
    requires
        layout.wf(),
        dm.wf(),
        corpus@.len() < 0x1000_0000,
    ensures
        (r is Ok) <==> (corpus_ok(corpus@) && sim(layout.keys@, corpus@).keys > 0 && sim(
            layout.keys@,
            corpus@,
        ).dist > 0),
        (r is Err && !corpus_ok(corpus@)) ==> r->Err_0 == OptError::InvalidCharacter,
        (r is Err && corpus_ok(corpus@)) ==> r->Err_0 == OptError::EvaluationDegenerate,
        r is Ok ==> r->Ok_0.fitness_milli as int == spec_eval_fitness(layout.keys@, corpus@),
        r is Ok ==> r->Ok_0.total_distance as int == sim(layout.keys@, corpus@).dist,
        r is Ok ==> r->Ok_0.layout.keys@ == layout.keys@,
        r is Ok ==> r->Ok_0.layout.wf(),
{
    let stats = match simulate(layout, corpus, dm) {
        Ok(stats) => stats,
        Err(e) => {
            return Err(e);
        },
    };
    let fit = match score(&stats) {
        Ok(fit) => fit,
        Err(e) => {
            return Err(e);
        },
    };
    proof {
        let m = sim(layout.keys@, corpus@);
        assert forall|f: int| 0 <= f < 8 implies usage_ints(stats.usage@)[f] == m.usage[f] by {
            assert(stats.usage@[f] as int == m.usage[f]);
        }
        assert(usage_ints(stats.usage@) =~= m.usage);
    }
    Ok(EvaluationResult {
        layout: layout.duplicate(),
        fitness_milli: fit,
        total_distance: stats.total_distance,
    })
}

/// Evaluation is deterministic: the score is a function of the layout and
/// the corpus alone, so any two fitness values the evaluator's contract
/// admits for one (layout, corpus) pair are equal.
pub proof fn lemma_evaluate_deterministic(layout: Seq<u8>, corpus: Seq<u8>, f1: int, f2: int)
    requires
        f1 == spec_eval_fitness(layout, corpus),
        f2 == spec_eval_fitness(layout, corpus),
    ensures
        f1 == f2,
{
}

} // verus!
