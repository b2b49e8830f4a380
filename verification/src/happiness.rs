//! Tacos reaching passers-by. Whether a taco touches a passer-by is a matter
//! of positions, which the drawing code measures; the rules decide which
//! touches count, make the passers-by happy and keep the score.
use vstd::prelude::*;
use crate::counting::{count_true, lemma_count_true_le_len, lemma_count_true_lower};
use crate::game::{Game, GameView};

verus! {

/// The row of `hits` for the passer-by `g`: `hits[g][t]` says whether the
/// taco `t` touches the passer-by `g`. A missing row touches nothing.
pub open spec fn hit_row(hits: Seq<Vec<bool>>, g: int) -> Seq<bool> {
    if 0 <= g < hits.len() {
        hits[g]@
    } else {
        Seq::empty()
    }
}

/// Whether `row` says that the taco `t` touches; missing entries say no.
pub open spec fn touches(row: Seq<bool>, t: int) -> bool {
    0 <= t < row.len() && row[t]
}

/// The tacos, whether the passer-by `g` is happy, and the pairs made happy,
/// after the tacos from `t` on are checked against `g`, in order. Before `g`
/// is made happy a taco reaches it per `row`; once happy, `g` stands at the
/// spot where happy passers-by are put, and a taco reaches it there per
/// `parked`. Each flying taco that reaches `g` is used up, makes `g` happy
/// and adds the pair `(g, t)`.
pub open spec fn person_pass(
    tacos: Seq<bool>,
    row: Seq<bool>,
    parked: Seq<bool>,
    g: usize,
    t: nat,
    happy: bool,
    pairs: Seq<(usize, usize)>,
) -> (Seq<bool>, bool, Seq<(usize, usize)>)
    decreases tacos.len() - t,
{
    if t >= tacos.len() {
        (tacos, happy, pairs)
    } else {
        let reach = if happy {
            touches(parked, t as int)
        } else {
            touches(row, t as int)
        };
        if tacos[t as int] && reach {
            person_pass(tacos.update(t as int, false), row, parked, g, t + 1, true, pairs.push((g, t as usize)))
        } else {
            person_pass(tacos, row, parked, g, t + 1, happy, pairs)
        }
    }
}

/// The passers-by, the tacos and the pairs (passer-by, taco) made happy after
/// the first `n` passers-by are checked in order: each passer-by still
/// walking is checked against every taco in order (`person_pass`), and is
/// no longer walking once made happy.
pub open spec fn happy_pass(
    people: Seq<bool>,
    tacos: Seq<bool>,
    hits: Seq<Vec<bool>>,
    parked: Seq<bool>,
    n: nat,
) -> (Seq<bool>, Seq<bool>, Seq<(usize, usize)>)
    decreases n,
{
    if n == 0 {
        (people, tacos, Seq::empty())
    } else {
        let prev = happy_pass(people, tacos, hits, parked, (n - 1) as nat);
        let g = n - 1;
        if g < prev.0.len() && prev.0[g] {
            let r = person_pass(prev.1, hit_row(hits, g), parked, g as usize, 0, false, prev.2);
            (if r.1 {
                prev.0.update(g, false)
            } else {
                prev.0
            }, r.0, r.2)
        } else {
            prev
        }
    }
}

impl Game {
    /// Checks the passers-by still walking, in order, against the flying
    /// tacos, in order. `hits[g][t]` says whether the taco `t` touches the
    /// passer-by `g` where it walks; `parked[t]` says whether the taco `t`
    /// touches a passer-by standing at the spot where happy passers-by are
    /// put. Each flying taco that reaches a passer-by is used up, makes it
    /// happy and scores a point. A passer-by made happy is moved to that spot
    /// at once, and the later tacos of its turn are checked against it there
    /// (`parked`); the game's tacos never fly there, so in play a passer-by
    /// is made happy at most once. Returns the pairs (passer-by, taco) made
    /// happy, in order, for the drawing code to move them.
    pub fn check_happiness(&mut self, hits: &Vec<Vec<bool>>, parked: &Vec<bool>) -> (made_happy: Vec<(usize, usize)>)
        requires
            old(self)@.wf(),
        ensures
            final(self)@.wf(),
            ({
                let r = happy_pass(old(self)@.people, old(self)@.tacos, hits@, parked@, old(self)@.people.len());
                &&& final(self)@.people == r.0
                &&& final(self)@.tacos == r.1
                &&& made_happy@ == r.2
            }),
            final(self)@.score == old(self)@.score + made_happy@.len(),
            final(self)@ == (GameView {
                score: final(self)@.score,
                tacos: final(self)@.tacos,
                people: final(self)@.people,
                ..old(self)@
            }),
    {
        let ghost start = self@;
        let n = self.people_active.len();
        let nt = self.tacos_active.len();
        let mut made_happy: Vec<(usize, usize)> = Vec::new();
        let mut g: usize = 0;
        while g < n
            invariant
                g <= n,
                n == start.people.len(),
                nt == start.tacos.len(),
                self@.people.len() == n,
                self@.tacos.len() == nt,
                self@.wf(),
                (self@.people, self@.tacos, made_happy@) == happy_pass(
                    start.people,
                    start.tacos,
                    hits@,
                    parked@,
                    g as nat,
                ),
                self@.score == start.score + made_happy@.len(),
                self@ == (GameView { score: self@.score, tacos: self@.tacos, people: self@.people, ..start }),
            decreases n - g,
        {
            if self.people_active[g] {
                let ghost row = hit_row(hits@, g as int);
                let ghost turn_tacos = self@.tacos;
                let ghost turn_pairs = made_happy@;
                let ghost turn_people = self@.people;
                let row_len: usize = if g < hits.len() {
                    hits[g].len()
                } else {
                    0
                };
                let mut happy = false;
                let mut t: usize = 0;
                while t < nt
                    invariant
                        t <= nt,
                        g < n,
                        n == start.people.len(),
                        nt == start.tacos.len(),
                        self@.people == turn_people,
                        self@.people.len() == n,
                        self@.tacos.len() == nt,
                        row_len == row.len(),
                        row == hit_row(hits@, g as int),
                        self@.wf(),
                        person_pass(turn_tacos, row, parked@, g, 0, false, turn_pairs) == person_pass(
                            self@.tacos,
                            row,
                            parked@,
                            g,
                            t as nat,
                            happy,
                            made_happy@,
                        ),
                        self@.score == start.score + made_happy@.len(),
                        self@ == (GameView { score: self@.score, tacos: self@.tacos, people: self@.people, ..start }),
                    decreases nt - t,
                {
                    let reach = if happy {
                        t < parked.len() && parked[t]
                    } else {
                        t < row_len && hits[g][t]
                    };
                    if self.tacos_active[t] && reach {
                        proof {
                            lemma_count_true_lower(self@.tacos, t as int);
                            lemma_count_true_le_len(self@.tacos);
                        }
                        self.tacos_active.set(t, false);
                        self.score = self.score + 1;
                        made_happy.push((g, t));
                        happy = true;
                    }
                    t = t + 1;
                }
                if happy {
                    self.people_active.set(g, false);
                }
            }
            g = g + 1;
        }
        made_happy
    }
}

} // verus!
