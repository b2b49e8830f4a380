//! What holds of the game as a whole.
use vstd::prelude::*;
use crate::controls::{spec_input, Button, Key};
use crate::counting::{count_true, lemma_count_true_lower};
use crate::game::{GameView, Phase, spec_phase, all_landed, spec_new, spec_record_moves, spec_throw, HOME, PLAY, OVER, STILL, RIGHT, LEFT};
use crate::happiness::{happy_pass, person_pass, hit_row, touches};

verus! {

/// The score never exceeds the number of tacos thrown, which never exceeds
/// the number of tacos the player was given.
pub proof fn law_score_within_thrown(g: GameView)
    requires
        g.wf(),
    ensures
        0 <= g.score <= g.thrown() <= g.max_tacos,
{
}

/// What checking one passer-by against the tacos from `t` on does: the
/// tacos keep their number and only lose flags, the earlier pairs stay, and
/// each new pair names `g` and a taco that flew and touched it (per `row`
/// before `g` was happy, per `parked` after), in the order of the tacos.
proof fn lemma_person_pass(
    tacos: Seq<bool>,
    row: Seq<bool>,
    parked: Seq<bool>,
    g: usize,
    t: nat,
    happy: bool,
    pairs: Seq<(usize, usize)>,
)
    requires
        t <= tacos.len() <= usize::MAX,
    ensures
        ({
            let r = person_pass(tacos, row, parked, g, t, happy, pairs);
            &&& r.0.len() == tacos.len()
            &&& forall|i: int| 0 <= i < tacos.len() && #[trigger] r.0[i] ==> tacos[i]
            &&& forall|i: int| 0 <= i < t ==> #[trigger] r.0[i] == tacos[i]
            &&& count_true(r.0) + r.2.len() == count_true(tacos) + pairs.len()
            &&& r.2.len() >= pairs.len()
            &&& forall|k: int| 0 <= k < pairs.len() ==> #[trigger] r.2[k] == pairs[k]
            &&& forall|k: int|
                pairs.len() <= k < r.2.len() ==> {
                    let (gk, tk) = #[trigger] r.2[k];
                    &&& gk == g
                    &&& t <= tk < tacos.len()
                    &&& tacos[tk as int]
                    &&& !r.0[tk as int]
                    &&& if k == pairs.len() && !happy {
                        touches(row, tk as int)
                    } else {
                        touches(parked, tk as int)
                    }
                }
            &&& forall|j: int, k: int| pairs.len() <= j < k < r.2.len() ==> r.2[j].1 < r.2[k].1
            &&& r.1 == (happy || r.2.len() > pairs.len())
        }),
    decreases tacos.len() - t,
{
    if t < tacos.len() {
        let reach = if happy {
            touches(parked, t as int)
        } else {
            touches(row, t as int)
        };
        if tacos[t as int] && reach {
            let tacos2 = tacos.update(t as int, false);
            let pairs2 = pairs.push((g, t as usize));
            lemma_person_pass(tacos2, row, parked, g, t + 1, true, pairs2);
            lemma_count_true_lower(tacos, t as int);
            let r = person_pass(tacos, row, parked, g, t, happy, pairs);
            assert(r == person_pass(tacos2, row, parked, g, t + 1, true, pairs2));
            assert(r.2[pairs.len() as int] == pairs2[pairs.len() as int]);
            assert(r.0[t as int] == tacos2[t as int]);
            assert forall|i: int| 0 <= i < tacos.len() && #[trigger] r.0[i] implies tacos[i] by {
                assert(tacos2[i]);
            }
            assert forall|k: int| 0 <= k < pairs.len() implies #[trigger] r.2[k] == pairs[k] by {
                assert(r.2[k] == pairs2[k]);
            }
        } else {
            lemma_person_pass(tacos, row, parked, g, t + 1, happy, pairs);
        }
    }
}

/// Checking the passers-by keeps the number of passers-by and of tacos; it
/// only lowers flags (no taco takes off again, no happy passer-by turns sad);
/// and each pair (passer-by, taco) made happy used up exactly one flying taco.
pub proof fn law_happiness_uses_up_tacos(
    people: Seq<bool>,
    tacos: Seq<bool>,
    hits: Seq<Vec<bool>>,
    parked: Seq<bool>,
    n: nat,
)
    requires
        n <= people.len(),
        tacos.len() <= usize::MAX,
    ensures
        ({
            let r = happy_pass(people, tacos, hits, parked, n);
            &&& r.0.len() == people.len()
            &&& r.1.len() == tacos.len()
            &&& forall|i: int| 0 <= i < r.0.len() && #[trigger] r.0[i] ==> people[i]
            &&& forall|i: int| 0 <= i < r.1.len() && #[trigger] r.1[i] ==> tacos[i]
            &&& count_true(r.1) + r.2.len() == count_true(tacos)
        }),
    decreases n,
{
    if n > 0 {
        law_happiness_uses_up_tacos(people, tacos, hits, parked, (n - 1) as nat);
        let prev = happy_pass(people, tacos, hits, parked, (n - 1) as nat);
        let g = n - 1;
        if g < prev.0.len() && prev.0[g] {
            lemma_person_pass(prev.1, hit_row(hits, g), parked, g as usize, 0, false, prev.2);
        }
    }
}

/// Each pair (passer-by, taco) made happy joins a passer-by that was walking
/// to a taco that was flying; both end up down. Pairs come in the order of
/// the street and, for one passer-by, in the order of the tacos; no taco
/// appears twice. The first pair of a passer-by is a taco that touches it
/// where it walks (`hits`); any later pair of the same passer-by is a taco
/// that touches it at the spot of the happy ones (`parked`).
pub proof fn law_happy_pairs(
    people: Seq<bool>,
    tacos: Seq<bool>,
    hits: Seq<Vec<bool>>,
    parked: Seq<bool>,
    n: nat,
)
    requires
        n <= people.len() <= usize::MAX,
        tacos.len() <= usize::MAX,
    ensures
        ({
            let r = happy_pass(people, tacos, hits, parked, n);
            &&& forall|k: int|
                0 <= k < r.2.len() ==> {
                    let (g, t) = #[trigger] r.2[k];
                    &&& g < n && people[g as int] && !r.0[g as int]
                    &&& t < tacos.len() && tacos[t as int] && !r.1[t as int]
                    &&& if k == 0 || r.2[k - 1].0 != g {
                        touches(hit_row(hits, g as int), t as int)
                    } else {
                        touches(parked, t as int)
                    }
                }
            &&& forall|j: int, k: int|
                0 <= j < k < r.2.len() ==> (r.2[j].0 < r.2[k].0 || (r.2[j].0 == r.2[k].0 && r.2[j].1
                    < r.2[k].1)) && r.2[j].1 != r.2[k].1
        }),
    decreases n,
{
    if n > 0 {
        law_happy_pairs(people, tacos, hits, parked, (n - 1) as nat);
        law_happiness_uses_up_tacos(people, tacos, hits, parked, (n - 1) as nat);
        lemma_untouched_tail(people, tacos, hits, parked, (n - 1) as nat);
        let prev = happy_pass(people, tacos, hits, parked, (n - 1) as nat);
        let r = happy_pass(people, tacos, hits, parked, n);
        let g = n - 1;
        if g < prev.0.len() && prev.0[g] {
            let row = hit_row(hits, g);
            lemma_person_pass(prev.1, row, parked, g as usize, 0, false, prev.2);
            let pp = person_pass(prev.1, row, parked, g as usize, 0, false, prev.2);
            assert(r.2 == pp.2 && r.1 == pp.0);
            assert(prev.0[g] == people[g]);
            if pp.1 {
                assert(r.0 == prev.0.update(g, false));
            }
            assert forall|k: int| 0 <= k < prev.2.len() implies {
                &&& #[trigger] r.2[k] == prev.2[k]
                &&& prev.2[k].0 < g
                &&& !r.0[prev.2[k].0 as int]
                &&& !r.1[prev.2[k].1 as int]
                &&& !prev.1[prev.2[k].1 as int]
            } by {
                let (gk, tk) = prev.2[k];
                assert(!prev.0[gk as int]);
                assert(!prev.1[tk as int]);
                if pp.0[tk as int] {
                    assert(prev.1[tk as int]);
                }
            }
            assert forall|k: int| prev.2.len() <= k < r.2.len() implies {
                &&& (#[trigger] r.2[k]).0 == g
                &&& prev.1[r.2[k].1 as int]
                &&& tacos[r.2[k].1 as int]
                &&& !r.0[g]
            } by {
                let tk = r.2[k].1;
                assert(prev.1[tk as int] ==> tacos[tk as int]);
            }
            assert forall|k: int| 0 <= k < r.2.len() implies {
                let (gk, tk) = #[trigger] r.2[k];
                if k == 0 || r.2[k - 1].0 != gk {
                    touches(hit_row(hits, gk as int), tk as int)
                } else {
                    touches(parked, tk as int)
                }
            } by {
                if k < prev.2.len() {
                    if k > 0 {
                        assert(r.2[k - 1] == prev.2[k - 1]);
                    }
                } else if k > prev.2.len() {
                    assert(r.2[k - 1].0 == g);
                } else if k > 0 {
                    assert(r.2[k - 1] == prev.2[k - 1]);
                }
            }
        }
    }
}

/// The passers-by not yet checked keep their flags.
proof fn lemma_untouched_tail(people: Seq<bool>, tacos: Seq<bool>, hits: Seq<Vec<bool>>, parked: Seq<bool>, n: nat)
    requires
        n <= people.len(),
    ensures
        forall|i: int| n <= i < people.len() ==> #[trigger] happy_pass(people, tacos, hits, parked, n).0[i] == people[i],
        happy_pass(people, tacos, hits, parked, n).0.len() == people.len(),
    decreases n,
{
    if n > 0 {
        lemma_untouched_tail(people, tacos, hits, parked, (n - 1) as nat);
    }
}

/// The screens follow each other in one direction: a throw only ever ends
/// the game, and the game is over only once the player holds no taco and
/// every thrown taco has landed.
pub proof fn law_throw_screens(g: GameView)
    ensures
        ({
            let (h, thrown) = spec_throw(g);
            &&& h.screen == g.screen || h.screen == OVER
            &&& h.screen == OVER && g.screen != OVER ==> g.tacos_release == 0 && all_landed(g.tacos)
            &&& thrown <==> g.tacos_release > 0
            &&& thrown ==> h.thrown() == g.thrown() + 1
        }),
{
}

/// A button only moves the game from the home screen to the play screen
/// (Space), or from the play screen to the final screen (Space, with no taco
/// left in hand and every thrown taco landed); nothing leaves the final screen.
pub proof fn law_input_screens(g: GameView, button: Button, pressed: bool)
    ensures
        ({
            let (h, _) = spec_input(g, button, pressed);
            &&& h.screen == g.screen || (g.screen == HOME && h.screen == PLAY) || (g.screen == PLAY
                && h.screen == OVER)
            &&& h.screen != g.screen ==> pressed && button == Button::Keyboard(Key::Space)
            &&& g.screen == PLAY && h.screen == OVER ==> g.tacos_release == 0 && all_landed(g.tacos)
            &&& g.screen == OVER ==> h == g
        }),
{
}

/// While playing, pressing an arrow key and letting it go leaves the player
/// standing still and changes nothing else.
pub proof fn law_press_then_release(g: GameView, key: Key)
    requires
        g.screen == PLAY,
        key == Key::Z || key == Key::A,
    ensures
        spec_input(spec_input(g, Button::Keyboard(key), true).0, Button::Keyboard(key), false) == (
        GameView { player_dir: STILL, ..g }, false),
{
}


/// A new game starts on the screen asked for, with every taco in hand, no
/// taco thrown, nobody on the street, no point scored, and the player
/// standing still, whatever the screen and the number of tacos.
pub proof fn law_new_game(screen: u8, max: u8)
    ensures
        ({
            let g = spec_new(screen, max);
            &&& g.screen == screen
            &&& g.max_tacos == max
            &&& g.tacos_release == max
            &&& g.score == 0
            &&& g.player_dir == STILL
            &&& g.tacos.len() == 0
            &&& g.people.len() == 0
            &&& g.wf()
        }),
{
}

/// A throw never touches the score, the number of tacos given, the player's
/// direction or the passers-by. With a taco in hand it throws exactly that
/// taco: one less in hand, one more flying at the end of the list, the
/// screen unchanged. With none in hand nothing is thrown and the tacos stay
/// as they are; the screen turns to the final one exactly when no taco flies
/// any more, and stays otherwise.
pub proof fn law_throw(g: GameView)
    ensures
        ({
            let (h, thrown) = spec_throw(g);
            &&& h.score == g.score
            &&& h.max_tacos == g.max_tacos
            &&& h.player_dir == g.player_dir
            &&& h.people == g.people
            &&& thrown == (g.tacos_release > 0)
            &&& thrown ==> {
                &&& h.tacos_release + 1 == g.tacos_release
                &&& h.tacos.len() == g.tacos.len() + 1
                &&& h.tacos.last()
                &&& forall|i: int| 0 <= i < g.tacos.len() ==> h.tacos[i] == g.tacos[i]
                &&& h.screen == g.screen
            }
            &&& !thrown ==> {
                &&& h.tacos_release == g.tacos_release
                &&& h.tacos == g.tacos
                &&& h.screen == if (forall|i: int| 0 <= i < g.tacos.len() ==> !g.tacos[i]) {
                    OVER
                } else {
                    g.screen
                }
            }
        }),
{
}

/// What a frame reports is taken in entry by entry: a taco flies afterwards
/// exactly when it flew before and did not land; a passer-by of the street
/// walks afterwards exactly when it walked before and did not leave, whatever
/// the others did; an arrival walks in at the end of the list. Nothing else
/// changes.
pub proof fn law_record_moves(g: GameView, landed: Seq<bool>, left: Seq<bool>, arrived: bool)
    ensures
        ({
            let h = spec_record_moves(g, landed, left, arrived);
            &&& h.screen == g.screen
            &&& h.max_tacos == g.max_tacos
            &&& h.tacos_release == g.tacos_release
            &&& h.score == g.score
            &&& h.player_dir == g.player_dir
            &&& h.tacos.len() == g.tacos.len()
            &&& forall|i: int|
                0 <= i < g.tacos.len() ==> h.tacos[i] == (g.tacos[i] && !(i < landed.len() && landed[i]))
            &&& h.people.len() == g.people.len() + if arrived {
                1int
            } else {
                0int
            }
            &&& forall|i: int|
                0 <= i < g.people.len() ==> h.people[i] == (g.people[i] && !(i < left.len() && left[i]))
            &&& arrived ==> h.people[g.people.len() as int]
        }),
{
}

/// While playing, Z makes the player walk right and A walk left, whatever
/// the player did before; letting go of either makes the player stand still;
/// no arrow key throws or changes anything else. Space pressed is a throw.
/// Any other button, and Space let go, change nothing.
pub proof fn law_play_keys(g: GameView, button: Button, pressed: bool)
    requires
        g.screen == PLAY,
    ensures
        ({
            let (h, thrown) = spec_input(g, button, pressed);
            &&& button == Button::Keyboard(Key::Z) && pressed ==> h == (GameView { player_dir: RIGHT, ..g }) && !thrown
            &&& button == Button::Keyboard(Key::A) && pressed ==> h == (GameView { player_dir: LEFT, ..g }) && !thrown
            &&& (button == Button::Keyboard(Key::Z) || button == Button::Keyboard(Key::A)) && !pressed ==> h == (
            GameView { player_dir: STILL, ..g }) && !thrown
            &&& button == Button::Keyboard(Key::Space) && pressed ==> (h, thrown) == spec_throw(g)
            &&& (button == Button::Other || button == Button::Keyboard(Key::Other) || (button == Button::Keyboard(
                Key::Space) && !pressed)) ==> h == g && !thrown
        }),
{
}

/// On the home screen only Space pressed does anything, and all it does is
/// start the game; on any screen but home and play nothing happens.
pub proof fn law_other_screens_keys(g: GameView, button: Button, pressed: bool)
    requires
        g.screen != PLAY,
    ensures
        ({
            let (h, thrown) = spec_input(g, button, pressed);
            &&& !thrown
            &&& g.screen == HOME && pressed && button == Button::Keyboard(Key::Space) ==> h == (GameView {
                screen: PLAY,
                ..g
            })
            &&& !(g.screen == HOME && pressed && button == Button::Keyboard(Key::Space)) ==> h == g
        }),
{
}


/// Some pair of `pairs` uses up the taco `t`.
pub open spec fn uses_taco(pairs: Seq<(usize, usize)>, t: int) -> bool {
    exists|k: int| 0 <= k < pairs.len() && #[trigger] pairs[k].1 == t
}

/// Some pair of `pairs` makes the passer-by `g` happy.
pub open spec fn makes_happy(pairs: Seq<(usize, usize)>, g: int) -> bool {
    exists|k: int| 0 <= k < pairs.len() && #[trigger] pairs[k].0 == g
}

/// Some pair of `pairs` made the passer-by `g` happy with a taco before `t`.
pub open spec fn happy_before(pairs: Seq<(usize, usize)>, g: int, t: int) -> bool {
    exists|k: int| 0 <= k < pairs.len() && #[trigger] pairs[k].0 == g && pairs[k].1 < t
}

/// Within one passer-by's turn, from the taco `t` on: a taco flies at the end
/// exactly when it flew and no new pair used it; a taco left flying that
/// touches the passer-by where it walks found it happy already; a taco left
/// flying that touches the happy spot found it still sad.
proof fn lemma_person_pass_complete(
    tacos: Seq<bool>,
    row: Seq<bool>,
    parked: Seq<bool>,
    g: usize,
    t: nat,
    happy: bool,
    pairs: Seq<(usize, usize)>,
)
    requires
        t <= tacos.len() <= usize::MAX,
    ensures
        ({
            let r = person_pass(tacos, row, parked, g, t, happy, pairs);
            &&& forall|i: int|
                t <= i < tacos.len() ==> #[trigger] r.0[i] == (tacos[i] && !(exists|k: int|
                    pairs.len() <= k < r.2.len() && #[trigger] r.2[k].1 == i))
            &&& forall|i: int|
                t <= i < tacos.len() && #[trigger] r.0[i] && touches(row, i) ==> (happy || exists|k: int|
                    pairs.len() <= k < r.2.len() && #[trigger] r.2[k].1 < i)
            &&& forall|i: int|
                t <= i < tacos.len() && #[trigger] r.0[i] && touches(parked, i) ==> (!happy && !exists|k: int|
                    pairs.len() <= k < r.2.len() && #[trigger] r.2[k].1 < i)
        }),
    decreases tacos.len() - t,
{
    lemma_person_pass(tacos, row, parked, g, t, happy, pairs);
    if t < tacos.len() {
        let r = person_pass(tacos, row, parked, g, t, happy, pairs);
        let reach = if happy {
            touches(parked, t as int)
        } else {
            touches(row, t as int)
        };
        if tacos[t as int] && reach {
            let tacos2 = tacos.update(t as int, false);
            let pairs2 = pairs.push((g, t as usize));
            lemma_person_pass(tacos2, row, parked, g, t + 1, true, pairs2);
            lemma_person_pass_complete(tacos2, row, parked, g, t + 1, true, pairs2);
            assert(r == person_pass(tacos2, row, parked, g, t + 1, true, pairs2));
            let k0 = pairs.len() as int;
            assert(r.2[k0] == pairs2[k0]);
            assert(r.2[k0].1 == t);
            assert forall|i: int| t <= i < tacos.len() implies #[trigger] r.0[i] == (tacos[i] && !(exists|k: int|
                pairs.len() <= k < r.2.len() && #[trigger] r.2[k].1 == i)) by {
                if i == t {
                    assert(r.0[i] == tacos2[i]);
                } else {
                    if exists|k: int| pairs.len() <= k < r.2.len() && #[trigger] r.2[k].1 == i {
                        let k = choose|k: int| pairs.len() <= k < r.2.len() && #[trigger] r.2[k].1 == i;
                        assert(k != k0);
                        assert(pairs2.len() <= k < r.2.len() && r.2[k].1 == i);
                    }
                }
            }
            assert forall|i: int| t <= i < tacos.len() && #[trigger] r.0[i] && touches(row, i) implies (happy
                || exists|k: int| pairs.len() <= k < r.2.len() && #[trigger] r.2[k].1 < i) by {
                assert(r.0[t as int] == tacos2[t as int]);
                assert(r.2[k0].1 < i);
            }
            assert forall|i: int| t <= i < tacos.len() && #[trigger] r.0[i] && touches(parked, i) implies (!happy
                && !exists|k: int| pairs.len() <= k < r.2.len() && #[trigger] r.2[k].1 < i) by {
                assert(r.0[t as int] == tacos2[t as int]);
            }
        } else {
            lemma_person_pass(tacos, row, parked, g, t + 1, happy, pairs);
            lemma_person_pass_complete(tacos, row, parked, g, t + 1, happy, pairs);
            assert(r == person_pass(tacos, row, parked, g, t + 1, happy, pairs));
            assert forall|i: int| t <= i < tacos.len() implies #[trigger] r.0[i] == (tacos[i] && !(exists|k: int|
                pairs.len() <= k < r.2.len() && #[trigger] r.2[k].1 == i)) by {
                if i == t {
                    if exists|k: int| pairs.len() <= k < r.2.len() && #[trigger] r.2[k].1 == i {
                        let k = choose|k: int| pairs.len() <= k < r.2.len() && #[trigger] r.2[k].1 == i;
                        assert(t + 1 <= r.2[k].1);
                    }
                }
            }
            assert forall|i: int| t <= i < tacos.len() && #[trigger] r.0[i] && touches(parked, i) implies (!happy
                && !exists|k: int| pairs.len() <= k < r.2.len() && #[trigger] r.2[k].1 < i) by {
                if i == t {
                    if exists|k: int| pairs.len() <= k < r.2.len() && #[trigger] r.2[k].1 < i {
                        let k = choose|k: int| pairs.len() <= k < r.2.len() && #[trigger] r.2[k].1 < i;
                        assert(t + 1 <= r.2[k].1);
                    }
                }
            }
        }
    }
}


/// Checking the passers-by misses no one and takes nothing it should not:
/// a taco flies afterwards exactly when it flew and no pair used it; a
/// passer-by of those checked walks afterwards exactly when it walked and no
/// pair made it happy; a passer-by that walked, and a taco still flying at
/// the end that touches it where it walks, mean that the passer-by was made
/// happy by an earlier taco; and a taco still flying at the end that touches
/// the happy spot came after no taco that made someone happy there first.
pub proof fn law_happiness_complete(
    people: Seq<bool>,
    tacos: Seq<bool>,
    hits: Seq<Vec<bool>>,
    parked: Seq<bool>,
    n: nat,
)
    requires
        n <= people.len() <= usize::MAX,
        tacos.len() <= usize::MAX,
    ensures
        ({
            let r = happy_pass(people, tacos, hits, parked, n);
            &&& forall|t: int| 0 <= t < tacos.len() ==> #[trigger] r.1[t] == (tacos[t] && !uses_taco(r.2, t))
            &&& forall|g: int| 0 <= g < n ==> #[trigger] r.0[g] == (people[g] && !makes_happy(r.2, g))
            &&& forall|g: int, t: int|
                0 <= g < n && 0 <= t < tacos.len() && people[g] && r.1[t] && #[trigger] touches(
                    hit_row(hits, g),
                    t,
                ) ==> happy_before(r.2, g, t)
            &&& forall|g: int, t: int|
                0 <= t < tacos.len() && r.1[t] && touches(parked, t) ==> !#[trigger] happy_before(r.2, g, t)
        }),
    decreases n,
{
    if n > 0 {
        let m = (n - 1) as nat;
        law_happiness_complete(people, tacos, hits, parked, m);
        law_happy_pairs(people, tacos, hits, parked, m);
        law_happiness_uses_up_tacos(people, tacos, hits, parked, m);
        lemma_untouched_tail(people, tacos, hits, parked, m);
        let prev = happy_pass(people, tacos, hits, parked, m);
        let r = happy_pass(people, tacos, hits, parked, n);
        let g0 = m as int;
        assert(prev.0[g0] == people[g0]);
        if prev.0[g0] {
            let row = hit_row(hits, g0);
            lemma_person_pass(prev.1, row, parked, g0 as usize, 0, false, prev.2);
            lemma_person_pass_complete(prev.1, row, parked, g0 as usize, 0, false, prev.2);
            let pp = person_pass(prev.1, row, parked, g0 as usize, 0, false, prev.2);
            assert(r.2 == pp.2 && r.1 == pp.0);
            assert(r.0 == if pp.1 {
                prev.0.update(g0, false)
            } else {
                prev.0
            });
            let pl = prev.2.len() as int;
            assert forall|t: int| 0 <= t < tacos.len() implies #[trigger] r.1[t] == (tacos[t] && !uses_taco(
                r.2,
                t,
            )) by {
                assert(prev.1[t] == (tacos[t] && !uses_taco(prev.2, t)));
                if uses_taco(prev.2, t) {
                    let k = choose|k: int| 0 <= k < prev.2.len() && #[trigger] prev.2[k].1 == t;
                    assert(r.2[k] == prev.2[k]);
                }
                if uses_taco(r.2, t) {
                    let k = choose|k: int| 0 <= k < r.2.len() && #[trigger] r.2[k].1 == t;
                    if k < pl {
                        assert(r.2[k] == prev.2[k]);
                    }
                }
            }
            assert forall|g: int| 0 <= g < n implies #[trigger] r.0[g] == (people[g] && !makes_happy(r.2, g)) by {
                if g < g0 {
                    assert(prev.0[g] == (people[g] && !makes_happy(prev.2, g)));
                    if makes_happy(prev.2, g) {
                        let k = choose|k: int| 0 <= k < prev.2.len() && #[trigger] prev.2[k].0 == g;
                        assert(r.2[k] == prev.2[k]);
                    }
                    if makes_happy(r.2, g) {
                        let k = choose|k: int| 0 <= k < r.2.len() && #[trigger] r.2[k].0 == g;
                        if k < pl {
                            assert(r.2[k] == prev.2[k]);
                        }
                    }
                } else {
                    if pp.1 {
                        assert(r.2[pl].0 == g0);
                    }
                    if makes_happy(r.2, g) {
                        let k = choose|k: int| 0 <= k < r.2.len() && #[trigger] r.2[k].0 == g;
                        if k < pl {
                            assert(r.2[k] == prev.2[k]);
                        }
                    }
                }
            }
            assert forall|g: int, t: int|
                0 <= g < n && 0 <= t < tacos.len() && people[g] && r.1[t] && #[trigger] touches(
                    hit_row(hits, g),
                    t,
                ) implies happy_before(r.2, g, t) by {
                assert(prev.1[t]);
                if g < g0 {
                    assert(happy_before(prev.2, g, t));
                    let k = choose|k: int| 0 <= k < prev.2.len() && #[trigger] prev.2[k].0 == g && prev.2[k].1 < t;
                    assert(r.2[k] == prev.2[k]);
                } else {
                    assert(pp.0[t] && touches(row, t));
                    let k = choose|k: int| pl <= k < r.2.len() && #[trigger] r.2[k].1 < t;
                    assert(r.2[k].0 == g0);
                }
            }
            assert forall|g: int, t: int|
                0 <= t < tacos.len() && r.1[t] && touches(parked, t) implies !#[trigger] happy_before(r.2, g, t) by {
                if happy_before(r.2, g, t) {
                    assert(prev.1[t]);
                    let k = choose|k: int| 0 <= k < r.2.len() && #[trigger] r.2[k].0 == g && r.2[k].1 < t;
                    if k < pl {
                        assert(r.2[k] == prev.2[k]);
                        assert(happy_before(prev.2, g, t));
                    } else {
                        assert(pp.0[t] && touches(parked, t));
                        assert(r.2[k].1 < t);
                    }
                }
            }
        } else {
            assert(r == prev);
        }
    }
}


/// The home screen lets only the clouds drift, the play screen moves
/// everything, and every other screen (the final one among them) is still.
pub proof fn law_phase(screen: u8)
    ensures
        screen == 0 ==> spec_phase(screen) == Phase::Clouds,
        screen == 1 ==> spec_phase(screen) == Phase::Play,
        screen != 0 && screen != 1 ==> spec_phase(screen) == Phase::Still,
{
}

/// The count of tacos thrown is the number of tacos the rules keep track of:
/// none in a new game, one more after each taco thrown.
pub proof fn law_thrown_counts(g: GameView, screen: u8, max: u8)
    ensures
        g.wf() ==> g.thrown() == g.tacos.len(),
        spec_new(screen, max).thrown() == 0,
        spec_throw(g).1 ==> spec_throw(g).0.thrown() == g.thrown() + 1,
        !spec_throw(g).1 ==> spec_throw(g).0.thrown() == g.thrown(),
{
}

} // verus!
