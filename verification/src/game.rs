//! The rules of the game: which screen is shown, how many tacos are left to
//! throw, which thrown tacos are still flying, which passers-by are still
//! waiting for a taco, and the score.
//!
//! Positions, speeds and times are real numbers in the game; they live with
//! the drawing code, which tells the rules what moved (a taco that reached the
//! ground, a passer-by that left the street, a new passer-by).
use vstd::prelude::*;
use crate::counting::{count_true, lemma_count_true_push, lemma_count_true_mono};

verus! {

/// The home screen, where the clouds drift until Space is pressed.
pub const HOME: u8 = 0;

/// The screen on which the game is played.
pub const PLAY: u8 = 1;

/// The final screen, which shows the score.
pub const OVER: u8 = 2;

/// The player walks to the right.
pub const RIGHT: char = 'R';

/// The player walks to the left.
pub const LEFT: char = 'L';

/// The player lets go of the arrow keys.
pub const STILL: char = ' ';

/// The state the rules of the game read and write.
pub struct Game {
    /// `HOME`, `PLAY` or `OVER`; any other value freezes the game.
    pub screen: u8,
    /// How many tacos the player gets.
    pub max_tacos: u8,
    /// How many tacos the player still holds.
    pub tacos_release: u8,
    /// How many passers-by a taco has made happy.
    pub score: u8,
    /// `RIGHT`, `LEFT` or `STILL`: where the arrow keys push the player.
    pub player_dir: char,
    /// One entry per taco thrown, in the order of the throws: `true` while it flies.
    pub tacos_active: Vec<bool>,
    /// One entry per passer-by, in the order of arrival: `true` while it walks
    /// the street, still waiting for a taco.
    pub people_active: Vec<bool>,
}

/// What a `Game` holds, as mathematical values.
#[verifier::ext_equal]
pub struct GameView {
    pub screen: u8,
    pub max_tacos: u8,
    pub tacos_release: u8,
    pub score: u8,
    pub player_dir: char,
    pub tacos: Seq<bool>,
    pub people: Seq<bool>,
}

impl View for Game {
    type V = GameView;

    open spec fn view(&self) -> GameView {
        GameView {
            screen: self.screen,
            max_tacos: self.max_tacos,
            tacos_release: self.tacos_release,
            score: self.score,
            player_dir: self.player_dir,
            tacos: self.tacos_active@,
            people: self.people_active@,
        }
    }
}

impl GameView {
    /// A state the game can reach: the player never holds more tacos than
    /// given, each taco that left the player's hands has its entry, and each
    /// point of the score used up a taco that no longer flies.
    pub open spec fn wf(self) -> bool {
        &&& self.tacos_release <= self.max_tacos
        &&& self.tacos.len() == self.max_tacos - self.tacos_release
        &&& self.score + count_true(self.tacos) <= self.tacos.len()
    }

    /// How many tacos have left the player's hands.
    pub open spec fn thrown(self) -> int {
        self.max_tacos - self.tacos_release
    }
}

/// No thrown taco flies any more.
pub open spec fn all_landed(tacos: Seq<bool>) -> bool {
    forall|i: int| 0 <= i < tacos.len() ==> !#[trigger] tacos[i]
}

/// The state at the start of a game.
pub open spec fn spec_new(screen: u8, max: u8) -> GameView {
    GameView {
        screen: screen,
        max_tacos: max,
        tacos_release: max,
        score: 0,
        player_dir: STILL,
        tacos: Seq::empty(),
        people: Seq::empty(),
    }
}

/// A throw: while the player holds a taco, one more taco flies; once the
/// player holds none and every taco has landed, the game is over. The `bool`
/// says whether a taco was thrown.
pub open spec fn spec_throw(g: GameView) -> (GameView, bool) {
    if g.tacos_release > 0 {
        (GameView { tacos_release: (g.tacos_release - 1) as u8, tacos: g.tacos.push(true), ..g }, true)
    } else if all_landed(g.tacos) {
        (GameView { screen: OVER, ..g }, false)
    } else {
        (g, false)
    }
}

/// The state after the drawing code reports a frame's moves: the tacos marked
/// in `landed` and the passers-by marked in `left` are gone; `arrived` adds a
/// passer-by at the end of the street's list.
pub open spec fn spec_record_moves(g: GameView, landed: Seq<bool>, left: Seq<bool>, arrived: bool) -> GameView {
    let tacos = Seq::new(g.tacos.len(), |i: int| g.tacos[i] && !(i < landed.len() && landed[i]));
    let stayed = Seq::new(g.people.len(), |i: int| g.people[i] && !(i < left.len() && left[i]));
    GameView { tacos: tacos, people: if arrived { stayed.push(true) } else { stayed }, ..g }
}

/// What a frame of the game moves.
#[derive(Clone, Copy, Debug, PartialEq, Eq)]
pub enum Phase {
    /// On the home screen only the clouds drift.
    Clouds,
    /// While playing everything moves: the clock, the clouds, the tacos,
    /// the passers-by and the player, and tacos make passers-by happy.
    Play,
    /// Nothing moves.
    Still,
}

/// What a frame moves on a given screen.
pub open spec fn spec_phase(screen: u8) -> Phase {
    if screen == HOME {
        Phase::Clouds
    } else if screen == PLAY {
        Phase::Play
    } else {
        Phase::Still
    }
}

impl Game {
    /// A new game on the given screen, with `max` tacos in the player's hands.
    pub fn new(screen: u8, max: u8) -> (g: Game)
        ensures
            g@ == spec_new(screen, max),
            g@.wf(),
    {
        let g = Game {
            screen: screen,
            max_tacos: max,
            tacos_release: max,
            score: 0,
            player_dir: STILL,
            tacos_active: Vec::new(),
            people_active: Vec::new(),
        };
        proof {
            assert(g@.tacos =~= Seq::<bool>::empty());
        }
        g
    }

    /// Whether every thrown taco has landed.
    fn check_tacos(&self) -> (state: bool)
        ensures
            state == all_landed(self@.tacos),
    {
        let mut state: bool = true;
        let mut i: usize = 0;
        while i < self.tacos_active.len()
            invariant
                i <= self.tacos_active.len(),
                state == (forall|j: int| 0 <= j < i ==> !#[trigger] self.tacos_active@[j]),
            decreases self.tacos_active.len() - i,
        {
            if self.tacos_active[i] {
                state = false;
            }
            i = i + 1;
        }
        state
    }

    /// The player throws a taco if one is left; with none left and every
    /// taco landed, the game is over. Returns whether a taco was thrown, for
    /// the drawing code to launch it from the player's hands.
    pub fn throw(&mut self) -> (thrown: bool)
        requires
            old(self)@.wf(),
        ensures
            (final(self)@, thrown) == spec_throw(old(self)@),
            final(self)@.wf(),
    {
        if self.tacos_release > 0 {
            proof {
                lemma_count_true_push(self@.tacos, true);
            }
            self.tacos_release = self.tacos_release - 1;
            self.tacos_active.push(true);
            true
        } else {
            if self.check_tacos() && self.tacos_release == 0 {
                self.screen = OVER;
            }
            false
        }
    }

    /// What a frame of the game moves on the current screen.
    pub fn update(&self) -> (phase: Phase)
        ensures
            phase == spec_phase(self.screen),
    {
        if self.screen == HOME {
            Phase::Clouds
        } else if self.screen == PLAY {
            Phase::Play
        } else {
            Phase::Still
        }
    }

    /// How many tacos have left the player's hands, as the score line shows it.
    pub fn thrown(&self) -> (n: u8)
        requires
            self@.wf(),
        ensures
            n == self@.thrown(),
    {
        self.max_tacos - self.tacos_release
    }

    /// Takes in what moved in a frame: the tacos that reached the ground
    /// (`landed[i]` for the taco `i`), the passers-by that left the street
    /// (`left[i]` for the passer-by `i`), and whether a new passer-by arrived.
    /// Entries past the end of `landed` or `left` count as `false`.
    pub fn record_moves(&mut self, landed: &Vec<bool>, left: &Vec<bool>, arrived: bool)
        requires
            old(self)@.wf(),
        ensures
            final(self)@ == spec_record_moves(old(self)@, landed@, left@, arrived),
            final(self)@.wf(),
    {
        let ghost start = self@;
        let n = self.tacos_active.len();
        let mut i: usize = 0;
        while i < n
            invariant
                i <= n,
                n == start.tacos.len(),
                self@ == (GameView { tacos: self@.tacos, ..start }),
                self@.tacos.len() == n,
                forall|j: int|
                    0 <= j < i ==> #[trigger] self@.tacos[j] == (start.tacos[j] && !(j < landed@.len()
                        && landed@[j])),
                forall|j: int| i <= j < n ==> #[trigger] self@.tacos[j] == start.tacos[j],
            decreases n - i,
        {
            if i < landed.len() && landed[i] {
                self.tacos_active.set(i, false);
            }
            i = i + 1;
        }
        let m = self.people_active.len();
        let mut k: usize = 0;
        while k < m
            invariant
                k <= m,
                m == start.people.len(),
                self@ == (GameView { tacos: self@.tacos, people: self@.people, ..start }),
                self@.tacos == spec_record_moves(start, landed@, left@, false).tacos,
                self@.people.len() == m,
                forall|j: int|
                    0 <= j < k ==> #[trigger] self@.people[j] == (start.people[j] && !(j < left@.len()
                        && left@[j])),
                forall|j: int| k <= j < m ==> #[trigger] self@.people[j] == start.people[j],
            decreases m - k,
        {
            if k < left.len() && left[k] {
                self.people_active.set(k, false);
            }
            k = k + 1;
        }
        proof {
            assert(self@.people =~= spec_record_moves(start, landed@, left@, false).people);
        }
        if arrived {
            self.people_active.push(true);
        }
        proof {
            let want = spec_record_moves(start, landed@, left@, arrived);
            assert(self@.tacos =~= want.tacos);
            assert(self@.people =~= want.people);
            lemma_count_true_mono(self@.tacos, start.tacos);
        }
    }
}

} // verus!
