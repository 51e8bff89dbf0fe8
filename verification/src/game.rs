//! The rules of one round: a secret word, the letters guessed so far, and the
//! number of wrong guesses that are still allowed.

use vstd::prelude::*;
use crate::text::{chars_of, contains_char};

verus! {

/// Where a round stands.
#[derive(Debug, PartialEq, Eq, Structural, Clone, Copy)]
pub enum GameState {
    InProgress,
    Won,
    Lost,
}

/// Why a guess was turned down.
#[derive(Debug, PartialEq, Eq, Structural, Clone, Copy)]
pub enum GameError {
    AlreadyGuessed,
    GameIsOver,
}

pub type GameResult = Result<(), GameError>;

/// Each element is smaller than every later one: sorted, and nothing twice.
pub open spec fn strictly_ascending(s: Seq<char>) -> bool {
    forall|i: int, j: int| 0 <= i < j < s.len() ==> s[i] < s[j]
}

/// `s` with `c` put behind the last element that is smaller than `c`.
pub open spec fn insert_ordered(s: Seq<char>, c: char) -> Seq<char>
    decreases s.len(),
{
    if s.len() == 0 || s.last() < c {
        s.push(c)
    } else {
        insert_ordered(s.drop_last(), c).push(s.last())
    }
}

/// The mathematical content of a round.
pub struct GameView {
    pub secret: Seq<char>,
    pub guesses: Seq<char>,
    pub remaining: nat,
}

impl GameView {
    /// A round as it stands before the first guess.
    pub open spec fn fresh(secret: Seq<char>, budget: nat) -> GameView {
        GameView { secret, guesses: Seq::empty(), remaining: budget }
    }

    /// The guess history is in canonical order.
    pub open spec fn ordered(self) -> bool {
        strictly_ascending(self.guesses)
    }

    /// No wrong guess is left.
    pub open spec fn is_lost(self) -> bool {
        self.remaining == 0
    }

    /// Every character of the secret has been guessed.
    pub open spec fn is_solved(self) -> bool {
        forall|i: int| 0 <= i < self.secret.len() ==> self.guesses.contains(#[trigger] self.secret[i])
    }

    /// Loss is looked at first, then the win.
    pub open spec fn state(self) -> GameState {
        if self.is_lost() {
            GameState::Lost
        } else if self.is_solved() {
            GameState::Won
        } else {
            GameState::InProgress
        }
    }

    /// The answer that a guess of `c` gets.
    pub open spec fn verdict(self, c: char) -> GameResult {
        if self.state() != GameState::InProgress {
            Err(GameError::GameIsOver)
        } else if self.guesses.contains(c) {
            Err(GameError::AlreadyGuessed)
        } else {
            Ok(())
        }
    }

    /// The round after a guess of `c`: unchanged unless the guess is accepted.
    pub open spec fn after_guess(self, c: char) -> GameView {
        if self.verdict(c) is Ok {
            GameView {
                secret: self.secret,
                guesses: insert_ordered(self.guesses, c),
                remaining: if self.secret.contains(c) {
                    self.remaining
                } else {
                    (self.remaining - 1) as nat
                },
            }
        } else {
            self
        }
    }

    /// The round after the guesses `letters`, submitted one after another.
    pub open spec fn after_all(self, letters: Seq<char>) -> GameView
        decreases letters.len(),
    {
        if letters.len() == 0 {
            self
        } else {
            self.after_all(letters.drop_last()).after_guess(letters.last())
        }
    }
}

/// One round of the game.
pub struct Game {
    secret: String,
    letters: Vec<char>,
    guesses: Vec<char>,
    remaining_guesses: u32,
}

impl View for Game {
    type V = GameView;

    closed spec fn view(&self) -> GameView {
        GameView {
            secret: self.secret@,
            guesses: self.guesses@,
            remaining: self.remaining_guesses as nat,
        }
    }
}

impl Game {
    #[verifier::type_invariant]
    spec fn well_formed(self) -> bool {
        &&& self.letters@ == self.secret@
        &&& strictly_ascending(self.guesses@)
    }

    /// A round on `secret` in which `total_guesses` wrong guesses are allowed.
    pub fn new(secret: String, total_guesses: u32) -> (game: Game)
        ensures
            game@ == GameView::fresh(secret@, total_guesses as nat),
            secret@.len() > 0 && total_guesses > 0 ==> game@.state() == GameState::InProgress,
    {
        let letters = chars_of(secret.as_str());
        let game = Game { secret, letters, guesses: Vec::new(), remaining_guesses: total_guesses };
        proof {
            if secret@.len() > 0 {
                assert(!game@.guesses.contains(game@.secret[0]));
            }
        }
        game
    }

    /// The number of wrong guesses that are still allowed.
    pub fn remaining_guesses(&self) -> (n: u32)
        ensures
            n == self@.remaining,
    {
        self.remaining_guesses
    }

    /// The letters guessed so far, in ascending order and each once.
    pub fn guesses(&self) -> (letters: &[char])
        ensures
            letters@ == self@.guesses,
            strictly_ascending(letters@),
    {
        proof {
            use_type_invariant(self);
        }
        self.guesses.as_slice()
    }

    /// The word to be guessed.
    pub fn secret(&self) -> (word: &str)
        ensures
            word@ == self@.secret,
    {
        self.secret.as_str()
    }

    /// Where the round stands: lost once no wrong guess is left, else won
    /// once every letter of the secret is guessed, else in progress.
    pub fn state(&self) -> (state: GameState)
        ensures
            state == self@.state(),
    {
        if self.game_is_lost() {
            return GameState::Lost;
        } else if self.game_is_won() {
            return GameState::Won;
        }
        GameState::InProgress
    }

    /// Submits the letter `guess`. A guess made after the round has ended, or
    /// a letter guessed before, is turned down and changes nothing. An
    /// accepted guess joins the history at its place in the order, and costs
    /// one of the remaining wrong guesses if the secret does not hold it.
    pub fn make_guess(&mut self, guess: char) -> (result: GameResult)
        ensures
            result == old(self)@.verdict(guess),
            final(self)@ == old(self)@.after_guess(guess),
            result is Err ==> final(self)@ == old(self)@,
            result is Ok ==> final(self)@.guesses == insert_ordered(old(self)@.guesses, guess),
            result is Ok && old(self)@.secret.contains(guess) ==> final(self)@.remaining == old(
                self,
            )@.remaining,
            result is Ok && !old(self)@.secret.contains(guess) ==> final(self)@.remaining == old(
                self,
            )@.remaining - 1,
            final(self)@.secret == old(self)@.secret,
            final(self)@.ordered(),
    {
        proof {
            use_type_invariant(&*self);
        }
        match self.is_allowed(guess) {
            Err(e) => Err(e),
            Ok(()) => {
                self.record(guess);
                Ok(())
            },
        }
    }

    fn is_allowed(&self, guess: char) -> (result: GameResult)
        ensures
            result == self@.verdict(guess),
    {
        if self.state() != GameState::InProgress {
            return Err(GameError::GameIsOver);
        } else if contains_char(self.guesses.as_slice(), guess) {
            return Err(GameError::AlreadyGuessed);
        }
        Ok(())
    }

    fn record(&mut self, guess: char)
        requires
            old(self)@.verdict(guess) is Ok,
        ensures
            final(self)@ == old(self)@.after_guess(guess),
            final(self)@.ordered(),
    {
        proof {
            use_type_invariant(&*self);
            lemma_insert_keeps_order(self.guesses@, guess);
        }
        let wrong = self.is_incorrect(guess);
        self.guesses = insert_in_order(&self.guesses, guess);
        if wrong {
            self.remaining_guesses -= 1;
        }
    }

    fn is_incorrect(&self, guess: char) -> (wrong: bool)
        ensures
            wrong == !self@.secret.contains(guess),
    {
        proof {
            use_type_invariant(self);
        }
        !contains_char(self.letters.as_slice(), guess)
    }

    fn game_is_lost(&self) -> (lost: bool)
        ensures
            lost == self@.is_lost(),
    {
        self.remaining_guesses == 0
    }

    fn game_is_won(&self) -> (won: bool)
        ensures
            won == self@.is_solved(),
    {
        proof {
            use_type_invariant(self);
        }
        let mut i: usize = 0;
        while i < self.letters.len()
            invariant
                i <= self.letters.len(),
                self.letters@ == self.secret@,
                forall|j: int| 0 <= j < i ==> self.guesses@.contains(#[trigger] self.secret@[j]),
            decreases self.letters.len() - i,
        {
            if !contains_char(self.guesses.as_slice(), self.letters[i]) {
                assert(!self@.guesses.contains(self@.secret[i as int]));
                return false;
            }
            i += 1;
        }
        true
    }
}

/// A copy of `v` with `c` put behind the last element smaller than `c`.
pub fn insert_in_order(v: &Vec<char>, c: char) -> (r: Vec<char>)
    ensures
        r@ == insert_ordered(v@, c),
{
    let mut k: usize = v.len();
    while k > 0 && v[k - 1] >= c
        invariant
            k <= v.len(),
            forall|j: int| k <= j < v@.len() ==> !(v@[j] < c),
        decreases k,
    {
        k -= 1;
    }
    let mut r: Vec<char> = Vec::new();
    let mut i: usize = 0;
    while i < k
        invariant
            i <= k <= v.len(),
            r@ == v@.take(i as int),
        decreases k - i,
    {
        r.push(v[i]);
        i += 1;
    }
    r.push(c);
    while i < v.len()
        invariant
            k <= i <= v.len(),
            r@ == v@.take(i as int).insert(k as int, c),
        decreases v.len() - i,
    {
        r.push(v[i]);
        i += 1;
    }
    proof {
        assert(v@.take(v@.len() as int) == v@);
        lemma_insert_position(v@, c, k as int);
    }
    r
}

/// Putting `c` at position `k` is the ordered insertion, where everything
/// from `k` on is not smaller than `c` and the element before `k` is.
pub proof fn lemma_insert_position(s: Seq<char>, c: char, k: int)
    requires
        0 <= k <= s.len(),
        k > 0 ==> s[k - 1] < c,
        forall|j: int| k <= j < s.len() ==> !(s[j] < c),
    ensures
        insert_ordered(s, c) == s.insert(k, c),
    decreases s.len(),
{
    if k == s.len() {
        assert(s.push(c) =~= s.insert(k, c));
    } else {
        lemma_insert_position(s.drop_last(), c, k);
        assert(s.drop_last().insert(k, c).push(s.last()) =~= s.insert(k, c));
    }
}

/// Ordered insertion adds `c` and nothing else.
pub proof fn lemma_insert_members(s: Seq<char>, c: char)
    ensures
        insert_ordered(s, c).len() == s.len() + 1,
        forall|x: char| insert_ordered(s, c).contains(x) <==> (s.contains(x) || x == c),
    decreases s.len(),
{
    let t = insert_ordered(s, c);
    if s.len() == 0 || s.last() < c {
        assert forall|x: char| t.contains(x) <==> (s.contains(x) || x == c) by {
            if t.contains(x) {
                let i = choose|i: int| 0 <= i < t.len() && t[i] == x;
                if i < s.len() {
                    assert(s[i] == x);
                }
            }
            if s.contains(x) {
                let i = choose|i: int| 0 <= i < s.len() && s[i] == x;
                assert(t[i] == x);
            }
            if x == c {
                assert(t[s.len() as int] == x);
            }
        }
    } else {
        let d = s.drop_last();
        let u = insert_ordered(d, c);
        lemma_insert_members(d, c);
        assert forall|x: char| t.contains(x) <==> (s.contains(x) || x == c) by {
            if t.contains(x) {
                let i = choose|i: int| 0 <= i < t.len() && t[i] == x;
                if i < u.len() {
                    assert(u[i] == x);
                    assert(u.contains(x));
                    if d.contains(x) {
                        let j = choose|j: int| 0 <= j < d.len() && d[j] == x;
                        assert(s[j] == x);
                    }
                } else {
                    assert(s[s.len() - 1] == x);
                }
            }
            if s.contains(x) {
                let i = choose|i: int| 0 <= i < s.len() && s[i] == x;
                if i < d.len() {
                    assert(d[i] == x);
                    assert(d.contains(x));
                    let j = choose|j: int| 0 <= j < u.len() && u[j] == x;
                    assert(t[j] == x);
                } else {
                    assert(t[t.len() - 1] == x);
                }
            }
            if x == c {
                assert(u.contains(c));
                let j = choose|j: int| 0 <= j < u.len() && u[j] == c;
                assert(t[j] == x);
            }
        }
    }
}

/// Ordered insertion of a new letter keeps a canonical history canonical.
pub proof fn lemma_insert_keeps_order(s: Seq<char>, c: char)
    requires
        strictly_ascending(s),
        !s.contains(c),
    ensures
        strictly_ascending(insert_ordered(s, c)),
    decreases s.len(),
{
    let t = insert_ordered(s, c);
    if s.len() == 0 || s.last() < c {
    } else {
        let d = s.drop_last();
        let u = insert_ordered(d, c);
        assert(!d.contains(c)) by {
            if d.contains(c) {
                let j = choose|j: int| 0 <= j < d.len() && d[j] == c;
                assert(s[j] == c);
            }
        }
        lemma_insert_keeps_order(d, c);
        lemma_insert_members(d, c);
        assert(s.last() != c) by {
            assert(s[s.len() - 1] == s.last());
        }
        assert forall|i: int, j: int| 0 <= i < j < t.len() implies t[i] < t[j] by {
            if j < u.len() {
                assert(t[i] == u[i] && t[j] == u[j]);
            } else {
                assert(t[j] == s.last());
                assert(u.contains(u[i]));
                if u[i] == c {
                } else {
                    assert(d.contains(u[i]));
                    let m = choose|m: int| 0 <= m < d.len() && d[m] == u[i];
                    assert(s[m] < s[s.len() - 1]);
                }
            }
        }
    }
}

/// A fresh round on a non-empty secret with a positive budget is in
/// progress, has no guesses, and has the whole budget left.
pub proof fn lemma_fresh_round(secret: Seq<char>, budget: nat)
    requires
        secret.len() > 0,
        budget > 0,
    ensures
        GameView::fresh(secret, budget).state() == GameState::InProgress,
        GameView::fresh(secret, budget).guesses.len() == 0,
        GameView::fresh(secret, budget).remaining == budget,
        GameView::fresh(secret, budget).ordered(),
{
    let v = GameView::fresh(secret, budget);
    assert(!v.guesses.contains(v.secret[0]));
}

/// An accepted guess that the secret does not hold costs exactly one of the
/// remaining wrong guesses; an accepted guess that it holds costs none.
pub proof fn lemma_guess_cost(v: GameView, c: char)
    requires
        v.verdict(c) is Ok,
    ensures
        !v.secret.contains(c) ==> v.after_guess(c).remaining == v.remaining - 1,
        v.secret.contains(c) ==> v.after_guess(c).remaining == v.remaining,
        v.after_guess(c).secret == v.secret,
        v.after_guess(c).guesses.len() == v.guesses.len() + 1,
        forall|x: char| v.after_guess(c).guesses.contains(x) <==> (v.guesses.contains(x) || x == c),
{
    lemma_insert_members(v.guesses, c);
}

/// A guess that is turned down changes nothing.
pub proof fn lemma_refused_guess(v: GameView, c: char)
    requires
        v.verdict(c) is Err,
    ensures
        v.after_guess(c) == v,
{
}

/// One guess keeps the history sorted and free of duplicates.
pub proof fn lemma_guess_keeps_order(v: GameView, c: char)
    requires
        v.ordered(),
    ensures
        v.after_guess(c).ordered(),
{
    if v.verdict(c) is Ok {
        lemma_insert_keeps_order(v.guesses, c);
    }
}

/// Whatever letters are submitted to a fresh or otherwise canonical round,
/// the history stays sorted and free of duplicates.
pub proof fn lemma_play_keeps_order(v: GameView, letters: Seq<char>)
    requires
        v.ordered(),
    ensures
        v.after_all(letters).ordered(),
    decreases letters.len(),
{
    if letters.len() > 0 {
        lemma_play_keeps_order(v, letters.drop_last());
        lemma_guess_keeps_order(v.after_all(letters.drop_last()), letters.last());
    }
}

/// With no wrong guess left the round is lost, and no further submission
/// changes the history, the count or the status.
pub proof fn lemma_lost_is_final(v: GameView, letters: Seq<char>)
    requires
        v.remaining == 0,
    ensures
        v.state() == GameState::Lost,
        v.after_all(letters) == v,
        letters.len() > 0 ==> v.after_all(letters.drop_last()).verdict(letters.last()) == Err::<
            (),
            GameError,
        >(GameError::GameIsOver),
    decreases letters.len(),
{
    if letters.len() > 0 {
        lemma_lost_is_final(v, letters.drop_last());
    }
}

/// With wrong guesses left and every character of the secret guessed the
/// round is won, and no further submission changes it.
pub proof fn lemma_won_is_final(v: GameView, letters: Seq<char>)
    requires
        v.remaining > 0,
        v.is_solved(),
    ensures
        v.state() == GameState::Won,
        v.after_all(letters) == v,
        letters.len() > 0 ==> v.after_all(letters.drop_last()).verdict(letters.last()) == Err::<
            (),
            GameError,
        >(GameError::GameIsOver),
    decreases letters.len(),
{
    if letters.len() > 0 {
        lemma_won_is_final(v, letters.drop_last());
    }
}

/// Submitting a letter a second time is turned down and changes nothing
/// beyond what the first submission did.
pub proof fn lemma_repeat_is_idle(v: GameView, c: char)
    ensures
        v.after_guess(c).verdict(c) is Err,
        v.after_guess(c).after_guess(c) == v.after_guess(c),
{
    if v.verdict(c) is Ok {
        lemma_insert_members(v.guesses, c);
    }
}

/// The wrong guesses left never grow, the secret never changes, and no
/// guessed letter is ever forgotten.
pub proof fn lemma_guess_is_monotone(v: GameView, c: char)
    ensures
        v.after_guess(c).secret == v.secret,
        v.after_guess(c).remaining <= v.remaining,
        forall|x: char| v.guesses.contains(x) ==> v.after_guess(c).guesses.contains(x),
{
    if v.verdict(c) is Ok {
        lemma_insert_members(v.guesses, c);
    }
}

} // verus!
