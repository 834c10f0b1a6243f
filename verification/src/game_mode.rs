//! Auto Game Mode.
//!
//! Turns the earbuds' low-latency game mode on/off in response to a host signal.
//! A [`GameModeSignal`] source pushes [`GameModeEvent`]s; the event-driven
//! [`GameModeController`] applies a keyword allowlist and a cooldown so rapid
//! toggling cannot occur. A transition held back by the cooldown is remembered and
//! applied when the caller re-evaluates after the cooldown. Time is injected as
//! milliseconds, so the controller is deterministic.

use vstd::prelude::*;

use crate::text::{
    chars_eq, chars_of, contains_chars, has_prefix, has_substring, lemma_lex_lt_trans,
    lemma_lex_trichotomy, lex_lt, lex_lt_exec, spec_to_lowercase, starts_with_chars, string_of,
    to_lowercase,
};

verus! {

/// An event from a host signal source.
#[derive(Debug, Clone, PartialEq, Eq)]
pub enum GameModeEvent {
    /// A candidate (player/app/process) with this name became active.
    Activated(String),
    /// The candidate with this name is no longer active.
    Deactivated(String),
}

/// Keyword allowlist rule. Matching is case-insensitive substring, so a keyword
/// like "game" matches "Steam Big Picture Game Mode".
#[derive(Debug, Clone)]
pub struct GameModeRule {
    pub keywords: Vec<String>,
}

/// `name` matches some non-empty keyword, both Unicode-lowercased.
pub open spec fn rule_matches(keywords: Seq<String>, name: Seq<char>) -> bool {
    exists|i: int|
        0 <= i < keywords.len() && keywords[i]@.len() > 0 && has_substring(
            spec_to_lowercase(name),
            spec_to_lowercase(#[trigger] keywords[i]@),
        )
}

impl Default for GameModeRule {
    fn default() -> (r: Self)
        ensures
            r.keywords@.len() == 0,
    {
        GameModeRule { keywords: Vec::new() }
    }
}

impl GameModeRule {
    pub fn new(keywords: Vec<String>) -> (r: Self)
        ensures
            r.keywords == keywords,
    {
        GameModeRule { keywords }
    }

    /// True when `name` matches any allowlisted keyword.
    pub fn matches(&self, name: &str) -> (r: bool)
        ensures
            r == rule_matches(self.keywords@, name@),
    {
        let lower = to_lowercase(name);
        let l = chars_of(lower.as_str());
        let mut i: usize = 0;
        while i < self.keywords.len()
            invariant
                i <= self.keywords@.len(),
                l@ == spec_to_lowercase(name@),
                forall|k: int|
                    0 <= k < i ==> !(self.keywords@[k]@.len() > 0 && has_substring(
                        spec_to_lowercase(name@),
                        spec_to_lowercase(#[trigger] self.keywords@[k]@),
                    )),
            decreases self.keywords@.len() - i,
        {
            let k = &self.keywords[i];
            if k.unicode_len() > 0 {
                let kl = to_lowercase(k.as_str());
                if contains_chars(l.as_slice(), chars_of(kl.as_str()).as_slice()) {
                    return true;
                }
            }
            i = i + 1;
        }
        false
    }

    /// Desired game-mode state given the currently active candidate, if any.
    pub fn evaluate(&self, active_name: Option<&str>) -> (r: bool)
        ensures
            r == match active_name {
                Some(name) => rule_matches(self.keywords@, name@),
                None => false,
            },
    {
        match active_name {
            Some(name) => self.matches(name),
            None => false,
        }
    }
}

/// Outcome of feeding one event to the controller.
#[derive(Debug, Clone, PartialEq, Eq, Structural)]
pub struct GameModeDecision {
    /// The game-mode state after this event.
    pub game_mode_on: bool,
    /// True when the state changed (a device write is due).
    pub changed: bool,
    /// True when a transition was wanted but suppressed by the cooldown.
    pub suppressed: bool,
}

/// A texts list in strictly increasing lexicographic order (so without repeats).
pub open spec fn strictly_sorted(s: Seq<Seq<char>>) -> bool {
    forall|i: int, j: int| 0 <= i < j < s.len() ==> lex_lt(s[i], s[j])
}

/// The cooldown allows a transition at `now`: never transitioned, or at least
/// `cooldown` milliseconds since the last transition (a clock that went
/// backwards counts as no time).
pub open spec fn cooldown_allows(last: Option<u64>, now: u64, cooldown: u64) -> bool {
    match last {
        Some(l) => (if now >= l { (now - l) as int } else { 0int }) >= cooldown,
        None => true,
    }
}

/// Event-driven Auto Game Mode controller.
pub struct GameModeController {
    rule: GameModeRule,
    cooldown_ms: u64,
    last_transition_ms: Option<u64>,
    /// The currently believed game-mode state.
    on: bool,
    /// A transition suppressed by the cooldown, remembered until it is applied or
    /// the desired state converges with `on`.
    pending_desired: Option<bool>,
    /// Every currently active candidate, in strictly increasing order.
    active: Vec<String>,
    /// The times of every game-mode change so far, in order.
    changes: Ghost<Seq<u64>>,
}

/// Any two game-mode changes are at least the cooldown apart, in the order
/// they happened (with no cooldown, changes may come at any time).
pub open spec fn spaced_changes(changes: Seq<u64>, cooldown: u64) -> bool {
    cooldown == 0 || forall|i: int, j: int|
        0 <= i < j < changes.len() ==> #[trigger] changes[j] >= #[trigger] changes[i] + cooldown
}

/// The time of the last change, if there was one.
pub open spec fn last_change(changes: Seq<u64>) -> Option<u64> {
    if changes.len() == 0 {
        None
    } else {
        Some(changes.last())
    }
}

impl GameModeController {
    pub closed spec fn spec_keywords(&self) -> Seq<String> {
        self.rule.keywords@
    }

    pub closed spec fn spec_cooldown(&self) -> u64 {
        self.cooldown_ms
    }

    pub closed spec fn spec_last(&self) -> Option<u64> {
        self.last_transition_ms
    }

    pub closed spec fn spec_on(&self) -> bool {
        self.on
    }

    pub closed spec fn spec_pending(&self) -> Option<bool> {
        self.pending_desired
    }

    /// The active candidates, in order.
    pub closed spec fn spec_active(&self) -> Seq<Seq<char>> {
        self.active@.map_values(|s: String| s@)
    }

    /// The times of the game-mode changes so far, in order.
    pub closed spec fn spec_changes(&self) -> Seq<u64> {
        self.changes@
    }

    /// The active candidates keep their strict order, the changes so far are
    /// spaced by the cooldown, and the last transition is the last change.
    pub open spec fn wf(&self) -> bool {
        &&& strictly_sorted(self.spec_active())
        &&& spaced_changes(self.spec_changes(), self.spec_cooldown())
        &&& self.spec_last() == last_change(self.spec_changes())
    }

    /// Game mode is wanted exactly when some active candidate matches the rule.
    pub open spec fn spec_desired(&self) -> bool {
        exists|i: int|
            0 <= i < self.spec_active().len() && rule_matches(
                self.spec_keywords(),
                #[trigger] self.spec_active()[i],
            )
    }

    /// A controller that is off, with no history and no active candidates.
    pub fn new(rule: GameModeRule, cooldown_ms: u64) -> (r: Self)
        ensures
            r.wf(),
            r.spec_keywords() == rule.keywords@,
            r.spec_cooldown() == cooldown_ms,
            r.spec_last() is None,
            !r.spec_on(),
            r.spec_pending() is None,
            r.spec_active().len() == 0,
            strictly_sorted(r.spec_active()),
            r.spec_changes().len() == 0,
    {
        let r = GameModeController {
            rule,
            cooldown_ms,
            last_transition_ms: None,
            on: false,
            pending_desired: None,
            active: Vec::new(),
            changes: Ghost(Seq::empty()),
        };
        assert(r.spec_active() =~= Seq::<Seq<char>>::empty());
        r
    }

    /// The currently active candidate names, in deterministic (sorted) order.
    pub fn active_candidates(&self) -> (r: Vec<String>)
        ensures
            r@.map_values(|s: String| s@) == self.spec_active(),
    {
        let mut out: Vec<String> = Vec::new();
        let mut i: usize = 0;
        while i < self.active.len()
            invariant
                i <= self.active@.len(),
                out@ == self.active@.subrange(0, i as int),
            decreases self.active@.len() - i,
        {
            out.push(self.active[i].clone());
            i = i + 1;
            assert(out@ =~= self.active@.subrange(0, i as int));
        }
        assert(self.active@.subrange(0, self.active@.len() as int) =~= self.active@);
        out
    }

    pub fn is_on(&self) -> (r: bool)
        ensures
            r == self.spec_on(),
    {
        self.on
    }

    /// The desired state given the active candidates, independent of cooldowns
    /// and of the applied state.
    pub fn desired(&self) -> (r: bool)
        ensures
            r == self.spec_desired(),
    {
        let mut i: usize = 0;
        while i < self.active.len()
            invariant
                i <= self.active@.len(),
                forall|k: int|
                    0 <= k < i ==> !rule_matches(self.spec_keywords(), #[trigger] self.spec_active()[k]),
            decreases self.active@.len() - i,
        {
            if self.rule.matches(self.active[i].as_str()) {
                assert(rule_matches(self.spec_keywords(), self.spec_active()[i as int]));
                return true;
            }
            i = i + 1;
        }
        false
    }

    /// A desired transition currently held back by the cooldown, if any.
    pub fn pending_desired(&self) -> (r: Option<bool>)
        ensures
            r == self.spec_pending(),
    {
        self.pending_desired
    }

    /// The millisecond deadline at which the pending transition becomes due for
    /// [`reevaluate`](Self::reevaluate) (saturating at `u64::MAX`); `None` when
    /// nothing is pending.
    pub fn pending_retry_at_ms(&self) -> (r: Option<u64>)
        ensures
            r == match (self.spec_pending(), self.spec_last()) {
                (Some(_), Some(l)) => Some(
                    if l + self.spec_cooldown() > u64::MAX {
                        u64::MAX
                    } else {
                        (l + self.spec_cooldown()) as u64
                    },
                ),
                _ => None::<u64>,
            },
    {
        match (self.pending_desired, self.last_transition_ms) {
            (Some(_), Some(l)) => Some(l.saturating_add(self.cooldown_ms)),
            _ => None,
        }
    }

    /// Re-evaluates the desired state at `now_ms`. When it agrees with the
    /// applied state nothing is pending; otherwise the transition is applied if
    /// the cooldown allows it, else remembered as pending.
    pub fn reevaluate(&mut self, now_ms: u64) -> (r: GameModeDecision)
        ensures
            old(self).wf() ==> final(self).wf() && strictly_sorted(final(self).spec_active()),
            final(self).spec_changes() == if r.changed {
                old(self).spec_changes().push(now_ms)
            } else {
                old(self).spec_changes()
            },
            !(r.changed && r.suppressed),
            r.game_mode_on == final(self).spec_on(),
            final(self).spec_keywords() == old(self).spec_keywords(),
            final(self).spec_cooldown() == old(self).spec_cooldown(),
            final(self).spec_active() == old(self).spec_active(),
            old(self).spec_desired() == old(self).spec_on() ==> r == (GameModeDecision {
                game_mode_on: old(self).spec_on(),
                changed: false,
                suppressed: false,
            }) && final(self).spec_on() == old(self).spec_on() && final(self).spec_pending() is None
                && final(self).spec_last() == old(self).spec_last(),
            old(self).spec_desired() != old(self).spec_on() && !cooldown_allows(
                old(self).spec_last(),
                now_ms,
                old(self).spec_cooldown(),
            ) ==> r == (GameModeDecision {
                game_mode_on: old(self).spec_on(),
                changed: false,
                suppressed: true,
            }) && final(self).spec_on() == old(self).spec_on() && final(self).spec_pending()
                == Some(old(self).spec_desired()) && final(self).spec_last() == old(self).spec_last(),
            old(self).spec_desired() != old(self).spec_on() && cooldown_allows(
                old(self).spec_last(),
                now_ms,
                old(self).spec_cooldown(),
            ) ==> r == (GameModeDecision {
                game_mode_on: old(self).spec_desired(),
                changed: true,
                suppressed: false,
            }) && final(self).spec_on() == old(self).spec_desired() && final(self).spec_pending()
                is None && final(self).spec_last() == Some(now_ms),
            transition_step(old(self).spec_last(), final(self).spec_last(), now_ms, r.changed, old(self).spec_cooldown()),
    {
        let desired = self.desired();
        if desired == self.on {
            self.pending_desired = None;
            return GameModeDecision { game_mode_on: self.on, changed: false, suppressed: false };
        }
        let allowed = match self.last_transition_ms {
            Some(last) => now_ms.saturating_sub(last) >= self.cooldown_ms,
            None => true,
        };
        if !allowed {
            self.pending_desired = Some(desired);
            return GameModeDecision { game_mode_on: self.on, changed: false, suppressed: true };
        }
        self.on = desired;
        self.pending_desired = None;
        self.last_transition_ms = Some(now_ms);
        proof {
            let c = old(self).changes@;
            if old(self).wf() && self.cooldown_ms > 0 && c.len() > 0 {
                assert forall|i: int, j: int| 0 <= i < j < c.push(now_ms).len() implies #[trigger] c.push(now_ms)[j]
                    >= #[trigger] c.push(now_ms)[i] + self.cooldown_ms by {
                    if j == c.len() {
                        if i < c.len() - 1 {
                            assert(c[c.len() - 1] >= c[i] + self.cooldown_ms);
                        }
                    } else {
                        assert(c[j] >= c[i] + self.cooldown_ms);
                    }
                }
            }
        }
        self.changes = Ghost(self.changes@.push(now_ms));
        GameModeDecision { game_mode_on: self.on, changed: true, suppressed: false }
    }

    /// Adds a candidate to the active set (no change when already present).
    fn activate(&mut self, name: String)
        requires
            old(self).wf(),
        ensures
            final(self).spec_changes() == old(self).spec_changes(),
            final(self).wf(),
            final(self).spec_active().to_set() == old(self).spec_active().to_set().insert(name@),
            final(self).spec_keywords() == old(self).spec_keywords(),
            final(self).spec_cooldown() == old(self).spec_cooldown(),
            final(self).spec_last() == old(self).spec_last(),
            final(self).spec_on() == old(self).spec_on(),
            final(self).spec_pending() == old(self).spec_pending(),
    {
        let key = chars_of(name.as_str());
        let ghost o = self.spec_active();
        let mut i: usize = 0;
        while i < self.active.len()
            invariant
                i <= self.active@.len(),
                o == self.spec_active(),
                key@ == name@,
                forall|k: int| 0 <= k < i ==> lex_lt(#[trigger] o[k], key@),
            ensures
                i <= self.active@.len(),
                o == self.spec_active(),
                forall|k: int| 0 <= k < i ==> lex_lt(#[trigger] o[k], key@),
                i < self.active@.len() ==> !lex_lt(o[i as int], key@),
            decreases self.active@.len() - i,
        {
            let cur = chars_of(self.active[i].as_str());
            if !lex_lt_exec(cur.as_slice(), key.as_slice()) {
                break;
            }
            i = i + 1;
        }
        if i < self.active.len() && chars_eq(
            chars_of(self.active[i].as_str()).as_slice(),
            key.as_slice(),
        ) {
            proof {
                assert(o.to_set().contains(name@)) by {
                    assert(o[i as int] == name@);
                }
                assert(o.to_set().insert(name@) =~= o.to_set());
            }
            return;
        }
        proof {
            if i < o.len() {
                lemma_lex_trichotomy(o[i as int], key@);
            }
        }
        let ghost n = name@;
        self.active.insert(i, name);
        proof {
            let a = self.spec_active();
            assert(a =~= o.insert(i as int, n));
            assert forall|x: int, y: int| 0 <= x < y < a.len() implies lex_lt(a[x], a[y]) by {
                if y < i {
                } else if x < i && y == i {
                } else if x < i && y > i {
                    assert(lex_lt(o[x], o[y - 1]));
                } else if x == i {
                    if y - 1 > i {
                        assert(lex_lt(o[i as int], o[y - 1]));
                        lemma_lex_lt_trans(n, o[i as int], o[y - 1]);
                    }
                } else {
                    assert(lex_lt(o[x - 1], o[y - 1]));
                }
            }
            assert(a.to_set() =~= o.to_set().insert(n)) by {
                assert forall|v: Seq<char>| a.to_set().contains(v) implies o.to_set().insert(n).contains(v) by {
                    let k = choose|k: int| 0 <= k < a.len() && a[k] == v;
                    if k < i {
                        assert(o[k] == v);
                    } else if k > i {
                        assert(o[k - 1] == v);
                    }
                }
                assert forall|v: Seq<char>| o.to_set().insert(n).contains(v) implies a.to_set().contains(v) by {
                    if v == n {
                        assert(a[i as int] == n);
                    } else {
                        let k = choose|k: int| 0 <= k < o.len() && o[k] == v;
                        if k < i {
                            assert(a[k] == v);
                        } else {
                            assert(a[k + 1] == v);
                        }
                    }
                }
            }
        }
    }

    /// Removes exactly this candidate from the active set; unknown names are a no-op.
    fn deactivate(&mut self, name: &String)
        requires
            old(self).wf(),
        ensures
            final(self).spec_changes() == old(self).spec_changes(),
            final(self).wf(),
            final(self).spec_active().to_set() == old(self).spec_active().to_set().remove(name@),
            final(self).spec_keywords() == old(self).spec_keywords(),
            final(self).spec_cooldown() == old(self).spec_cooldown(),
            final(self).spec_last() == old(self).spec_last(),
            final(self).spec_on() == old(self).spec_on(),
            final(self).spec_pending() == old(self).spec_pending(),
    {
        let key = chars_of(name.as_str());
        let ghost o = self.spec_active();
        let mut i: usize = 0;
        while i < self.active.len()
            invariant
                i <= self.active@.len(),
                o == self.spec_active(),
                *self == *old(self),
                old(self).wf(),
                strictly_sorted(o),
                key@ == name@,
                forall|k: int| 0 <= k < i ==> o[k] != name@,
            decreases self.active@.len() - i,
        {
            if chars_eq(chars_of(self.active[i].as_str()).as_slice(), key.as_slice()) {
                self.active.remove(i);
                proof {
                    let a = self.spec_active();
                    assert(a =~= o.remove(i as int));
                    assert forall|x: int, y: int| 0 <= x < y < a.len() implies lex_lt(a[x], a[y]) by {
                        if y < i {
                        } else if x < i {
                            assert(lex_lt(o[x], o[y + 1]));
                        } else {
                            assert(lex_lt(o[x + 1], o[y + 1]));
                        }
                    }
                    assert(a.to_set() =~= o.to_set().remove(name@)) by {
                        assert forall|v: Seq<char>| a.to_set().contains(v) implies o.to_set().remove(name@).contains(v) by {
                            let k = choose|k: int| 0 <= k < a.len() && a[k] == v;
                            if k < i {
                                assert(o[k] == v);
                                assert(lex_lt(o[k], o[i as int]));
                                lemma_lex_trichotomy(o[k], o[i as int]);
                            } else {
                                assert(o[k + 1] == v);
                                assert(lex_lt(o[i as int], o[k + 1]));
                                lemma_lex_trichotomy(o[i as int], o[k + 1]);
                            }
                        }
                        assert forall|v: Seq<char>| o.to_set().remove(name@).contains(v) implies a.to_set().contains(v) by {
                            let k = choose|k: int| 0 <= k < o.len() && o[k] == v;
                            if k < i {
                                assert(a[k] == v);
                            } else {
                                assert(k != i);
                                assert(a[k - 1] == v);
                            }
                        }
                    }
                }
                return;
            }
            i = i + 1;
        }
        proof {
            assert(o.to_set().remove(name@) =~= o.to_set()) by {
                assert(!o.to_set().contains(name@));
            }
        }
    }

    /// Processes one event at `now_ms`: the named candidate joins or leaves the
    /// active set (every other candidate stays), then the state is re-evaluated.
    /// The caller sends the device write for a changed decision.
    pub fn handle(&mut self, event: GameModeEvent, now_ms: u64) -> (r: GameModeDecision)
        requires
            old(self).wf(),
        ensures
            final(self).wf(),
            strictly_sorted(final(self).spec_active()),
            final(self).spec_changes() == if r.changed {
                old(self).spec_changes().push(now_ms)
            } else {
                old(self).spec_changes()
            },
            !(r.changed && r.suppressed),
            r.game_mode_on == final(self).spec_on(),
            event matches GameModeEvent::Activated(n) ==> final(self).spec_active().to_set()
                == old(self).spec_active().to_set().insert(n@),
            event matches GameModeEvent::Deactivated(n) ==> final(self).spec_active().to_set()
                == old(self).spec_active().to_set().remove(n@),
            final(self).spec_keywords() == old(self).spec_keywords(),
            final(self).spec_cooldown() == old(self).spec_cooldown(),
            final(self).spec_desired() == old(self).spec_on() ==> r == (GameModeDecision {
                game_mode_on: old(self).spec_on(),
                changed: false,
                suppressed: false,
            }) && final(self).spec_on() == old(self).spec_on() && final(self).spec_pending() is None
                && final(self).spec_last() == old(self).spec_last(),
            final(self).spec_desired() != old(self).spec_on() && !cooldown_allows(
                old(self).spec_last(),
                now_ms,
                old(self).spec_cooldown(),
            ) ==> r == (GameModeDecision {
                game_mode_on: old(self).spec_on(),
                changed: false,
                suppressed: true,
            }) && final(self).spec_on() == old(self).spec_on() && final(self).spec_pending()
                == Some(final(self).spec_desired()) && final(self).spec_last() == old(self).spec_last(),
            final(self).spec_desired() != old(self).spec_on() && cooldown_allows(
                old(self).spec_last(),
                now_ms,
                old(self).spec_cooldown(),
            ) ==> r == (GameModeDecision {
                game_mode_on: final(self).spec_desired(),
                changed: true,
                suppressed: false,
            }) && final(self).spec_on() == final(self).spec_desired() && final(self).spec_pending()
                is None && final(self).spec_last() == Some(now_ms),
            transition_step(old(self).spec_last(), final(self).spec_last(), now_ms, r.changed, old(self).spec_cooldown()),
    {
        match event {
            GameModeEvent::Activated(name) => self.activate(name),
            GameModeEvent::Deactivated(name) => self.deactivate(&name),
        }
        self.reevaluate(now_ms)
    }
}

/// One decision's effect on the time of the last transition: a change is taken
/// only when the cooldown allows it and becomes the last transition; anything
/// else leaves the last transition as it was.
pub open spec fn transition_step(before: Option<u64>, after: Option<u64>, now: u64, changed: bool, cooldown: u64) -> bool {
    if changed {
        cooldown_allows(before, now, cooldown) && after == Some(now)
    } else {
        after == before
    }
}

proof fn lemma_last_stays(lasts: Seq<Option<u64>>, nows: Seq<u64>, changed: Seq<bool>, cooldown: u64, i: int, k: int)
    requires
        lasts.len() == nows.len() + 1,
        changed.len() == nows.len(),
        forall|m: int| 0 <= m < nows.len() ==> #[trigger] transition_step(lasts[m], lasts[m + 1], nows[m], changed[m], cooldown),
        0 <= i < k <= nows.len(),
        changed[i],
        forall|m: int| i < m < k ==> !#[trigger] changed[m],
    ensures
        lasts[k] == Some(nows[i]),
    decreases k - i,
{
    let m = k - 1;
    assert(transition_step(lasts[m], lasts[m + 1], nows[m], changed[m], cooldown));
    if m > i {
        assert(!changed[m]);
        lemma_last_stays(lasts, nows, changed, cooldown, i, k - 1);
    }
}

/// Over any run of decisions, two consecutive game-mode changes are at least
/// the cooldown apart (a clock that went backwards allows no change unless the
/// cooldown is zero).
pub proof fn lemma_changes_spaced(
    lasts: Seq<Option<u64>>,
    nows: Seq<u64>,
    changed: Seq<bool>,
    cooldown: u64,
    i: int,
    j: int,
)
    requires
        lasts.len() == nows.len() + 1,
        changed.len() == nows.len(),
        forall|m: int| 0 <= m < nows.len() ==> #[trigger] transition_step(lasts[m], lasts[m + 1], nows[m], changed[m], cooldown),
        0 <= i < j < nows.len(),
        changed[i],
        changed[j],
        forall|m: int| i < m < j ==> !#[trigger] changed[m],
    ensures
        nows[j] >= nows[i] + cooldown || cooldown == 0,
{
    lemma_last_stays(lasts, nows, changed, cooldown, i, j);
    let m = j;
    assert(transition_step(lasts[m], lasts[m + 1], nows[m], changed[m], cooldown));
}

/// Over any sequence of `handle` and `reevaluate` calls on a controller made by
/// `new`, any two game-mode changes are at least the cooldown apart, in the
/// order they happened: rapid toggling cannot occur.
pub proof fn lemma_controller_changes_spaced(c: GameModeController, i: int, j: int)
    requires
        c.wf(),
        c.spec_cooldown() > 0,
        0 <= i < j < c.spec_changes().len(),
    ensures
        c.spec_changes()[j] >= c.spec_changes()[i] + c.spec_cooldown(),
{
    assert(c.spec_changes()[j] >= c.spec_changes()[i] + c.spec_cooldown());
}

/// The active set after applying one event.
pub open spec fn apply_event(s: Set<Seq<char>>, e: GameModeEvent) -> Set<Seq<char>> {
    match e {
        GameModeEvent::Activated(n) => s.insert(n@),
        GameModeEvent::Deactivated(n) => s.remove(n@),
    }
}

/// The active set after applying events in order.
pub open spec fn apply_events(s: Set<Seq<char>>, evs: Seq<GameModeEvent>) -> Set<Seq<char>>
    decreases evs.len(),
{
    if evs.len() == 0 {
        s
    } else {
        apply_event(apply_events(s, evs.drop_last()), evs.last())
    }
}

proof fn lemma_missing_from_set(a: Seq<Seq<char>>, b: Seq<Seq<char>>)
    ensures
        missing_from(a, b).to_set() == a.to_set().difference(b.to_set()),
    decreases a.len(),
{
    if a.len() == 0 {
        assert(a.to_set().difference(b.to_set()) =~= Set::empty());
    } else {
        lemma_missing_from_set(a.drop_last(), b);
        let rest = missing_from(a.drop_last(), b);
        assert(a.drop_last().push(a.last()) =~= a);
        a.drop_last().lemma_push_to_set_commute(a.last());
        rest.lemma_push_to_set_commute(a.last());
        assert(missing_from(a, b).to_set() =~= a.to_set().difference(b.to_set()));
    }
}

/// What is missing keeps the order of the first list: a strictly sorted list
/// gives a strictly sorted difference, made of its own names.
proof fn lemma_missing_from_sorted(a: Seq<Seq<char>>, b: Seq<Seq<char>>)
    ensures
        forall|k: int| 0 <= k < missing_from(a, b).len() ==> a.contains(#[trigger] missing_from(a, b)[k]),
        strictly_sorted(a) ==> strictly_sorted(missing_from(a, b)),
    decreases a.len(),
{
    if a.len() > 0 {
        let p = a.drop_last();
        lemma_missing_from_sorted(p, b);
        let m = missing_from(p, b);
        assert forall|k: int| 0 <= k < m.len() implies a.contains(#[trigger] m[k]) by {
            let j = choose|j: int| 0 <= j < p.len() && p[j] == m[k];
            assert(a[j] == m[k]);
        }
        if !b.contains(a.last()) {
            let m2 = m.push(a.last());
            assert(missing_from(a, b) == m2);
            assert(a[a.len() - 1] == a.last());
            if strictly_sorted(a) {
                assert(strictly_sorted(p)) by {
                    assert forall|i: int, j: int| 0 <= i < j < p.len() implies lex_lt(p[i], p[j]) by {
                        assert(p[i] == a[i] && p[j] == a[j]);
                    }
                }
                assert forall|i: int, j: int| 0 <= i < j < m2.len() implies lex_lt(m2[i], m2[j]) by {
                    if j == m.len() {
                        let q = choose|q: int| 0 <= q < p.len() && p[q] == m[i];
                        assert(a[q] == m[i]);
                        assert(lex_lt(a[q], a[a.len() - 1]));
                    } else {
                        assert(m2[i] == m[i] && m2[j] == m[j]);
                    }
                }
            }
        } else {
            if strictly_sorted(a) {
                assert forall|i: int, j: int| 0 <= i < j < p.len() implies lex_lt(p[i], p[j]) by {
                    assert(p[i] == a[i] && p[j] == a[j]);
                }
            }
        }
    }
}

proof fn lemma_apply_removals(s: Set<Seq<char>>, evs: Seq<GameModeEvent>, names: Seq<Seq<char>>)
    requires
        evs.len() == names.len(),
        forall|k: int| 0 <= k < evs.len() ==> (#[trigger] evs[k]) is Deactivated && event_name(evs[k]) == names[k],
    ensures
        apply_events(s, evs) == s.difference(names.to_set()),
    decreases evs.len(),
{
    if evs.len() == 0 {
        assert(s.difference(names.to_set()) =~= s);
    } else {
        let n = names.len() - 1;
        assert forall|k: int| 0 <= k < evs.drop_last().len() implies (#[trigger] evs.drop_last()[k]) is Deactivated && event_name(evs.drop_last()[k]) == names.drop_last()[k] by {
            assert(evs.drop_last()[k] == evs[k]);
        }
        lemma_apply_removals(s, evs.drop_last(), names.drop_last());
        assert(evs[n] is Deactivated && event_name(evs[n]) == names[n]);
        assert forall|x: Seq<char>| names.to_set().contains(x) <==> (names.drop_last().to_set().contains(x) || x == names[n]) by {
            if names.to_set().contains(x) {
                let k = choose|k: int| 0 <= k < names.len() && names[k] == x;
                if k < n {
                    assert(names.drop_last()[k] == x);
                }
            }
            if names.drop_last().to_set().contains(x) {
                let k = choose|k: int| 0 <= k < names.drop_last().len() && names.drop_last()[k] == x;
                assert(names[k] == x);
            }
        }
        assert(apply_events(s, evs) =~= s.difference(names.to_set()));
    }
}

proof fn lemma_apply_insertions(s: Set<Seq<char>>, evs: Seq<GameModeEvent>, names: Seq<Seq<char>>)
    requires
        evs.len() == names.len(),
        forall|k: int| 0 <= k < evs.len() ==> (#[trigger] evs[k]) is Activated && event_name(evs[k]) == names[k],
    ensures
        apply_events(s, evs) == s.union(names.to_set()),
    decreases evs.len(),
{
    if evs.len() == 0 {
        assert(s.union(names.to_set()) =~= s);
    } else {
        let n = names.len() - 1;
        assert forall|k: int| 0 <= k < evs.drop_last().len() implies (#[trigger] evs.drop_last()[k]) is Activated && event_name(evs.drop_last()[k]) == names.drop_last()[k] by {
            assert(evs.drop_last()[k] == evs[k]);
        }
        lemma_apply_insertions(s, evs.drop_last(), names.drop_last());
        assert(evs[n] is Activated && event_name(evs[n]) == names[n]);
        assert forall|x: Seq<char>| names.to_set().contains(x) <==> (names.drop_last().to_set().contains(x) || x == names[n]) by {
            if names.to_set().contains(x) {
                let k = choose|k: int| 0 <= k < names.len() && names[k] == x;
                if k < n {
                    assert(names.drop_last()[k] == x);
                }
            }
            if names.drop_last().to_set().contains(x) {
                let k = choose|k: int| 0 <= k < names.drop_last().len() && names.drop_last()[k] == x;
                assert(names[k] == x);
            }
        }
        assert(apply_events(s, evs) =~= s.union(names.to_set()));
    }
}

proof fn lemma_apply_concat(s: Set<Seq<char>>, a: Seq<GameModeEvent>, b: Seq<GameModeEvent>)
    ensures
        apply_events(s, a + b) == apply_events(apply_events(s, a), b),
    decreases b.len(),
{
    if b.len() == 0 {
        assert(a + b =~= a);
    } else {
        lemma_apply_concat(s, a, b.drop_last());
        assert((a + b).drop_last() =~= a + b.drop_last());
        assert((a + b).last() == b.last());
    }
}

/// Applying the presence events of two player snapshots to the first snapshot
/// gives the second: the vanished players are removed and the new ones added.
pub proof fn lemma_presence_events_apply(previous: Seq<Seq<char>>, current: Seq<Seq<char>>, events: Seq<GameModeEvent>)
    requires
        ({
            let gone = missing_from(previous, current);
            let came = missing_from(current, previous);
            &&& events.len() == gone.len() + came.len()
            &&& forall|k: int|
                0 <= k < gone.len() ==> (#[trigger] events[k]) is Deactivated && event_name(events[k])
                    == gone[k]
            &&& forall|k: int|
                0 <= k < came.len() ==> (#[trigger] events[gone.len() + k]) is Activated && event_name(
                    events[gone.len() + k],
                ) == came[k]
        }),
    ensures
        apply_events(previous.to_set(), events) == current.to_set(),
{
    let gone = missing_from(previous, current);
    let came = missing_from(current, previous);
    let a = events.subrange(0, gone.len() as int);
    let b = events.subrange(gone.len() as int, events.len() as int);
    assert(events =~= a + b);
    assert forall|k: int| 0 <= k < a.len() implies (#[trigger] a[k]) is Deactivated && event_name(a[k]) == gone[k] by {
        assert(a[k] == events[k]);
    }
    assert forall|k: int| 0 <= k < b.len() implies (#[trigger] b[k]) is Activated && event_name(b[k]) == came[k] by {
        assert(b[k] == events[gone.len() + k]);
    }
    lemma_apply_concat(previous.to_set(), a, b);
    lemma_apply_removals(previous.to_set(), a, gone);
    lemma_apply_insertions(previous.to_set().difference(gone.to_set()), b, came);
    lemma_missing_from_set(previous, current);
    lemma_missing_from_set(current, previous);
    assert(previous.to_set().difference(gone.to_set()).union(came.to_set()) =~= current.to_set());
}

/// Two transitions are never closer together than the cooldown: a decision that
/// changes the state is only taken when the cooldown allows it.
pub proof fn lemma_changes_respect_cooldown(
    last: Option<u64>,
    now: u64,
    cooldown: u64,
    changed: bool,
    desired: bool,
    on: bool,
)
    requires
        changed ==> desired != on && cooldown_allows(last, now, cooldown),
    ensures
        changed ==> match last {
            Some(l) => now >= l && now - l >= cooldown || cooldown == 0,
            None => true,
        },
{
}

/// An event-driven source of game-mode signals. Implementations wait for the
/// next event rather than poll.
pub trait GameModeSignal {
    /// The next event, or `None` when the source is exhausted or unavailable.
    fn next_event(&mut self) -> Option<GameModeEvent>;
}

/// Bus-name prefix of MPRIS players.
pub const MPRIS_NAME_PREFIX: &'static str = "org.mpris.MediaPlayer2.";

/// The candidate name of a bus name: the suffix after the MPRIS prefix; other
/// names unchanged.
pub open spec fn spec_candidate_name(bus_name: Seq<char>) -> Seq<char> {
    if has_prefix(bus_name, MPRIS_NAME_PREFIX@) {
        bus_name.subrange(MPRIS_NAME_PREFIX@.len() as int, bus_name.len() as int)
    } else {
        bus_name
    }
}

/// Candidate name for keyword matching from an MPRIS bus name: the suffix after
/// the `org.mpris.MediaPlayer2.` prefix. Non-MPRIS names are returned unchanged.
pub fn candidate_name(bus_name: &str) -> (r: String)
    ensures
        r@ == spec_candidate_name(bus_name@),
{
    let cs = chars_of(bus_name);
    let prefix = chars_of(MPRIS_NAME_PREFIX);
    if starts_with_chars(cs.as_slice(), prefix.as_slice()) {
        let mut out: Vec<char> = Vec::new();
        let mut i: usize = prefix.len();
        while i < cs.len()
            invariant
                prefix@.len() <= i <= cs@.len(),
                out@ == cs@.subrange(prefix@.len() as int, i as int),
            decreases cs@.len() - i,
        {
            out.push(cs[i]);
            i = i + 1;
            assert(out@ =~= cs@.subrange(prefix@.len() as int, i as int));
        }
        string_of(out.as_slice())
    } else {
        string_of(cs.as_slice())
    }
}

/// What one change of a bus name's owner means for game mode: for an MPRIS
/// player, a new owner activates it and a vanished owner deactivates it.
/// Other names, and changes with no owner on either side, mean nothing.
pub fn presence_change(name: &str, old_owner: &str, new_owner: &str) -> (r: Option<GameModeEvent>)
    ensures
        !has_prefix(name@, MPRIS_NAME_PREFIX@) ==> r is None,
        has_prefix(name@, MPRIS_NAME_PREFIX@) && new_owner@.len() > 0 ==> r == Some(
            GameModeEvent::Activated(r->0->Activated_0),
        ) && r->0->Activated_0@ == spec_candidate_name(name@),
        has_prefix(name@, MPRIS_NAME_PREFIX@) && new_owner@.len() == 0 && old_owner@.len() > 0
            ==> r == Some(GameModeEvent::Deactivated(r->0->Deactivated_0))
            && r->0->Deactivated_0@ == spec_candidate_name(name@),
        new_owner@.len() == 0 && old_owner@.len() == 0 ==> r is None,
{
    let cs = chars_of(name);
    let prefix = chars_of(MPRIS_NAME_PREFIX);
    if !starts_with_chars(cs.as_slice(), prefix.as_slice()) {
        return None;
    }
    if chars_of(new_owner).len() > 0 {
        Some(GameModeEvent::Activated(candidate_name(name)))
    } else if chars_of(old_owner).len() > 0 {
        Some(GameModeEvent::Deactivated(candidate_name(name)))
    } else {
        None
    }
}

/// The candidates of the MPRIS players among some bus names, in order.
pub open spec fn mpris_candidates(names: Seq<Seq<char>>) -> Seq<Seq<char>>
    decreases names.len(),
{
    if names.len() == 0 {
        Seq::empty()
    } else if has_prefix(names.last(), MPRIS_NAME_PREFIX@) {
        mpris_candidates(names.drop_last()).push(spec_candidate_name(names.last()))
    } else {
        mpris_candidates(names.drop_last())
    }
}

/// The events for players already present when a subscription starts: one
/// activation per MPRIS player among the bus names, in order.
pub fn initial_presence(names: &Vec<String>) -> (r: Vec<GameModeEvent>)
    ensures
        r@.len() == mpris_candidates(names@.map_values(|s: String| s@)).len(),
        forall|k: int|
            0 <= k < r@.len() ==> {
                let e = #[trigger] r@[k];
                &&& e is Activated
                &&& event_name(e) == mpris_candidates(names@.map_values(|s: String| s@))[k]
            },
{
    let ghost ns = names@.map_values(|s: String| s@);
    let mut out: Vec<GameModeEvent> = Vec::new();
    let mut i: usize = 0;
    let prefix = chars_of(MPRIS_NAME_PREFIX);
    while i < names.len()
        invariant
            i <= names@.len(),
            prefix@ == MPRIS_NAME_PREFIX@,
            ns == names@.map_values(|s: String| s@),
            out@.len() == mpris_candidates(ns.take(i as int)).len(),
            forall|k: int|
                0 <= k < out@.len() ==> {
                    let e = #[trigger] out@[k];
                    &&& e is Activated
                    &&& event_name(e) == mpris_candidates(ns.take(i as int))[k]
                },
        decreases names@.len() - i,
    {
        assert(ns.take(i + 1).drop_last() =~= ns.take(i as int));
        assert(ns.take(i + 1).last() == names@[i as int]@);
        if starts_with_chars(chars_of(names[i].as_str()).as_slice(), prefix.as_slice()) {
            out.push(GameModeEvent::Activated(candidate_name(names[i].as_str())));
        }
        i = i + 1;
    }
    assert(ns.take(names@.len() as int) =~= ns);
    out
}

/// The names of `a` that `b` lacks, in the order of `a`.
pub open spec fn missing_from(a: Seq<Seq<char>>, b: Seq<Seq<char>>) -> Seq<Seq<char>>
    decreases a.len(),
{
    if a.len() == 0 {
        Seq::empty()
    } else if b.contains(a.last()) {
        missing_from(a.drop_last(), b)
    } else {
        missing_from(a.drop_last(), b).push(a.last())
    }
}

/// The name an event carries.
pub open spec fn event_name(e: GameModeEvent) -> Seq<char> {
    match e {
        GameModeEvent::Activated(n) => n@,
        GameModeEvent::Deactivated(n) => n@,
    }
}

fn contains_name(list: &Vec<String>, name: &String) -> (r: bool)
    ensures
        r == list@.map_values(|s: String| s@).contains(name@),
{
    let want = chars_of(name.as_str());
    let ghost m = list@.map_values(|s: String| s@);
    let mut i: usize = 0;
    while i < list.len()
        invariant
            i <= list@.len(),
            want@ == name@,
            m == list@.map_values(|s: String| s@),
            forall|k: int| 0 <= k < i ==> m[k] != name@,
        decreases list@.len() - i,
    {
        if chars_eq(chars_of(list[i].as_str()).as_slice(), want.as_slice()) {
            assert(m[i as int] == name@);
            return true;
        }
        i = i + 1;
    }
    false
}

/// Appends one event per name of `from` that `other` lacks.
fn push_missing(
    out: &mut Vec<GameModeEvent>,
    from: &Vec<String>,
    other: &Vec<String>,
    activated: bool,
)
    ensures
        final(out)@.len() == old(out)@.len() + missing_from(
            from@.map_values(|s: String| s@),
            other@.map_values(|s: String| s@),
        ).len(),
        final(out)@.subrange(0, old(out)@.len() as int) == old(out)@,
        forall|k: int|
            0 <= k < missing_from(
                from@.map_values(|s: String| s@),
                other@.map_values(|s: String| s@),
            ).len() ==> {
                let e = #[trigger] final(out)@[old(out)@.len() + k];
                &&& e is Activated == activated
                &&& event_name(e) == missing_from(
                    from@.map_values(|s: String| s@),
                    other@.map_values(|s: String| s@),
                )[k]
            },
{
    let ghost a = from@.map_values(|s: String| s@);
    let ghost b = other@.map_values(|s: String| s@);
    let ghost base = out@;
    let mut i: usize = 0;
    while i < from.len()
        invariant
            i <= from@.len(),
            a == from@.map_values(|s: String| s@),
            b == other@.map_values(|s: String| s@),
            out@.len() == base.len() + missing_from(a.take(i as int), b).len(),
            out@.subrange(0, base.len() as int) == base,
            forall|k: int|
                0 <= k < missing_from(a.take(i as int), b).len() ==> {
                    let e = #[trigger] out@[base.len() + k];
                    &&& e is Activated == activated
                    &&& event_name(e) == missing_from(a.take(i as int), b)[k]
                },
        decreases from@.len() - i,
    {
        let ghost prev = missing_from(a.take(i as int), b);
        assert(a.take(i + 1).drop_last() =~= a.take(i as int));
        assert(a.take(i + 1).last() == a[i as int]);
        if !contains_name(other, &from[i]) {
            let name = from[i].clone();
            let ev = if activated {
                GameModeEvent::Activated(name)
            } else {
                GameModeEvent::Deactivated(name)
            };
            let ghost before = out@;
            out.push(ev);
            proof {
                assert(out@.subrange(0, base.len() as int) =~= before.subrange(0, base.len() as int));
            }
        }
        i = i + 1;
    }
    assert(a.take(from@.len() as int) =~= a);
}

/// Presence diff between the previously known player set and a fresh one (both
/// strictly sorted, as sets are listed): one `Deactivated` per vanished name,
/// then one `Activated` per new name, each group in sorted order.
pub fn presence_events(previous: &Vec<String>, current: &Vec<String>) -> (r: Vec<GameModeEvent>)
    ensures
        ({
            let gone = missing_from(
                previous@.map_values(|s: String| s@),
                current@.map_values(|s: String| s@),
            );
            let came = missing_from(
                current@.map_values(|s: String| s@),
                previous@.map_values(|s: String| s@),
            );
            &&& r@.len() == gone.len() + came.len()
            &&& forall|k: int|
                0 <= k < gone.len() ==> (#[trigger] r@[k]) is Deactivated && event_name(r@[k])
                    == gone[k]
            &&& forall|k: int|
                0 <= k < came.len() ==> (#[trigger] r@[gone.len() + k]) is Activated && event_name(
                    r@[gone.len() + k],
                ) == came[k]
            &&& gone.to_set() == previous@.map_values(|s: String| s@).to_set().difference(
                current@.map_values(|s: String| s@).to_set(),
            )
            &&& came.to_set() == current@.map_values(|s: String| s@).to_set().difference(
                previous@.map_values(|s: String| s@).to_set(),
            )
            &&& strictly_sorted(previous@.map_values(|s: String| s@)) ==> strictly_sorted(gone)
            &&& strictly_sorted(current@.map_values(|s: String| s@)) ==> strictly_sorted(came)
        }),
{
    proof {
        let p = previous@.map_values(|s: String| s@);
        let c = current@.map_values(|s: String| s@);
        lemma_missing_from_set(p, c);
        lemma_missing_from_set(c, p);
        lemma_missing_from_sorted(p, c);
        lemma_missing_from_sorted(c, p);
    }
    let mut events: Vec<GameModeEvent> = Vec::new();
    push_missing(&mut events, previous, current, false);
    let ghost mid = events@;
    push_missing(&mut events, current, previous, true);
    proof {
        let gone = missing_from(
            previous@.map_values(|s: String| s@),
            current@.map_values(|s: String| s@),
        );
        assert forall|k: int| 0 <= k < gone.len() implies (#[trigger] events@[k]) is Deactivated
            && event_name(events@[k]) == gone[k] by {
            assert(events@[k] == events@.subrange(0, mid.len() as int)[k]);
            assert(mid[0 + k] == mid[k]);
        }
    }
    events
}

/// A scriptable signal source for tests and mock mode: replays its events in order.
pub struct ScriptedSignal {
    events: Vec<GameModeEvent>,
}

impl Default for ScriptedSignal {
    fn default() -> (r: Self)
        ensures
            r.spec_events().len() == 0,
    {
        ScriptedSignal { events: Vec::new() }
    }
}

impl ScriptedSignal {
    /// The events still to be delivered, in order.
    pub closed spec fn spec_events(&self) -> Seq<GameModeEvent> {
        self.events@
    }

    pub fn new(events: Vec<GameModeEvent>) -> (r: Self)
        ensures
            r.spec_events() == events@,
    {
        ScriptedSignal { events }
    }
}

impl GameModeSignal for ScriptedSignal {
    fn next_event(&mut self) -> (r: Option<GameModeEvent>)
        ensures
            old(self).spec_events().len() == 0 ==> r is None && final(self).spec_events().len() == 0,
            old(self).spec_events().len() > 0 ==> r == Some(old(self).spec_events()[0]) && final(self).spec_events() == old(self).spec_events().drop_first(),
    {
        if self.events.len() == 0 {
            return None;
        }
        let e = self.events.remove(0);
        assert(self.events@ =~= old(self).spec_events().drop_first());
        Some(e)
    }
}

} // verus!
