//! Laws of the focus state, over any sequence of events or requests.
use vstd::prelude::*;

use crate::history::{
    history_ok, last_of, lemma_after_focus_ok, lemma_without, lemma_without_at,
    lemma_without_ok, now_of, without,
};
use crate::identity::{identity_of, IdentityView};
use crate::index::{indexed, lemma_add_window_indexed, lemma_remove_window_indexed, remove_window};
use crate::map_manager::Keymap;
use crate::rule::RuleView;
use crate::state::{decide, reloaded, replay, step, FocusState, WindowChange, WindowEvent};

verus! {

/// Whatever events arrive, the recency list never repeats a handle and
/// never holds more than its capacity.
pub proof fn law_recency_list_bounded(s: FocusState, evs: Seq<WindowEvent>)
    requires
        history_ok(s.visited),
    ensures
        history_ok(replay(s, evs).visited),
    decreases evs.len(),
{
    if evs.len() > 0 {
        law_recency_list_bounded(s, evs.drop_last());
        let before = replay(s, evs.drop_last());
        let c = evs.last().container;
        lemma_after_focus_ok(before.visited, c.id);
        lemma_without_ok(before.visited, c.id);
    }
}

/// After a focus event for `h`, `h` is the focused window, and the previous
/// window is the one that was at the tail of the list once `h` is taken out
/// of it (the old tail itself when `h` was not in the list).
pub proof fn law_focus_event(s: FocusState, ev: WindowEvent)
    requires
        history_ok(s.visited),
        ev.change == WindowChange::Focus,
    ensures
        now_of(step(s, ev).visited) == Some(ev.container.id),
        last_of(step(s, ev).visited) == now_of(without(s.visited, ev.container.id)),
        !s.visited.contains(ev.container.id) ==> last_of(step(s, ev).visited) == now_of(s.visited),
{
    lemma_after_focus_ok(s.visited, ev.container.id);
    lemma_without(s.visited, ev.container.id);
}

/// Closing the focused or the previous window moves both to the next older
/// handles (or to none), and no closed handle stays recorded.
pub proof fn law_close_event_recency(s: FocusState, ev: WindowEvent)
    requires
        history_ok(s.visited),
        ev.change == WindowChange::Close,
    ensures
        ({
            let v = s.visited;
            let n = v.len();
            let h = ev.container.id;
            let w = step(s, ev).visited;
            let third = if n >= 3 {
                Some(v[n - 3])
            } else {
                None
            };
            &&& now_of(w) != Some(h)
            &&& last_of(w) != Some(h)
            &&& now_of(v) == Some(h) ==> now_of(w) == last_of(v) && last_of(w) == third
            &&& last_of(v) == Some(h) ==> now_of(w) == now_of(v) && last_of(w) == third
            &&& !v.contains(h) ==> w == v
        }),
{
    let v = s.visited;
    let n = v.len();
    let h = ev.container.id;
    let w = step(s, ev).visited;
    lemma_without(v, h);
    if w.len() >= 1 {
        assert(w.contains(w[w.len() - 1]));
    }
    if w.len() >= 2 {
        assert(w.contains(w[w.len() - 2]));
    }
    if now_of(v) == Some(h) {
        lemma_without_at(v, n - 1);
        assert(w =~= v.drop_last());
    }
    if last_of(v) == Some(h) {
        lemma_without_at(v, n - 2);
        assert(w =~= v.remove(n - 2));
    }
}

/// The index holds a handle under an identity only if it held it at the
/// start or an event announced a new window with that identity and handle.
pub proof fn law_index_only_inserted(s: FocusState, evs: Seq<WindowEvent>, k: IdentityView, h: i64)
    ensures
        indexed(replay(s, evs).index, k, h) ==> indexed(s.index, k, h) || exists|i: int|
            0 <= i < evs.len() && (#[trigger] evs[i]).change == WindowChange::New && identity_of(
                evs[i].container,
            ) == k && evs[i].container.id == h,
    decreases evs.len(),
{
    if evs.len() > 0 {
        let init = evs.drop_last();
        law_index_only_inserted(s, init, k, h);
        let before = replay(s, init);
        let c = evs.last().container;
        lemma_add_window_indexed(before.index, identity_of(c), c.id);
        lemma_remove_window_indexed(before.index, identity_of(c), c.id);
        if indexed(replay(s, evs).index, k, h) && !indexed(s.index, k, h) {
            if indexed(before.index, k, h) {
                let i = choose|i: int|
                    0 <= i < init.len() && (#[trigger] init[i]).change == WindowChange::New
                        && identity_of(init[i].container) == k && init[i].container.id == h;
                assert(evs[i] == init[i]);
            } else {
                assert(evs[evs.len() - 1] == evs.last());
            }
        }
    }
}

/// Once the window with handle `h` and identity `k` has closed, the index
/// holds `h` under `k` no more, until a new window with that identity and
/// handle is announced.
pub proof fn law_closed_window_stays_out(s: FocusState, evs: Seq<WindowEvent>, i: int)
    requires
        0 <= i < evs.len(),
        evs[i].change == WindowChange::Close,
        forall|j: int|
            i < j < evs.len() ==> !((#[trigger] evs[j]).change == WindowChange::New && identity_of(
                evs[j].container,
            ) == identity_of(evs[i].container) && evs[j].container.id == evs[i].container.id),
    ensures
        !indexed(replay(s, evs).index, identity_of(evs[i].container), evs[i].container.id),
    decreases evs.len(),
{
    let k = identity_of(evs[i].container);
    let h = evs[i].container.id;
    let init = evs.drop_last();
    let before = replay(s, init);
    let c = evs.last().container;
    lemma_add_window_indexed(before.index, identity_of(c), c.id);
    lemma_remove_window_indexed(before.index, identity_of(c), c.id);
    if i < evs.len() - 1 {
        assert(init[i] == evs[i]);
        assert forall|j: int| i < j < init.len() implies !((#[trigger] init[j]).change
            == WindowChange::New && identity_of(init[j].container) == identity_of(init[i].container)
            && init[j].container.id == init[i].container.id) by {
            assert(init[j] == evs[j]);
        }
        law_closed_window_stays_out(s, init, i);
        assert(evs[evs.len() - 1] == evs.last());
    } else {
        assert(evs[i] == evs.last());
    }
}

/// Closing a window a second time changes nothing.
pub proof fn law_close_idempotent(s: FocusState, ev: WindowEvent)
    requires
        ev.change == WindowChange::Close,
    ensures
        step(step(s, ev), ev) == step(s, ev),
{
    let h = ev.container.id;
    let k = identity_of(ev.container);
    lemma_without(s.visited, h);
    lemma_without(without(s.visited, h), h);
    let m = s.index;
    let once = remove_window(m, k, h);
    if m.contains_key(k) {
        let rest = without(m[k], h);
        lemma_without(m[k], h);
        lemma_without(rest, h);
        if rest.len() > 0 {
            assert(remove_window(once, k, h) =~= once);
        }
    }
    assert(remove_window(once, k, h) =~= once);
}

/// The decision of a rule depends on the recency list, the index and the
/// rules alone: two snapshots that agree on them get the same decision.
pub proof fn law_decision_deterministic(a: FocusState, b: FocusState, name: Seq<char>)
    requires
        a.visited == b.visited,
        a.index == b.index,
        a.rules == b.rules,
    ensures
        decide(a, name) == decide(b, name),
{
}

/// Loading a key map puts exactly that key map in force, whatever becomes of
/// the commands that rebind the keys, and leaves the windows as they were.
pub proof fn law_reload_then_get(
    s: FocusState,
    rules: Map<Seq<char>, RuleView>,
    actions: Seq<Keymap>,
)
    ensures
        reloaded(s, rules, actions).actions == actions,
        reloaded(s, rules, actions).rules == rules,
        reloaded(s, rules, actions).visited == s.visited,
        reloaded(s, rules, actions).index == s.index,
{
}

} // verus!
