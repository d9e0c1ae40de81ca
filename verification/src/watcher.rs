//! The decisions of the vault watcher.
//!
//! File-system events arrive in bursts. The watcher keeps the Markdown
//! paths that changed, ignoring hidden ones, and waits for a quiet window:
//! every relevant event re-arms the timer, and only when it elapses is the
//! whole set of pending paths handed over to one reconciliation.
//!
//! [`Debouncer::step`] is that decision: from the current state and one
//! event to the next state and the action to perform. The event loop, the
//! timer and the reconciliation itself belong to the caller.
use vstd::prelude::*;

use crate::models::strings_view;
use crate::paths::{
    component_extension, component_file_name, components_extension, components_file_name,
    components_start_with, components_starts_with, last_dot,
};
use crate::text::{ascii_lower, eq_ignore_ascii_case, starts_with_char, str_eq_ignore_ascii_case};

verus! {

/// The default length of the quiet window, in milliseconds.
pub const DEFAULT_DEBOUNCE_MS: u64 = 300;

/// Whether a name starts with `.`.
pub open spec fn dotted(name: Seq<char>) -> bool {
    name.len() > 0 && name[0] == '.'
}

/// A path is hidden when one of its components below the vault starts with
/// `.` (such as `.jeanne`), or, for a path outside the vault, when its file
/// name does.
pub open spec fn is_hidden(vault: Seq<Seq<char>>, p: Seq<Seq<char>>) -> bool {
    if components_start_with(p, vault) {
        exists|i: int| vault.len() <= i < p.len() && #[trigger] dotted(p[i])
    } else {
        match components_file_name(p) {
            Some(n) => dotted(n),
            None => false,
        }
    }
}

/// The text `md`.
pub open spec fn md() -> Seq<char> {
    seq!['m', 'd']
}

/// The text `markdown`.
pub open spec fn markdown() -> Seq<char> {
    seq!['m', 'a', 'r', 'k', 'd', 'o', 'w', 'n']
}

/// A path is a Markdown note when its extension is `md` or `markdown`, in
/// any ASCII case.
pub open spec fn is_markdown(p: Seq<Seq<char>>) -> bool {
    match components_extension(p) {
        Some(e) => eq_ignore_ascii_case(e, md()) || eq_ignore_ascii_case(e, markdown()),
        None => false,
    }
}

/// A changed path matters to the index when it is a Markdown note that is
/// not hidden.
pub open spec fn is_relevant(vault: Seq<Seq<char>>, p: Seq<Seq<char>>) -> bool {
    !is_hidden(vault, p) && is_markdown(p)
}

/// Adds one changed path to the pending set.
pub open spec fn add_path(
    pending: Seq<Seq<Seq<char>>>,
    vault: Seq<Seq<char>>,
    p: Seq<Seq<char>>,
) -> Seq<Seq<Seq<char>>> {
    if is_relevant(vault, p) && !pending.contains(p) {
        pending.push(p)
    } else {
        pending
    }
}

/// Adds the changed paths of one event to the pending set, in order.
pub open spec fn add_paths(
    pending: Seq<Seq<Seq<char>>>,
    vault: Seq<Seq<char>>,
    ps: Seq<Seq<Seq<char>>>,
) -> Seq<Seq<Seq<char>>>
    decreases ps.len(),
{
    if ps.len() == 0 {
        pending
    } else {
        add_path(add_paths(pending, vault, ps.drop_last()), vault, ps.last())
    }
}

/// Whether an event holds a relevant path.
pub open spec fn any_relevant(vault: Seq<Seq<char>>, ps: Seq<Seq<Seq<char>>>) -> bool {
    exists|j: int| 0 <= j < ps.len() && #[trigger] is_relevant(vault, ps[j])
}

/// The state of the watcher: the vault it watches, the paths waiting for
/// reconciliation, and whether the quiet-window timer runs.
pub struct DebouncerView {
    pub vault: Seq<Seq<char>>,
    pub pending: Seq<Seq<Seq<char>>>,
    pub timer_active: bool,
}

/// What can happen to the watcher.
pub enum WatchEventView {
    StopRequested,
    Changed(Seq<Seq<Seq<char>>>),
    Failed,
    ChannelClosed,
    TimerElapsed,
}

/// What the watcher asks its caller to do.
pub enum WatchActionView {
    Exit,
    ArmTimer,
    Wait,
    ReportFailure,
    Reconcile(Seq<Seq<Seq<char>>>),
}

/// One decision of the watcher.
///
/// A stop request or a closed event channel ends the loop; a failed event is
/// reported; changed paths join the pending set, and re-arm the timer when
/// one of them is relevant; when the timer elapses, the pending paths (if
/// any) go to one reconciliation and the set empties.
pub open spec fn step_spec(s: DebouncerView, e: WatchEventView) -> (DebouncerView, WatchActionView) {
    match e {
        WatchEventView::StopRequested => (s, WatchActionView::Exit),
        WatchEventView::ChannelClosed => (s, WatchActionView::Exit),
        WatchEventView::Failed => (s, WatchActionView::ReportFailure),
        WatchEventView::Changed(ps) => {
            let pending = add_paths(s.pending, s.vault, ps);
            if any_relevant(s.vault, ps) {
                (
                    DebouncerView { vault: s.vault, pending, timer_active: true },
                    WatchActionView::ArmTimer,
                )
            } else {
                (DebouncerView { vault: s.vault, pending, timer_active: s.timer_active }, WatchActionView::Wait)
            }
        },
        WatchEventView::TimerElapsed => {
            if !s.timer_active {
                (s, WatchActionView::Wait)
            } else if s.pending.len() == 0 {
                (
                    DebouncerView { vault: s.vault, pending: s.pending, timer_active: false },
                    WatchActionView::Wait,
                )
            } else {
                (
                    DebouncerView { vault: s.vault, pending: Seq::empty(), timer_active: false },
                    WatchActionView::Reconcile(s.pending),
                )
            }
        },
    }
}

/// The watcher's invariant: no pending path twice, and only relevant ones.
pub open spec fn debouncer_wf(s: DebouncerView) -> bool {
    &&& s.pending.no_duplicates()
    &&& forall|i: int| 0 <= i < s.pending.len() ==> #[trigger] is_relevant(s.vault, s.pending[i])
}

/// The watcher before any event: nothing pending, no timer.
pub open spec fn idle(vault: Seq<Seq<char>>) -> DebouncerView {
    DebouncerView { vault, pending: Seq::empty(), timer_active: false }
}

/// The states and actions of the watcher over a sequence of events.
pub open spec fn run(s: DebouncerView, events: Seq<WatchEventView>) -> (DebouncerView, Seq<
    WatchActionView,
>)
    decreases events.len(),
{
    if events.len() == 0 {
        (s, Seq::empty())
    } else {
        let (s1, acts) = run(s, events.drop_last());
        let (s2, a) = step_spec(s1, events.last());
        (s2, acts.push(a))
    }
}

/// The number of reconciliations among some actions.
pub open spec fn reconciliations(acts: Seq<WatchActionView>) -> nat
    decreases acts.len(),
{
    if acts.len() == 0 {
        0
    } else {
        reconciliations(acts.drop_last()) + if acts.last() is Reconcile {
            1nat
        } else {
            0nat
        }
    }
}

/// Whether path `p` is a relevant path of one of the bursts.
pub open spec fn relevant_in(vault: Seq<Seq<char>>, bursts: Seq<Seq<Seq<Seq<char>>>>, p: Seq<
    Seq<char>,
>) -> bool {
    is_relevant(vault, p) && exists|i: int, j: int|
        0 <= i < bursts.len() && 0 <= j < bursts[i].len() && #[trigger] bursts[i][j] == p
}

/// Whether one of the bursts holds a relevant path.
pub open spec fn bursts_relevant(vault: Seq<Seq<char>>, bursts: Seq<Seq<Seq<Seq<char>>>>) -> bool {
    exists|i: int| 0 <= i < bursts.len() && #[trigger] any_relevant(vault, bursts[i])
}

/// The events of a sequence of bursts of changes.
pub open spec fn change_events(bursts: Seq<Seq<Seq<Seq<char>>>>) -> Seq<WatchEventView> {
    bursts.map_values(|ps: Seq<Seq<Seq<char>>>| WatchEventView::Changed(ps))
}

proof fn lemma_add_paths(pending: Seq<Seq<Seq<char>>>, vault: Seq<Seq<char>>, ps: Seq<Seq<Seq<char>>>)
    requires
        pending.no_duplicates(),
        forall|i: int| 0 <= i < pending.len() ==> #[trigger] is_relevant(vault, pending[i]),
    ensures
        add_paths(pending, vault, ps).no_duplicates(),
        forall|i: int|
            0 <= i < add_paths(pending, vault, ps).len() ==> #[trigger] is_relevant(
                vault,
                add_paths(pending, vault, ps)[i],
            ),
        forall|p: Seq<Seq<char>>|
            #[trigger] add_paths(pending, vault, ps).contains(p) <==> (pending.contains(p) || (
            is_relevant(vault, p) && ps.contains(p))),
        add_paths(pending, vault, ps).len() >= pending.len(),
    decreases ps.len(),
{
    if ps.len() > 0 {
        let prev = add_paths(pending, vault, ps.drop_last());
        lemma_add_paths(pending, vault, ps.drop_last());
        let p = ps.last();
        let next = add_path(prev, vault, p);
        assert forall|q: Seq<Seq<char>>| #[trigger]
            next.contains(q) <==> (pending.contains(q) || (is_relevant(vault, q) && ps.contains(q))) by {
            if ps.contains(q) && !ps.drop_last().contains(q) {
                let k = choose|k: int| 0 <= k < ps.len() && ps[k] == q;
                if k < ps.len() - 1 {
                    assert(ps.drop_last()[k] == q);
                }
            }
            if ps.drop_last().contains(q) {
                let k = choose|k: int| 0 <= k < ps.drop_last().len() && ps.drop_last()[k] == q;
                assert(ps[k] == q);
            }
            if is_relevant(vault, p) && !prev.contains(p) {
                if next.contains(q) && q != p {
                    let k = choose|k: int| 0 <= k < next.len() && next[k] == q;
                    assert(prev[k] == q);
                }
                if prev.contains(q) {
                    let k = choose|k: int| 0 <= k < prev.len() && prev[k] == q;
                    assert(next[k] == q);
                }
                assert(next[next.len() - 1] == p);
            }
            assert(ps[ps.len() - 1] == p);
        }
        if is_relevant(vault, p) && !prev.contains(p) {
            assert forall|a: int, b: int| 0 <= a < b < next.len() implies next[a] != next[b] by {
                if b == next.len() - 1 {
                    assert(prev[a] == next[a]);
                }
            }
        }
    }
}

/// Changes that never touch a relevant path never lead to a
/// reconciliation: from a watcher with nothing pending, whatever else
/// happens (timers, failures, stops), no action is a reconciliation and
/// nothing becomes pending.
pub proof fn lemma_irrelevant_changes_never_reconcile(s: DebouncerView, events: Seq<WatchEventView>)
    requires
        s.pending.len() == 0,
        forall|i: int|
            #![trigger events[i]]
            0 <= i < events.len() ==> (events[i] matches WatchEventView::Changed(ps) ==> !any_relevant(
                s.vault,
                ps,
            )),
    ensures
        run(s, events).0.vault == s.vault,
        run(s, events).0.pending.len() == 0,
        reconciliations(run(s, events).1) == 0,
    decreases events.len(),
{
    if events.len() > 0 {
        let prefix = events.drop_last();
        assert forall|i: int|
            #![trigger prefix[i]]
            0 <= i < prefix.len() implies (prefix[i] matches WatchEventView::Changed(ps)
            ==> !any_relevant(s.vault, ps)) by {
            assert(prefix[i] == events[i]);
        }
        lemma_irrelevant_changes_never_reconcile(s, prefix);
        let s1 = run(s, prefix).0;
        let e = events.last();
        assert(e == events[events.len() - 1]);
        if let WatchEventView::Changed(ps) = e {
            lemma_add_paths(s1.pending, s1.vault, ps);
            let np = add_paths(s1.pending, s1.vault, ps);
            if np.len() > 0 {
                assert(np.contains(np[0]));
                assert(!s1.pending.contains(np[0]));
                if ps.contains(np[0]) {
                    let k = choose|k: int| 0 <= k < ps.len() && ps[k] == np[0];
                    assert(!is_relevant(s.vault, ps[k]));
                }
            }
        }
        let acts = run(s, prefix).1;
        let a = step_spec(s1, e).1;
        assert(!(a is Reconcile));
        assert(acts.push(a).drop_last() =~= acts);
    }
}

/// A path under the vault with a component below the vault, its file name
/// included, that starts with `.` is hidden, and so never relevant.
pub proof fn lemma_dotted_below_vault_is_hidden(vault: Seq<Seq<char>>, p: Seq<Seq<char>>, k: int)
    requires
        vault.len() <= p.len(),
        p.subrange(0, vault.len() as int) == vault,
        vault.len() <= k < p.len(),
        p[k].len() > 0,
        p[k][0] == '.',
    ensures
        is_hidden(vault, p),
        !is_relevant(vault, p),
{
    assert(dotted(p[k]));
}

proof fn lemma_add_irrelevant(pending: Seq<Seq<Seq<char>>>, vault: Seq<Seq<char>>, ps: Seq<Seq<Seq<char>>>)
    requires
        forall|j: int| 0 <= j < ps.len() ==> !#[trigger] is_relevant(vault, ps[j]),
    ensures
        add_paths(pending, vault, ps) == pending,
    decreases ps.len(),
{
    if ps.len() > 0 {
        assert forall|j: int| 0 <= j < ps.drop_last().len() implies !#[trigger] is_relevant(
            vault,
            ps.drop_last()[j],
        ) by {
            assert(ps.drop_last()[j] == ps[j]);
        }
        lemma_add_irrelevant(pending, vault, ps.drop_last());
        assert(!is_relevant(vault, ps[ps.len() - 1]));
    }
}

/// Changes to files whose name starts with `.` under the vault are ignored:
/// the watcher's pending set and timer stay as they were, and it asks for
/// nothing (neither a timer nor a reconciliation).
pub proof fn lemma_dotted_files_are_ignored(s: DebouncerView, ps: Seq<Seq<Seq<char>>>)
    requires
        forall|j: int|
            0 <= j < ps.len() ==> {
                &&& s.vault.len() < (#[trigger] ps[j]).len()
                &&& ps[j].subrange(0, s.vault.len() as int) == s.vault
                &&& ps[j].last().len() > 0
                &&& ps[j].last()[0] == '.'
            },
    ensures
        step_spec(s, WatchEventView::Changed(ps)).0 == s,
        step_spec(s, WatchEventView::Changed(ps)).1 is Wait,
{
    assert forall|j: int| 0 <= j < ps.len() implies !#[trigger] is_relevant(s.vault, ps[j]) by {
        lemma_dotted_below_vault_is_hidden(s.vault, ps[j], ps[j].len() - 1);
    }
    lemma_add_irrelevant(s.pending, s.vault, ps);
}

proof fn lemma_last_dot_skips(s: Seq<char>, t: Seq<char>)
    requires
        forall|k: int| 0 <= k < t.len() ==> t[k] != '.',
    ensures
        last_dot(s + t) == last_dot(s),
    decreases t.len(),
{
    if t.len() == 0 {
        assert(s + t =~= s);
    } else {
        assert((s + t).drop_last() =~= s + t.drop_last());
        assert((s + t).last() == t[t.len() - 1]);
        lemma_last_dot_skips(s, t.drop_last());
    }
}

/// A Markdown note under the vault, outside any hidden directory, matters:
/// when no component below the vault starts with `.` and the file name is
/// a stem, a `.`, and the extension `md` or `markdown` in any ASCII case,
/// the path is relevant, and a change to it joins the pending set and
/// (re)arms the timer.
pub proof fn lemma_visible_markdown_is_relevant(
    s: DebouncerView,
    p: Seq<Seq<char>>,
    stem: Seq<char>,
    ext: Seq<char>,
)
    requires
        s.vault.len() < p.len(),
        p.subrange(0, s.vault.len() as int) == s.vault,
        forall|k: int| s.vault.len() <= k < p.len() ==> (#[trigger] p[k]).len() > 0 && p[k][0] != '.',
        p.last() == stem + seq!['.'] + ext,
        stem.len() > 0,
        (ext.len() == 2 && forall|k: int| 0 <= k < 2 ==> #[trigger] ascii_lower(ext[k]) == seq!['m', 'd'][k])
            || (ext.len() == 8 && forall|k: int|
            0 <= k < 8 ==> #[trigger] ascii_lower(ext[k]) == seq!['m', 'a', 'r', 'k', 'd', 'o', 'w', 'n'][k]),
    ensures
        is_relevant(s.vault, p),
        step_spec(s, WatchEventView::Changed(seq![p])).1 is ArmTimer,
        step_spec(s, WatchEventView::Changed(seq![p])).0.pending.contains(p),
        step_spec(s, WatchEventView::Changed(seq![p])).0.timer_active,
{
    let vault = s.vault;
    let name = p.last();
    assert(p[p.len() - 1] == name);
    if exists|i: int| vault.len() <= i < p.len() && #[trigger] dotted(p[i]) {
        let i = choose|i: int| vault.len() <= i < p.len() && #[trigger] dotted(p[i]);
        assert(p[i][0] != '.');
    }
    assert(!is_hidden(vault, p));
    assert forall|k: int| 0 <= k < ext.len() implies ext[k] != '.' by {
        if ext.len() == 2 {
            assert(ascii_lower(ext[k]) == seq!['m', 'd'][k]);
        } else {
            assert(ascii_lower(ext[k]) == seq!['m', 'a', 'r', 'k', 'd', 'o', 'w', 'n'][k]);
        }
    }
    lemma_last_dot_skips(stem + seq!['.'], ext);
    assert((stem + seq!['.']).last() == '.');
    assert(last_dot(stem + seq!['.']) == stem.len());
    assert(name.len() >= 3);
    assert(name != crate::paths::root());
    assert(name != crate::paths::dot());
    assert(name != crate::paths::dot_dot());
    assert(name.subrange(stem.len() + 1 as int, name.len() as int) =~= ext);
    assert(components_extension(p) == Some(ext));
    if ext.len() == 2 {
        assert(eq_ignore_ascii_case(ext, md())) by {
            assert forall|i: int| 0 <= i < ext.len() implies #[trigger] ascii_lower(ext[i])
                == ascii_lower(md()[i]) by {
                assert(ascii_lower(ext[i]) == seq!['m', 'd'][i]);
            }
        }
    } else {
        assert(eq_ignore_ascii_case(ext, markdown())) by {
            assert forall|i: int| 0 <= i < ext.len() implies #[trigger] ascii_lower(ext[i])
                == ascii_lower(markdown()[i]) by {
                assert(ascii_lower(ext[i]) == seq!['m', 'a', 'r', 'k', 'd', 'o', 'w', 'n'][i]);
            }
        }
    }
    assert(is_relevant(vault, p));
    let ps = seq![p];
    assert(is_relevant(vault, ps[0]));
    assert(any_relevant(vault, ps));
    assert(ps.drop_last() =~= Seq::<Seq<Seq<char>>>::empty());
    let np = add_paths(s.pending, vault, ps);
    assert(add_paths(s.pending, vault, ps.drop_last()) == s.pending);
    if !s.pending.contains(p) {
        assert(np == s.pending.push(p));
        assert(np[np.len() - 1] == p);
    }
}

proof fn lemma_bursts_prefix(vault: Seq<Seq<char>>, bursts: Seq<Seq<Seq<Seq<char>>>>)
    ensures
        ({
            let (s, acts) = run(idle(vault), change_events(bursts));
            &&& s.vault == vault
            &&& debouncer_wf(s)
            &&& forall|p: Seq<Seq<char>>| #[trigger] s.pending.contains(p) <==> relevant_in(vault, bursts, p)
            &&& s.timer_active == bursts_relevant(vault, bursts)
            &&& reconciliations(acts) == 0
        }),
    decreases bursts.len(),
{
    let events = change_events(bursts);
    if bursts.len() == 0 {
        assert(events.len() == 0);
        let (s, acts) = run(idle(vault), events);
        assert forall|p: Seq<Seq<char>>| #[trigger] s.pending.contains(p) <==> relevant_in(vault, bursts, p) by {}
    } else {
        let prev_b = bursts.drop_last();
        lemma_bursts_prefix(vault, prev_b);
        assert(events.drop_last() =~= change_events(prev_b));
        let (s1, acts1) = run(idle(vault), change_events(prev_b));
        let ps = bursts.last();
        assert(events.last() == WatchEventView::Changed(ps));
        lemma_add_paths(s1.pending, vault, ps);
        let (s2, acts2) = run(idle(vault), events);
        assert(s2.pending == add_paths(s1.pending, vault, ps));
        assert forall|p: Seq<Seq<char>>| #[trigger] s2.pending.contains(p) <==> relevant_in(vault, bursts, p) by {
            if s1.pending.contains(p) {
                assert(relevant_in(vault, prev_b, p));
                let (i, j) = choose|i: int, j: int|
                    0 <= i < prev_b.len() && 0 <= j < prev_b[i].len() && #[trigger] prev_b[i][j] == p;
                assert(bursts[i] == prev_b[i]);
            }
            if is_relevant(vault, p) && ps.contains(p) {
                let j = choose|j: int| 0 <= j < ps.len() && ps[j] == p;
                assert(bursts[bursts.len() - 1][j] == p);
            }
            if relevant_in(vault, bursts, p) {
                let (i, j) = choose|i: int, j: int|
                    0 <= i < bursts.len() && 0 <= j < bursts[i].len() && #[trigger] bursts[i][j] == p;
                if i < bursts.len() - 1 {
                    assert(prev_b[i][j] == p);
                    assert(relevant_in(vault, prev_b, p));
                } else {
                    assert(ps[j] == p);
                }
            }
        }
        if any_relevant(vault, ps) {
            assert(any_relevant(vault, bursts[bursts.len() - 1]));
        }
        if bursts_relevant(vault, bursts) && !any_relevant(vault, ps) {
            let i = choose|i: int| 0 <= i < bursts.len() && #[trigger] any_relevant(vault, bursts[i]);
            assert(i < bursts.len() - 1);
            assert(prev_b[i] == bursts[i]);
        }
        if bursts_relevant(vault, prev_b) {
            let i = choose|i: int| 0 <= i < prev_b.len() && #[trigger] any_relevant(vault, prev_b[i]);
            assert(bursts[i] == prev_b[i]);
        }
        assert(acts2.drop_last() == acts1);
    }
}

/// Debouncing law: a burst of changes, however many events it takes,
/// followed by the end of the quiet window, is reconciled exactly once
/// when it holds a relevant path (and not at all when it holds none); the
/// reconciled batch holds each relevant changed path once and nothing else,
/// and the watcher is idle again afterwards.
pub proof fn lemma_burst_reconciled_once(vault: Seq<Seq<char>>, bursts: Seq<Seq<Seq<Seq<char>>>>)
    ensures
        ({
            let (s, acts) = run(idle(vault), change_events(bursts).push(WatchEventView::TimerElapsed));
            &&& reconciliations(acts) == (if bursts_relevant(vault, bursts) {
                1nat
            } else {
                0nat
            })
            &&& s == idle(vault)
            &&& bursts_relevant(vault, bursts) ==> (acts.last() matches WatchActionView::Reconcile(batch)
                && batch.no_duplicates() && (forall|p: Seq<Seq<char>>| #[trigger] batch.contains(p) <==> relevant_in(vault, bursts, p)))
        }),
{
    lemma_bursts_prefix(vault, bursts);
    let events = change_events(bursts).push(WatchEventView::TimerElapsed);
    assert(events.drop_last() =~= change_events(bursts));
    let (s1, acts1) = run(idle(vault), change_events(bursts));
    let (s, acts) = run(idle(vault), events);
    assert(acts.drop_last() == acts1);
    if bursts_relevant(vault, bursts) {
        let i = choose|i: int| 0 <= i < bursts.len() && #[trigger] any_relevant(vault, bursts[i]);
        let j = choose|j: int| 0 <= j < bursts[i].len() && #[trigger] is_relevant(vault, bursts[i][j]);
        let p = bursts[i][j];
        assert(relevant_in(vault, bursts, p));
        assert(s1.pending.contains(p));
        assert(s1.pending.len() > 0);
    } else {
        assert(!s1.timer_active);
        if s1.pending.len() > 0 {
            let p = s1.pending[0];
            assert(s1.pending.contains(p));
            let (i, j) = choose|i: int, j: int|
                0 <= i < bursts.len() && 0 <= j < bursts[i].len() && #[trigger] bursts[i][j] == p;
            assert(is_relevant(vault, bursts[i][j]));
            assert(any_relevant(vault, bursts[i]));
        }
        assert(s1.pending =~= Seq::<Seq<Seq<char>>>::empty());
    }
    assert(s.pending =~= Seq::<Seq<Seq<char>>>::empty());
}

/// The views of a list of paths.
pub open spec fn paths_view(v: Seq<Vec<String>>) -> Seq<Seq<Seq<char>>> {
    v.map_values(|p: Vec<String>| strings_view(p@))
}

/// An event of the watcher; paths are given by their components.
pub enum WatchEvent {
    /// The watcher was asked to stop.
    StopRequested,
    /// Paths changed on disk.
    Changed(Vec<Vec<String>>),
    /// The file-system watcher reported an error.
    Failed,
    /// No more events will come.
    ChannelClosed,
    /// The quiet-window timer elapsed.
    TimerElapsed,
}

impl View for WatchEvent {
    type V = WatchEventView;

    open spec fn view(&self) -> WatchEventView {
        match self {
            WatchEvent::StopRequested => WatchEventView::StopRequested,
            WatchEvent::Changed(ps) => WatchEventView::Changed(paths_view(ps@)),
            WatchEvent::Failed => WatchEventView::Failed,
            WatchEvent::ChannelClosed => WatchEventView::ChannelClosed,
            WatchEvent::TimerElapsed => WatchEventView::TimerElapsed,
        }
    }
}

/// What the watcher asks its caller to do.
pub enum WatchAction {
    /// Leave the event loop.
    Exit,
    /// (Re)start the quiet-window timer.
    ArmTimer,
    /// Nothing to do.
    Wait,
    /// Report the failure of the file-system watcher.
    ReportFailure,
    /// Reconcile these paths with the index, in one transaction.
    Reconcile(Vec<Vec<String>>),
}

impl View for WatchAction {
    type V = WatchActionView;

    open spec fn view(&self) -> WatchActionView {
        match self {
            WatchAction::Exit => WatchActionView::Exit,
            WatchAction::ArmTimer => WatchActionView::ArmTimer,
            WatchAction::Wait => WatchActionView::Wait,
            WatchAction::ReportFailure => WatchActionView::ReportFailure,
            WatchAction::Reconcile(ps) => WatchActionView::Reconcile(paths_view(ps@)),
        }
    }
}

/// The debouncing state of the vault watcher.
pub struct Debouncer {
    vault: Vec<String>,
    pending: Vec<Vec<String>>,
    timer_active: bool,
}

impl View for Debouncer {
    type V = DebouncerView;

    closed spec fn view(&self) -> DebouncerView {
        DebouncerView {
            vault: strings_view(self.vault@),
            pending: paths_view(self.pending@),
            timer_active: self.timer_active,
        }
    }
}

/// Whether two paths have the same components.
pub fn same_path(a: &Vec<String>, b: &Vec<String>) -> (r: bool)
    ensures
        r == (strings_view(a@) == strings_view(b@)),
{
    let ghost av = strings_view(a@);
    let ghost bv = strings_view(b@);
    if a.len() != b.len() {
        assert(av.len() != bv.len());
        return false;
    }
    let mut i: usize = 0;
    while i < a.len()
        invariant
            i <= a.len() == b.len(),
            av == strings_view(a@),
            bv == strings_view(b@),
            forall|k: int| 0 <= k < i ==> av[k] == bv[k],
        decreases a.len() - i,
    {
        if a[i] != b[i] {
            assert(av[i as int] != bv[i as int]);
            return false;
        }
        i = i + 1;
    }
    assert(av =~= bv);
    true
}

/// A copy of a path.
pub fn clone_path(p: &Vec<String>) -> (r: Vec<String>)
    ensures
        strings_view(r@) == strings_view(p@),
{
    let mut out: Vec<String> = Vec::new();
    let mut i: usize = 0;
    while i < p.len()
        invariant
            i <= p.len(),
            strings_view(out@) == strings_view(p@).subrange(0, i as int),
        decreases p.len() - i,
    {
        let c = p[i].clone();
        assert(c@ == strings_view(p@)[i as int]);
        let ghost before = out@;
        out.push(c);
        assert(strings_view(out@) =~= strings_view(before).push(c@));
        i = i + 1;
        assert(strings_view(out@) =~= strings_view(p@).subrange(0, i as int));
    }
    assert(strings_view(p@).subrange(0, p.len() as int) =~= strings_view(p@));
    out
}

fn contains_path(set: &Vec<Vec<String>>, p: &Vec<String>) -> (r: bool)
    ensures
        r == paths_view(set@).contains(strings_view(p@)),
{
    let ghost sv = paths_view(set@);
    let mut i: usize = 0;
    while i < set.len()
        invariant
            i <= set.len(),
            sv == paths_view(set@),
            forall|k: int| 0 <= k < i ==> sv[k] != strings_view(p@),
        decreases set.len() - i,
    {
        if same_path(&set[i], p) {
            assert(sv[i as int] == strings_view(p@));
            return true;
        }
        i = i + 1;
    }
    false
}

/// Whether a changed path is hidden below (or outside) the vault.
pub fn is_hidden_path(vault: &Vec<String>, p: &Vec<String>) -> (r: bool)
    ensures
        r == is_hidden(strings_view(vault@), strings_view(p@)),
{
    let ghost pv = strings_view(p@);
    if components_starts_with(p, vault) {
        let mut i: usize = vault.len();
        while i < p.len()
            invariant
                vault.len() <= i <= p.len(),
                pv == strings_view(p@),
                components_start_with(pv, strings_view(vault@)),
                forall|k: int| vault.len() <= k < i ==> !#[trigger] dotted(pv[k]),
            decreases p.len() - i,
        {
            if starts_with_char(p[i].as_str(), '.') {
                assert(dotted(pv[i as int]));
                return true;
            }
            i = i + 1;
        }
        false
    } else {
        match component_file_name(p) {
            Some(n) => starts_with_char(n.as_str(), '.'),
            None => false,
        }
    }
}

/// Whether a changed path names a Markdown note.
pub fn is_markdown_path(p: &Vec<String>) -> (r: bool)
    ensures
        r == is_markdown(strings_view(p@)),
{
    proof {
        reveal_strlit("md");
        reveal_strlit("markdown");
    }
    assert("md"@ =~= md());
    assert("markdown"@ =~= markdown());
    match component_extension(p) {
        Some(e) => str_eq_ignore_ascii_case(e.as_str(), "md") || str_eq_ignore_ascii_case(
            e.as_str(),
            "markdown",
        ),
        None => false,
    }
}

/// Whether a changed path matters to the index.
pub fn is_relevant_path(vault: &Vec<String>, p: &Vec<String>) -> (r: bool)
    ensures
        r == is_relevant(strings_view(vault@), strings_view(p@)),
{
    !is_hidden_path(vault, p) && is_markdown_path(p)
}

impl Debouncer {
    /// The watcher's invariant holds.
    pub open spec fn wf(&self) -> bool {
        debouncer_wf(self@)
    }

    /// A watcher of the vault with the given components, idle.
    pub fn new(vault: Vec<String>) -> (r: Self)
        ensures
            r@ == idle(strings_view(vault@)),
            r.wf(),
    {
        let r = Debouncer { vault, pending: Vec::new(), timer_active: false };
        assert(paths_view(r.pending@) =~= Seq::<Seq<Seq<char>>>::empty());
        r
    }

    /// Whether the quiet-window timer runs.
    pub fn timer_active(&self) -> (r: bool)
        ensures
            r == self@.timer_active,
    {
        self.timer_active
    }

    /// The number of paths waiting for reconciliation.
    pub fn pending_len(&self) -> (r: usize)
        ensures
            r == self@.pending.len(),
    {
        self.pending.len()
    }

    fn add_changed(&mut self, ps: &Vec<Vec<String>>) -> (any: bool)
        requires
            old(self).wf(),
        ensures
            final(self)@ == (DebouncerView {
                vault: old(self)@.vault,
                pending: add_paths(old(self)@.pending, old(self)@.vault, paths_view(ps@)),
                timer_active: old(self)@.timer_active,
            }),
            any == any_relevant(old(self)@.vault, paths_view(ps@)),
    {
        let ghost vault = self@.vault;
        let ghost start = self@.pending;
        let ghost psv = paths_view(ps@);
        let mut any = false;
        let mut i: usize = 0;
        assert(psv.subrange(0, 0) =~= Seq::<Seq<Seq<char>>>::empty());
        while i < ps.len()
            invariant
                i <= ps.len(),
                psv == paths_view(ps@),
                self@.vault == vault,
                self@.timer_active == old(self)@.timer_active,
                start == old(self)@.pending,
                vault == old(self)@.vault,
                self@.pending == add_paths(start, vault, psv.subrange(0, i as int)),
                any == any_relevant(vault, psv.subrange(0, i as int)),
            decreases ps.len() - i,
        {
            let ghost pre = psv.subrange(0, i + 1);
            assert(pre.drop_last() =~= psv.subrange(0, i as int));
            assert(pre.last() == psv[i as int]);
            let relevant = is_relevant_path(&self.vault, &ps[i]);
            if relevant && !contains_path(&self.pending, &ps[i]) {
                let copy = clone_path(&ps[i]);
                self.pending.push(copy);
                assert(paths_view(self.pending@) =~= add_paths(start, vault, pre));
            }
            proof {
                if relevant {
                    assert(pre[i as int] == psv[i as int]);
                    assert(any_relevant(vault, pre));
                } else if any_relevant(vault, pre) {
                    let j = choose|j: int| 0 <= j < pre.len() && #[trigger] is_relevant(vault, pre[j]);
                    assert(psv.subrange(0, i as int)[j] == pre[j]);
                }
                if any_relevant(vault, psv.subrange(0, i as int)) {
                    let j = choose|j: int|
                        0 <= j < psv.subrange(0, i as int).len() && #[trigger] is_relevant(
                            vault,
                            psv.subrange(0, i as int)[j],
                        );
                    assert(pre[j] == psv.subrange(0, i as int)[j]);
                }
            }
            any = any || relevant;
            i = i + 1;
        }
        assert(psv.subrange(0, ps.len() as int) =~= psv);
        any
    }

    /// One decision of the watcher (see [`step_spec`]): updates the state
    /// for `event` and returns the action the caller must perform.
    pub fn step(&mut self, event: WatchEvent) -> (r: WatchAction)
        requires
            old(self).wf(),
        ensures
            final(self).wf(),
            (final(self)@, r@) == step_spec(old(self)@, event@),
    {
        proof {
            lemma_add_paths(self@.pending, self@.vault, Seq::empty());
        }
        match event {
            WatchEvent::StopRequested => WatchAction::Exit,
            WatchEvent::ChannelClosed => WatchAction::Exit,
            WatchEvent::Failed => WatchAction::ReportFailure,
            WatchEvent::Changed(ps) => {
                proof {
                    lemma_add_paths(self@.pending, self@.vault, paths_view(ps@));
                }
                let any = self.add_changed(&ps);
                if any {
                    self.timer_active = true;
                    WatchAction::ArmTimer
                } else {
                    WatchAction::Wait
                }
            },
            WatchEvent::TimerElapsed => {
                if !self.timer_active {
                    WatchAction::Wait
                } else if self.pending.len() == 0 {
                    self.timer_active = false;
                    WatchAction::Wait
                } else {
                    let mut batch: Vec<Vec<String>> = Vec::new();
                    std::mem::swap(&mut batch, &mut self.pending);
                    self.timer_active = false;
                    assert(paths_view(self.pending@) =~= Seq::<Seq<Seq<char>>>::empty());
                    WatchAction::Reconcile(batch)
                }
            },
        }
    }
}

} // verus!
