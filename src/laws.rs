//! Properties that span several calls: exclusive name claims, a single
//! teardown per session, and negotiation that survives a rejection.
use vstd::prelude::*;
use crate::session::{
    next, is_end, left_line, chat_line_of, joined_line, ActionView, EventView, Phase,
    SessionView, NAME_TAKEN,
};

verus! {

/// An operation on the claimed names, as `Registry::try_claim` and
/// `Registry::release` perform it.
pub enum NameOp {
    Claim(Seq<char>),
    Release(Seq<char>),
}

/// The claimed names after `op`.
pub open spec fn apply(names: Set<Seq<char>>, op: NameOp) -> Set<Seq<char>> {
    match op {
        NameOp::Claim(n) => names.insert(n),
        NameOp::Release(n) => names.remove(n),
    }
}

/// The claimed names after the first `k` operations of `ops`.
pub open spec fn names_after(names: Set<Seq<char>>, ops: Seq<NameOp>, k: nat) -> Set<Seq<char>>
    decreases k,
{
    if k == 0 || k > ops.len() {
        names
    } else {
        apply(names_after(names, ops, (k - 1) as nat), ops[k - 1])
    }
}

/// Whether operation `i` of `ops` is a claim of `n` that succeeds.
pub open spec fn claim_succeeds(names: Set<Seq<char>>, ops: Seq<NameOp>, i: nat, n: Seq<char>) -> bool {
    &&& i < ops.len()
    &&& ops[i as int] == NameOp::Claim(n)
    &&& !names_after(names, ops, i).contains(n)
}

proof fn lemma_held_until_released(names: Set<Seq<char>>, ops: Seq<NameOp>, i: nat, j: nat, n: Seq<char>)
    requires
        i < j <= ops.len(),
        ops[i as int] == NameOp::Claim(n),
        forall|k: int| i < k < j ==> ops[k] != NameOp::Release(n),
    ensures
        names_after(names, ops, j).contains(n),
    decreases j,
{
    if j > i + 1 {
        lemma_held_until_released(names, ops, i, (j - 1) as nat, n);
        assert(ops[j - 1] != NameOp::Release(n));
    }
}

/// Two claims of one name never both succeed unless a release of that name
/// stands between them; and a claim right after a release of the name
/// succeeds.
pub proof fn claims_are_exclusive(names: Set<Seq<char>>, ops: Seq<NameOp>, n: Seq<char>, i: nat, j: nat)
    requires
        i < j < ops.len(),
    ensures
        claim_succeeds(names, ops, i, n) && claim_succeeds(names, ops, j, n)
            ==> exists|k: int| i < k < j && ops[k] == NameOp::Release(n),
        ops[i as int] == NameOp::Release(n) && j == i + 1 && ops[j as int] == NameOp::Claim(n)
            ==> claim_succeeds(names, ops, j, n),
{
    if claim_succeeds(names, ops, i, n) && claim_succeeds(names, ops, j, n) {
        if !(exists|k: int| i < k < j && ops[k] == NameOp::Release(n)) {
            lemma_held_until_released(names, ops, i, j, n);
        }
    }
}

/// Among any number of claims of one name with no release of it in
/// between, at most one succeeds; if the name was free, the first succeeds
/// and the name stays claimed to the end.
pub proof fn one_claim_wins(names: Set<Seq<char>>, ops: Seq<NameOp>, n: Seq<char>)
    requires
        forall|k: int| 0 <= k < ops.len() ==> ops[k] != NameOp::Release(n),
    ensures
        forall|i: nat, j: nat|
            claim_succeeds(names, ops, i, n) && claim_succeeds(names, ops, j, n) ==> i == j,
        !names.contains(n) && ops.len() > 0 && ops[0] == NameOp::Claim(n)
            ==> claim_succeeds(names, ops, 0, n) && names_after(names, ops, ops.len()).contains(n),
{
    assert forall|i: nat, j: nat|
        claim_succeeds(names, ops, i, n) && claim_succeeds(names, ops, j, n) implies i == j by {
        if i < j {
            lemma_held_until_released(names, ops, i, j, n);
        } else if j < i {
            lemma_held_until_released(names, ops, j, i, n);
        }
    }
    if !names.contains(n) && ops.len() > 0 && ops[0] == NameOp::Claim(n) {
        lemma_held_until_released(names, ops, 0, ops.len(), n);
    }
}

/// A run of events through a session: where it ends, the claimed names,
/// every action asked for, and how many steps gave the name back.
pub struct Trace {
    pub session: SessionView,
    pub names: Set<Seq<char>>,
    pub actions: Seq<ActionView>,
    pub releases: nat,
}

/// The session `s` fed `events` one after another by `Session::step`.
pub open spec fn run(s: SessionView, names: Set<Seq<char>>, events: Seq<EventView>) -> Trace
    decreases events.len(),
{
    if events.len() == 0 {
        Trace { session: s, names, actions: Seq::empty(), releases: 0 }
    } else {
        let o = next(s, names, events[0]);
        let t = run(o.session, o.names, events.drop_first());
        Trace {
            session: t.session,
            names: t.names,
            actions: o.actions + t.actions,
            releases: t.releases + if o.released { 1nat } else { 0nat },
        }
    }
}

/// How often `a` occurs in `acts`.
pub open spec fn occurrences(acts: Seq<ActionView>, a: ActionView) -> nat
    decreases acts.len(),
{
    if acts.len() == 0 {
        0
    } else {
        (if acts[0] == a { 1nat } else { 0nat }) + occurrences(acts.drop_first(), a)
    }
}

proof fn lemma_occurrences_add(x: Seq<ActionView>, y: Seq<ActionView>, a: ActionView)
    ensures
        occurrences(x + y, a) == occurrences(x, a) + occurrences(y, a),
    decreases x.len(),
{
    if x.len() > 0 {
        assert((x + y).drop_first() =~= x.drop_first() + y);
        lemma_occurrences_add(x.drop_first(), y, a);
    } else {
        assert(x + y =~= y);
    }
}

proof fn lemma_closed_is_inert(s: SessionView, names: Set<Seq<char>>, events: Seq<EventView>)
    requires
        s.phase == Phase::Closed,
    ensures
        run(s, names, events) == (Trace { session: s, names, actions: Seq::empty(), releases: 0 }),
    decreases events.len(),
{
    if events.len() > 0 {
        lemma_closed_is_inert(s, names, events.drop_first());
        assert(Seq::<ActionView>::empty() + Seq::<ActionView>::empty() =~= Seq::<ActionView>::empty());
    }
}

proof fn lemma_chat_is_not_leave(n: Seq<char>, t: Seq<char>)
    ensures
        chat_line_of(n, t) != left_line(n),
{
    reveal_strlit(": ");
    reveal_strlit(" left.");
    assert(chat_line_of(n, t)[n.len() as int] == ':');
    assert(left_line(n)[n.len() as int] == ' ');
}

/// A session that has become active gives its name back, and announces
/// that it left, exactly once if an end of its stream or of its outbound
/// relay is ever seen, and never otherwise, whichever end comes first and
/// whatever follows it.
pub proof fn teardown_exactly_once(s: SessionView, names: Set<Seq<char>>, events: Seq<EventView>)
    requires
        s.phase == Phase::Active,
        s.name is Some,
    ensures
        ({
            let t = run(s, names, events);
            let n = s.name.unwrap();
            &&& t.releases == (if exists|i: int| 0 <= i < events.len() && is_end(#[trigger] events[i]) { 1nat } else { 0nat })
            &&& occurrences(t.actions, ActionView::Publish(left_line(n))) == t.releases
            &&& (t.releases == 1 ==> t.session.phase == Phase::Closed && !t.names.contains(n))
            &&& (t.releases == 0 ==> t.session == s)
        }),
    decreases events.len(),
{
    let n = s.name.unwrap();
    let left = ActionView::Publish(left_line(n));
    if events.len() > 0 {
        let o = next(s, names, events[0]);
        let rest = events.drop_first();
        let t = run(o.session, o.names, rest);
        lemma_occurrences_add(o.actions, t.actions, left);
        if is_end(events[0]) {
            lemma_closed_is_inert(o.session, o.names, rest);
            assert(occurrences(o.actions, left) == 1) by {
                assert(o.actions.drop_first() =~= Seq::<ActionView>::empty());
            }
        } else {
            teardown_exactly_once(s, o.names, rest);
            assert(o.session == s);
            match events[0] {
                EventView::Text(x) => {
                    lemma_chat_is_not_leave(n, x);
                    assert(o.actions.drop_first() =~= Seq::<ActionView>::empty());
                    assert(occurrences(o.actions.drop_first(), left) == 0);
                    assert(o.actions[0] != left);
                    assert(occurrences(o.actions, left) == 0);
                },
                _ => {
                    assert(o.actions =~= Seq::<ActionView>::empty());
                    assert(occurrences(o.actions, left) == 0);
                },
            }
            if exists|i: int| 0 <= i < events.len() && is_end(#[trigger] events[i]) {
                let i = choose|i: int| 0 <= i < events.len() && is_end(#[trigger] events[i]);
                assert(rest[i - 1] == events[i]);
            }
            if exists|i: int| 0 <= i < rest.len() && is_end(#[trigger] rest[i]) {
                let i = choose|i: int| 0 <= i < rest.len() && is_end(#[trigger] rest[i]);
                assert(events[i + 1] == rest[i]);
            }
        }
    }
}

proof fn lemma_run_append(s: SessionView, names: Set<Seq<char>>, a: Seq<EventView>, b: Seq<EventView>)
    ensures
        ({
            let t1 = run(s, names, a);
            let t2 = run(t1.session, t1.names, b);
            run(s, names, a + b) == (Trace {
                session: t2.session,
                names: t2.names,
                actions: t1.actions + t2.actions,
                releases: t1.releases + t2.releases,
            })
        }),
    decreases a.len(),
{
    if a.len() == 0 {
        assert(a + b =~= b);
        assert(Seq::<ActionView>::empty() + run(s, names, b).actions =~= run(s, names, b).actions);
    } else {
        let o = next(s, names, a[0]);
        assert((a + b).drop_first() =~= a.drop_first() + b);
        assert((a + b)[0] == a[0]);
        lemma_run_append(o.session, o.names, a.drop_first(), b);
        let t1 = run(o.session, o.names, a.drop_first());
        let t2 = run(t1.session, t1.names, b);
        assert(o.actions + (t1.actions + t2.actions) =~= (o.actions + t1.actions) + t2.actions);
    }
}

proof fn lemma_controls_change_nothing(s: SessionView, names: Set<Seq<char>>, cs: Seq<EventView>)
    requires
        forall|k: int| 0 <= k < cs.len() ==> cs[k] is Control,
    ensures
        run(s, names, cs) == (Trace { session: s, names, actions: Seq::empty(), releases: 0 }),
    decreases cs.len(),
{
    if cs.len() > 0 {
        assert(cs[0] is Control);
        lemma_controls_change_nothing(s, names, cs.drop_first());
        assert(Seq::<ActionView>::empty() + Seq::<ActionView>::empty() =~= Seq::<ActionView>::empty());
    }
}

/// A name that another session holds is refused with a notice and the
/// session keeps negotiating; frames without text change nothing; a free
/// name offered afterwards makes the session active and announces the join.
pub proof fn rejection_keeps_negotiating(
    s: SessionView,
    names: Set<Seq<char>>,
    taken: Seq<char>,
    controls: Seq<EventView>,
    free: Seq<char>,
)
    requires
        s.phase == Phase::Negotiating,
        names.contains(taken),
        !names.contains(free),
        forall|k: int| 0 <= k < controls.len() ==> controls[k] is Control,
    ensures
        next(s, names, EventView::Text(taken)).session == s,
        next(s, names, EventView::Text(taken)).names == names,
        next(s, names, EventView::Text(taken)).actions == seq![ActionView::Reply(NAME_TAKEN@)],
        ({
            let t = run(s, names, seq![EventView::Text(taken)] + controls + seq![EventView::Text(free)]);
            &&& t.session == (SessionView { phase: Phase::Active, name: Some(free), ..s })
            &&& t.names == names.insert(free)
            &&& t.actions == seq![
                ActionView::Reply(NAME_TAKEN@),
                ActionView::Subscribe,
                ActionView::Publish(joined_line(free)),
            ]
        }),
{
    let first = seq![EventView::Text(taken)];
    let last = seq![EventView::Text(free)];
    let empty = Seq::<ActionView>::empty();
    lemma_run_append(s, names, first + controls, last);
    lemma_run_append(s, names, first, controls);
    let o = next(s, names, first[0]);
    assert(first.drop_first() =~= Seq::<EventView>::empty());
    assert(run(o.session, o.names, first.drop_first()).actions == empty);
    assert(run(s, names, first).actions == o.actions + empty);
    assert(o.actions + empty =~= o.actions);
    lemma_controls_change_nothing(s, names, controls);
    let o2 = next(s, names, last[0]);
    assert(last.drop_first() =~= Seq::<EventView>::empty());
    assert(run(o2.session, o2.names, last.drop_first()).actions == empty);
    assert(run(s, names, last).actions == o2.actions + empty);
    assert(o2.actions + empty =~= o2.actions);
    assert(o.actions + empty + o2.actions =~= seq![
        ActionView::Reply(NAME_TAKEN@),
        ActionView::Subscribe,
        ActionView::Publish(joined_line(free)),
    ]);
}

} // verus!
