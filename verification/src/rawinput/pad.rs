//! Keys of a tablet pad, from one report to the next.
use vstd::prelude::*;

verus! {

/// Most buttons whose changes can be told apart.
pub const INDEXED_BUTTONS: usize = 256;

/// Was the button `usage` pressed or released between the two snapshots?
pub open spec fn changed(
    usage: (u16, u16),
    prev: Seq<(u16, u16)>,
    curr: Seq<(u16, u16)>,
) -> bool {
    prev.contains(usage) != curr.contains(usage)
}

/// The changes of the first `n` buttons, in their order: the index of each
/// and whether it is pressed now.
pub open spec fn edges_of(
    buttons: Seq<(u16, u16)>,
    prev: Seq<(u16, u16)>,
    curr: Seq<(u16, u16)>,
    n: nat,
) -> Seq<(u8, bool)>
    decreases n,
{
    if n == 0 {
        Seq::empty()
    } else {
        let before = edges_of(buttons, prev, curr, (n - 1) as nat);
        let usage = buttons[n - 1];
        if changed(usage, prev, curr) {
            before.push(((n - 1) as u8, curr.contains(usage)))
        } else {
            before
        }
    }
}

/// Number of buttons whose changes are told.
pub open spec fn indexed(buttons: Seq<(u16, u16)>) -> nat {
    if buttons.len() <= INDEXED_BUTTONS {
        buttons.len()
    } else {
        INDEXED_BUTTONS as nat
    }
}

/// Is `usage` among `usages`?
fn listed(usages: &[(u16, u16)], usage: (u16, u16)) -> (r: bool)
    ensures
        r == usages@.contains(usage),
{
    let mut at: usize = 0;
    while at < usages.len()
        invariant
            at <= usages.len(),
            forall|i: int| 0 <= i < at ==> usages@[i] != usage,
        decreases usages.len() - at,
    {
        let here: (u16, u16) = usages[at];
        if here.0 == usage.0 && here.1 == usage.1 {
            assert(usages@[at as int] == usage);
            return true;
        }
        at += 1;
    }
    false
}

/// The buttons that were pressed or released between two snapshots of the
/// pressed usages. A button goes by its place in `buttons`; usages that are
/// not listed there are ignored.
pub fn button_edges(buttons: &[(u16, u16)], prev: &[(u16, u16)], curr: &[(u16, u16)]) -> (r: Vec<
    (u8, bool),
>)
    ensures
        r@ == edges_of(buttons@, prev@, curr@, indexed(buttons@)),
{
    let mut edges: Vec<(u8, bool)> = Vec::new();
    let mut at: usize = 0;
    while at < buttons.len() && at < INDEXED_BUTTONS
        invariant
            at <= buttons.len(),
            at <= INDEXED_BUTTONS,
            edges@ == edges_of(buttons@, prev@, curr@, at as nat),
        decreases buttons.len() - at,
    {
        let was: bool = listed(prev, buttons[at]);
        let is: bool = listed(curr, buttons[at]);
        if was != is {
            edges.push((at as u8, is));
        }
        at += 1;
    }
    edges
}

/// Exactly the buttons that changed are told, each by its index and its new
/// state.
pub proof fn edges_tell_the_changes(
    buttons: Seq<(u16, u16)>,
    prev: Seq<(u16, u16)>,
    curr: Seq<(u16, u16)>,
    n: nat,
    edge: (u8, bool),
)
    requires
        n <= buttons.len(),
        n <= INDEXED_BUTTONS,
    ensures
        edges_of(buttons, prev, curr, n).contains(edge) <==> edge.0 < n && changed(
            buttons[edge.0 as int],
            prev,
            curr,
        ) && edge.1 == curr.contains(buttons[edge.0 as int]),
    decreases n,
{
    if n > 0 {
        let before = edges_of(buttons, prev, curr, (n - 1) as nat);
        let all = edges_of(buttons, prev, curr, n);
        edges_tell_the_changes(buttons, prev, curr, (n - 1) as nat, edge);
        let usage = buttons[n - 1];
        if changed(usage, prev, curr) {
            let last = ((n - 1) as u8, curr.contains(usage));
            assert(all == before.push(last));
            assert(all[before.len() as int] == last);
            if before.contains(edge) {
                let i = choose|i: int| 0 <= i < before.len() && before[i] == edge;
                assert(all[i] == edge);
            }
            if all.contains(edge) {
                let i = choose|i: int| 0 <= i < all.len() && all[i] == edge;
                if i < before.len() {
                    assert(before[i] == edge);
                }
            }
        }
    }
}

/// Do the indices of `edges` ascend, and stay below `n`?
pub open spec fn ascending(edges: Seq<(u8, bool)>, n: nat) -> bool {
    &&& forall|i: int, j: int| 0 <= i < j < edges.len() ==> edges[i].0 < edges[j].0
    &&& forall|i: int| 0 <= i < edges.len() ==> (#[trigger] edges[i]).0 < n
}

/// Changes are told in the order of the buttons, each button once.
pub proof fn edges_ascend(
    buttons: Seq<(u16, u16)>,
    prev: Seq<(u16, u16)>,
    curr: Seq<(u16, u16)>,
    n: nat,
)
    requires
        n <= buttons.len(),
        n <= INDEXED_BUTTONS,
    ensures
        ascending(edges_of(buttons, prev, curr, n), n),
    decreases n,
{
    if n > 0 {
        edges_ascend(buttons, prev, curr, (n - 1) as nat);
        let before = edges_of(buttons, prev, curr, (n - 1) as nat);
        let all = edges_of(buttons, prev, curr, n);
        assert forall|i: int| 0 <= i < before.len() implies all[i] == before[i] by {}
        assert(forall|i: int| 0 <= i < before.len() ==> (#[trigger] before[i]).0 < n - 1);
    }
}

/// A snapshot that repeats the last one tells of no change.
pub proof fn unchanged_pads_have_no_edges(
    buttons: Seq<(u16, u16)>,
    held: Seq<(u16, u16)>,
    n: nat,
)
    ensures
        edges_of(buttons, held, held, n) == Seq::<(u8, bool)>::empty(),
    decreases n,
{
    if n > 0 {
        unchanged_pads_have_no_edges(buttons, held, (n - 1) as nat);
    }
}

/// Going back to the earlier snapshot turns every edge around.
pub proof fn edges_turn_around(
    buttons: Seq<(u16, u16)>,
    prev: Seq<(u16, u16)>,
    curr: Seq<(u16, u16)>,
    n: nat,
)
    ensures
        edges_of(buttons, curr, prev, n) == edges_of(buttons, prev, curr, n).map_values(
            |edge: (u8, bool)| (edge.0, !edge.1),
        ),
    decreases n,
{
    if n > 0 {
        edges_turn_around(buttons, prev, curr, (n - 1) as nat);
    }
    assert(edges_of(buttons, curr, prev, n) =~= edges_of(buttons, prev, curr, n).map_values(
        |edge: (u8, bool)| (edge.0, !edge.1),
    ));
}

} // verus!
