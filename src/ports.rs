use vstd::prelude::*;

verus! {

/// First loopback port that a mediator may listen on.
pub const BASE_PORT: u16 = 4625;

/// Number of consecutive ports, starting at `BASE_PORT`, that are probed.
pub const WINDOW: usize = 10;

/// The ports `base, base + 1, ..., base + window - 1`, in ascending order.
pub open spec fn window_ports(base: int, window: int) -> Seq<u16> {
    Seq::new(window as nat, |i: int| (base + i) as u16)
}

/// The ports to probe: `window` consecutive ports from `base`, ascending.
pub fn probe_ports(base: u16, window: usize) -> (r: Vec<u16>)
    requires
        base as int + window as int <= 65536,
    ensures
        r@ == window_ports(base as int, window as int),
        forall|k: int| 0 <= k < r.len() ==> base <= #[trigger] r@[k] < base + window,
{
    let mut r: Vec<u16> = Vec::new();
    let mut i: usize = 0;
    while i < window
        invariant
            i <= window,
            base as int + window as int <= 65536,
            r@ == window_ports(base as int, i as int),
        decreases window - i,
    {
        r.push(base + i as u16);
        i = i + 1;
        assert(r@ =~= window_ports(base as int, i as int));
    }
    r
}

/// The ports `base + i` for which `reachable[i]` holds, ascending.
pub open spec fn live_of(base: int, reachable: Seq<bool>) -> Seq<u16>
    decreases reachable.len(),
{
    if reachable.len() == 0 {
        Seq::empty()
    } else {
        let i = reachable.len() - 1;
        let rest = live_of(base, reachable.drop_last());
        if reachable[i] {
            rest.push((base + i) as u16)
        } else {
            rest
        }
    }
}

/// A sequence of ports in strictly ascending order, hence without duplicates.
pub open spec fn strictly_ascending(s: Seq<u16>) -> bool {
    forall|a: int, b: int| 0 <= a < b < s.len() ==> s[a] < s[b]
}

/// The live ports among `base, base + 1, ...`, where `reachable[i]` says
/// whether a connection to `base + i` succeeded. Dead ports are left out.
pub fn live_ports(base: u16, reachable: &Vec<bool>) -> (r: Vec<u16>)
    requires
        base as int + reachable.len() <= 65536,
    ensures
        r@ == live_of(base as int, reachable@),
        r.len() <= reachable.len(),
        strictly_ascending(r@),
        forall|k: int| 0 <= k < r.len() ==> base <= #[trigger] r@[k] < base + reachable.len(),
{
    let mut r: Vec<u16> = Vec::new();
    let mut i: usize = 0;
    while i < reachable.len()
        invariant
            i <= reachable.len(),
            base as int + reachable.len() <= 65536,
            r@ == live_of(base as int, reachable@.take(i as int)),
            r.len() <= i,
            strictly_ascending(r@),
            forall|k: int| 0 <= k < r.len() ==> base <= #[trigger] r@[k] < base + i,
        decreases reachable.len() - i,
    {
        assert(reachable@.take(i + 1).drop_last() =~= reachable@.take(i as int));
        if reachable[i] {
            r.push(base + i as u16);
        }
        i = i + 1;
    }
    assert(reachable@.take(i as int) =~= reachable@);
    r
}

/// The live mediator ports: those of the window from `BASE_PORT` whose probe
/// succeeded, where `reachable[i]` is the outcome of the probe of
/// `BASE_PORT + i`.
pub fn get_available_ports(reachable: &Vec<bool>) -> (r: Vec<u16>)
    requires
        reachable.len() == WINDOW,
    ensures
        r@ == live_of(BASE_PORT as int, reachable@),
        r.len() <= WINDOW,
        strictly_ascending(r@),
        forall|k: int| 0 <= k < r.len() ==> BASE_PORT <= #[trigger] r@[k] < BASE_PORT + WINDOW,
{
    live_ports(BASE_PORT, reachable)
}

} // verus!
