use vstd::prelude::*;

use crate::listing::{join_lines, letter, listing_lines, listing_text, prefixed_lines, MAX_CLIENTS};
use crate::ports::{live_of, BASE_PORT, WINDOW};
use crate::text::{lines_of, pieces};

verus! {

/// The live ports from `base` number at most the probes, and each lies in
/// `[base, base + reachable.len())`.
pub proof fn lemma_live_within_window(base: int, reachable: Seq<bool>)
    requires
        0 <= base,
        base + reachable.len() <= 65536,
    ensures
        live_of(base, reachable).len() <= reachable.len(),
        forall|k: int|
            0 <= k < live_of(base, reachable).len() ==> base <= (#[trigger] live_of(
                base,
                reachable,
            )[k]) && (live_of(base, reachable)[k] as int) < base + reachable.len(),
    decreases reachable.len(),
{
    if reachable.len() > 0 {
        lemma_live_within_window(base, reachable.drop_last());
    }
}

/// A scan of the window from `BASE_PORT` never yields a port at or beyond
/// `BASE_PORT + WINDOW`, and never more live clients than there are letters:
/// the letters cannot run out for ports that the scan found.
pub proof fn lemma_scan_fits_letters(reachable: Seq<bool>)
    requires
        reachable.len() == WINDOW,
    ensures
        live_of(BASE_PORT as int, reachable).len() <= WINDOW <= MAX_CLIENTS,
        forall|k: int|
            0 <= k < live_of(BASE_PORT as int, reachable).len() ==> #[trigger] live_of(
                BASE_PORT as int,
                reachable,
            )[k] < BASE_PORT + WINDOW,
{
    lemma_live_within_window(BASE_PORT as int, reachable);
}

/// The blocks of the clients in rank order: the block of the client at rank
/// `i` is the lines of its reply, in reply order, each tagged with the `i`-th
/// letter.
pub open spec fn client_blocks(bodies: Seq<Seq<char>>) -> Seq<Seq<Seq<char>>> {
    Seq::new(bodies.len(), |i: int| prefixed_lines(letter(i as nat), bodies[i]))
}

/// The merged listing is the clients' blocks concatenated in rank order. It is
/// thus fixed by the replies taken in rank order, whatever the order in which
/// the fetches completed.
pub proof fn lemma_listing_in_rank_order(bodies: Seq<Seq<char>>)
    ensures
        listing_lines(bodies) == client_blocks(bodies).flatten(),
        listing_text(bodies) == join_lines(client_blocks(bodies).flatten()),
    decreases bodies.len(),
{
    let blocks = client_blocks(bodies);
    if bodies.len() > 0 {
        lemma_listing_in_rank_order(bodies.drop_last());
        assert(blocks.drop_last() =~= client_blocks(bodies.drop_last()));
        client_blocks(bodies.drop_last()).lemma_flatten_and_flatten_alt_are_equivalent();
    }
    blocks.lemma_flatten_and_flatten_alt_are_equivalent();
}

/// An empty reply contributes no line, and in particular no bare `"x."`
/// line: the listing is that of the replies before it.
pub proof fn lemma_empty_reply_adds_nothing(bodies: Seq<Seq<char>>)
    ensures
        prefixed_lines(letter(bodies.len()), Seq::empty()).len() == 0,
        listing_lines(bodies.push(Seq::empty())) == listing_lines(bodies),
        listing_text(bodies.push(Seq::empty())) == listing_text(bodies),
{
    assert(pieces(Seq::<char>::empty()).len() == 1);
    assert(lines_of(Seq::<char>::empty()).len() == 0);
    let p = prefixed_lines(letter(bodies.len()), Seq::empty());
    assert(p.len() == 0);
    assert(bodies.push(Seq::empty()).drop_last() =~= bodies);
    assert(listing_lines(bodies.push(Seq::empty())) =~= listing_lines(bodies) + p);
    assert(listing_lines(bodies) + p =~= listing_lines(bodies));
}

} // verus!
