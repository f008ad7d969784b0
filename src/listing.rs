use vstd::prelude::*;

use crate::text::{lines_of, push_char, split_lines, string_views};

verus! {

/// Number of distinct client letters, `a` to `z`.
pub const MAX_CLIENTS: usize = 26;

/// The letter of the client at rank `i` among the live ports (`a` for 0).
pub open spec fn letter(i: nat) -> char {
    (97 + i) as char
}

/// The letter of the client at rank `index`, or `None` where the letters are
/// exhausted.
pub fn client_letter(index: usize) -> (r: Option<char>)
    ensures
        r == (if index < MAX_CLIENTS {
            Some(letter(index as nat))
        } else {
            None
        }),
{
    if index < MAX_CLIENTS {
        Some((97u8 + index as u8) as char)
    } else {
        None
    }
}

/// `line` tagged with the client letter `c`: `"<c>.<line>"`.
pub open spec fn tagged(c: char, line: Seq<char>) -> Seq<char> {
    seq![c, '.'] + line
}

/// The lines of one mediator's reply, each tagged with its letter.
pub open spec fn prefixed_lines(c: char, body: Seq<char>) -> Seq<Seq<char>> {
    lines_of(body).map_values(|l: Seq<char>| tagged(c, l))
}

/// The tagged lines of all replies, grouped by client in rank order, each group
/// in the order of its reply.
pub open spec fn listing_lines(bodies: Seq<Seq<char>>) -> Seq<Seq<char>>
    decreases bodies.len(),
{
    if bodies.len() == 0 {
        Seq::empty()
    } else {
        listing_lines(bodies.drop_last()) + prefixed_lines(
            letter((bodies.len() - 1) as nat),
            bodies.last(),
        )
    }
}

/// Lines joined by `\n`, with no newline after the last.
pub open spec fn join_lines(ls: Seq<Seq<char>>) -> Seq<char>
    decreases ls.len(),
{
    if ls.len() == 0 {
        Seq::empty()
    } else if ls.len() == 1 {
        ls[0]
    } else {
        join_lines(ls.drop_last()) + seq!['\n'] + ls.last()
    }
}

/// The merged listing of the replies `bodies`, in rank order.
pub open spec fn listing_text(bodies: Seq<Seq<char>>) -> Seq<char> {
    join_lines(listing_lines(bodies))
}

/// Appends `line`, tagged with `c`, to the text `out` of the lines `acc`.
fn append_line(out: &mut String, c: char, line: &str, Ghost(acc): Ghost<Seq<Seq<char>>>)
    requires
        old(out)@ == join_lines(acc),
        acc.len() == 0 || acc.last().len() > 0,
    ensures
        final(out)@ == join_lines(acc.push(tagged(c, line@))),
{
    let ghost start = out@;
    proof {
        if acc.len() > 0 {
            lemma_join_nonempty(acc);
        }
    }
    if !out.as_str().is_empty() {
        push_char(out, '\n');
    }
    push_char(out, c);
    push_char(out, '.');
    out.append(line);
    proof {
        let ls = acc.push(tagged(c, line@));
        assert(ls.drop_last() =~= acc);
        if acc.len() == 0 {
            assert(out@ =~= tagged(c, line@));
        } else {
            assert(out@ =~= start + seq!['\n'] + tagged(c, line@));
        }
    }
}

proof fn lemma_join_nonempty(ls: Seq<Seq<char>>)
    requires
        ls.len() > 0,
        ls.last().len() > 0,
    ensures
        join_lines(ls).len() > 0,
{
}

/// Why no merged listing could be made.
#[derive(Debug)]
pub enum ListError {
    /// More live mediators than there are client letters.
    TooManyClients { count: usize },
    /// The fetch from the mediator at rank `index`, on `port`, failed.
    FetchFailed { index: usize, port: u16, reason: String },
}

/// What one mediator answered: its port, and the body of its tab list or a
/// description of why the fetch failed.
pub type Reply = (u16, Result<String, String>);

/// The bodies of the replies; a failed fetch stands as an empty body.
pub open spec fn reply_bodies(rs: Seq<Reply>) -> Seq<Seq<char>> {
    rs.map_values(
        |r: Reply|
            match r.1 {
                Ok(b) => b@,
                Err(_) => Seq::empty(),
            },
    )
}

/// Every fetch among the replies succeeded.
pub open spec fn all_fetched(rs: Seq<Reply>) -> bool {
    forall|i: int| 0 <= i < rs.len() ==> (#[trigger] rs[i]).1 is Ok
}

/// Appends the lines of `body`, tagged with `c`, to the text `out` of the
/// lines `acc`.
fn append_block(out: &mut String, c: char, body: &str, Ghost(acc): Ghost<Seq<Seq<char>>>)
    requires
        old(out)@ == join_lines(acc),
        acc.len() == 0 || acc.last().len() > 0,
    ensures
        final(out)@ == join_lines(acc + prefixed_lines(c, body@)),
{
    let lines = split_lines(body);
    let ghost all = prefixed_lines(c, body@);
    let mut j: usize = 0;
    while j < lines.len()
        invariant
            j <= lines.len(),
            string_views(lines@) == lines_of(body@),
            all == prefixed_lines(c, body@),
            all.len() == lines.len(),
            out@ == join_lines(acc + all.take(j as int)),
            acc.len() == 0 || acc.last().len() > 0,
        decreases lines.len() - j,
    {
        let ghost cur = acc + all.take(j as int);
        assert(lines@[j as int]@ == lines_of(body@)[j as int]);
        append_line(out, c, lines[j].as_str(), Ghost(cur));
        assert(cur.push(tagged(c, lines@[j as int]@)) =~= acc + all.take(j + 1));
        j = j + 1;
    }
    assert(all.take(j as int) =~= all);
}

/// The merged listing of the replies of the live mediators, given in rank
/// order: each line of the `i`-th reply tagged with the `i`-th letter, grouped
/// by client in rank order, joined by `\n`. There is no listing where the
/// letters do not reach, nor where any fetch failed; the first failure in rank
/// order is reported.
pub fn aggregate(replies: &Vec<Reply>) -> (r: Result<String, ListError>)
    ensures
        match r {
            Ok(text) => replies.len() <= MAX_CLIENTS && all_fetched(replies@) && text@
                == listing_text(reply_bodies(replies@)),
            Err(ListError::TooManyClients { count }) => replies.len() > MAX_CLIENTS && count
                == replies.len(),
            Err(ListError::FetchFailed { index, port, reason }) => {
                &&& replies.len() <= MAX_CLIENTS
                &&& index < replies.len()
                &&& port == replies@[index as int].0
                &&& replies@[index as int].1 == Err::<String, String>(reason)
                &&& forall|k: int| 0 <= k < index ==> (#[trigger] replies@[k]).1 is Ok
            },
        },
{
    let n = replies.len();
    if n > MAX_CLIENTS {
        return Err(ListError::TooManyClients { count: n });
    }
    let mut i: usize = 0;
    while i < n
        invariant
            i <= n,
            n == replies.len(),
            n <= MAX_CLIENTS,
            forall|k: int| 0 <= k < i ==> (#[trigger] replies@[k]).1 is Ok,
        decreases n - i,
    {
        match &replies[i].1 {
            Ok(_) => {},
            Err(e) => {
                return Err(ListError::FetchFailed { index: i, port: replies[i].0, reason: e.clone() });
            },
        }
        i = i + 1;
    }
    let ghost bodies = reply_bodies(replies@);
    let mut out = String::new();
    let mut i: usize = 0;
    while i < n
        invariant
            i <= n,
            n == replies.len(),
            n <= MAX_CLIENTS,
            all_fetched(replies@),
            bodies == reply_bodies(replies@),
            out@ == join_lines(listing_lines(bodies.take(i as int))),
            forall|k: int| 0 <= k < listing_lines(bodies.take(i as int)).len()
                ==> #[trigger] listing_lines(bodies.take(i as int))[k].len() > 0,
        decreases n - i,
    {
        let c = (97u8 + i as u8) as char;
        let ghost acc = listing_lines(bodies.take(i as int));
        if let Ok(body) = &replies[i].1 {
            assert(bodies[i as int] == body@);
            append_block(&mut out, c, body.as_str(), Ghost(acc));
        }
        proof {
            let next = bodies.take(i + 1);
            assert(next.drop_last() =~= bodies.take(i as int));
            assert(listing_lines(next) == acc + prefixed_lines(letter(i as nat), bodies[i as int]));
            let all = listing_lines(next);
            assert forall|k: int| 0 <= k < all.len() implies #[trigger] all[k].len() > 0 by {
                if k >= acc.len() {
                    assert(all[k] == tagged(c, lines_of(bodies[i as int])[k - acc.len()]));
                }
            }
        }
        i = i + 1;
    }
    assert(bodies.take(n as int) =~= bodies);
    Ok(out)
}

} // verus!
