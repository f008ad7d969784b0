use vstd::prelude::*;

verus! {

/// Relies on `String::push`: appends one character at the end of the string.
#[verifier::external_body]
pub(crate) fn push_char(s: &mut String, c: char)
    ensures
        final(s)@ == old(s)@.push(c),
{
    s.push(c);
}

/// The character of decimal digit `d`.
pub open spec fn digit_char(d: nat) -> char {
    (48 + d) as char
}

/// The decimal rendering of `n`, without sign or leading zeros.
pub open spec fn decimal(n: nat) -> Seq<char>
    decreases n,
{
    if n < 10 {
        seq![digit_char(n)]
    } else {
        decimal(n / 10).push(digit_char(n % 10))
    }
}

/// Appends the decimal rendering of `n` to `s`.
pub fn push_decimal(s: &mut String, n: u16)
    ensures
        final(s)@ == old(s)@ + decimal(n as nat),
    decreases n,
{
    if n < 10 {
        push_char(s, (48u8 + n as u8) as char);
    } else {
        push_decimal(s, n / 10);
        push_char(s, (48u8 + (n % 10) as u8) as char);
    }
}

/// A line as it stands before its `\n`: without one `\r` at its end.
pub open spec fn strip_cr(l: Seq<char>) -> Seq<char> {
    if l.len() > 0 && l.last() == '\r' {
        l.drop_last()
    } else {
        l
    }
}

/// The pieces of `s` between `\n` separators, read left to right; every piece
/// that a `\n` closes loses one trailing `\r`. The last piece is still open.
pub open spec fn pieces(s: Seq<char>) -> Seq<Seq<char>>
    decreases s.len(),
{
    if s.len() == 0 {
        seq![Seq::empty()]
    } else {
        let p = pieces(s.drop_last());
        if s.last() == '\n' {
            p.update(p.len() - 1, strip_cr(p.last())).push(Seq::empty())
        } else {
            p.update(p.len() - 1, p.last().push(s.last()))
        }
    }
}

/// The lines of `s`: the pieces, less the open one where it is empty, which
/// happens exactly when `s` is empty or ends with `\n`.
pub open spec fn lines_of(s: Seq<char>) -> Seq<Seq<char>> {
    let p = pieces(s);
    if s.len() == 0 || s.last() == '\n' {
        p.drop_last()
    } else {
        p
    }
}

/// The character sequences that a vector of strings holds.
pub open spec fn string_views(v: Seq<String>) -> Seq<Seq<char>> {
    v.map_values(|l: String| l@)
}

proof fn lemma_pieces_nonempty(s: Seq<char>)
    ensures
        pieces(s).len() >= 1,
        pieces(s).last().len() == 0 <==> (s.len() == 0 || s.last() == '\n'),
    decreases s.len(),
{
    if s.len() > 0 {
        lemma_pieces_nonempty(s.drop_last());
    }
}

/// Splits `s` into its lines.
pub fn split_lines(s: &str) -> (r: Vec<String>)
    ensures
        string_views(r@) == lines_of(s@),
{
    let mut done: Vec<String> = Vec::new();
    let mut cur = String::new();
    let mut pending_cr = false;
    let ghost mut seen: Seq<char> = Seq::empty();
    for c in it: s.chars()
        invariant
            seen == s@.take(it.index() as int),
            it.seq() == s@,
            pieces(seen) == string_views(done@).push(
                if pending_cr { cur@.push('\r') } else { cur@ },
            ),
            pending_cr ==> seen.len() > 0 && seen.last() == '\r',
            !pending_cr ==> (cur@.len() == 0 || cur@.last() != '\r'),
    {
        proof {
            lemma_pieces_nonempty(seen);
        }
        let ghost prev = seen;
        proof {
            seen = seen.push(c);
            assert(seen.drop_last() =~= prev);
        }
        let ghost old_done = string_views(done@);
        let ghost old_cur = cur@;
        let ghost old_full = if pending_cr { cur@.push('\r') } else { cur@ };
        assert(pieces(prev) == old_done.push(old_full));
        if c == '\n' {
            assert(strip_cr(old_full) =~= old_cur);
            done.push(cur);
            assert(string_views(done@) =~= old_done.push(old_cur));
            cur = String::new();
            pending_cr = false;
        } else if c == '\r' {
            if pending_cr {
                push_char(&mut cur, '\r');
            }
            pending_cr = true;
            assert(cur@.push('\r') =~= old_full.push(c));
        } else {
            if pending_cr {
                push_char(&mut cur, '\r');
            }
            push_char(&mut cur, c);
            pending_cr = false;
            assert(cur@ =~= old_full.push(c));
        }
        assert(string_views(done@).push(if pending_cr { cur@.push('\r') } else { cur@ })
            =~= pieces(seen));
    }
    if pending_cr {
        push_char(&mut cur, '\r');
    }
    proof {
        lemma_pieces_nonempty(s@);
        assert(seen =~= s@);
    }
    if !cur.as_str().is_empty() {
        done.push(cur);
    }
    assert(string_views(done@) =~= lines_of(s@));
    done
}

} // verus!
