//! How text is laid out before it goes to the debug file.

use vstd::prelude::*;
use vstd::std_specs::iter::IteratorSpec;
use crate::display::string_push;

verus! {

/// A text laid out for reading. An opening or closing brace is followed by a
/// line break, and a backslash with `n` or `t` behind it becomes the line break
/// or the tabulator that it stands for.
pub open spec fn pretty(text: Seq<char>) -> Seq<char>
    decreases text.len(),
{
    if text.len() == 0 {
        Seq::empty()
    } else if text[0] == '{' {
        seq!['{', '\n'] + pretty(text.skip(1))
    } else if text[0] == '}' {
        seq!['}', '\n'] + pretty(text.skip(1))
    } else if text[0] == '\\' && text.len() >= 2 && text[1] == 'n' {
        seq!['\n'] + pretty(text.skip(2))
    } else if text[0] == '\\' && text.len() >= 2 && text[1] == 't' {
        seq!['\t'] + pretty(text.skip(2))
    } else {
        seq![text[0]] + pretty(text.skip(1))
    }
}

/// What is still to come of a text when a backslash may have been read and not
/// yet written.
pub open spec fn pretty_rest(pending: bool, rest: Seq<char>) -> Seq<char> {
    if pending {
        pretty(seq!['\\'] + rest)
    } else {
        pretty(rest)
    }
}

/// What is written when a character is read that no backslash stands before.
pub open spec fn written_plain(c: char) -> Seq<char> {
    if c == '{' {
        seq!['{', '\n']
    } else if c == '}' {
        seq!['}', '\n']
    } else if c == '\\' {
        Seq::empty()
    } else {
        seq![c]
    }
}

/// What is written when a character is read, a backslash pending or not.
pub open spec fn written(pending: bool, c: char) -> Seq<char> {
    if pending && c == 'n' {
        seq!['\n']
    } else if pending && c == 't' {
        seq!['\t']
    } else if pending {
        seq!['\\'] + written_plain(c)
    } else {
        written_plain(c)
    }
}

/// Whether a backslash is pending after a character is read.
pub open spec fn pending_after(pending: bool, c: char) -> bool {
    c == '\\' && !(pending && (c == 'n' || c == 't'))
}

proof fn lemma_pretty_step(pending: bool, c: char, rest: Seq<char>)
    ensures
        pretty_rest(pending, seq![c] + rest) == written(pending, c) + pretty_rest(
            pending_after(pending, c),
            rest,
        ),
{
    reveal_with_fuel(pretty, 3);
    let now = seq![c] + rest;
    assert(now.skip(1) =~= rest);
    assert(now[0] == c);
    let held = seq!['\\'] + now;
    assert(held.skip(1) =~= now);
    assert(held.skip(2) =~= rest);
    assert(held[0] == '\\' && held[1] == c);
    let next = seq!['\\'] + rest;
    if c == '\\' {
        assert(next =~= now);
    }
    assert(pretty_rest(pending, now) =~= written(pending, c) + pretty_rest(
        pending_after(pending, c),
        rest,
    ));
}

/// The text laid out for the debug file.
pub fn write_to_debug_pretty(text: &str) -> (laid_out: String)
    ensures
        laid_out@ == pretty(text@),
{
    let mut out = String::new();
    let mut pending = false;
    let mut chars = text.chars();
    let ghost mut done: int = 0;
    proof {
        assert(text@.skip(0) =~= text@);
        assert(out@ + pretty(text@) =~= pretty(text@));
    }
    loop
        invariant_except_break
            pretty(text@) == out@ + pretty_rest(pending, text@.skip(done)),
        invariant
            0 <= done <= text@.len(),
            chars.remaining() == text@.skip(done),
            chars.obeys_prophetic_iter_laws(),
        ensures
            out@ == pretty(text@),
        decreases text@.len() - done,
    {
        let ghost rest = text@.skip(done);
        let ghost before = out@;
        let ghost was_pending = pending;
        match chars.next() {
            Some(c) => {
                proof {
                    assert(rest.len() > 0 && c == rest[0]);
                    assert(rest.drop_first() =~= text@.skip(done + 1));
                    assert(rest =~= seq![c] + text@.skip(done + 1));
                    lemma_pretty_step(pending, c, text@.skip(done + 1));
                    done = done + 1;
                }
                let mut plain = true;
                if pending {
                    pending = false;
                    if c == 'n' {
                        string_push(&mut out, '\n');
                        plain = false;
                    } else if c == 't' {
                        string_push(&mut out, '\t');
                        plain = false;
                    } else {
                        string_push(&mut out, '\\');
                    }
                }
                if plain {
                    if c == '{' {
                        string_push(&mut out, '{');
                        string_push(&mut out, '\n');
                    } else if c == '}' {
                        string_push(&mut out, '}');
                        string_push(&mut out, '\n');
                    } else if c == '\\' {
                        pending = true;
                    } else {
                        string_push(&mut out, c);
                    }
                }
                assert(out@ =~= before + written(was_pending, c));
                assert(pending == pending_after(was_pending, c));
                assert(pretty(text@) =~= out@ + pretty_rest(pending, text@.skip(done)));
            },
            None => {
                proof {
                    assert(rest.len() == 0);
                    assert(seq!['\\'] + rest =~= seq!['\\']);
                    assert(seq!['\\'].skip(1) =~= Seq::<char>::empty());
                    reveal_with_fuel(pretty, 2);
                }
                if pending {
                    string_push(&mut out, '\\');
                }
                assert(out@ =~= pretty(text@));
                break ;
            },
        }
    }
    out
}

} // verus!
