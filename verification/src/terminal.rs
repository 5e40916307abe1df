//! Reading what `ps` and `stty` print when the bar asks the parent
//! process's terminal for its width. Running the commands is the caller's
//! job; these are the rules for their output.

use vstd::prelude::*;

use crate::payload::opt_view;
use crate::text::{chars_of, is_white, is_whitespace, parsed_usize, string_of, trim, trimmed};

verus! {

/// The whitespace-separated words of `s`, as `str::split_whitespace`
/// yields them; `cur` is the word read so far.
pub open spec fn words_from(s: Seq<char>, cur: Seq<char>) -> Seq<Seq<char>>
    decreases s.len(),
{
    if s.len() == 0 {
        if cur.len() > 0 {
            seq![cur]
        } else {
            Seq::empty()
        }
    } else if is_white(s[0]) {
        (if cur.len() > 0 {
            seq![cur]
        } else {
            Seq::empty()
        }) + words_from(s.drop_first(), Seq::empty())
    } else {
        words_from(s.drop_first(), cur.push(s[0]))
    }
}

pub open spec fn words(s: Seq<char>) -> Seq<Seq<char>> {
    words_from(s, Seq::empty())
}

/// The terminal width `stty size` reports: its second word, as a number.
pub open spec fn stty_width(output: Seq<char>) -> Option<nat> {
    if words(output).len() >= 2 {
        parsed_usize(words(output)[1])
    } else {
        None
    }
}

/// The words of `v`.
fn split_words(v: &Vec<char>) -> (r: Vec<Vec<char>>)
    ensures
        r@.len() == words(v@).len(),
        forall|k: int| 0 <= k < r@.len() ==> (#[trigger] r@[k])@ == words(v@)[k],
{
    let mut out: Vec<Vec<char>> = Vec::new();
    let mut cur: Vec<char> = Vec::new();
    let ghost mut done: Seq<Seq<char>> = Seq::empty();
    let mut i: usize = 0;
    assert(v@.subrange(0, v@.len() as int) =~= v@);
    while i < v.len()
        invariant
            i <= v.len(),
            out@.len() == done.len(),
            forall|k: int| 0 <= k < done.len() ==> (#[trigger] out@[k])@ == done[k],
            done + words_from(v@.subrange(i as int, v@.len() as int), cur@) == words(v@),
        decreases v.len() - i,
    {
        let ghost rest = v@.subrange(i as int, v@.len() as int);
        assert(rest.drop_first() =~= v@.subrange(i + 1, v@.len() as int));
        let c = v[i];
        assert(rest[0] == c);
        if is_whitespace(c) {
            if cur.len() > 0 {
                let word = cur;
                proof {
                    assert(done.push(word@) + words_from(rest.drop_first(), Seq::empty()) =~= done
                        + words_from(rest, word@));
                    done = done.push(word@);
                }
                out.push(word);
                cur = Vec::new();
            } else {
                assert(cur@ =~= Seq::<char>::empty());
                assert(Seq::<Seq<char>>::empty() + words_from(rest.drop_first(), Seq::empty())
                    =~= words_from(rest.drop_first(), Seq::empty()));
                assert(done + words_from(rest.drop_first(), Seq::empty()) =~= done + words_from(
                    rest,
                    cur@,
                ));
            }
        } else {
            let ghost before = cur@;
            assert(!is_white(c));
            assert(words_from(rest, before) == words_from(rest.drop_first(), before.push(c)));
            cur.push(c);
        }
        assert(done + words_from(v@.subrange(i + 1, v@.len() as int), cur@) == words(v@));
        i = i + 1;
    }
    proof {
        assert(v@.subrange(i as int, v@.len() as int) =~= Seq::<char>::empty());
    }
    if cur.len() > 0 {
        proof {
            assert(done.push(cur@) =~= done + seq![cur@]);
            done = done.push(cur@);
        }
        out.push(cur);
    } else {
        assert(done + Seq::<Seq<char>>::empty() =~= done);
    }
    out
}

/// The terminal width in what `stty size` printed (`rows columns`).
pub fn tty_columns(stty_output: &str) -> (r: Option<usize>)
    ensures
        match stty_width(stty_output@) {
            Some(w) => r == Some(w as usize),
            None => r is None,
        },
{
    let chars = chars_of(stty_output);
    let ws = split_words(&chars);
    if ws.len() < 2 {
        return None;
    }
    let second = string_of(&ws[1]);
    crate::text::parse_usize(second.as_str())
}

/// Whether `ps` named a terminal: a `?` means the process has none.
pub fn tty_name_usable(name: &str) -> (r: bool)
    ensures
        r == (name@.len() > 0 && name@[0] != '?'),
{
    let chars = chars_of(name);
    chars.len() > 0 && chars[0] != '?'
}

/// The value `ps -o field=` printed: its output trimmed, when not empty.
pub fn ps_field(output: &str) -> (r: Option<String>)
    ensures
        opt_view(r) == (if trimmed(output@).len() > 0 {
            Some(trimmed(output@))
        } else {
            None::<Seq<char>>
        }),
{
    let chars = chars_of(output);
    let t = trim(&chars);
    if t.len() > 0 {
        Some(string_of(&t))
    } else {
        None
    }
}

} // verus!
