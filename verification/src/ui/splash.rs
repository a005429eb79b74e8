//! Text shown on the terminal before the interface takes over.
use vstd::prelude::*;

use crate::text::{chars_of, string_of};

verus! {

/// `s` with every `\r\n`, taken from the left, turned into `\n`.
pub open spec fn collapse_crlf(s: Seq<char>) -> Seq<char>
    decreases s.len(),
{
    if s.len() == 0 {
        Seq::empty()
    } else if s.len() >= 2 && s[0] == '\r' && s[1] == '\n' {
        seq!['\n'] + collapse_crlf(s.skip(2))
    } else {
        seq![s[0]] + collapse_crlf(s.skip(1))
    }
}

/// `s` with every `\n` turned into `\r\n`.
pub open spec fn expand_lf(s: Seq<char>) -> Seq<char>
    decreases s.len(),
{
    if s.len() == 0 {
        Seq::empty()
    } else if s[0] == '\n' {
        seq!['\r', '\n'] + expand_lf(s.skip(1))
    } else {
        seq![s[0]] + expand_lf(s.skip(1))
    }
}

fn collapse(cs: &Vec<char>) -> (r: Vec<char>)
    ensures
        r@ == collapse_crlf(cs@),
{
    let mut out: Vec<char> = Vec::new();
    let mut i: usize = 0;
    assert(cs@.skip(0) =~= cs@);
    assert(out@ + collapse_crlf(cs@) =~= collapse_crlf(cs@));
    while i < cs.len()
        invariant
            i <= cs@.len(),
            collapse_crlf(cs@) == out@ + collapse_crlf(cs@.skip(i as int)),
        decreases cs@.len() - i,
    {
        let ghost rest = cs@.skip(i as int);
        if i + 1 < cs.len() && cs[i] == '\r' && cs[i + 1] == '\n' {
            assert(rest.skip(2) =~= cs@.skip(i + 2));
            out.push('\n');
            i = i + 2;
        } else {
            assert(rest.skip(1) =~= cs@.skip(i + 1));
            out.push(cs[i]);
            i = i + 1;
        }
        assert(collapse_crlf(cs@) == out@ + collapse_crlf(cs@.skip(i as int)));
    }
    assert(cs@.skip(i as int) =~= Seq::<char>::empty());
    assert(out@ + Seq::<char>::empty() =~= out@);
    out
}

fn expand(cs: &Vec<char>) -> (r: Vec<char>)
    ensures
        r@ == expand_lf(cs@),
{
    let mut out: Vec<char> = Vec::new();
    let mut i: usize = 0;
    assert(cs@.skip(0) =~= cs@);
    assert(out@ + expand_lf(cs@) =~= expand_lf(cs@));
    while i < cs.len()
        invariant
            i <= cs@.len(),
            expand_lf(cs@) == out@ + expand_lf(cs@.skip(i as int)),
        decreases cs@.len() - i,
    {
        assert(cs@.skip(i as int).skip(1) =~= cs@.skip(i + 1));
        if cs[i] == '\n' {
            out.push('\r');
            out.push('\n');
        } else {
            out.push(cs[i]);
        }
        i = i + 1;
        assert(expand_lf(cs@) == out@ + expand_lf(cs@.skip(i as int)));
    }
    assert(cs@.skip(i as int) =~= Seq::<char>::empty());
    assert(out@ + Seq::<char>::empty() =~= out@);
    out
}

/// Raw mode disables output post-processing, so a bare `\n` does not return the cursor.
pub fn for_raw_mode(text: &str) -> (r: String)
    ensures
        r@ == expand_lf(collapse_crlf(text@)),
{
    let collapsed = collapse(&chars_of(text));
    string_of(&expand(&collapsed))
}

proof fn lemma_expand_shape(s: Seq<char>)
    ensures
        expand_lf(s).len() > 0 ==> expand_lf(s)[0] != '\n',
        forall|i: int|
            0 <= i < expand_lf(s).len() && #[trigger] expand_lf(s)[i] == '\n' ==> i > 0 && expand_lf(s)[i - 1] == '\r',
    decreases s.len(),
{
    if s.len() > 0 {
        let rest = expand_lf(s.skip(1));
        lemma_expand_shape(s.skip(1));
        let head: Seq<char> = if s[0] == '\n' {
            seq!['\r', '\n']
        } else {
            seq![s[0]]
        };
        assert(expand_lf(s) == head + rest);
        assert forall|i: int|
            0 <= i < expand_lf(s).len() && #[trigger] expand_lf(s)[i] == '\n' implies i > 0 && expand_lf(s)[i
                - 1] == '\r' by {
            if i >= head.len() {
                assert(expand_lf(s)[i] == rest[i - head.len()]);
                if i - head.len() > 0 {
                    assert(expand_lf(s)[i - 1] == rest[i - head.len() - 1]);
                }
            }
        }
    }
}

proof fn lemma_collapse_expand(s: Seq<char>)
    ensures
        collapse_crlf(expand_lf(s)) == s,
    decreases s.len(),
{
    if s.len() > 0 {
        let rest = expand_lf(s.skip(1));
        lemma_collapse_expand(s.skip(1));
        lemma_expand_shape(s.skip(1));
        if s[0] == '\n' {
            let e = seq!['\r', '\n'] + rest;
            assert(e.skip(2) =~= rest);
            assert(collapse_crlf(e) == seq!['\n'] + collapse_crlf(rest));
        } else {
            let e = seq![s[0]] + rest;
            assert(e.skip(1) =~= rest);
            assert(collapse_crlf(e) == seq![s[0]] + collapse_crlf(rest));
        }
        assert(seq![s[0]] + s.skip(1) =~= s);
    }
}

/// No line feed of the converted text is bare: each one follows a carriage return.
pub proof fn lemma_raw_mode_has_no_bare_line_feed(text: Seq<char>)
    ensures
        forall|i: int|
            0 <= i < expand_lf(collapse_crlf(text)).len() && #[trigger] expand_lf(collapse_crlf(text))[i] == '\n'
                ==> i > 0 && expand_lf(collapse_crlf(text))[i - 1] == '\r',
{
    lemma_expand_shape(collapse_crlf(text));
}

/// Converting text that was already converted changes nothing.
pub proof fn lemma_raw_mode_idempotent(text: Seq<char>)
    ensures
        expand_lf(collapse_crlf(expand_lf(collapse_crlf(text)))) == expand_lf(collapse_crlf(text)),
{
    lemma_collapse_expand(collapse_crlf(text));
}

/// The number of line feeds in `s`.
pub open spec fn line_feeds(s: Seq<char>) -> nat
    decreases s.len(),
{
    if s.len() == 0 {
        0
    } else {
        (if s[0] == '\n' { 1nat } else { 0nat }) + line_feeds(s.skip(1))
    }
}

proof fn lemma_line_feeds_cons(c: char, s: Seq<char>)
    ensures
        line_feeds(seq![c] + s) == (if c == '\n' { 1nat } else { 0nat }) + line_feeds(s),
{
    assert((seq![c] + s).skip(1) =~= s);
}

proof fn lemma_collapse_keeps_line_feeds(s: Seq<char>)
    ensures
        line_feeds(collapse_crlf(s)) == line_feeds(s),
    decreases s.len(),
{
    if s.len() > 0 {
        if s.len() >= 2 && s[0] == '\r' && s[1] == '\n' {
            lemma_collapse_keeps_line_feeds(s.skip(2));
            lemma_line_feeds_cons('\n', collapse_crlf(s.skip(2)));
            assert(s.skip(1).skip(1) =~= s.skip(2));
            assert(s.skip(1)[0] == '\n');
            assert(line_feeds(s.skip(1)) == 1 + line_feeds(s.skip(2)));
            assert(line_feeds(s) == line_feeds(s.skip(1)));
            assert(collapse_crlf(s) == seq!['\n'] + collapse_crlf(s.skip(2)));
        } else {
            lemma_collapse_keeps_line_feeds(s.skip(1));
            lemma_line_feeds_cons(s[0], collapse_crlf(s.skip(1)));
        }
    }
}

proof fn lemma_expand_keeps_line_feeds(s: Seq<char>)
    ensures
        line_feeds(expand_lf(s)) == line_feeds(s),
    decreases s.len(),
{
    if s.len() > 0 {
        lemma_expand_keeps_line_feeds(s.skip(1));
        if s[0] == '\n' {
            lemma_line_feeds_cons('\n', expand_lf(s.skip(1)));
            lemma_line_feeds_cons('\r', seq!['\n'] + expand_lf(s.skip(1)));
            assert(seq!['\r', '\n'] + expand_lf(s.skip(1)) =~= seq!['\r'] + (seq!['\n'] + expand_lf(s.skip(1))));
        } else {
            lemma_line_feeds_cons(s[0], expand_lf(s.skip(1)));
        }
    }
}

/// Only line endings change: the converted text has as many line feeds as the original,
/// and with every `\r\n` folded to `\n` the two read the same.
pub proof fn lemma_raw_mode_keeps_lines(text: Seq<char>)
    ensures
        line_feeds(expand_lf(collapse_crlf(text))) == line_feeds(text),
        collapse_crlf(expand_lf(collapse_crlf(text))) == collapse_crlf(text),
{
    lemma_collapse_keeps_line_feeds(text);
    lemma_expand_keeps_line_feeds(collapse_crlf(text));
    lemma_collapse_expand(collapse_crlf(text));
}

} // verus!
