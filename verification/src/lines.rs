//! Line-level reasoning about rendered text.
//!
//! The rendered document is line-oriented: a *line start* is position 0 or
//! any position right after a newline. `has_line_with_prefix` says that some
//! line of a text begins with a given prefix; the lemmas here decompose that
//! predicate over concatenation, so that statements such as "no line of the
//! output begins with `trigger:`" can be proved piece by piece.

use vstd::prelude::*;

verus! {

/// Position `i` begins a line of `s`: it is position 0, or the previous
/// character is a newline.
pub open spec fn is_line_start(s: Seq<char>, i: int) -> bool {
    0 <= i < s.len() && (i == 0 || s[i - 1] == '\n')
}

/// Some line of `s` begins with the character sequence `prefix`.
pub open spec fn has_line_with_prefix(s: Seq<char>, prefix: Seq<char>) -> bool {
    exists|i: int|
        is_line_start(s, i) && i + prefix.len() <= s.len() && s.subrange(
            i,
            i + prefix.len() as int,
        ) == prefix
}

/// `s` contains no newline character.
pub open spec fn newline_free(s: Seq<char>) -> bool {
    forall|j: int| 0 <= j < s.len() ==> s[j] != '\n'
}

/// `p` differs from `lit` at some position inside both, so `p` can never be
/// a prefix of a text that begins with `lit`.
pub open spec fn mismatches(p: Seq<char>, lit: Seq<char>) -> bool {
    exists|k: int| 0 <= k < p.len() && k < lit.len() && p[k] != lit[k]
}

/// Splitting at a line boundary splits the lines: when `a` is empty or ends
/// with a newline, a line of `a + b` beginning with a newline-free `p` is a
/// line of `a` or a line of `b` beginning with `p`, and conversely.
pub proof fn lemma_line_prefix_concat(a: Seq<char>, b: Seq<char>, p: Seq<char>)
    requires
        a.len() == 0 || a.last() == '\n',
        p.len() > 0,
        newline_free(p),
    ensures
        has_line_with_prefix(a + b, p) <==> has_line_with_prefix(a, p) || has_line_with_prefix(
            b,
            p,
        ),
{
    let s = a + b;
    assert(has_line_with_prefix(a, p) ==> has_line_with_prefix(s, p)) by {
        if has_line_with_prefix(a, p) {
            let i = choose|i: int|
                is_line_start(a, i) && i + p.len() <= a.len() && a.subrange(
                    i,
                    i + p.len() as int,
                ) == p;
            assert(s.subrange(i, i + p.len() as int) =~= a.subrange(i, i + p.len() as int));
            assert(is_line_start(s, i));
        }
    }
    assert(has_line_with_prefix(b, p) ==> has_line_with_prefix(s, p)) by {
        if has_line_with_prefix(b, p) {
            let j = choose|j: int|
                is_line_start(b, j) && j + p.len() <= b.len() && b.subrange(
                    j,
                    j + p.len() as int,
                ) == p;
            let i = a.len() as int + j;
            assert(s.subrange(i, i + p.len() as int) =~= b.subrange(j, j + p.len() as int));
            if j == 0 {
                if a.len() > 0 {
                    assert(s[i - 1] == a.last());
                }
            } else {
                assert(s[i - 1] == b[j - 1]);
            }
            assert(is_line_start(s, i));
        }
    }
    assert(has_line_with_prefix(s, p) ==> has_line_with_prefix(a, p) || has_line_with_prefix(
        b,
        p,
    )) by {
        if has_line_with_prefix(s, p) {
            let i = choose|i: int|
                is_line_start(s, i) && i + p.len() <= s.len() && s.subrange(
                    i,
                    i + p.len() as int,
                ) == p;
            if i + p.len() <= a.len() {
                assert(a.subrange(i, i + p.len() as int) =~= s.subrange(i, i + p.len() as int));
                assert(is_line_start(a, i));
                assert(has_line_with_prefix(a, p));
            } else if i < a.len() {
                let k = a.len() - 1 - i;
                assert(0 <= k < p.len());
                assert(p[k] == s.subrange(i, i + p.len() as int)[k]);
                assert(p[k] == s[a.len() - 1]);
                assert(s[a.len() - 1] == a.last());
                assert(false);
            } else {
                let j = i - a.len() as int;
                assert(b.subrange(j, j + p.len() as int) =~= s.subrange(i, i + p.len() as int));
                if j > 0 {
                    assert(b[j - 1] == s[i - 1]);
                }
                assert(is_line_start(b, j));
                assert(has_line_with_prefix(b, p));
            }
        }
    }
}

/// A single newline-terminated line has exactly one line start, its first
/// position: a prefix of a line of `head + "\n"` is a prefix of the whole.
pub proof fn lemma_line_prefix_single_line(head: Seq<char>, p: Seq<char>)
    requires
        newline_free(head),
        p.len() > 0,
    ensures
        has_line_with_prefix(head + "\n"@, p) <==> (p.len() <= head.len() + 1 && (head
            + "\n"@).subrange(0, p.len() as int) == p),
{
    reveal_strlit("\n");
    let s = head + "\n"@;
    assert(s.len() == head.len() + 1);
    assert(s.last() == '\n');
    assert(has_line_with_prefix(s, p) ==> (p.len() <= s.len() && s.subrange(
        0,
        p.len() as int,
    ) == p)) by {
        if has_line_with_prefix(s, p) {
            let i = choose|i: int|
                is_line_start(s, i) && i + p.len() <= s.len() && s.subrange(
                    i,
                    i + p.len() as int,
                ) == p;
            if i > 0 {
                if i - 1 < head.len() {
                    assert(s[i - 1] == head[i - 1]);
                    assert(false);
                } else {
                    assert(i == s.len() as int);
                    assert(false);
                }
            }
            assert(i == 0);
        }
    }
    assert((p.len() <= s.len() && s.subrange(0, p.len() as int) == p) ==> has_line_with_prefix(
        s,
        p,
    )) by {
        if p.len() <= s.len() && s.subrange(0, p.len() as int) == p {
            assert(is_line_start(s, 0));
            assert(has_line_with_prefix(s, p));
        }
    }
}

/// No line of a single line `head + "\n"` begins with `p` when `p` differs
/// from the line's opening literal somewhere inside that literal.
pub proof fn lemma_line_avoids_mismatched_prefix(lit: Seq<char>, name: Seq<char>, p: Seq<char>)
    requires
        newline_free(lit),
        newline_free(name),
        p.len() > 0,
        mismatches(p, lit),
    ensures
        !has_line_with_prefix(lit + name + "\n"@, p),
{
    let head = lit + name;
    assert(newline_free(head)) by {
        assert forall|j: int| 0 <= j < head.len() implies head[j] != '\n' by {
            if j < lit.len() {
                assert(head[j] == lit[j]);
            } else {
                assert(head[j] == name[j - lit.len()]);
            }
        }
    }
    lemma_line_prefix_single_line(head, p);
    let s = head + "\n"@;
    if p.len() <= head.len() + 1 && s.subrange(0, p.len() as int) == p {
        let k = choose|k: int| 0 <= k < p.len() && k < lit.len() && p[k] != lit[k];
        assert(p[k] == s.subrange(0, p.len() as int)[k]);
        assert(s[k] == lit[k]);
        assert(false);
    }
}

/// No line of a blank line (a lone newline) begins with a nonempty
/// newline-free `p`.
pub proof fn lemma_blank_line_avoids_prefix(p: Seq<char>)
    requires
        p.len() > 0,
        newline_free(p),
    ensures
        !has_line_with_prefix("\n"@, p),
{
    reveal_strlit("\n");
    assert(Seq::<char>::empty() + "\n"@ =~= "\n"@);
    lemma_line_prefix_single_line(Seq::<char>::empty(), p);
    let s = "\n"@;
    if p.len() <= 1 && s.subrange(0, p.len() as int) == p {
        assert(p[0] == s.subrange(0, p.len() as int)[0]);
        assert(p[0] == '\n');
        assert(false);
    }
}

/// An empty text has no lines at all.
pub proof fn lemma_empty_avoids_prefix(p: Seq<char>)
    ensures
        !has_line_with_prefix(Seq::<char>::empty(), p),
{
}

} // verus!
