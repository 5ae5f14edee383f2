//! The shape of the persisted node list.
//!
//! The peer list is stored as plain text, one address per line. Writing
//! joins the addresses with newlines; reading splits the text into lines
//! again, the way the stored file is read back in the original deployment:
//! a line ends at `"\n"` or `"\r\n"`, and a final line ending is optional.
//! The file I/O around these two functions is the caller's business.

use vstd::prelude::*;
use vstd::string::StrSliceExecFns;
use vstd::string::StringExecFns;

verus! {

/// The text of each stored line.
pub open spec fn line_views(v: Seq<String>) -> Seq<Seq<char>> {
    v.map_values(|t: String| t@)
}

/// The lines joined with single newlines, no trailing newline.
pub open spec fn spec_join_lines(xs: Seq<Seq<char>>) -> Seq<char>
    decreases xs.len(),
{
    if xs.len() == 0 {
        Seq::empty()
    } else if xs.len() == 1 {
        xs[0]
    } else {
        spec_join_lines(xs.drop_last()).push('\n') + xs.last()
    }
}

/// The position of the first newline of `s`, or `s.len()` if there is none.
pub open spec fn first_nl(s: Seq<char>) -> int
    decreases s.len(),
{
    if s.len() == 0 {
        0
    } else if s[0] == '\n' {
        0
    } else {
        1 + first_nl(s.drop_first())
    }
}

/// A carriage return just before the line ending is not part of the line.
pub open spec fn strip_cr(line: Seq<char>) -> Seq<char> {
    if line.len() > 0 && line.last() == '\r' {
        line.drop_last()
    } else {
        line
    }
}

proof fn lemma_first_nl_bounds(s: Seq<char>)
    ensures
        0 <= first_nl(s) <= s.len(),
        first_nl(s) < s.len() ==> s[first_nl(s)] == '\n',
        forall|k: int| 0 <= k < first_nl(s) ==> s[k] != '\n',
    decreases s.len(),
{
    if s.len() == 0 {
    } else if s[0] == '\n' {
    } else {
        lemma_first_nl_bounds(s.drop_first());
        let f = first_nl(s);
        assert(f == 1 + first_nl(s.drop_first()));
        assert(forall|k: int| 0 <= k < s.drop_first().len() ==> s.drop_first()[k] == s[k + 1]);
        assert(forall|k: int| 0 <= k < f ==> s[k] != '\n') by {
            assert forall|k: int| 0 <= k < f implies s[k] != '\n' by {
                if k > 0 {
                    assert(s.drop_first()[k - 1] != '\n');
                }
            }
        }
    }
}

proof fn lemma_first_nl_unique(s: Seq<char>, i: int)
    requires
        0 <= i <= s.len(),
        forall|k: int| 0 <= k < i ==> s[k] != '\n',
        i < s.len() ==> s[i] == '\n',
    ensures
        first_nl(s) == i,
{
    lemma_first_nl_bounds(s);
    let f = first_nl(s);
    if f < i {
        assert(s[f] != '\n');
    } else if i < f {
        assert(s[i] != '\n');
    }
}

#[via_fn]
proof fn spec_lines_decreases(s: Seq<char>) {
    lemma_first_nl_bounds(s);
}

/// The stored text split into lines: a line ends at `"\n"` or `"\r\n"`, a
/// final line ending is optional, and a last line without one keeps any
/// trailing carriage return.
pub open spec fn spec_lines(s: Seq<char>) -> Seq<Seq<char>>
    decreases s.len(),
    via spec_lines_decreases
{
    if s.len() == 0 {
        Seq::empty()
    } else {
        let i = first_nl(s);
        if i >= s.len() {
            seq![s]
        } else {
            seq![strip_cr(s.take(i))] + spec_lines(s.skip(i + 1))
        }
    }
}

/// Whether a list of lines survives being written and read back: no line
/// may contain the separator, no line but the last may end in a carriage
/// return (reading would strip it), and the last line must not be empty
/// (a trailing empty line has no written form of its own).
pub open spec fn storable_lines(xs: Seq<Seq<char>>) -> bool {
    &&& forall|i: int, k: int|
        #![trigger xs[i][k]]
        0 <= i < xs.len() && 0 <= k < xs[i].len() ==> xs[i][k] != '\n'
    &&& forall|i: int|
        #![trigger xs[i]]
        0 <= i < xs.len() - 1 ==> (xs[i].len() == 0 || xs[i].last() != '\r')
    &&& xs.len() > 0 ==> xs[xs.len() - 1].len() > 0
}

proof fn lemma_join_front(xs: Seq<Seq<char>>)
    requires
        xs.len() >= 2,
    ensures
        spec_join_lines(xs) == xs[0].push('\n') + spec_join_lines(xs.drop_first()),
    decreases xs.len(),
{
    let dl = xs.drop_last();
    let df = xs.drop_first();
    if xs.len() == 2 {
        assert(dl =~= seq![xs[0]]);
        assert(df =~= seq![xs[1]]);
        assert(spec_join_lines(dl) == xs[0]);
        assert(spec_join_lines(df) == xs[1]);
        assert(spec_join_lines(dl).push('\n') + xs.last() == xs[0].push('\n') + spec_join_lines(
            df,
        ));
    } else {
        lemma_join_front(dl);
        assert(dl.drop_first() =~= df.drop_last());
        let mid = spec_join_lines(df.drop_last());
        assert(spec_join_lines(dl) == xs[0].push('\n') + mid);
        assert(spec_join_lines(df) == mid.push('\n') + df.last());
        assert(df.last() == xs.last());
        assert((xs[0].push('\n') + mid).push('\n') + xs.last() =~= xs[0].push('\n') + (mid.push(
            '\n',
        ) + xs.last()));
    }
}

/// The saved node list reads back unchanged: splitting the joined form of
/// any storable list of lines yields exactly that list.
pub proof fn lemma_saved_list_reads_back(xs: Seq<Seq<char>>)
    requires
        storable_lines(xs),
    ensures
        spec_lines(spec_join_lines(xs)) == xs,
    decreases xs.len(),
{
    if xs.len() == 0 {
        assert(spec_lines(spec_join_lines(xs)) =~= xs);
    } else if xs.len() == 1 {
        let t = xs[0];
        assert(forall|k: int| 0 <= k < t.len() ==> t[k] != '\n');
        lemma_first_nl_unique(t, t.len() as int);
        assert(t.len() > 0);
        assert(spec_lines(t) == seq![t]);
        assert(seq![t] =~= xs);
    } else {
        lemma_join_front(xs);
        let h = xs[0];
        let rest = spec_join_lines(xs.drop_first());
        let t = spec_join_lines(xs);
        assert(t == h.push('\n') + rest);
        assert(forall|k: int| 0 <= k < h.len() ==> t[k] == h[k]);
        assert(forall|k: int| 0 <= k < h.len() ==> h[k] != '\n');
        assert(t[h.len() as int] == '\n');
        lemma_first_nl_unique(t, h.len() as int);
        assert(t.take(h.len() as int) =~= h);
        assert(h.len() == 0 || h.last() != '\r');
        assert(strip_cr(h) == h);
        assert(t.skip(h.len() as int + 1) =~= rest);
        assert(spec_lines(t) == seq![h] + spec_lines(rest));
        let ys = xs.drop_first();
        assert(forall|i: int, k: int|
            #![trigger ys[i][k]]
            0 <= i < ys.len() && 0 <= k < ys[i].len() ==> ys[i][k] == xs[i + 1][k]);
        assert(forall|i: int| #![trigger ys[i]] 0 <= i < ys.len() ==> ys[i] == xs[i + 1]);
        lemma_saved_list_reads_back(ys);
        assert(seq![h] + ys =~= xs);
    }
}

/// Join the stored addresses with newlines, the written form of the list.
pub fn join_lines(nodes: &Vec<String>) -> (r: String)
    ensures
        r@ == spec_join_lines(line_views(nodes@)),
{
    let ghost views = line_views(nodes@);
    let mut out = String::new();
    let mut i: usize = 0;
    while i < nodes.len()
        invariant
            0 <= i <= nodes@.len(),
            views == line_views(nodes@),
            out@ == spec_join_lines(views.take(i as int)),
        decreases nodes@.len() - i,
    {
        if i > 0 {
            out.append("\n");
        }
        out.append(nodes[i].as_str());
        proof {
            reveal_strlit("\n");
            assert(views[i as int] == nodes@[i as int]@);
            assert(views.take((i + 1) as int).drop_last() =~= views.take(i as int));
            assert(views.take((i + 1) as int).last() == views[i as int]);
            if i == 0 {
                assert(out@ =~= views.take(1int)[0]);
            } else {
                assert(out@ =~= spec_join_lines(views.take(i as int)).push('\n') + views[
                    i as int
                ]);
            }
        }
        i += 1;
    }
    proof {
        assert(views.take(nodes@.len() as int) =~= views);
    }
    out
}

fn split_from(s: &str, from: usize) -> (r: Vec<String>)
    requires
        from as int <= s@.len(),
    ensures
        line_views(r@) == spec_lines(s@.skip(from as int)),
    decreases s@.len() - from,
{
    let ghost tail = s@.skip(from as int);
    proof {
        assert(forall|k: int| 0 <= k < tail.len() ==> tail[k] == s@[k + from as int]);
    }
    let n = s.unicode_len();
    if from >= n {
        let r: Vec<String> = Vec::new();
        proof {
            assert(tail =~= Seq::<char>::empty());
            assert(line_views(r@) =~= spec_lines(tail));
        }
        return r;
    }
    let mut i = from;
    while i < n && s.get_char(i) != '\n'
        invariant
            from <= i <= n,
            n == s@.len(),
            from < n,
            forall|k: int| from <= k < i ==> s@[k] != '\n',
        decreases n - i,
    {
        i += 1;
    }
    if i >= n {
        // the last line, with no line ending after it
        let line = s.substring_char(from, n);
        let mut r: Vec<String> = Vec::new();
        r.push(line.to_owned());
        proof {
            lemma_first_nl_unique(tail, n - from as int);
            assert(tail =~= s@.subrange(from as int, n as int));
            assert(line@ == tail);
            assert(line_views(r@) =~= seq![tail]);
            assert(spec_lines(tail) == seq![tail]);
        }
        return r;
    }
    // s@[i] is the line ending; a '\r' just before it is not kept
    let end = if i > from && s.get_char(i - 1) == '\r' {
        i - 1
    } else {
        i
    };
    let line = s.substring_char(from, end);
    let mut rest = split_from(s, i + 1);
    let mut r: Vec<String> = Vec::new();
    r.push(line.to_owned());
    let ghost rest_views = line_views(rest@);
    r.append(&mut rest);
    proof {
        lemma_first_nl_unique(tail, i - from as int);
        let f = i - from as int;
        assert(tail.take(f) =~= s@.subrange(from as int, i as int));
        assert(strip_cr(tail.take(f)) =~= s@.subrange(from as int, end as int));
        assert(line@ == strip_cr(tail.take(f)));
        assert(tail.skip(f + 1) =~= s@.skip((i + 1) as int));
        assert(spec_lines(tail) == seq![strip_cr(tail.take(f))] + spec_lines(tail.skip(f + 1)));
        assert(line_views(r@) =~= seq![line@] + rest_views);
    }
    r
}

/// Split the stored text back into the addresses it holds, one per line.
pub fn split_lines(s: &str) -> (r: Vec<String>)
    ensures
        line_views(r@) == spec_lines(s@),
{
    let r = split_from(s, 0);
    proof {
        assert(s@.skip(0) =~= s@);
    }
    r
}

} // verus!
