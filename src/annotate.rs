use vstd::prelude::*;

use crate::config::{label_bytes, LabTask};
use crate::text::{bytes_start_with, starts_with};

verus! {

/// The bytes of `Subject: [PATCH `, which open the subject header of a patch.
pub open spec fn subject_prefix() -> Seq<u8> {
    seq![83u8, 117, 98, 106, 101, 99, 116, 58, 32, 91, 80, 65, 84, 67, 72, 32]
}

/// The first position at or after `from` that holds `b`, or the length of `s`.
pub open spec fn find_from(s: Seq<u8>, from: int, b: u8) -> int
    decreases s.len() - from,
{
    if from >= s.len() || from < 0 {
        s.len() as int
    } else if s[from] == b {
        from
    } else {
        find_from(s, from + 1, b)
    }
}

/// The lines of `t` from position `from` on: the pieces between newline bytes.
pub open spec fn lines_from(t: Seq<u8>, from: int) -> Seq<Seq<u8>>
    decreases t.len() - from,
{
    let e = find_from(t, from, 10);
    if 0 <= from <= e && e < t.len() {
        seq![t.subrange(from, e)] + lines_from(t, e + 1)
    } else {
        seq![t.subrange(from, t.len() as int)]
    }
}

/// The lines of `t`; a text without a newline is one line.
pub open spec fn lines(t: Seq<u8>) -> Seq<Seq<u8>> {
    lines_from(t, 0)
}

/// Lines put back together, a newline byte between each two.
pub open spec fn join(ls: Seq<Seq<u8>>) -> Seq<u8>
    decreases ls.len(),
{
    if ls.len() == 0 {
        Seq::empty()
    } else if ls.len() == 1 {
        ls[0]
    } else {
        ls[0] + seq![10u8] + join(ls.drop_first())
    }
}

/// A subject header that gets tagged: it opens with the prefix and holds a `]`.
pub open spec fn is_subject_line(l: Seq<u8>) -> bool {
    starts_with(l, subject_prefix()) && find_from(l, 0, 93) < l.len()
}

/// What follows the first `]` of a subject header, without one leading space.
pub open spec fn subject_rest(l: Seq<u8>) -> Seq<u8> {
    let r = l.subrange(find_from(l, 0, 93) + 1, l.len() as int);
    if r.len() > 0 && r[0] == 32 {
        r.drop_first()
    } else {
        r
    }
}

/// A line with the label put after its first `]`, one space on each side of
/// it, if it is a subject header.
pub open spec fn rewrite_line(l: Seq<u8>, label: Seq<u8>) -> Seq<u8> {
    if is_subject_line(l) {
        l.subrange(0, find_from(l, 0, 93) + 1) + seq![32u8] + label + seq![32u8] + subject_rest(l)
    } else {
        l
    }
}

/// The text with every subject header tagged by `label`, all else kept.
pub open spec fn annotated(t: Seq<u8>, label: Seq<u8>) -> Seq<u8> {
    join(lines(t).map_values(|l: Seq<u8>| rewrite_line(l, label)))
}

proof fn lemma_find_bounds(s: Seq<u8>, from: int, b: u8)
    requires
        0 <= from <= s.len(),
    ensures
        from <= find_from(s, from, b) <= s.len(),
    decreases s.len() - from,
{
    if from < s.len() && s[from] != b {
        lemma_find_bounds(s, from + 1, b);
    }
}

/// Appends `s[from..to]` to `out`.
fn extend_from(out: &mut Vec<u8>, s: &[u8], from: usize, to: usize)
    requires
        from <= to <= s@.len(),
    ensures
        final(out)@ == old(out)@ + s@.subrange(from as int, to as int),
{
    let mut i: usize = from;
    while i < to
        invariant
            from <= i <= to <= s@.len(),
            out@ == old(out)@ + s@.subrange(from as int, i as int),
        decreases to - i,
    {
        out.push(s[i]);
        assert(out@ =~= old(out)@ + s@.subrange(from as int, i + 1));
        i += 1;
    }
}

/// The first position at or after `from` that holds `b`, or the length of `s`.
fn find_byte(s: &[u8], from: usize, b: u8) -> (r: usize)
    requires
        from <= s@.len(),
    ensures
        r == find_from(s@, from as int, b),
{
    let n: usize = s.len();
    let mut i: usize = from;
    while i < n && s[i] != b
        invariant
            n == s@.len(),
            from <= i <= n,
            find_from(s@, i as int, b) == find_from(s@, from as int, b),
        decreases n - i,
    {
        i += 1;
    }
    i
}

/// Appends the line `l`, tagged with `label` if it is a subject header.
fn push_rewritten(out: &mut Vec<u8>, l: &[u8], label: &[u8])
    ensures
        final(out)@ == old(out)@ + rewrite_line(l@, label@),
{
    let prefix: [u8; 16] = [83u8, 117, 98, 106, 101, 99, 116, 58, 32, 91, 80, 65, 84, 67, 72, 32];
    assert(prefix@ =~= subject_prefix());
    let n: usize = l.len();
    if bytes_start_with(l, prefix.as_slice()) {
        let c = find_byte(l, 0, 93);
        if c < n {
            extend_from(out, l, 0, c + 1);
            out.push(32u8);
            extend_from(out, label, 0, label.len());
            out.push(32u8);
            let rest: usize = if c + 1 < n && l[c + 1] == 32 {
                c + 2
            } else {
                c + 1
            };
            extend_from(out, l, rest, n);
            assert(label@.subrange(0, label@.len() as int) =~= label@);
            assert(l@.subrange(rest as int, n as int) =~= subject_rest(l@));
            assert(final(out)@ =~= old(out)@ + rewrite_line(l@, label@));
            return;
        }
    }
    extend_from(out, l, 0, n);
    assert(l@.subrange(0, n as int) =~= l@);
}

proof fn lemma_map_cons(l: Seq<u8>, rest: Seq<Seq<u8>>, label: Seq<u8>)
    ensures
        (seq![l] + rest).map_values(|x: Seq<u8>| rewrite_line(x, label)) == seq![
            rewrite_line(l, label),
        ] + rest.map_values(|x: Seq<u8>| rewrite_line(x, label)),
{
    assert((seq![l] + rest).map_values(|x: Seq<u8>| rewrite_line(x, label)) =~= seq![
        rewrite_line(l, label),
    ] + rest.map_values(|x: Seq<u8>| rewrite_line(x, label)));
}

proof fn lemma_lines_nonempty(t: Seq<u8>, from: int)
    ensures
        lines_from(t, from).len() >= 1,
    decreases t.len() - from,
{
    let e = find_from(t, from, 10);
    if 0 <= from <= e && e < t.len() {
        lemma_lines_nonempty(t, e + 1);
    }
}

/// Tags the subject header of a patch: each line that opens with
/// `Subject: [PATCH ` and holds a `]` gets the label after its first `]`,
/// set off by one space on each side.
/// Every other byte, newlines included, is kept as it was.
pub fn annotate_subject(text: &[u8], tag: &LabTask) -> (r: Vec<u8>)
    ensures
        r@ == annotated(text@, label_bytes(*tag)),
{
    let label = tag.label_bytes();
    let ghost lb = label_bytes(*tag);
    let ghost f = |x: Seq<u8>| rewrite_line(x, lb);
    let n: usize = text.len();
    let mut out: Vec<u8> = Vec::new();
    let mut pos: usize = 0;
    loop
        invariant
            n == text@.len(),
            pos <= n,
            label@ == lb,
            lb == label_bytes(*tag),
            f == (|x: Seq<u8>| rewrite_line(x, lb)),
            out@ + join(lines_from(text@, pos as int).map_values(f)) == annotated(text@, lb),
        decreases n - pos,
    {
        let e = find_byte(text, pos, 10);
        proof {
            lemma_find_bounds(text@, pos as int, 10);
        }
        let mut line: Vec<u8> = Vec::new();
        extend_from(&mut line, text, pos, e);
        assert(line@ =~= text@.subrange(pos as int, e as int));
        push_rewritten(&mut out, line.as_slice(), label.as_slice());
        let ghost l = text@.subrange(pos as int, e as int);
        if e == n {
            assert(lines_from(text@, pos as int) == seq![l]);
            assert(seq![l].map_values(f) =~= seq![rewrite_line(l, lb)]);
            assert(out@ == annotated(text@, lb));
            return out;
        }
        let ghost rest = lines_from(text@, e + 1);
        assert(lines_from(text@, pos as int) == seq![l] + rest);
        proof {
            lemma_map_cons(l, rest, lb);
            lemma_lines_nonempty(text@, e + 1);
            let m = (seq![l] + rest).map_values(f);
            assert(m.drop_first() =~= rest.map_values(f));
            assert(join(m) == rewrite_line(l, lb) + seq![10u8] + join(rest.map_values(f)));
        }
        let ghost before = out@;
        out.push(10u8);
        assert(out@ =~= before + seq![10u8]);
        pos = e + 1;
    }
}

} // verus!

verus! {

/// Where exactly one line of a patch is a subject header, tagging changes
/// that line and no other: the result is the same lines, joined the same way,
/// with only that one replaced, and the replacement differs from it.
pub proof fn lemma_single_subject_changes_one_line(text: Seq<u8>, tag: LabTask, k: int)
    requires
        0 <= k < lines(text).len(),
        is_subject_line(lines(text)[k]),
        forall|j: int|
            0 <= j < lines(text).len() && j != k ==> !is_subject_line(#[trigger] lines(text)[j]),
    ensures
        annotated(text, label_bytes(tag)) == join(
            lines(text).update(k, rewrite_line(lines(text)[k], label_bytes(tag))),
        ),
        rewrite_line(lines(text)[k], label_bytes(tag)) != lines(text)[k],
{
    let lb = label_bytes(tag);
    let ls = lines(text);
    assert(ls.map_values(|l: Seq<u8>| rewrite_line(l, lb)) =~= ls.update(k, rewrite_line(ls[k], lb)));
    lemma_find_bounds(ls[k], 0, 93);
    assert(rewrite_line(ls[k], lb).len() >= ls[k].len() + 1 + lb.len());
}

} // verus!
