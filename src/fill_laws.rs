use vstd::prelude::*;
use crate::clock::NoteTime;
use crate::notes::{filled, timestamp_text, year_text};
use crate::text::{padded_decimal, replaced};

verus! {

/// `p` occurs in `s` at index `i`.
pub open spec fn occurs_at(s: Seq<char>, i: int, p: Seq<char>) -> bool {
    0 <= i && i + p.len() <= s.len() && s.subrange(i, i + p.len()) == p
}

/// `s` holds no opening brace.
pub open spec fn brace_free(s: Seq<char>) -> bool {
    forall|i: int| 0 <= i < s.len() ==> s[i] != '{'
}

/// Every opening brace of `s` starts an occurrence of `p`.
pub open spec fn braces_open(s: Seq<char>, p: Seq<char>) -> bool {
    forall|i: int| 0 <= i < s.len() && s[i] == '{' ==> occurs_at(s, i, p)
}

/// Every opening brace of `s` starts an occurrence of `p` or of `q`.
pub open spec fn braces_open_either(s: Seq<char>, p: Seq<char>, q: Seq<char>) -> bool {
    forall|i: int| 0 <= i < s.len() && s[i] == '{' ==> occurs_at(s, i, p) || occurs_at(s, i, q)
}

/// A pattern that opens with a brace and holds no other.
pub open spec fn placeholder_like(p: Seq<char>) -> bool {
    p.len() > 0 && p[0] == '{' && brace_free(p.subrange(1, p.len() as int))
}

proof fn lemma_not_at_start(s: Seq<char>, p: Seq<char>)
    requires
        s.len() > 0,
        s[0] != '{',
        p.len() > 0,
        p[0] == '{',
    ensures
        !(p.len() <= s.len() && s.subrange(0, p.len() as int) == p),
{
    if p.len() <= s.len() && s.subrange(0, p.len() as int) == p {
        assert(s.subrange(0, p.len() as int)[0] == s[0]);
    }
}

proof fn lemma_brace_free_unchanged(s: Seq<char>, p: Seq<char>, r: Seq<char>)
    requires
        brace_free(s),
        p.len() > 0,
        p[0] == '{',
    ensures
        replaced(s, p, r) == s,
    decreases s.len(),
{
    if s.len() > 0 {
        lemma_not_at_start(s, p);
        let t = s.subrange(1, s.len() as int);
        assert forall|i: int| 0 <= i < t.len() implies t[i] != '{' by {
            assert(t[i] == s[i + 1]);
        }
        lemma_brace_free_unchanged(t, p, r);
        assert(seq![s[0]] + t =~= s);
    }
}

proof fn lemma_prefix_kept(s: Seq<char>, q: Seq<char>, p: Seq<char>, r: Seq<char>)
    requires
        brace_free(q),
        occurs_at(s, 0, q),
        p.len() > 0,
        p[0] == '{',
    ensures
        occurs_at(replaced(s, p, r), 0, q),
    decreases q.len(),
{
    if q.len() > 0 {
        assert(s[0] == s.subrange(0, q.len() as int)[0]);
        lemma_not_at_start(s, p);
        let t = s.subrange(1, s.len() as int);
        let q1 = q.subrange(1, q.len() as int);
        assert forall|i: int| 0 <= i < q1.len() implies q1[i] != '{' by {
            assert(q1[i] == q[i + 1]);
        }
        assert(t.subrange(0, q1.len() as int) =~= s.subrange(0, q.len() as int).subrange(1, q.len() as int));
        lemma_prefix_kept(t, q1, p, r);
        let rt = replaced(t, p, r);
        assert(replaced(s, p, r) == seq![s[0]] + rt);
        assert((seq![s[0]] + rt).subrange(0, q.len() as int) =~= seq![s[0]] + rt.subrange(0, q1.len() as int));
        assert(q =~= seq![q[0]] + q1);
    } else {
        assert(replaced(s, p, r).subrange(0, 0) =~= q);
    }
}

proof fn lemma_tail_occurs(s: Seq<char>, k: int, j: int, p: Seq<char>)
    requires
        0 <= k <= s.len(),
        occurs_at(s, j + k, p),
        0 <= j,
    ensures
        occurs_at(s.subrange(k, s.len() as int), j, p),
{
    assert(s.subrange(k, s.len() as int).subrange(j, j + p.len()) =~= s.subrange(j + k, j + k + p.len()));
}

proof fn lemma_lift_occurs(a: Seq<char>, b: Seq<char>, j: int, p: Seq<char>)
    requires
        occurs_at(b, j, p),
    ensures
        occurs_at(a + b, j + a.len(), p),
{
    assert((a + b).subrange(j + a.len(), j + a.len() + p.len()) =~= b.subrange(j, j + p.len()));
}

proof fn lemma_first_pass(s: Seq<char>, p: Seq<char>, r: Seq<char>, q: Seq<char>)
    requires
        placeholder_like(p),
        placeholder_like(q),
        brace_free(r),
        braces_open_either(s, p, q),
    ensures
        braces_open(replaced(s, p, r), q),
    decreases s.len(),
{
    if s.len() > 0 {
        let at = p.len() <= s.len() && s.subrange(0, p.len() as int) == p;
        let k: int = if at { p.len() as int } else { 1 };
        let t = s.subrange(k, s.len() as int);
        assert forall|j: int| 0 <= j < t.len() && t[j] == '{' implies occurs_at(t, j, p) || occurs_at(t, j, q) by {
            assert(t[j] == s[j + k]);
            if occurs_at(s, j + k, p) {
                lemma_tail_occurs(s, k, j, p);
            } else {
                lemma_tail_occurs(s, k, j, q);
            }
        }
        lemma_first_pass(t, p, r, q);
        let rt = replaced(t, p, r);
        let head: Seq<char> = if at { r } else { seq![s[0]] };
        assert(replaced(s, p, r) == head + rt);
        let res = head + rt;
        assert forall|i: int| 0 <= i < res.len() && res[i] == '{' implies occurs_at(res, i, q) by {
            if i < head.len() {
                if at {
                    assert(res[i] == r[i]);
                } else {
                    // the brace opens no `p` here, so it opens `q`
                    assert(i == 0 && s[0] == '{');
                    if occurs_at(s, 0, p) {
                        assert(s.subrange(0, p.len() as int) == p);
                    }
                    assert(occurs_at(s, 0, q));
                    let q1 = q.subrange(1, q.len() as int);
                    assert(t.subrange(0, q1.len() as int) =~= s.subrange(0, q.len() as int).subrange(1, q.len() as int));
                    lemma_prefix_kept(t, q1, p, r);
                    assert(res.subrange(0, q.len() as int) =~= seq![s[0]] + rt.subrange(0, q1.len() as int));
                    assert(q =~= seq![q[0]] + q1);
                }
            } else {
                assert(res[i] == rt[i - head.len()]);
                lemma_lift_occurs(head, rt, i - head.len(), q);
            }
        }
    }
}

proof fn lemma_second_pass(s: Seq<char>, q: Seq<char>, r: Seq<char>)
    requires
        placeholder_like(q),
        brace_free(r),
        braces_open(s, q),
    ensures
        brace_free(replaced(s, q, r)),
    decreases s.len(),
{
    if s.len() > 0 {
        let at = q.len() <= s.len() && s.subrange(0, q.len() as int) == q;
        let k: int = if at { q.len() as int } else { 1 };
        if !at {
            assert(s[0] != '{');
        }
        let t = s.subrange(k, s.len() as int);
        assert forall|j: int| 0 <= j < t.len() && t[j] == '{' implies occurs_at(t, j, q) by {
            assert(t[j] == s[j + k]);
            lemma_tail_occurs(s, k, j, q);
        }
        lemma_second_pass(t, q, r);
        let rt = replaced(t, q, r);
        let head: Seq<char> = if at { r } else { seq![s[0]] };
        assert(replaced(s, q, r) == head + rt);
        assert forall|i: int| 0 <= i < (head + rt).len() implies (head + rt)[i] != '{' by {
            if i >= head.len() {
                assert((head + rt)[i] == rt[i - head.len()]);
            }
        }
    }
}

/// Filling a template whose every opening brace begins `{timestamp}` or
/// `{title}`, with values that hold no opening brace, leaves no placeholder
/// behind; so filling the result once more changes nothing.
pub proof fn lemma_fill_complete_and_idempotent(template: Seq<char>, timestamp: Seq<char>, title: Seq<char>)
    requires
        braces_open_either(template, "{timestamp}"@, "{title}"@),
        brace_free(timestamp),
        brace_free(title),
    ensures
        brace_free(filled(template, timestamp, title)),
        forall|i: int| !occurs_at(filled(template, timestamp, title), i, "{timestamp}"@),
        forall|i: int| !occurs_at(filled(template, timestamp, title), i, "{title}"@),
        filled(filled(template, timestamp, title), timestamp, title) == filled(template, timestamp, title),
{
    reveal_strlit("{timestamp}");
    reveal_strlit("{title}");
    let p = "{timestamp}"@;
    let q = "{title}"@;
    assert(brace_free(p.subrange(1, p.len() as int)));
    assert(brace_free(q.subrange(1, q.len() as int)));
    lemma_first_pass(template, p, timestamp, q);
    let once = replaced(template, p, timestamp);
    lemma_second_pass(once, q, title);
    let out = filled(template, timestamp, title);
    assert forall|i: int| !occurs_at(out, i, p) by {
        if occurs_at(out, i, p) {
            assert(out.subrange(i, i + p.len())[0] == out[i]);
        }
    }
    assert forall|i: int| !occurs_at(out, i, q) by {
        if occurs_at(out, i, q) {
            assert(out.subrange(i, i + q.len())[0] == out[i]);
        }
    }
    lemma_brace_free_unchanged(out, p, timestamp);
    lemma_brace_free_unchanged(out, q, title);
}

proof fn lemma_decimal_brace_free(v: nat, width: nat)
    ensures
        brace_free(padded_decimal(v, width)),
    decreases v + width,
{
    if !(v < 10 && width <= 1) {
        let w: nat = if width == 0 { 0 } else { (width - 1) as nat };
        lemma_decimal_brace_free(v / 10, w);
    }
}

proof fn lemma_concat_brace_free(a: Seq<char>, b: Seq<char>)
    requires
        brace_free(a),
        brace_free(b),
    ensures
        brace_free(a + b),
{
    assert forall|i: int| 0 <= i < (a + b).len() implies (a + b)[i] != '{' by {
        if i >= a.len() {
            assert((a + b)[i] == b[i - a.len()]);
        }
    }
}

/// A note identifier holds no opening brace.
pub proof fn lemma_timestamp_brace_free(t: NoteTime)
    ensures
        brace_free(timestamp_text(t)),
{
    reveal_strlit("-");
    reveal_strlit("+");
    let y = t.year as int;
    let a: nat = if y < 0 { (-y) as nat } else { y as nat };
    lemma_decimal_brace_free(a, 4);
    if y < 0 || y > 9999 {
        let sign = if y < 0 { "-"@ } else { "+"@ };
        lemma_concat_brace_free(sign, padded_decimal(a, 4));
    }
    assert(brace_free(year_text(y)));
    lemma_decimal_brace_free(t.month as nat, 2);
    lemma_decimal_brace_free(t.day as nat, 2);
    lemma_decimal_brace_free(t.hour as nat, 2);
    lemma_decimal_brace_free(t.minute as nat, 2);
    lemma_concat_brace_free(year_text(y), padded_decimal(t.month as nat, 2));
    lemma_concat_brace_free(year_text(y) + padded_decimal(t.month as nat, 2), padded_decimal(t.day as nat, 2));
    lemma_concat_brace_free(
        year_text(y) + padded_decimal(t.month as nat, 2) + padded_decimal(t.day as nat, 2),
        padded_decimal(t.hour as nat, 2),
    );
    lemma_concat_brace_free(
        year_text(y) + padded_decimal(t.month as nat, 2) + padded_decimal(t.day as nat, 2)
            + padded_decimal(t.hour as nat, 2),
        padded_decimal(t.minute as nat, 2),
    );
}

/// A permanent note made at any time from such a template, with a title
/// that holds no opening brace, keeps no placeholder, and filling it again
/// changes nothing.
pub proof fn lemma_permanent_note_fully_filled(template: Seq<char>, time: NoteTime, title: Seq<char>)
    requires
        braces_open_either(template, "{timestamp}"@, "{title}"@),
        brace_free(title),
    ensures
        forall|i: int| !occurs_at(filled(template, timestamp_text(time), title), i, "{timestamp}"@),
        forall|i: int| !occurs_at(filled(template, timestamp_text(time), title), i, "{title}"@),
        filled(filled(template, timestamp_text(time), title), timestamp_text(time), title)
            == filled(template, timestamp_text(time), title),
{
    lemma_timestamp_brace_free(time);
    lemma_fill_complete_and_idempotent(template, timestamp_text(time), title);
}

} // verus!
