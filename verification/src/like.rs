//! Patterns for the `LIKE` operator that select texts by a part of them.

use crate::text;
use vstd::prelude::*;

verus! {

/// A character as it stands in a pattern: the two wildcards and the escape
/// character are escaped.
pub open spec fn escaped_char(c: char) -> Seq<char> {
    if c == '%' || c == '_' || c == '\\' {
        seq!['\\', c]
    } else {
        seq![c]
    }
}

/// A text as it stands in a pattern.
pub open spec fn like_escaped(s: Seq<char>) -> Seq<char>
    decreases s.len(),
{
    if s.len() == 0 {
        Seq::empty()
    } else {
        like_escaped(s.drop_last()) + escaped_char(s.last())
    }
}

/// A pattern for texts that hold `s`, trimmed; none where it is blank.
pub open spec fn like_pattern(s: Option<Seq<char>>) -> Option<Seq<char>> {
    match text::present(s) {
        Some(t) => Some("%"@ + like_escaped(t) + "%"@),
        None => None,
    }
}

fn escape_like(s: &str) -> (r: String)
    ensures
        r@ == like_escaped(s@),
{
    let v = text::chars_of(s);
    let mut r = String::new();
    let mut i: usize = 0;
    while i < v.len()
        invariant
            i <= v@.len(),
            v@ == s@,
            r@ == like_escaped(v@.take(i as int)),
        decreases v@.len() - i,
    {
        let c = v[i];
        let ghost before = r@;
        if c == '%' || c == '_' || c == '\\' {
            r.push('\\');
        }
        r.push(c);
        proof {
            let t = v@.take(i + 1);
            assert(t.drop_last() =~= v@.take(i as int));
            assert(r@ =~= before + escaped_char(c));
        }
        i = i + 1;
    }
    proof {
        assert(v@.take(i as int) =~= v@);
    }
    r
}

/// A pattern for texts that hold `s`; none where `s` is blank.
pub fn like_filter(s: Option<&str>) -> (r: Option<String>)
    ensures
        text::opt_text(r) == like_pattern(text::opt_str(s)),
{
    match text::present_text(s) {
        Some(t) => {
            let mut p = text::owned("%");
            p.append(escape_like(t.as_str()).as_str());
            p.append("%");
            Some(p)
        },
        None => None,
    }
}

// ── Laws ───────────────────────────────────────────────────────────

/// What `LIKE` with the escape character `\` matches: `%` stands for any
/// text, `_` for any character, an escaped character for itself, and every
/// other one for itself in either case of `A`-`Z`.
pub open spec fn like_matches(pattern: Seq<char>, s: Seq<char>) -> bool
    decreases pattern.len(), s.len(),
{
    if pattern.len() == 0 {
        s.len() == 0
    } else if pattern[0] == '%' {
        like_matches(pattern.drop_first(), s) || (s.len() > 0 && like_matches(
            pattern,
            s.drop_first(),
        ))
    } else if s.len() == 0 {
        false
    } else if pattern[0] == '\\' {
        pattern.len() > 1 && text::lower_char(pattern[1]) == text::lower_char(s[0])
            && like_matches(pattern.skip(2), s.drop_first())
    } else {
        (pattern[0] == '_' || text::lower_char(pattern[0]) == text::lower_char(s[0]))
            && like_matches(pattern.drop_first(), s.drop_first())
    }
}

proof fn lemma_escaped_first(s: Seq<char>)
    requires
        s.len() > 0,
    ensures
        like_escaped(s) == escaped_char(s[0]) + like_escaped(s.drop_first()),
    decreases s.len(),
{
    if s.len() == 1 {
        assert(like_escaped(s.drop_last()) =~= Seq::empty());
        assert(like_escaped(s) =~= escaped_char(s[0]) + like_escaped(s.drop_first()));
    } else {
        let t = s.drop_last();
        lemma_escaped_first(t);
        assert(t.drop_first() =~= s.drop_first().drop_last());
        assert(s.drop_first().last() == s.last());
        assert(like_escaped(s) =~= escaped_char(s[0]) + (like_escaped(s.drop_first().drop_last())
            + escaped_char(s.last())));
    }
}

proof fn lemma_any_text(s: Seq<char>)
    ensures
        like_matches(seq!['%'], s),
    decreases s.len(),
{
    assert(seq!['%'].drop_first() =~= Seq::<char>::empty());
    if s.len() > 0 {
        lemma_any_text(s.drop_first());
    } else {
        assert(like_matches(Seq::<char>::empty(), s));
    }
}

proof fn lemma_prefix(q: Seq<char>, s: Seq<char>)
    ensures
        like_matches(like_escaped(q) + seq!['%'], s) <==> text::stands_at(
            text::ascii_lower(s),
            text::ascii_lower(q),
            0,
        ),
    decreases q.len(),
{
    let p = like_escaped(q) + seq!['%'];
    let (ls, lq) = (text::ascii_lower(s), text::ascii_lower(q));
    if q.len() == 0 {
        assert(p =~= seq!['%']);
        lemma_any_text(s);
        assert(ls.subrange(0, 0) =~= lq);
    } else {
        lemma_escaped_first(q);
        let rest = like_escaped(q.drop_first()) + seq!['%'];
        assert(p =~= escaped_char(q[0]) + rest);
        assert(p.len() > 0 && p[0] != '%');
        if s.len() == 0 {
            assert(!text::stands_at(ls, lq, 0));
        } else {
            let (s1, q1) = (s.drop_first(), q.drop_first());
            let (ls1, lq1) = (text::ascii_lower(s1), text::ascii_lower(q1));
            lemma_prefix(q1, s1);
            if escaped_char(q[0]).len() == 2 {
                assert(p[0] == '\\' && p[1] == q[0]);
                assert(p.skip(2) =~= rest);
            } else {
                assert(p[0] == q[0]);
                assert(p.drop_first() =~= rest);
            }
            assert(ls[0] == text::lower_char(s[0]) && lq[0] == text::lower_char(q[0]));
            if text::stands_at(ls, lq, 0) {
                let cut = ls.subrange(0, lq.len() as int);
                assert(cut[0] == ls[0]);
                assert(ls1.subrange(0, lq1.len() as int) =~= lq1) by {
                    assert forall|k: int| 0 <= k < lq1.len() implies ls1[k] == lq1[k] by {
                        assert(cut[k + 1] == lq[k + 1]);
                    }
                }
            }
            if lq[0] == ls[0] && text::stands_at(ls1, lq1, 0) {
                let cut = ls1.subrange(0, lq1.len() as int);
                assert(ls.subrange(0, lq.len() as int) =~= lq) by {
                    assert forall|k: int| 0 <= k < lq.len() implies ls[k] == lq[k] by {
                        if k > 0 {
                            assert(cut[k - 1] == lq1[k - 1]);
                        }
                    }
                }
            }
        }
    }
}

proof fn lemma_anywhere(q: Seq<char>, s: Seq<char>)
    ensures
        like_matches(seq!['%'] + like_escaped(q) + seq!['%'], s) <==> text::holds_text(
            text::ascii_lower(s),
            text::ascii_lower(q),
        ),
    decreases s.len(),
{
    let p = seq!['%'] + like_escaped(q) + seq!['%'];
    let (ls, lq) = (text::ascii_lower(s), text::ascii_lower(q));
    assert(p.drop_first() =~= like_escaped(q) + seq!['%']);
    lemma_prefix(q, s);
    if s.len() > 0 {
        let s1 = s.drop_first();
        let ls1 = text::ascii_lower(s1);
        lemma_anywhere(q, s1);
        assert(ls1 =~= ls.drop_first());
        if text::holds_text(ls1, lq) {
            let i = choose|i: int| #[trigger] text::stands_at(ls1, lq, i);
            assert(ls.subrange(i + 1, i + 1 + lq.len()) =~= ls1.subrange(i, i + lq.len()));
            assert(text::stands_at(ls, lq, i + 1));
        }
        if text::holds_text(ls, lq) && !text::stands_at(ls, lq, 0) {
            let i = choose|i: int| #[trigger] text::stands_at(ls, lq, i);
            assert(ls1.subrange(i - 1, i - 1 + lq.len()) =~= ls.subrange(i, i + lq.len()));
            assert(text::stands_at(ls1, lq, i - 1));
        }
    } else if text::holds_text(ls, lq) {
        let i = choose|i: int| #[trigger] text::stands_at(ls, lq, i);
        assert(i == 0);
    }
}

/// A filter selects the texts that hold what was asked for, trimmed, as a
/// part, in either case of `A`-`Z`. Wildcards in it stand for themselves.
pub proof fn law_filter_is_substring(asked: Seq<char>, s: Seq<char>)
    requires
        text::trimmed(asked).len() > 0,
    ensures
        like_pattern(Some(asked)) is Some,
        like_matches(like_pattern(Some(asked))->0, s) <==> text::holds_text(
            text::ascii_lower(s),
            text::ascii_lower(text::trimmed(asked)),
        ),
{
    reveal_strlit("%");
    assert("%"@ =~= seq!['%']);
    lemma_anywhere(text::trimmed(asked), s);
}

/// A blank filter is none: it selects everything.
pub proof fn law_blank_filter(asked: Seq<char>)
    ensures
        like_pattern(None) is None,
        text::trimmed(asked).len() == 0 ==> like_pattern(Some(asked)) is None,
{
}

/// What `LIKE` matches, sign by sign: nothing matches only nothing, `%` any
/// text, `_` any one sign, an escaped sign itself in either case, and so does
/// any other.
pub proof fn law_like_by_signs(s: Seq<char>, c: char, d: char)
    ensures
        like_matches(Seq::empty(), s) <==> s.len() == 0,
        like_matches(seq!['%'], s),
        like_matches(seq!['_'], seq![c]),
        like_matches(seq!['\\', c], seq![d]) <==> text::lower_char(c) == text::lower_char(d),
        c != '%' && c != '_' && c != '\\' ==> (like_matches(seq![c], seq![d])
            <==> text::lower_char(c) == text::lower_char(d)),
{
    lemma_any_text(s);
    reveal_with_fuel(like_matches, 3);
    assert(seq!['_'].drop_first() =~= Seq::<char>::empty());
    assert(seq![c].drop_first() =~= Seq::<char>::empty());
    assert(seq![d].drop_first() =~= Seq::<char>::empty());
    assert(seq!['\\', c].skip(2) =~= Seq::<char>::empty());
}

} // verus!
