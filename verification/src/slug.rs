//! Slugs: letters, digits and single dashes.

use crate::text;
use vstd::prelude::*;

verus! {

/// Whether `c` is an ASCII letter or digit.
pub open spec fn alnum(c: char) -> bool {
    'a' <= c <= 'z' || 'A' <= c <= 'Z' || '0' <= c <= '9'
}

/// Whether `c` is an ASCII letter or digit.
pub fn is_alnum(c: char) -> (r: bool)
    ensures
        r == alnum(c),
{
    (c >= 'a' && c <= 'z') || (c >= 'A' && c <= 'Z') || (c >= '0' && c <= '9')
}

/// The letters and digits of `s`, with one dash for each run of other
/// characters that follows a letter or digit.
pub open spec fn dashed(s: Seq<char>) -> Seq<char>
    decreases s.len(),
{
    if s.len() == 0 {
        Seq::empty()
    } else {
        let d = dashed(s.drop_last());
        if alnum(s.last()) {
            d.push(s.last())
        } else if d.len() > 0 && d.last() != '-' {
            d.push('-')
        } else {
            d
        }
    }
}

/// `s` without trailing dashes.
pub open spec fn no_tail_dash(s: Seq<char>) -> Seq<char>
    decreases s.len(),
{
    if s.len() > 0 && s.last() == '-' {
        no_tail_dash(s.drop_last())
    } else {
        s
    }
}

/// The slug of `s`: dashed, without trailing dashes, `fallback` where
/// nothing remains, cut to `cap` characters.
pub open spec fn slug_of(s: Seq<char>, fallback: Seq<char>, cap: nat) -> Seq<char> {
    let core = no_tail_dash(dashed(s));
    let filled = if core.len() == 0 {
        fallback
    } else {
        core
    };
    if filled.len() > cap {
        no_tail_dash(filled.take(cap as int))
    } else {
        filled
    }
}

fn drop_tail_dashes(v: &mut Vec<char>)
    ensures
        final(v)@ == no_tail_dash(old(v)@),
{
    while v.len() > 0 && v[v.len() - 1] == '-'
        invariant
            no_tail_dash(v@) == no_tail_dash(old(v)@),
        decreases v@.len(),
    {
        v.pop();
    }
}

/// The slug of `s`.
pub fn slug(s: &str, fallback: &str, cap: usize) -> (r: String)
    ensures
        r@ == slug_of(s@, fallback@, cap as nat),
{
    let v = text::chars_of(s);
    let mut out: Vec<char> = Vec::new();
    let mut i: usize = 0;
    while i < v.len()
        invariant
            i <= v@.len(),
            out@ == dashed(v@.take(i as int)),
        decreases v@.len() - i,
    {
        proof {
            assert(v@.take(i + 1).drop_last() =~= v@.take(i as int));
        }
        let c = v[i];
        if is_alnum(c) {
            out.push(c);
        } else if out.len() > 0 && out[out.len() - 1] != '-' {
            out.push('-');
        }
        i = i + 1;
    }
    proof {
        assert(v@.take(i as int) =~= v@);
    }
    drop_tail_dashes(&mut out);
    if out.len() == 0 {
        out = text::chars_of(fallback);
    }
    if out.len() > cap {
        out.truncate(cap);
        proof {
            assert(out@ =~= (if no_tail_dash(dashed(s@)).len() == 0 {
                fallback@
            } else {
                no_tail_dash(dashed(s@))
            }).take(cap as int));
        }
        drop_tail_dashes(&mut out);
    }
    text::text_of(&out)
}

// ── Laws ───────────────────────────────────────────────────────────

/// Whether `s` holds only letters, digits and single inner dashes.
pub open spec fn clean(s: Seq<char>) -> bool {
    &&& forall|i: int| 0 <= i < s.len() ==> alnum(#[trigger] s[i]) || s[i] == '-'
    &&& forall|i: int| 0 < i < s.len() && #[trigger] s[i] == '-' ==> s[i - 1] != '-'
    &&& s.len() > 0 ==> s[0] != '-' && s.last() != '-'
}

/// As `clean`, but a dash may stand at the end.
spec fn clean_head(s: Seq<char>) -> bool {
    &&& forall|i: int| 0 <= i < s.len() ==> alnum(#[trigger] s[i]) || s[i] == '-'
    &&& forall|i: int| 0 < i < s.len() && #[trigger] s[i] == '-' ==> s[i - 1] != '-'
    &&& s.len() > 0 ==> s[0] != '-'
}

proof fn lemma_dashed_clean_head(s: Seq<char>)
    ensures
        clean_head(dashed(s)),
    decreases s.len(),
{
    if s.len() > 0 {
        lemma_dashed_clean_head(s.drop_last());
    }
}

proof fn lemma_no_tail_dash_clean(s: Seq<char>)
    requires
        clean_head(s),
    ensures
        clean(no_tail_dash(s)),
        no_tail_dash(s).len() <= s.len(),
        s.len() > 0 ==> no_tail_dash(s).len() > 0,
    decreases s.len(),
{
    if s.len() > 0 && s.last() == '-' {
        lemma_no_tail_dash_clean(s.drop_last());
        if s.len() == 1 {
            assert(s[0] == '-');
        }
    }
}

/// A slug is a safe file name component: letters, digits and single inner
/// dashes, not empty, and at most `cap` characters long.
pub proof fn law_slug_safe(s: Seq<char>, fallback: Seq<char>, cap: nat)
    requires
        clean(fallback),
        fallback.len() > 0,
        cap > 0,
    ensures
        clean(slug_of(s, fallback, cap)),
        0 < slug_of(s, fallback, cap).len() <= cap,
{
    lemma_dashed_clean_head(s);
    lemma_no_tail_dash_clean(dashed(s));
    let core = no_tail_dash(dashed(s));
    let filled = if core.len() == 0 {
        fallback
    } else {
        core
    };
    assert(clean_head(filled));
    if filled.len() > cap {
        assert(clean_head(filled.take(cap as int)));
        lemma_no_tail_dash_clean(filled.take(cap as int));
    }
}

proof fn lemma_dashed_of_clean(s: Seq<char>)
    requires
        clean_head(s),
    ensures
        dashed(s) == s,
    decreases s.len(),
{
    if s.len() > 0 {
        lemma_dashed_of_clean(s.drop_last());
        assert(s.drop_last().push(s.last()) =~= s);
    } else {
        assert(dashed(s) =~= s);
    }
}

/// A text that is a slug already is its own slug.
pub proof fn law_slug_fixed(s: Seq<char>, fallback: Seq<char>, cap: nat)
    requires
        clean(s),
        0 < s.len() <= cap,
    ensures
        slug_of(s, fallback, cap) == s,
{
    lemma_dashed_of_clean(s);
}

/// Letters and digits are those of ASCII.
pub proof fn law_alnum(c: char)
    ensures
        'a' <= c <= 'z' ==> alnum(c),
        'A' <= c <= 'Z' ==> alnum(c),
        '0' <= c <= '9' ==> alnum(c),
        c < '0' || ('9' < c && c < 'A') || ('Z' < c && c < 'a') || 'z' < c ==> !alnum(c),
{
}

/// Dashing keeps every letter and digit, in order, and adds nothing but
/// dashes: one where other characters follow a letter or digit.
pub proof fn law_dashing_keeps_letters(s: Seq<char>)
    ensures
        dashed(s).filter(|c: char| c != '-') == s.filter(|c: char| alnum(c)),
        s.len() > 0 && alnum(s.last()) ==> dashed(s).len() > 0 && dashed(s).last() == s.last(),
        s.len() > 1 && !alnum(s.last()) && alnum(s[s.len() - 2]) ==> dashed(s) == dashed(
            s.drop_last(),
        ).push('-'),
    decreases s.len(),
{
    reveal(Seq::filter);
    if s.len() > 0 {
        let d = dashed(s.drop_last());
        law_dashing_keeps_letters(s.drop_last());
        if alnum(s.last()) {
            assert(d.push(s.last()).drop_last() =~= d);
        } else if d.len() > 0 && d.last() != '-' {
            assert(d.push('-').drop_last() =~= d);
        }
        if s.len() > 1 && !alnum(s.last()) && alnum(s[s.len() - 2]) {
            assert(s.drop_last().last() == s[s.len() - 2]);
        }
    }
}

proof fn lemma_no_tail_dash_prefix(s: Seq<char>)
    ensures
        no_tail_dash(s).len() <= s.len(),
        no_tail_dash(s) == s.take(no_tail_dash(s).len() as int),
        no_tail_dash(s).len() > 0 ==> no_tail_dash(s).last() != '-',
        forall|i: int| no_tail_dash(s).len() <= i < s.len() ==> #[trigger] s[i] == '-',
    decreases s.len(),
{
    if s.len() > 0 && s.last() == '-' {
        lemma_no_tail_dash_prefix(s.drop_last());
        assert(s.drop_last().take(no_tail_dash(s).len() as int) =~= s.take(
            no_tail_dash(s).len() as int,
        ));
        assert forall|i: int| no_tail_dash(s).len() <= i < s.len() implies #[trigger] s[i]
            == '-' by {
            if i < s.len() - 1 {
                assert(s.drop_last()[i] == s[i]);
            }
        }
    } else {
        assert(s.take(s.len() as int) =~= s);
    }
}

/// Cutting trailing dashes off cuts nothing else.
pub proof fn law_only_dashes_are_cut(s: Seq<char>)
    ensures
        no_tail_dash(s) == s.take(no_tail_dash(s).len() as int),
        no_tail_dash(s).len() > 0 ==> no_tail_dash(s).last() != '-',
        forall|i: int| no_tail_dash(s).len() <= i < s.len() ==> #[trigger] s[i] == '-',
{
    lemma_no_tail_dash_prefix(s);
}

proof fn lemma_no_letters(s: Seq<char>)
    requires
        forall|i: int| 0 <= i < s.len() ==> !alnum(#[trigger] s[i]),
    ensures
        dashed(s).len() == 0,
    decreases s.len(),
{
    if s.len() > 0 {
        assert forall|i: int| 0 <= i < s.len() - 1 implies !alnum(
            #[trigger] s.drop_last()[i],
        ) by {
            assert(!alnum(s[i]));
        }
        lemma_no_letters(s.drop_last());
        assert(!alnum(s[s.len() - 1]));
    }
}

/// Where there is nothing to make a slug of, it is the fallback.
pub proof fn law_nothing_to_slug(s: Seq<char>, fallback: Seq<char>, cap: nat)
    requires
        forall|i: int| 0 <= i < s.len() ==> !alnum(#[trigger] s[i]),
    ensures
        fallback.len() <= cap ==> slug_of(s, fallback, cap) == fallback,
{
    lemma_no_letters(s);
}

/// A slug is the dashed text, cut at the cap and nowhere before: what is cut
/// off is what the cap does not admit, and trailing dashes.
pub proof fn law_slug_is_the_dashed_text(s: Seq<char>, fallback: Seq<char>, cap: nat)
    requires
        no_tail_dash(dashed(s)).len() > 0,
    ensures
        slug_of(s, fallback, cap).len() <= cap,
        slug_of(s, fallback, cap) == dashed(s).take(slug_of(s, fallback, cap).len() as int),
        no_tail_dash(dashed(s)).len() <= cap ==> slug_of(s, fallback, cap) == no_tail_dash(
            dashed(s),
        ),
        forall|i: int|
            slug_of(s, fallback, cap).len() <= i < cap && i < dashed(s).len() ==> #[trigger] dashed(
                s,
            )[i] == '-',
{
    let d = dashed(s);
    let core = no_tail_dash(d);
    lemma_no_tail_dash_prefix(d);
    if core.len() > cap {
        let cut = core.take(cap as int);
        lemma_no_tail_dash_prefix(cut);
        let r = no_tail_dash(cut);
        assert(r =~= d.take(r.len() as int));
        assert forall|i: int| r.len() <= i < cap && i < d.len() implies #[trigger] d[i] == '-' by {
            assert(cut[i] == d[i]);
        }
    }
}

} // verus!
