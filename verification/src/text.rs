//! Text building blocks: every function is stated over the characters of a
//! string, `Seq<char>`.

use vstd::prelude::*;

verus! {

// ── Characters in and out ──────────────────────────────────────────

/// `String::push` appends one character.
pub assume_specification[ String::push ](s: &mut String, c: char)
    ensures
        final(s)@ == old(s)@.push(c),
;

/// The characters of `s`.
pub fn chars_of(s: &str) -> (v: Vec<char>)
    ensures
        v@ == s@,
{
    let mut v: Vec<char> = Vec::new();
    for c in it: s.chars()
        invariant
            v@ == it.seq().take(it.index()),
            it.seq() == s@,
    {
        v.push(c);
        proof {
            assert(v@ =~= it.seq().take(it.index() + 1));
        }
    }
    proof {
        assert(v@ =~= s@);
    }
    v
}

/// The string made of `v[from..to]`.
pub fn text_between(v: &Vec<char>, from: usize, to: usize) -> (s: String)
    requires
        from <= to <= v@.len(),
    ensures
        s@ == v@.subrange(from as int, to as int),
{
    let mut s = String::new();
    let mut i: usize = from;
    while i < to
        invariant
            from <= i <= to <= v@.len(),
            s@ == v@.subrange(from as int, i as int),
        decreases to - i,
    {
        s.push(v[i]);
        i = i + 1;
        proof {
            assert(s@ =~= v@.subrange(from as int, i as int));
        }
    }
    s
}

/// The string made of the characters `v`.
pub fn text_of(v: &Vec<char>) -> (s: String)
    ensures
        s@ == v@,
{
    let s = text_between(v, 0, v.len());
    proof {
        assert(v@.subrange(0, v@.len() as int) =~= v@);
    }
    s
}

/// An owned copy of `s`.
pub fn owned(s: &str) -> (r: String)
    ensures
        r@ == s@,
{
    String::from_str(s)
}

/// Whether two character vectors hold the same characters.
pub fn same_chars(a: &Vec<char>, b: &Vec<char>) -> (r: bool)
    ensures
        r == (a@ == b@),
{
    if a.len() != b.len() {
        return false;
    }
    let mut i: usize = 0;
    while i < a.len()
        invariant
            i <= a@.len(),
            a@.len() == b@.len(),
            forall|j: int| 0 <= j < i ==> a@[j] == b@[j],
        decreases a@.len() - i,
    {
        if a[i] != b[i] {
            return false;
        }
        i = i + 1;
    }
    proof {
        assert(a@ =~= b@);
    }
    true
}

/// Whether two strings hold the same characters.
pub fn same_text(a: &str, b: &str) -> (r: bool)
    ensures
        r == (a@ == b@),
{
    same_chars(&chars_of(a), &chars_of(b))
}

/// The characters of an optional string.
pub open spec fn opt_text(o: Option<String>) -> Option<Seq<char>> {
    match o {
        Some(s) => Some(s@),
        None => None,
    }
}

/// The characters of an optional borrowed string.
pub open spec fn opt_str(o: Option<&str>) -> Option<Seq<char>> {
    match o {
        Some(s) => Some(s@),
        None => None,
    }
}

/// The characters of each string of a list.
pub open spec fn texts(v: Seq<String>) -> Seq<Seq<char>> {
    Seq::new(v.len(), |i: int| v[i]@)
}

/// A copy of an optional string.
pub fn opt_clone(o: &Option<String>) -> (r: Option<String>)
    ensures
        opt_text(r) == opt_text(*o),
{
    match o {
        Some(s) => Some(owned(s.as_str())),
        None => None,
    }
}

/// Borrows an optional string.
pub fn opt_as_str(o: &Option<String>) -> (r: Option<&str>)
    ensures
        opt_str(r) == opt_text(*o),
{
    match o {
        Some(s) => Some(s.as_str()),
        None => None,
    }
}

/// A copy of a list of strings.
pub fn clone_texts(v: &Vec<String>) -> (r: Vec<String>)
    ensures
        texts(r@) == texts(v@),
{
    let mut r: Vec<String> = Vec::new();
    let mut i: usize = 0;
    while i < v.len()
        invariant
            i <= v@.len(),
            r@.len() == i,
            forall|j: int| 0 <= j < i ==> r@[j]@ == v@[j]@,
        decreases v@.len() - i,
    {
        r.push(owned(v[i].as_str()));
        i = i + 1;
    }
    proof {
        assert(texts(r@) =~= texts(v@));
    }
    r
}

// ── Whitespace ─────────────────────────────────────────────────────

/// The characters with the Unicode property White_Space.
pub open spec fn white(c: char) -> bool {
    ||| '\u{9}' <= c <= '\u{d}'
    ||| c == ' '
    ||| c == '\u{85}'
    ||| c == '\u{a0}'
    ||| c == '\u{1680}'
    ||| '\u{2000}' <= c <= '\u{200a}'
    ||| c == '\u{2028}'
    ||| c == '\u{2029}'
    ||| c == '\u{202f}'
    ||| c == '\u{205f}'
    ||| c == '\u{3000}'
}

/// Whether `c` is whitespace.
pub fn is_white(c: char) -> (r: bool)
    ensures
        r == white(c),
{
    (c >= '\u{9}' && c <= '\u{d}') || c == ' ' || c == '\u{85}' || c == '\u{a0}' || c
        == '\u{1680}' || (c >= '\u{2000}' && c <= '\u{200a}') || c == '\u{2028}' || c
        == '\u{2029}' || c == '\u{202f}' || c == '\u{205f}' || c == '\u{3000}'
}

/// `s` without its leading whitespace.
pub open spec fn trimmed_start(s: Seq<char>) -> Seq<char>
    decreases s.len(),
{
    if s.len() > 0 && white(s[0]) {
        trimmed_start(s.drop_first())
    } else {
        s
    }
}

/// `s` without its trailing whitespace.
pub open spec fn trimmed_end(s: Seq<char>) -> Seq<char>
    decreases s.len(),
{
    if s.len() > 0 && white(s.last()) {
        trimmed_end(s.drop_last())
    } else {
        s
    }
}

/// `s` without the whitespace at either end.
pub open spec fn trimmed(s: Seq<char>) -> Seq<char> {
    trimmed_end(trimmed_start(s))
}

/// Removes the whitespace at either end of `s`.
pub fn trim(s: &str) -> (r: String)
    ensures
        r@ == trimmed(s@),
{
    let v = chars_of(s);
    let mut from: usize = 0;
    proof {
        assert(v@.subrange(0, v@.len() as int) =~= v@);
    }
    while from < v.len() && is_white(v[from])
        invariant
            from <= v@.len(),
            trimmed_start(v@.subrange(from as int, v@.len() as int)) == trimmed_start(v@),
        decreases v@.len() - from,
    {
        proof {
            assert(v@.subrange(from as int, v@.len() as int).drop_first() =~= v@.subrange(
                from + 1,
                v@.len() as int,
            ));
        }
        from = from + 1;
    }
    let ghost start = trimmed_start(v@);
    let mut to: usize = v.len();
    while from < to && is_white(v[to - 1])
        invariant
            from <= to <= v@.len(),
            trimmed_end(v@.subrange(from as int, to as int)) == trimmed_end(start),
        decreases to,
    {
        proof {
            assert(v@.subrange(from as int, to as int).drop_last() =~= v@.subrange(
                from as int,
                to - 1,
            ));
        }
        to = to - 1;
    }
    text_between(&v, from, to)
}

/// Trimming what was trimmed changes nothing.
pub proof fn law_trim_idempotent(s: Seq<char>)
    ensures
        trimmed(trimmed(s)) == trimmed(s),
{
    let t = trimmed_start(s);
    lemma_trimmed_start_head(s);
    lemma_trimmed_end_shape(t);
    let e = trimmed_end(t);
    if e.len() > 0 {
        assert(e[0] == t[0]);
    }
    assert(trimmed_start(e) == e);
    lemma_trimmed_end_last(t);
    assert(trimmed_end(e) == e);
}

proof fn lemma_trimmed_start_head(s: Seq<char>)
    ensures
        trimmed_start(s).len() > 0 ==> !white(trimmed_start(s)[0]),
    decreases s.len(),
{
    if s.len() > 0 && white(s[0]) {
        lemma_trimmed_start_head(s.drop_first());
    }
}

proof fn lemma_trimmed_end_last(s: Seq<char>)
    ensures
        trimmed_end(s).len() > 0 ==> !white(trimmed_end(s).last()),
    decreases s.len(),
{
    if s.len() > 0 && white(s.last()) {
        lemma_trimmed_end_last(s.drop_last());
    }
}

proof fn lemma_trimmed_end_shape(s: Seq<char>)
    ensures
        trimmed_end(s).len() <= s.len(),
        trimmed_end(s) == s.take(trimmed_end(s).len() as int),
    decreases s.len(),
{
    if s.len() > 0 && white(s.last()) {
        lemma_trimmed_end_shape(s.drop_last());
        assert(s.drop_last().take(trimmed_end(s).len() as int) =~= s.take(
            trimmed_end(s).len() as int,
        ));
    } else {
        assert(s.take(s.len() as int) =~= s);
    }
}

/// What remains of an optional field: trimmed, and absent when blank.
pub open spec fn present(o: Option<Seq<char>>) -> Option<Seq<char>> {
    match o {
        Some(s) => if trimmed(s).len() == 0 {
            None
        } else {
            Some(trimmed(s))
        },
        None => None,
    }
}

/// Trims an optional field; a blank one is absent.
pub fn present_text(o: Option<&str>) -> (r: Option<String>)
    ensures
        opt_text(r) == present(opt_str(o)),
{
    match o {
        Some(s) => {
            let t = trim(s);
            if t.as_str().is_empty() {
                None
            } else {
                Some(t)
            }
        },
        None => None,
    }
}

// ── ASCII case ─────────────────────────────────────────────────────

/// The ASCII lower-case form of `c`.
pub open spec fn lower_char(c: char) -> char {
    if 'A' <= c <= 'Z' {
        (c as int + 32) as char
    } else {
        c
    }
}

/// The ASCII upper-case form of `c`.
pub open spec fn upper_char(c: char) -> char {
    if 'a' <= c <= 'z' {
        (c as int - 32) as char
    } else {
        c
    }
}

/// `s` with `A`-`Z` lower-cased.
pub open spec fn ascii_lower(s: Seq<char>) -> Seq<char> {
    Seq::new(s.len(), |i: int| lower_char(s[i]))
}

/// `s` with `a`-`z` upper-cased.
pub open spec fn ascii_upper(s: Seq<char>) -> Seq<char> {
    Seq::new(s.len(), |i: int| upper_char(s[i]))
}

/// Lower-cases one ASCII letter.
pub fn to_lower_char(c: char) -> (r: char)
    ensures
        r == lower_char(c),
{
    if c >= 'A' && c <= 'Z' {
        ((c as u8) + 32) as char
    } else {
        c
    }
}

/// Upper-cases one ASCII letter.
pub fn to_upper_char(c: char) -> (r: char)
    ensures
        r == upper_char(c),
{
    if c >= 'a' && c <= 'z' {
        ((c as u8) - 32) as char
    } else {
        c
    }
}

/// Lower-cases the ASCII letters of `s`.
pub fn to_ascii_lower(s: &str) -> (r: String)
    ensures
        r@ == ascii_lower(s@),
{
    let v = chars_of(s);
    let mut r = String::new();
    let mut i: usize = 0;
    while i < v.len()
        invariant
            i <= v@.len(),
            r@ == ascii_lower(v@.take(i as int)),
        decreases v@.len() - i,
    {
        r.push(to_lower_char(v[i]));
        i = i + 1;
        proof {
            assert(r@ =~= ascii_lower(v@.take(i as int)));
        }
    }
    proof {
        assert(v@.take(i as int) =~= v@);
    }
    r
}

/// Upper-cases the ASCII letters of `s`.
pub fn to_ascii_upper(s: &str) -> (r: String)
    ensures
        r@ == ascii_upper(s@),
{
    let v = chars_of(s);
    let mut r = String::new();
    let mut i: usize = 0;
    while i < v.len()
        invariant
            i <= v@.len(),
            r@ == ascii_upper(v@.take(i as int)),
        decreases v@.len() - i,
    {
        r.push(to_upper_char(v[i]));
        i = i + 1;
        proof {
            assert(r@ =~= ascii_upper(v@.take(i as int)));
        }
    }
    proof {
        assert(v@.take(i as int) =~= v@);
    }
    r
}

/// Whether `a` and `b` agree but for the case of ASCII letters.
pub fn same_ignoring_case(a: &str, b: &str) -> (r: bool)
    ensures
        r == (ascii_lower(a@) == ascii_lower(b@)),
{
    same_text(to_ascii_lower(a).as_str(), to_ascii_lower(b).as_str())
}

/// Upper-casing ignores how the letters were cased.
pub proof fn law_upper_ignores_case(a: Seq<char>, b: Seq<char>)
    requires
        ascii_lower(a) == ascii_lower(b),
    ensures
        ascii_upper(a) == ascii_upper(b),
{
    assert(ascii_lower(a).len() == a.len() && ascii_lower(b).len() == b.len());
    assert forall|i: int| 0 <= i < a.len() implies upper_char(a[i]) == upper_char(b[i]) by {
        assert(ascii_lower(a)[i] == lower_char(a[i]));
        assert(ascii_lower(b)[i] == lower_char(b[i]));
    }
    assert(ascii_upper(a) =~= ascii_upper(b));
}

// ── Searching ──────────────────────────────────────────────────────

/// Whether `needle` stands in `hay` at position `i`.
pub open spec fn stands_at(hay: Seq<char>, needle: Seq<char>, i: int) -> bool {
    0 <= i && i + needle.len() <= hay.len() && hay.subrange(i, i + needle.len()) == needle
}

/// Whether `needle` stands somewhere in `hay`.
pub open spec fn holds_text(hay: Seq<char>, needle: Seq<char>) -> bool {
    exists|i: int| #[trigger] stands_at(hay, needle, i)
}

/// Whether `needle` stands in `hay` at position `i`.
pub fn found_at(hay: &Vec<char>, needle: &Vec<char>, i: usize) -> (r: bool)
    ensures
        r == stands_at(hay@, needle@, i as int),
{
    if needle.len() > hay.len() || i > hay.len() - needle.len() {
        return false;
    }
    let total: usize = hay.len();
    let mut j: usize = 0;
    while j < needle.len()
        invariant
            j <= needle@.len(),
            total == hay@.len(),
            i + needle@.len() <= total,
            forall|k: int| 0 <= k < j ==> hay@[i + k] == needle@[k],
        decreases needle@.len() - j,
    {
        if hay[i + j] != needle[j] {
            proof {
                assert(hay@.subrange(i as int, i + needle@.len())[j as int] != needle@[j as int]);
            }
            return false;
        }
        j = j + 1;
    }
    proof {
        assert(hay@.subrange(i as int, i + needle@.len()) =~= needle@);
    }
    true
}

/// Whether `needle` stands somewhere in `hay`.
pub fn contains_text(hay: &str, needle: &str) -> (r: bool)
    ensures
        r == holds_text(hay@, needle@),
{
    let h = chars_of(hay);
    let n = chars_of(needle);
    if n.len() > h.len() {
        return false;
    }
    let last: usize = h.len() - n.len();
    let mut i: usize = 0;
    loop
        invariant
            h@ == hay@,
            n@ == needle@,
            last == h@.len() - n@.len(),
            i <= last,
            forall|k: int| 0 <= k < i ==> !stands_at(h@, n@, k),
        decreases last - i,
    {
        if found_at(&h, &n, i) {
            proof {
                assert(stands_at(hay@, needle@, i as int));
            }
            return true;
        }
        if i == last {
            proof {
                assert forall|k: int| !stands_at(hay@, needle@, k) by {
                    if 0 <= k < i {
                    } else if k == i {
                    }
                }
            }
            return false;
        }
        i = i + 1;
    }
}

/// Whether `s` begins with `prefix`.
pub open spec fn begins_with(s: Seq<char>, prefix: Seq<char>) -> bool {
    stands_at(s, prefix, 0)
}

/// What follows `prefix` in `s`, where `s` begins with it.
pub fn strip_prefix(s: &str, prefix: &str) -> (r: Option<String>)
    ensures
        r is Some <==> begins_with(s@, prefix@),
        r matches Some(t) ==> t@ == s@.skip(prefix@.len() as int),
{
    let v = chars_of(s);
    let p = chars_of(prefix);
    if found_at(&v, &p, 0) {
        let t = text_between(&v, p.len(), v.len());
        proof {
            assert(t@ =~= s@.skip(prefix@.len() as int));
        }
        Some(t)
    } else {
        None
    }
}

// ── Numbers ────────────────────────────────────────────────────────

/// The decimal digit `d`.
pub open spec fn digit(d: int) -> char {
    (48 + d) as char
}

/// `n` in decimal.
pub open spec fn decimal(n: nat) -> Seq<char>
    decreases n,
{
    if n < 10 {
        seq![digit(n as int)]
    } else {
        decimal(n / 10).push(digit((n % 10) as int))
    }
}

/// `n` in decimal, with a sign where it is negative.
pub open spec fn signed_decimal(n: int) -> Seq<char> {
    if n < 0 {
        "-"@ + decimal((-n) as nat)
    } else {
        decimal(n as nat)
    }
}

/// Writes `n` in decimal.
pub fn u64_text(n: u64) -> (s: String)
    ensures
        s@ == decimal(n as nat),
    decreases n,
{
    if n < 10 {
        let mut s = String::new();
        s.push((48u8 + (n as u8)) as char);
        proof {
            assert(s@ =~= seq![digit(n as int)]);
        }
        s
    } else {
        let mut s = u64_text(n / 10);
        s.push((48u8 + ((n % 10) as u8)) as char);
        s
    }
}

/// Writes `n` in decimal.
pub fn usize_text(n: usize) -> (s: String)
    ensures
        s@ == decimal(n as nat),
{
    u64_text(n as u64)
}

/// Writes `n` in decimal.
pub fn i64_text(n: i64) -> (s: String)
    ensures
        s@ == signed_decimal(n as int),
{
    if n < 0 {
        let magnitude: u64 = if n == i64::MIN {
            9_223_372_036_854_775_808
        } else {
            (-n) as u64
        };
        let mut s = owned("-");
        s.append(u64_text(magnitude).as_str());
        s
    } else {
        u64_text(n as u64)
    }
}

/// `n` copies of `c`.
pub open spec fn repeated(c: char, n: nat) -> Seq<char> {
    Seq::new(n, |i: int| c)
}

/// `s` filled on the left up to `width` characters.
pub open spec fn left_filled(s: Seq<char>, width: nat, fill: char) -> Seq<char> {
    if s.len() >= width {
        s
    } else {
        repeated(fill, (width - s.len()) as nat) + s
    }
}

/// `s` filled with blanks on the right up to `width` characters.
pub open spec fn right_filled(s: Seq<char>, width: nat) -> Seq<char> {
    if s.len() >= width {
        s
    } else {
        s + repeated(' ', (width - s.len()) as nat)
    }
}

/// `n` in decimal with at least `width` digits.
pub open spec fn zero_padded(n: nat, width: nat) -> Seq<char> {
    left_filled(decimal(n), width, '0')
}

/// `n` copies of `c`.
pub fn repeat_char(c: char, n: usize) -> (s: String)
    ensures
        s@ == repeated(c, n as nat),
{
    let mut s = String::new();
    let mut i: usize = 0;
    while i < n
        invariant
            i <= n,
            s@ == repeated(c, i as nat),
        decreases n - i,
    {
        s.push(c);
        i = i + 1;
        proof {
            assert(s@ =~= repeated(c, i as nat));
        }
    }
    s
}

/// Fills `s` on the left up to `width` characters.
pub fn fill_left(s: &str, width: usize, fill: char) -> (r: String)
    ensures
        r@ == left_filled(s@, width as nat, fill),
{
    let len: usize = s.unicode_len();
    if len >= width {
        owned(s)
    } else {
        let mut r = repeat_char(fill, width - len);
        r.append(s);
        r
    }
}

/// Fills `s` with blanks on the right up to `width` characters.
pub fn fill_right(s: &str, width: usize) -> (r: String)
    ensures
        r@ == right_filled(s@, width as nat),
{
    let len: usize = s.unicode_len();
    let mut r = owned(s);
    if len < width {
        r.append(repeat_char(' ', width - len).as_str());
    }
    r
}

/// Writes `n` in decimal with at least `width` digits.
pub fn zero_pad(n: u64, width: usize) -> (s: String)
    ensures
        s@ == zero_padded(n as nat, width as nat),
{
    fill_left(u64_text(n).as_str(), width, '0')
}

/// Length of a text in bytes.
pub open spec fn byte_len(s: Seq<char>) -> usize {
    vstd::utf8::encode_utf8(s).len() as usize
}

// ── Lists ──────────────────────────────────────────────────────────

/// The texts of `parts`, with `sep` between neighbours.
pub open spec fn joined(parts: Seq<Seq<char>>, sep: Seq<char>) -> Seq<char>
    decreases parts.len(),
{
    if parts.len() == 0 {
        Seq::empty()
    } else if parts.len() == 1 {
        parts[0]
    } else {
        joined(parts.drop_last(), sep) + sep + parts.last()
    }
}

/// Joins `parts` with `sep` between neighbours.
pub fn join(parts: &Vec<String>, sep: &str) -> (s: String)
    ensures
        s@ == joined(texts(parts@), sep@),
{
    let mut s = String::new();
    let mut i: usize = 0;
    while i < parts.len()
        invariant
            i <= parts@.len(),
            s@ == joined(texts(parts@).take(i as int), sep@),
        decreases parts@.len() - i,
    {
        proof {
            assert(texts(parts@).take(i + 1).drop_last() =~= texts(parts@).take(i as int));
            assert(texts(parts@).take(i + 1).last() == parts@[i as int]@);
            assert(i == 0 ==> s@ + parts@[0]@ =~= parts@[0]@);
        }
        if i > 0 {
            s.append(sep);
        }
        s.append(parts[i].as_str());
        i = i + 1;
    }
    proof {
        assert(texts(parts@).take(i as int) =~= texts(parts@));
    }
    s
}

/// Whether `v` holds the text `s`.
pub fn list_holds(v: &Vec<String>, s: &str) -> (r: bool)
    ensures
        r == texts(v@).contains(s@),
{
    let mut i: usize = 0;
    while i < v.len()
        invariant
            i <= v@.len(),
            forall|j: int| 0 <= j < i ==> v@[j]@ != s@,
        decreases v@.len() - i,
    {
        if same_text(v[i].as_str(), s) {
            proof {
                assert(texts(v@)[i as int] == s@);
            }
            return true;
        }
        i = i + 1;
    }
    proof {
        assert forall|j: int| 0 <= j < texts(v@).len() implies texts(v@)[j] != s@ by {}
    }
    false
}

// ── Named results ──────────────────────────────────────────────────

/// What `str::to_lowercase` returns: the Unicode lower-case mapping.
pub uninterp spec fn lowercased(s: Seq<char>) -> Seq<char>;

/// What formatting with `{:?}` writes for a string: quoted and escaped.
pub uninterp spec fn quoted(s: Seq<char>) -> Seq<char>;

/// Whether a text begins with the greatest character, which Unicode sets aside
/// as no character.
pub open spec fn begins_last(s: Seq<char>) -> bool {
    s.len() > 0 && s[0] == '\u{10FFFF}'
}

/// Calls `str::to_lowercase`; the result is a function of the characters.
/// The Unicode mapping gives U+10FFFF for no other character, so the result
/// begins with it only where `s` does.
#[verifier::external_body]
pub(crate) fn to_lowercase(s: &str) -> (r: String)
    ensures
        r@ == lowercased(s@),
        begins_last(r@) ==> begins_last(s@),
{
    s.to_lowercase()
}

/// Formats `s` with `{:?}`; the result is a function of the characters.
#[verifier::external_body]
pub(crate) fn quote(s: &str) -> (r: String)
    ensures
        r@ == quoted(s@),
{
    format!("{:?}", s)
}

// ── Laws ───────────────────────────────────────────────────────────

/// The number that decimal digits stand for.
pub open spec fn number_read(s: Seq<char>) -> int
    decreases s.len(),
{
    if s.len() == 0 {
        0
    } else {
        10 * number_read(s.drop_last()) + (s.last() as int - 48)
    }
}

/// Whether a text is made of decimal digits.
pub open spec fn all_digits(s: Seq<char>) -> bool {
    forall|i: int| 0 <= i < s.len() ==> '0' <= #[trigger] s[i] <= '9'
}

/// A number in decimal is made of digits, is not empty, has no digit in vain
/// at its front, and reads as the number. One digit more is ten times as much.
pub proof fn law_decimal_reads_back(n: nat)
    ensures
        number_read(decimal(n)) == n,
        all_digits(decimal(n)),
        decimal(n).len() >= 1,
        n > 0 ==> decimal(n)[0] != '0',
        n < 10 <==> decimal(n).len() == 1,
        n < 100 <==> decimal(n).len() <= 2,
        n < 1000 <==> decimal(n).len() <= 3,
    decreases n,
{
    reveal_with_fuel(number_read, 2);
    if n < 10 {
        assert(decimal(n).drop_last() =~= Seq::empty());
        assert(decimal(n).last() as int == 48 + n);
    } else {
        law_decimal_reads_back(n / 10);
        assert(decimal(n).drop_last() =~= decimal(n / 10));
        assert(decimal(n).last() as int == 48 + n % 10);
        assert(decimal(n)[0] == decimal(n / 10)[0]);
    }
}

proof fn lemma_leading_zeros(k: nat, s: Seq<char>)
    ensures
        number_read(repeated('0', k) + s) == number_read(s),
    decreases s.len(), k,
{
    let t = repeated('0', k) + s;
    if s.len() > 0 {
        lemma_leading_zeros(k, s.drop_last());
        assert(t.drop_last() =~= repeated('0', k) + s.drop_last());
        assert(t.last() == s.last());
    } else if k > 0 {
        lemma_leading_zeros((k - 1) as nat, s);
        assert(t.drop_last() =~= repeated('0', (k - 1) as nat) + s);
        assert(t.last() == '0');
    }
}

/// A number filled up with zeros still reads as the number, and has the digits
/// that are asked for and more only where it needs them.
pub proof fn law_zero_padded_reads_back(n: nat, width: nat)
    ensures
        number_read(zero_padded(n, width)) == n,
        all_digits(zero_padded(n, width)),
        zero_padded(n, width).len() >= width,
        zero_padded(n, width).len() > width ==> zero_padded(n, width) == decimal(n),
        n < 100 ==> zero_padded(n, 2).len() == 2,
        n < 1000 ==> zero_padded(n, 3).len() == 3,
{
    law_decimal_reads_back(n);
    if decimal(n).len() < width {
        lemma_leading_zeros((width - decimal(n).len()) as nat, decimal(n));
    }
}

/// A negative number is its magnitude behind a sign.
pub proof fn law_sign_of_negatives(n: int)
    ensures
        n >= 0 ==> signed_decimal(n) == decimal(n as nat),
        n < 0 ==> signed_decimal(n).len() > 1 && signed_decimal(n)[0] == '-' && number_read(
            signed_decimal(n).skip(1),
        ) == -n,
{
    if n < 0 {
        reveal_strlit("-");
        law_decimal_reads_back((-n) as nat);
        assert(signed_decimal(n).skip(1) =~= decimal((-n) as nat));
    }
}

proof fn lemma_trimmed_start_shape(s: Seq<char>) -> (k: int)
    ensures
        0 <= k <= s.len(),
        trimmed_start(s) == s.skip(k),
        forall|i: int| 0 <= i < k ==> white(#[trigger] s[i]),
    decreases s.len(),
{
    if s.len() > 0 && white(s[0]) {
        let k = lemma_trimmed_start_shape(s.drop_first());
        assert(s.drop_first().skip(k) =~= s.skip(k + 1));
        assert forall|i: int| 0 <= i < k + 1 implies white(#[trigger] s[i]) by {
            if i > 0 {
                assert(s.drop_first()[i - 1] == s[i]);
            }
        }
        k + 1
    } else {
        assert(s.skip(0) =~= s);
        0
    }
}

proof fn lemma_trimmed_end_white(s: Seq<char>)
    ensures
        forall|i: int| trimmed_end(s).len() <= i < s.len() ==> white(#[trigger] s[i]),
    decreases s.len(),
{
    if s.len() > 0 && white(s.last()) {
        lemma_trimmed_end_white(s.drop_last());
        assert forall|i: int| trimmed_end(s).len() <= i < s.len() implies white(
            #[trigger] s[i],
        ) by {
            if i < s.len() - 1 {
                assert(s.drop_last()[i] == s[i]);
            }
        }
    }
}

/// Trimming takes whitespace from both ends and nothing else: what is left
/// stands in the text as it did, only whitespace is around it, and it neither
/// begins nor ends with any.
pub proof fn law_trim_takes_whitespace(s: Seq<char>) -> (from: int)
    ensures
        0 <= from,
        from + trimmed(s).len() <= s.len(),
        trimmed(s) == s.subrange(from, from + trimmed(s).len()),
        forall|i: int| 0 <= i < from ==> white(#[trigger] s[i]),
        forall|i: int| from + trimmed(s).len() <= i < s.len() ==> white(#[trigger] s[i]),
        trimmed(s).len() > 0 ==> !white(trimmed(s)[0]) && !white(trimmed(s).last()),
        trimmed(s).len() == 0 <==> (forall|i: int| 0 <= i < s.len() ==> white(#[trigger] s[i])),
{
    let k = lemma_trimmed_start_shape(s);
    let t = trimmed_start(s);
    lemma_trimmed_start_head(s);
    lemma_trimmed_end_shape(t);
    lemma_trimmed_end_last(t);
    lemma_trimmed_end_white(t);
    let e = trimmed_end(t);
    assert(e =~= s.subrange(k, k + e.len()));
    assert forall|i: int| k + e.len() <= i < s.len() implies white(#[trigger] s[i]) by {
        assert(t[i - k] == s[i]);
    }
    if e.len() > 0 {
        assert(e[0] == t[0]);
        assert(s[k] == e[0]);
    }
    k
}

/// Blanks, tabs and line ends are whitespace; printable ASCII is not.
pub proof fn law_white_in_ascii(c: char)
    ensures
        '!' <= c <= '~' ==> !white(c),
        c == ' ' || c == '\t' || c == '\n' || c == '\r' ==> white(c),
{
}

/// An optional text counts where it is not blank, and then without the
/// whitespace around it.
pub proof fn law_present_is_trimmed(s: Seq<char>)
    ensures
        present(None) is None,
        trimmed(s).len() == 0 ==> present(Some(s)) is None,
        trimmed(s).len() > 0 ==> present(Some(s)) == Some(trimmed(s)),
        present(present(Some(s))) == present(Some(s)),
{
    law_trim_idempotent(s);
}

/// Changing the case touches ASCII letters only, one for one, and each is
/// thirty-two apart from its other form.
pub proof fn law_case_is_of_ascii_letters(c: char, s: Seq<char>)
    ensures
        'A' <= c <= 'Z' ==> lower_char(c) as int == c as int + 32 && upper_char(c) == c,
        'a' <= c <= 'z' ==> upper_char(c) as int == c as int - 32 && lower_char(c) == c,
        c < 'A' || ('Z' < c && c < 'a') || 'z' < c ==> lower_char(c) == c && upper_char(c) == c,
        ascii_lower(s).len() == s.len(),
        ascii_upper(s).len() == s.len(),
        forall|i: int| 0 <= i < s.len() ==> #[trigger] ascii_lower(s)[i] == lower_char(s[i]),
        forall|i: int| 0 <= i < s.len() ==> #[trigger] ascii_upper(s)[i] == upper_char(s[i]),
{
}

/// A text stands at a place where its characters do, one by one.
pub proof fn law_stands_char_by_char(hay: Seq<char>, needle: Seq<char>, i: int)
    ensures
        stands_at(hay, needle, i) <==> 0 <= i && i + needle.len() <= hay.len() && (forall|k: int|
            0 <= k < needle.len() ==> #[trigger] needle[k] == hay[i + k]),
        stands_at(hay, needle, i) ==> holds_text(hay, needle),
        holds_text(hay, needle) ==> needle.len() <= hay.len(),
        begins_with(hay, needle) <==> needle.len() <= hay.len() && hay.take(needle.len() as int)
            == needle,
        begins_with(needle + hay, needle),
{
    if stands_at(hay, needle, i) {
        assert forall|k: int| 0 <= k < needle.len() implies #[trigger] needle[k] == hay[i + k] by {
            assert(hay.subrange(i, i + needle.len())[k] == needle[k]);
        }
    } else if 0 <= i && i + needle.len() <= hay.len() && (forall|k: int|
        0 <= k < needle.len() ==> #[trigger] needle[k] == hay[i + k]) {
        assert(hay.subrange(i, i + needle.len()) =~= needle);
    }
    if needle.len() <= hay.len() {
        assert(hay.subrange(0, needle.len() as int) =~= hay.take(needle.len() as int));
    }
    assert((needle + hay).subrange(0, needle.len() as int) =~= needle);
}

/// Joining puts the separator between neighbours only.
pub proof fn law_join(parts: Seq<Seq<char>>, part: Seq<char>, sep: Seq<char>)
    ensures
        joined(Seq::empty(), sep) == Seq::<char>::empty(),
        joined(seq![part], sep) == part,
        parts.len() > 0 ==> joined(parts.push(part), sep) == joined(parts, sep) + sep + part,
{
    assert(parts.push(part).drop_last() =~= parts);
}

/// Filling adds at one end and only up to the width.
pub proof fn law_filling(s: Seq<char>, width: nat, fill: char, i: int)
    ensures
        left_filled(s, width, fill).len() == (if s.len() >= width {
            s.len()
        } else {
            width
        }),
        left_filled(s, width, fill).skip(left_filled(s, width, fill).len() - s.len()) == s,
        0 <= i < left_filled(s, width, fill).len() - s.len() ==> left_filled(s, width, fill)[i]
            == fill,
        right_filled(s, width).len() == (if s.len() >= width {
            s.len()
        } else {
            width
        }),
        right_filled(s, width).take(s.len() as int) == s,
        s.len() <= i < right_filled(s, width).len() ==> right_filled(s, width)[i] == ' ',
{
    let l = left_filled(s, width, fill);
    assert(l.skip(l.len() - s.len()) =~= s);
    assert(right_filled(s, width).take(s.len() as int) =~= s);
}

/// Beyond ASCII, blanks are the next-line sign, the no-break space, the spaces
/// of other scripts and widths, and the two separators.
pub proof fn law_white_beyond_ascii(c: char)
    requires
        c > '\u{7f}',
    ensures
        white(c) <==> {
            ||| c as int == 0x85
            ||| c as int == 0xa0
            ||| c as int == 0x1680
            ||| 0x2000 <= c as int <= 0x200a
            ||| c as int == 0x2028
            ||| c as int == 0x2029
            ||| c as int == 0x202f
            ||| c as int == 0x205f
            ||| c as int == 0x3000
        },
{
}

/// A list of strings has one text for each, in the same order; an optional
/// string has one where it is there.
pub proof fn law_texts(v: Seq<String>, i: int, s: String, t: &str)
    ensures
        texts(v).len() == v.len(),
        0 <= i < v.len() ==> texts(v)[i] == v[i]@,
        opt_text(Some(s)) == Some(s@),
        opt_text(None) is None,
        opt_str(Some(t)) == Some(t@),
        opt_str(None) is None,
{
}

/// A run of one sign has it at every place.
pub proof fn law_repeated(c: char, n: nat, i: int)
    ensures
        repeated(c, n).len() == n,
        0 <= i < n ==> repeated(c, n)[i] == c,
{
}

} // verus!
