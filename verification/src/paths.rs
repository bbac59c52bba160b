//! Slash-separated paths as text: parts, file name, extension and stem.

use crate::text;
use vstd::prelude::*;

verus! {

/// The pieces of `p` between slashes, empty ones kept.
pub open spec fn pieces(p: Seq<char>) -> Seq<Seq<char>>
    decreases p.len(),
{
    if p.len() == 0 {
        seq![Seq::empty()]
    } else {
        let s = pieces(p.drop_last());
        if p.last() == '/' {
            s.push(Seq::empty())
        } else {
            s.drop_last().push(s.last().push(p.last()))
        }
    }
}

/// Whether a piece names something: neither empty nor `.`.
pub open spec fn names_something(piece: Seq<char>) -> bool {
    piece.len() > 0 && piece != "."@
}

/// The pieces of a list that name something.
pub open spec fn named(s: Seq<Seq<char>>) -> Seq<Seq<char>>
    decreases s.len(),
{
    if s.len() == 0 {
        Seq::empty()
    } else if names_something(s.last()) {
        named(s.drop_last()).push(s.last())
    } else {
        named(s.drop_last())
    }
}

/// The parts of a path, without empty pieces and `.`.
pub open spec fn parts_of(p: Seq<char>) -> Seq<Seq<char>> {
    named(pieces(p))
}

/// The last part of a path; none for the root, the empty path and `..`.
pub open spec fn file_name_of(p: Seq<char>) -> Option<Seq<char>> {
    let parts = parts_of(p);
    if parts.len() == 0 || parts.last() == ".."@ {
        None
    } else {
        Some(parts.last())
    }
}

/// Position of the last `.` in `name`, or -1.
pub open spec fn last_dot(name: Seq<char>) -> int
    decreases name.len(),
{
    if name.len() == 0 {
        -1
    } else if name.last() == '.' {
        name.len() - 1
    } else {
        last_dot(name.drop_last())
    }
}

/// What stands after the last `.` of a file name, where that is not its
/// first character.
pub open spec fn name_extension(name: Seq<char>) -> Option<Seq<char>> {
    if last_dot(name) > 0 {
        Some(name.skip(last_dot(name) + 1))
    } else {
        None
    }
}

/// A file name without its extension.
pub open spec fn name_stem(name: Seq<char>) -> Seq<char> {
    if last_dot(name) > 0 {
        name.take(last_dot(name))
    } else {
        name
    }
}

/// The extension of a path's file name.
pub open spec fn extension_of(p: Seq<char>) -> Option<Seq<char>> {
    match file_name_of(p) {
        Some(name) => name_extension(name),
        None => None,
    }
}

/// A path's file name without its extension.
pub open spec fn stem_of(p: Seq<char>) -> Option<Seq<char>> {
    match file_name_of(p) {
        Some(name) => Some(name_stem(name)),
        None => None,
    }
}

/// The parts of a path.
pub fn path_parts(p: &str) -> (r: Vec<String>)
    ensures
        text::texts(r@) == parts_of(p@),
{
    let v = text::chars_of(p);
    let mut done: Vec<String> = Vec::new();
    let mut cur = String::new();
    let mut i: usize = 0;
    proof {
        assert(pieces(v@.take(0)).drop_last() =~= Seq::empty());
        assert(text::texts(done@) =~= Seq::empty());
        assert(cur@ =~= pieces(v@.take(0)).last());
    }
    while i < v.len()
        invariant
            i <= v@.len(),
            pieces(v@.take(i as int)).len() > 0,
            text::texts(done@) == named(pieces(v@.take(i as int)).drop_last()),
            cur@ == pieces(v@.take(i as int)).last(),
        decreases v@.len() - i,
    {
        let ghost before = pieces(v@.take(i as int));
        let ghost after = pieces(v@.take(i + 1));
        proof {
            assert(v@.take(i + 1).drop_last() =~= v@.take(i as int));
            assert(v@.take(i + 1).last() == v@[i as int]);
        }
        if v[i] == '/' {
            proof {
                assert(after.drop_last() =~= before);
                assert(before.drop_last().push(before.last()) =~= before);
            }
            if !cur.as_str().is_empty() && !text::same_text(cur.as_str(), ".") {
                let ghost old_done = done@;
                done.push(cur);
                proof {
                    assert(text::texts(done@) =~= text::texts(old_done).push(before.last()));
                }
            }
            cur = String::new();
        } else {
            cur.push(v[i]);
            proof {
                assert(after.drop_last() =~= before.drop_last());
            }
        }
        i = i + 1;
    }
    proof {
        assert(v@.take(i as int) =~= v@);
    }
    if !cur.as_str().is_empty() && !text::same_text(cur.as_str(), ".") {
        let ghost old_done = done@;
        let ghost last = cur@;
        done.push(cur);
        proof {
            assert(text::texts(done@) =~= text::texts(old_done).push(last));
        }
    }
    done
}

/// A path's file name.
pub fn file_name(p: &str) -> (r: Option<String>)
    ensures
        text::opt_text(r) == file_name_of(p@),
{
    let parts = path_parts(p);
    let n: usize = parts.len();
    proof {
        assert(n == parts_of(p@).len());
        assert(n > 0 ==> parts@[n - 1]@ == parts_of(p@).last());
    }
    if n == 0 || text::same_text(parts[n - 1].as_str(), "..") {
        None
    } else {
        Some(text::owned(parts[n - 1].as_str()))
    }
}

fn find_last_dot(v: &Vec<char>) -> (r: Option<usize>)
    ensures
        match r {
            Some(k) => k == last_dot(v@) && k < v@.len(),
            None => last_dot(v@) == -1,
        },
{
    let mut n: usize = v.len();
    proof {
        assert(v@.take(n as int) =~= v@);
    }
    while n > 0
        invariant
            n <= v@.len(),
            last_dot(v@) == last_dot(v@.take(n as int)),
        decreases n,
    {
        if v[n - 1] == '.' {
            return Some(n - 1);
        }
        proof {
            assert(v@.take(n as int).drop_last() =~= v@.take(n - 1));
        }
        n = n - 1;
    }
    None
}

/// The extension of a path's file name.
pub fn extension(p: &str) -> (r: Option<String>)
    ensures
        text::opt_text(r) == extension_of(p@),
{
    match file_name(p) {
        Some(name) => {
            let v = text::chars_of(name.as_str());
            let n: usize = v.len();
            match find_last_dot(&v) {
                Some(k) => if k > 0 {
                    let e = text::text_between(&v, k + 1, n);
                    proof {
                        assert(e@ =~= name@.skip(k + 1));
                    }
                    Some(e)
                } else {
                    None
                },
                None => None,
            }
        },
        None => None,
    }
}

/// A file name without its extension.
pub fn stem_of_name(name: &str) -> (r: String)
    ensures
        r@ == name_stem(name@),
{
    let v = text::chars_of(name);
    match find_last_dot(&v) {
        Some(k) => if k > 0 {
            let s = text::text_between(&v, 0, k);
            proof {
                assert(s@ =~= name@.take(k as int));
            }
            s
        } else {
            text::owned(name)
        },
        None => text::owned(name),
    }
}

/// A path's file name without its extension.
pub fn stem(p: &str) -> (r: Option<String>)
    ensures
        text::opt_text(r) == stem_of(p@),
{
    match file_name(p) {
        Some(name) => Some(stem_of_name(name.as_str())),
        None => None,
    }
}

/// Whether a path starts at the root.
pub open spec fn absolute(p: Seq<char>) -> bool {
    p.len() > 0 && p[0] == '/'
}

/// Whether a list of parts begins with another.
pub open spec fn parts_begin(parts: Seq<Seq<char>>, prefix: Seq<Seq<char>>) -> bool {
    prefix.len() <= parts.len() && parts.take(prefix.len() as int) == prefix
}

/// Whether `p` is `root` or lies below it, part by part: `/books2` does not
/// lie below `/books`.
pub open spec fn lies_under(p: Seq<char>, root: Seq<char>) -> bool {
    absolute(p) == absolute(root) && parts_begin(parts_of(p), parts_of(root))
}

fn starts_at_root(p: &str) -> (r: bool)
    ensures
        r == absolute(p@),
{
    let v = text::chars_of(p);
    v.len() > 0 && v[0] == '/'
}

/// Whether `p` is `root` or lies below it.
pub fn is_under(p: &str, root: &str) -> (r: bool)
    ensures
        r == lies_under(p@, root@),
{
    if starts_at_root(p) != starts_at_root(root) {
        return false;
    }
    let a = path_parts(p);
    let b = path_parts(root);
    let n: usize = b.len();
    proof {
        assert(parts_of(p@).len() == a@.len());
        assert(parts_of(root@).len() == n);
    }
    if n > a.len() {
        return false;
    }
    let mut i: usize = 0;
    while i < n
        invariant
            i <= n,
            n == b@.len(),
            n <= a@.len(),
            text::texts(a@) == parts_of(p@),
            text::texts(b@) == parts_of(root@),
            forall|j: int| 0 <= j < i ==> parts_of(p@)[j] == parts_of(root@)[j],
        decreases n - i,
    {
        proof {
            assert(parts_of(p@)[i as int] == a@[i as int]@);
            assert(parts_of(root@)[i as int] == b@[i as int]@);
        }
        if !text::same_text(a[i].as_str(), b[i].as_str()) {
            proof {
                assert(parts_of(p@).take(n as int)[i as int] == parts_of(p@)[i as int]);
            }
            return false;
        }
        i = i + 1;
    }
    proof {
        assert(parts_of(p@).take(n as int) =~= parts_of(root@));
    }
    true
}

/// Every path lies under itself, and a path under a path under a root lies
/// under that root.
pub proof fn law_under_is_an_order(a: Seq<char>, b: Seq<char>, c: Seq<char>)
    ensures
        lies_under(a, a),
        lies_under(a, b) && lies_under(b, c) ==> lies_under(a, c),
{
    assert(parts_of(a).take(parts_of(a).len() as int) =~= parts_of(a));
    if lies_under(a, b) && lies_under(b, c) {
        let n = parts_of(c).len() as int;
        assert(parts_of(a).take(n) =~= parts_of(a).take(parts_of(b).len() as int).take(n));
    }
}

// ── Writing paths ──────────────────────────────────────────────────

/// The absolute path of a list of parts: each behind a slash.
pub open spec fn path_text(parts: Seq<Seq<char>>) -> Seq<char>
    decreases parts.len(),
{
    if parts.len() == 0 {
        Seq::empty()
    } else {
        path_text(parts.drop_last()).push('/') + parts.last()
    }
}

/// The absolute path of a list of parts.
pub fn write_path(parts: &Vec<String>) -> (s: String)
    ensures
        s@ == path_text(text::texts(parts@)),
{
    let mut s = String::new();
    let mut i: usize = 0;
    proof {
        assert(text::texts(parts@).take(0) =~= Seq::empty());
    }
    while i < parts.len()
        invariant
            i <= parts@.len(),
            s@ == path_text(text::texts(parts@).take(i as int)),
        decreases parts@.len() - i,
    {
        s.push('/');
        s.append(parts[i].as_str());
        proof {
            let t = text::texts(parts@);
            assert(t.take(i + 1).drop_last() =~= t.take(i as int));
            assert(t.take(i + 1).last() == parts@[i as int]@);
        }
        i = i + 1;
    }
    proof {
        assert(text::texts(parts@).take(i as int) =~= text::texts(parts@));
    }
    s
}

/// Whether a text can be one part of a path.
pub open spec fn part_like(s: Seq<char>) -> bool {
    names_something(s) && !s.contains('/')
}

proof fn lemma_pieces_extend(p: Seq<char>, b: Seq<char>)
    requires
        !b.contains('/'),
    ensures
        pieces(p.push('/') + b) == pieces(p).push(b),
    decreases b.len(),
{
    let whole = p.push('/') + b;
    if b.len() == 0 {
        assert(whole =~= p.push('/'));
        assert(whole.drop_last() =~= p);
        assert(b =~= Seq::empty());
    } else {
        let short = b.drop_last();
        assert(!short.contains('/')) by {
            if short.contains('/') {
                let k = choose|k: int| 0 <= k < short.len() && short[k] == '/';
                assert(b[k] == '/');
            }
        }
        lemma_pieces_extend(p, short);
        assert(whole.drop_last() =~= p.push('/') + short);
        assert(whole.last() == b.last());
        assert(b[b.len() - 1] == b.last());
        assert(pieces(p).push(short).drop_last() =~= pieces(p));
        assert(short.push(b.last()) =~= b);
    }
}

/// Writing parts and reading them back gives the parts.
pub proof fn law_path_round_trip(parts: Seq<Seq<char>>)
    requires
        forall|i: int| 0 <= i < parts.len() ==> part_like(#[trigger] parts[i]),
    ensures
        parts_of(path_text(parts)) == parts,
        parts.len() > 0 ==> absolute(path_text(parts)),
    decreases parts.len(),
{
    if parts.len() == 0 {
        assert(pieces(path_text(parts)) =~= seq![Seq::<char>::empty()]);
        assert(seq![Seq::<char>::empty()].drop_last() =~= Seq::empty());
        assert(named(Seq::<Seq<char>>::empty()) =~= Seq::empty());
        assert(parts =~= Seq::empty());
    } else {
        let init = parts.drop_last();
        let last = parts.last();
        assert forall|i: int| 0 <= i < init.len() implies part_like(#[trigger] init[i]) by {
            assert(init[i] == parts[i]);
        }
        law_path_round_trip(init);
        assert(part_like(parts[parts.len() - 1]));
        lemma_pieces_extend(path_text(init), last);
        assert(pieces(path_text(init)).push(last).drop_last() =~= pieces(path_text(init)));
        assert(init.push(last) =~= parts);
        if init.len() == 0 {
            assert(path_text(parts)[0] == '/');
        } else {
            assert(path_text(parts)[0] == path_text(init)[0]);
        }
    }
}

proof fn lemma_pieces_clean(p: Seq<char>, i: int)
    requires
        0 <= i < pieces(p).len(),
    ensures
        !pieces(p)[i].contains('/'),
    decreases p.len(),
{
    if p.len() > 0 {
        let before = pieces(p.drop_last());
        if p.last() == '/' {
            if i < before.len() {
                lemma_pieces_clean(p.drop_last(), i);
            }
        } else if i < before.len() - 1 {
            lemma_pieces_clean(p.drop_last(), i);
        } else {
            lemma_pieces_nonempty(p.drop_last());
            lemma_pieces_clean(p.drop_last(), before.len() - 1);
            let last = before.last();
            if last.push(p.last()).contains('/') {
                let k = choose|k: int|
                    0 <= k < last.push(p.last()).len() && last.push(p.last())[k] == '/';
                if k < last.len() {
                    assert(last[k] == '/');
                }
            }
        }
    }
}

proof fn lemma_pieces_nonempty(p: Seq<char>)
    ensures
        pieces(p).len() > 0,
    decreases p.len(),
{
    if p.len() > 0 {
        lemma_pieces_nonempty(p.drop_last());
    }
}

proof fn lemma_named_clean(s: Seq<Seq<char>>, i: int)
    requires
        0 <= i < named(s).len(),
        forall|j: int| 0 <= j < s.len() ==> !(#[trigger] s[j]).contains('/'),
    ensures
        part_like(named(s)[i]),
    decreases s.len(),
{
    let init = s.drop_last();
    assert forall|j: int| 0 <= j < init.len() implies !(#[trigger] init[j]).contains('/') by {
        assert(init[j] == s[j]);
    }
    if names_something(s.last()) && i == named(init).len() {
        assert(!s[s.len() - 1].contains('/'));
    } else {
        lemma_named_clean(init, i);
    }
}

/// The parts of a path are names without slashes.
pub proof fn law_parts_are_names(p: Seq<char>, i: int)
    requires
        0 <= i < parts_of(p).len(),
    ensures
        part_like(parts_of(p)[i]),
{
    let s = pieces(p);
    assert forall|j: int| 0 <= j < s.len() implies !(#[trigger] s[j]).contains('/') by {
        lemma_pieces_clean(p, j);
    }
    lemma_named_clean(s, i);
}

proof fn lemma_last_dot(name: Seq<char>)
    ensures
        -1 <= last_dot(name) < name.len(),
        last_dot(name) >= 0 ==> name[last_dot(name)] == '.',
        forall|i: int| last_dot(name) < i < name.len() ==> #[trigger] name[i] != '.',
    decreases name.len(),
{
    if name.len() > 0 && name.last() != '.' {
        lemma_last_dot(name.drop_last());
        assert forall|i: int| last_dot(name) < i < name.len() implies #[trigger] name[i] != '.' by {
            if i < name.len() - 1 {
                assert(name.drop_last()[i] == name[i]);
            }
        }
    }
}

/// The extension of a name is what stands behind its last dot, and the stem
/// what stands before; the two and the dot are the name. A dot at the front
/// does not count, and a name without a dot is its own stem.
pub proof fn law_name_is_stem_and_extension(name: Seq<char>, stem: Seq<char>, ext: Seq<char>)
    ensures
        stem.len() > 0 && !ext.contains('.') ==> name_extension(stem.push('.') + ext) == Some(ext)
            && name_stem(stem.push('.') + ext) == stem,
        !name.contains('.') ==> name_extension(name) is None && name_stem(name) == name,
        name.len() > 0 && name[0] == '.' && !name.drop_first().contains('.') ==> name_extension(
            name,
        ) is None && name_stem(name) == name,
        name_extension(name) matches Some(e) ==> name == name_stem(name).push('.') + e
            && name_stem(name).len() > 0 && !e.contains('.'),
{
    let whole = stem.push('.') + ext;
    if stem.len() > 0 && !ext.contains('.') {
        lemma_last_dot(whole);
        assert(whole[stem.len() as int] == '.');
        let d = last_dot(whole);
        if d > stem.len() {
            assert(whole[d] == ext[d - stem.len() - 1]);
            assert(ext.contains(ext[d - stem.len() - 1]));
        }
        assert(d == stem.len());
        assert(whole.skip(d + 1) =~= ext);
        assert(whole.take(d) =~= stem);
    }
    lemma_last_dot(name);
    let d = last_dot(name);
    if !name.contains('.') && d >= 0 {
        assert(name.contains(name[d]));
    }
    if name.len() > 0 && name[0] == '.' && !name.drop_first().contains('.') && d > 0 {
        assert(name.drop_first()[d - 1] == '.');
    }
    if d > 0 {
        assert(name =~= name.take(d).push('.') + name.skip(d + 1));
        let e = name.skip(d + 1);
        assert forall|i: int| 0 <= i < e.len() implies #[trigger] e[i] != '.' by {
            assert(name[d + 1 + i] != '.');
        }
    }
}

/// Empty pieces and single dots name nothing; everything else does.
pub proof fn law_names(piece: Seq<char>)
    ensures
        piece.len() == 0 ==> !names_something(piece),
        piece.len() == 1 && piece[0] == '.' ==> !names_something(piece),
        piece.len() > 1 ==> names_something(piece),
        piece.len() == 1 && piece[0] != '.' ==> names_something(piece),
{
    reveal_strlit(".");
    if piece.len() == 1 && piece[0] == '.' {
        assert(piece =~= "."@);
    }
}

/// A slash begins a new piece, and every other character goes to the last one.
/// Of the pieces those that name something are the parts.
pub proof fn law_slashes_divide(p: Seq<char>, name: Seq<char>)
    ensures
        !name.contains('/') ==> pieces(name) == seq![name],
        !name.contains('/') ==> pieces(p.push('/') + name) == pieces(p).push(name),
        !name.contains('/') && names_something(name) ==> parts_of(p.push('/') + name)
            == parts_of(p).push(name),
        !name.contains('/') && !names_something(name) ==> parts_of(p.push('/') + name)
            == parts_of(p),
{
    if !name.contains('/') {
        lemma_pieces_extend(p, name);
        lemma_one_piece(name);
        assert(pieces(p).push(name).drop_last() =~= pieces(p));
    }
}

proof fn lemma_one_piece(name: Seq<char>)
    requires
        !name.contains('/'),
    ensures
        pieces(name) == seq![name],
    decreases name.len(),
{
    if name.len() > 0 {
        let head = name.drop_last();
        assert forall|i: int| 0 <= i < head.len() implies head[i] != '/' by {
            assert(name.contains(name[i]));
        }
        lemma_one_piece(head);
        assert(name.contains(name[name.len() - 1]));
        assert(head.push(name.last()) =~= name);
        assert(seq![head].drop_last().push(head.push(name.last())) =~= seq![name]);
    } else {
        assert(name =~= Seq::empty());
    }
}

/// A path lies under another where the parts of the other are its first parts:
/// with one more part it lies below, and a part that differs takes it out.
pub proof fn law_under_by_parts(root: Seq<Seq<char>>, part: Seq<char>, other: Seq<char>)
    requires
        root.len() > 0,
        forall|i: int| 0 <= i < root.len() ==> part_like(#[trigger] root[i]),
        part_like(part),
        part_like(other),
    ensures
        lies_under(path_text(root.push(part)), path_text(root)),
        !lies_under(path_text(root), path_text(root.push(part))),
        part != other ==> !lies_under(path_text(root.push(part)), path_text(root.push(other))),
{
    let (a, b) = (root.push(part), root.push(other));
    law_path_round_trip(root);
    law_path_round_trip(a);
    law_path_round_trip(b);
    assert(a.take(root.len() as int) =~= root);
    if part != other {
        assert(a.take(b.len() as int) =~= a);
        assert(a[root.len() as int] != b[root.len() as int]);
    }
}

/// The file name of a path is its last part, unless that goes up.
pub proof fn law_file_name_is_last_part(p: Seq<char>)
    ensures
        file_name_of(p) matches Some(n) ==> parts_of(p).len() > 0 && parts_of(p).last() == n && n
            != ".."@,
        file_name_of(p) is None ==> parts_of(p).len() == 0 || parts_of(p).last() == ".."@,
        file_name_of(p) matches Some(n) ==> extension_of(p) == name_extension(n) && stem_of(p)
            == Some(name_stem(n)),
        file_name_of(p) is None ==> extension_of(p) is None && stem_of(p) is None,
{
}

/// A path is absolute exactly where it begins with a slash, the slash alone
/// among them.
pub proof fn law_absolute(rest: Seq<char>, p: Seq<char>)
    ensures
        absolute("/"@ + rest),
        absolute("/"@),
        !absolute(Seq::empty()),
        p.len() > 0 && p[0] != '/' ==> !absolute(p),
{
    reveal_strlit("/");
}

} // verus!
