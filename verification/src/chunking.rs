//! Splitting text into chunks: the separator cascade applied to each document.
//!
//! The model of one splitting step follows `str::split` with a `&str`
//! pattern: the text is cut at the leftmost non-overlapping occurrences of
//! the separator; the empty separator cuts at every character boundary,
//! which yields an empty piece, every character, and an empty piece.
use vstd::prelude::*;

verus! {

/// The contents of a list of character vectors.
pub open spec fn views(v: Seq<Vec<char>>) -> Seq<Seq<char>> {
    v.map_values(|x: Vec<char>| x@)
}

/// `sep` occurs in `s` starting at index `i`.
pub open spec fn occurs_at(s: Seq<char>, sep: Seq<char>, i: int) -> bool {
    &&& 0 <= i
    &&& i + sep.len() <= s.len()
    &&& s.subrange(i, i + sep.len()) == sep
}

/// The leftmost occurrence of the non-empty separator `sep` in `s` at or after `i`.
pub open spec fn first_occurrence_from(s: Seq<char>, sep: Seq<char>, i: int) -> Option<int>
    decreases s.len() - i,
{
    if sep.len() == 0 || i < 0 || i + sep.len() > s.len() {
        None
    } else if occurs_at(s, sep, i) {
        Some(i)
    } else {
        first_occurrence_from(s, sep, i + 1)
    }
}

/// What `first_occurrence_from` finds is an occurrence, and there is none before it.
pub proof fn lemma_first_occurrence(s: Seq<char>, sep: Seq<char>, i: int)
    ensures
        first_occurrence_from(s, sep, i) matches Some(j) ==> {
            &&& i <= j
            &&& occurs_at(s, sep, j)
            &&& sep.len() > 0
            &&& forall|k: int| i <= k < j ==> !occurs_at(s, sep, k)
        },
        first_occurrence_from(s, sep, i) is None && 0 <= i ==> forall|k: int|
            i <= k && sep.len() > 0 ==> !occurs_at(s, sep, k),
    decreases s.len() - i,
{
    if sep.len() == 0 || i < 0 || i + sep.len() > s.len() {
    } else if occurs_at(s, sep, i) {
    } else {
        lemma_first_occurrence(s, sep, i + 1);
        assert forall|k: int| i <= k && sep.len() > 0 && first_occurrence_from(s, sep, i) is None
            implies !occurs_at(s, sep, k) by {
            if k > i {
            }
        }
    }
}

/// Skipping positions where the separator does not occur leaves the search result unchanged.
pub proof fn lemma_first_occurrence_skip(s: Seq<char>, sep: Seq<char>, start: int, i: int)
    requires
        0 <= start <= i,
        forall|k: int| start <= k < i ==> !occurs_at(s, sep, k),
    ensures
        first_occurrence_from(s, sep, start) == first_occurrence_from(s, sep, i),
    decreases i - start,
{
    if start < i {
        if sep.len() == 0 || start + sep.len() > s.len() {
            assert(first_occurrence_from(s, sep, i) is None);
        } else {
            assert(!occurs_at(s, sep, start));
            lemma_first_occurrence_skip(s, sep, start + 1, i);
        }
    }
}

/// The pieces of `s[start..]` cut at the occurrences of the non-empty separator `sep`.
pub open spec fn split_from(s: Seq<char>, sep: Seq<char>, start: int) -> Seq<Seq<char>>
    decreases s.len() - start,
{
    match first_occurrence_from(s, sep, start) {
        Some(j) => {
            proof {
                lemma_first_occurrence(s, sep, start);
            }
            seq![s.subrange(start, j)] + split_from(s, sep, j + sep.len())
        },
        None => seq![s.subrange(start, s.len() as int)],
    }
}

/// One character per piece.
pub open spec fn singletons(s: Seq<char>) -> Seq<Seq<char>> {
    s.map_values(|c: char| seq![c])
}

/// The pieces that `str::split` yields for `s` and the separator `sep`.
pub open spec fn str_split(s: Seq<char>, sep: Seq<char>) -> Seq<Seq<char>> {
    if sep.len() == 0 {
        seq![Seq::<char>::empty()] + singletons(s) + seq![Seq::<char>::empty()]
    } else {
        split_from(s, sep, 0)
    }
}

/// The non-empty pieces, in order.
pub open spec fn drop_empty(pieces: Seq<Seq<char>>) -> Seq<Seq<char>>
    decreases pieces.len(),
{
    if pieces.len() == 0 {
        seq![]
    } else {
        let rest = drop_empty(pieces.drop_last());
        if pieces.last().len() == 0 {
            rest
        } else {
            rest.push(pieces.last())
        }
    }
}

/// Every chunk split at `sep`, empty pieces left out, all pieces in order.
pub open spec fn split_stage(chunks: Seq<Seq<char>>, sep: Seq<char>) -> Seq<Seq<char>>
    decreases chunks.len(),
{
    if chunks.len() == 0 {
        seq![]
    } else {
        split_stage(chunks.drop_last(), sep) + drop_empty(str_split(chunks.last(), sep))
    }
}

/// The separators of the chunker, in the order in which they are applied.
pub open spec fn chunk_separators() -> Seq<Seq<char>> {
    seq![
        seq!['\n', '\n'],
        seq!['\n'],
        seq![' '],
        Seq::<char>::empty(),
        seq!['!', ' '],
        seq!['?', ' '],
        seq!['.', ' '],
    ]
}

/// The chunks after splitting at each separator of `seps` in turn.
pub open spec fn split_all(chunks: Seq<Seq<char>>, seps: Seq<Seq<char>>) -> Seq<Seq<char>>
    decreases seps.len(),
{
    if seps.len() == 0 {
        chunks
    } else {
        split_all(split_stage(chunks, seps[0]), seps.drop_first())
    }
}

/// The chunks of one document.
pub open spec fn document_chunks(content: Seq<char>) -> Seq<Seq<char>> {
    split_all(seq![content], chunk_separators())
}

/// The chunks of all documents, in document order.
pub open spec fn chunks_of_contents(contents: Seq<Seq<char>>) -> Seq<Seq<char>>
    decreases contents.len(),
{
    if contents.len() == 0 {
        seq![]
    } else {
        chunks_of_contents(contents.drop_last()) + document_chunks(contents.last())
    }
}

pub proof fn lemma_drop_empty_append(a: Seq<Seq<char>>, b: Seq<Seq<char>>)
    ensures
        drop_empty(a + b) == drop_empty(a) + drop_empty(b),
    decreases b.len(),
{
    if b.len() == 0 {
        assert(a + b =~= a);
    } else {
        lemma_drop_empty_append(a, b.drop_last());
        assert((a + b).drop_last() =~= a + b.drop_last());
    }
}

proof fn lemma_drop_empty_one(p: Seq<char>)
    ensures
        drop_empty(seq![p]) == (if p.len() == 0 { Seq::<Seq<char>>::empty() } else { seq![p] }),
{
    assert(seq![p].drop_last() =~= Seq::<Seq<char>>::empty());
    assert(drop_empty(Seq::<Seq<char>>::empty()) =~= Seq::<Seq<char>>::empty());
    assert(seq![p].last() == p);
    assert(Seq::<Seq<char>>::empty().push(p) =~= seq![p]);
}

proof fn lemma_drop_empty_singletons(s: Seq<char>)
    ensures
        drop_empty(singletons(s)) == singletons(s),
    decreases s.len(),
{
    if s.len() > 0 {
        lemma_drop_empty_singletons(s.drop_last());
        assert(singletons(s).drop_last() =~= singletons(s.drop_last()));
        assert(singletons(s.drop_last()).push(seq![s.last()]) =~= singletons(s));
    }
}

/// Splitting at the empty separator keeps every character as a piece of its own.
pub proof fn lemma_empty_separator(s: Seq<char>)
    ensures
        drop_empty(str_split(s, Seq::<char>::empty())) == singletons(s),
{
    let e = Seq::<char>::empty();
    lemma_drop_empty_append(seq![e] + singletons(s), seq![e]);
    lemma_drop_empty_append(seq![e], singletons(s));
    lemma_drop_empty_one(e);
    lemma_drop_empty_singletons(s);
    assert(Seq::<Seq<char>>::empty() + singletons(s) =~= singletons(s));
    assert(singletons(s) + Seq::<Seq<char>>::empty() =~= singletons(s));
}

/// Whether `sep` occurs in `s` at index `i`.
pub fn occurs_at_exec(s: &Vec<char>, sep: &Vec<char>, i: usize) -> (r: bool)
    requires
        i + sep@.len() <= s@.len(),
    ensures
        r == occurs_at(s@, sep@, i as int),
{
    let m = sep.len();
    let n = s.len();
    let mut k: usize = 0;
    while k < m
        invariant
            m == sep@.len(),
            n == s@.len(),
            k <= m,
            i + m <= s@.len(),
            forall|t: int| 0 <= t < k ==> s@[i + t] == sep@[t],
        decreases m - k,
    {
        if s[i + k] != sep[k] {
            assert(s@.subrange(i as int, i + m)[k as int] != sep@[k as int]);
            return false;
        }
        k = k + 1;
    }
    assert(s@.subrange(i as int, i + m) =~= sep@);
    true
}

/// The characters `s[start..end]` as a new vector.
pub fn slice_chars(s: &Vec<char>, start: usize, end: usize) -> (r: Vec<char>)
    requires
        start <= end <= s@.len(),
    ensures
        r@ == s@.subrange(start as int, end as int),
{
    let mut r: Vec<char> = Vec::new();
    let mut k: usize = start;
    while k < end
        invariant
            start <= k <= end <= s@.len(),
            r@ == s@.subrange(start as int, k as int),
        decreases end - k,
    {
        r.push(s[k]);
        k = k + 1;
        assert(r@ =~= s@.subrange(start as int, k as int));
    }
    r
}

/// Appends to `out` the non-empty pieces of `s` split at `sep`.
pub fn push_pieces(s: &Vec<char>, sep: &Vec<char>, out: &mut Vec<Vec<char>>)
    ensures
        views(final(out)@) == views(old(out)@) + drop_empty(str_split(s@, sep@)),
{
    let ghost base = views(out@);
    let n = s.len();
    let m = sep.len();
    if m == 0 {
        let mut k: usize = 0;
        while k < n
            invariant
                n == s@.len(),
                k <= n,
                views(out@) == base + singletons(s@.take(k as int)),
            decreases n - k,
        {
            let ghost before = views(out@);
            let mut one: Vec<char> = Vec::new();
            one.push(s[k]);
            assert(one@ =~= seq![s@[k as int]]);
            out.push(one);
            assert(views(out@) =~= before.push(seq![s@[k as int]]));
            assert(singletons(s@.take(k + 1)) =~= singletons(s@.take(k as int)).push(
                seq![s@[k as int]],
            ));
            k = k + 1;
            assert(views(out@) =~= base + singletons(s@.take(k as int)));
        }
        proof {
            assert(s@.take(n as int) =~= s@);
            lemma_empty_separator(s@);
            assert(sep@ =~= Seq::<char>::empty());
        }
        return ;
    }
    let mut start: usize = 0;
    let mut i: usize = 0;
    proof {
        assert(views(out@) + Seq::<Seq<char>>::empty() =~= views(out@));
    }
    while i < n && m <= n - i
        invariant
            n == s@.len(),
            m == sep@.len(),
            m > 0,
            start <= i <= n,
            forall|k: int| start <= k < i ==> !occurs_at(s@, sep@, k),
            base + drop_empty(split_from(s@, sep@, 0)) == views(out@) + drop_empty(
                split_from(s@, sep@, start as int),
            ),
        decreases n - i,
    {
        if occurs_at_exec(s, sep, i) {
            let ghost old_out = views(out@);
            proof {
                lemma_first_occurrence_skip(s@, sep@, start as int, i as int);
                let piece = s@.subrange(start as int, i as int);
                let rest = split_from(s@, sep@, i + m);
                assert(split_from(s@, sep@, start as int) == seq![piece] + rest);
                lemma_drop_empty_append(seq![piece], rest);
                lemma_drop_empty_one(piece);
            }
            let piece = slice_chars(s, start, i);
            if piece.len() > 0 {
                out.push(piece);
            }
            proof {
                let p = s@.subrange(start as int, i as int);
                let rest = split_from(s@, sep@, i + m);
                if p.len() == 0 {
                    assert(Seq::<Seq<char>>::empty() + drop_empty(rest) =~= drop_empty(rest));
                } else {
                    assert(views(out@) =~= old_out.push(p));
                    assert(old_out + (seq![p] + drop_empty(rest)) =~= old_out.push(p) + drop_empty(
                        rest,
                    ));
                }
            }
            i = i + m;
            start = i;
        } else {
            i = i + 1;
        }
    }
    proof {
        lemma_first_occurrence_skip(s@, sep@, start as int, i as int);
        let piece = s@.subrange(start as int, n as int);
        assert(split_from(s@, sep@, start as int) == seq![piece]);
        lemma_drop_empty_one(piece);
    }
    let ghost old_out = views(out@);
    let piece = slice_chars(s, start, n);
    if piece.len() > 0 {
        out.push(piece);
        assert(views(out@) =~= old_out.push(piece@));
    } else {
        assert(old_out + Seq::<Seq<char>>::empty() =~= old_out);
    }
}

/// Every chunk split at `sep`, empty pieces left out.
pub fn split_stage_exec(chunks: &Vec<Vec<char>>, sep: &Vec<char>) -> (r: Vec<Vec<char>>)
    ensures
        views(r@) == split_stage(views(chunks@), sep@),
{
    let mut r: Vec<Vec<char>> = Vec::new();
    let n = chunks.len();
    let mut k: usize = 0;
    while k < n
        invariant
            n == chunks@.len(),
            k <= n,
            views(r@) == split_stage(views(chunks@).take(k as int), sep@),
        decreases n - k,
    {
        push_pieces(&chunks[k], sep, &mut r);
        proof {
            let t = views(chunks@).take(k + 1);
            assert(t.drop_last() =~= views(chunks@).take(k as int));
            assert(t.last() == chunks@[k as int]@);
        }
        k = k + 1;
    }
    proof {
        assert(views(chunks@).take(n as int) =~= views(chunks@));
    }
    r
}

/// The separators of the chunker as vectors.
fn separators() -> (r: Vec<Vec<char>>)
    ensures
        views(r@) == chunk_separators(),
{
    let mut r: Vec<Vec<char>> = Vec::new();
    r.push(vec!['\n', '\n']);
    r.push(vec!['\n']);
    r.push(vec![' ']);
    r.push(Vec::new());
    r.push(vec!['!', ' ']);
    r.push(vec!['?', ' ']);
    r.push(vec!['.', ' ']);
    assert(r@[0]@ =~= seq!['\n', '\n']);
    assert(r@[1]@ =~= seq!['\n']);
    assert(r@[2]@ =~= seq![' ']);
    assert(r@[3]@ =~= Seq::<char>::empty());
    assert(r@[4]@ =~= seq!['!', ' ']);
    assert(r@[5]@ =~= seq!['?', ' ']);
    assert(r@[6]@ =~= seq!['.', ' ']);
    assert(views(r@) =~= chunk_separators());
    r
}

/// The chunks of one document's content.
pub fn chunk_content(content: &Vec<char>) -> (r: Vec<Vec<char>>)
    ensures
        views(r@) == document_chunks(content@),
{
    let seps = separators();
    let mut cur: Vec<Vec<char>> = Vec::new();
    cur.push(slice_chars(content, 0, content.len()));
    proof {
        assert(content@.subrange(0, content@.len() as int) =~= content@);
        assert(views(cur@) =~= seq![content@]);
        assert(chunk_separators().skip(0) =~= chunk_separators());
    }
    let mut k: usize = 0;
    while k < seps.len()
        invariant
            views(seps@) == chunk_separators(),
            k <= seps@.len(),
            document_chunks(content@) == split_all(views(cur@), chunk_separators().skip(k as int)),
        decreases seps@.len() - k,
    {
        let next = split_stage_exec(&cur, &seps[k]);
        proof {
            let rest = chunk_separators().skip(k as int);
            assert(rest[0] == seps@[k as int]@);
            assert(rest.drop_first() =~= chunk_separators().skip(k + 1));
        }
        cur = next;
        k = k + 1;
    }
    proof {
        assert(chunk_separators().skip(k as int) =~= Seq::<Seq<char>>::empty());
    }
    cur
}


/// A character that the chunker keeps: anything but newline and space.
pub open spec fn is_visible(c: char) -> bool {
    c != '\n' && c != ' '
}

/// The characters of `s` other than newline and space, in order.
pub open spec fn visible_chars(s: Seq<char>) -> Seq<char> {
    s.filter(|c: char| is_visible(c))
}

/// The pieces laid end to end.
pub open spec fn join(pieces: Seq<Seq<char>>) -> Seq<char>
    decreases pieces.len(),
{
    if pieces.len() == 0 {
        Seq::<char>::empty()
    } else {
        join(pieces.drop_last()) + pieces.last()
    }
}

/// `s` with every `c` removed.
spec fn without(s: Seq<char>, c: char) -> Seq<char>
    decreases s.len(),
{
    if s.len() == 0 {
        s
    } else if s.last() == c {
        without(s.drop_last(), c)
    } else {
        without(s.drop_last(), c).push(s.last())
    }
}

spec fn lacks(s: Seq<char>, c: char) -> bool {
    forall|i: int| 0 <= i < s.len() ==> s[i] != c
}

spec fn all_lack(pieces: Seq<Seq<char>>, c: char) -> bool {
    forall|i: int| 0 <= i < pieces.len() ==> lacks(#[trigger] pieces[i], c)
}

proof fn lemma_join_append(a: Seq<Seq<char>>, b: Seq<Seq<char>>)
    ensures
        join(a + b) == join(a) + join(b),
    decreases b.len(),
{
    if b.len() == 0 {
        assert(a + b =~= a);
        assert(join(a) + Seq::<char>::empty() =~= join(a));
    } else {
        lemma_join_append(a, b.drop_last());
        assert((a + b).drop_last() =~= a + b.drop_last());
        assert(join(a) + join(b.drop_last()) + b.last() =~= join(a) + (join(b.drop_last())
            + b.last()));
    }
}

proof fn lemma_join_one(p: Seq<char>)
    ensures
        join(seq![p]) == p,
{
    assert(seq![p].drop_last() =~= Seq::<Seq<char>>::empty());
    assert(join(Seq::<Seq<char>>::empty()) == Seq::<char>::empty());
    assert(seq![p].last() == p);
    assert(Seq::<char>::empty() + p =~= p);
}

proof fn lemma_join_drop_empty(p: Seq<Seq<char>>)
    ensures
        join(drop_empty(p)) == join(p),
    decreases p.len(),
{
    if p.len() > 0 {
        lemma_join_drop_empty(p.drop_last());
        let rest = drop_empty(p.drop_last());
        if p.last().len() == 0 {
            assert(join(p.drop_last()) + p.last() =~= join(p.drop_last()));
        } else {
            assert(rest.push(p.last()).drop_last() =~= rest);
        }
    }
}

proof fn lemma_without_append(a: Seq<char>, b: Seq<char>, c: char)
    ensures
        without(a + b, c) == without(a, c) + without(b, c),
    decreases b.len(),
{
    if b.len() == 0 {
        assert(a + b =~= a);
        assert(without(a, c) + without(b, c) =~= without(a, c));
    } else {
        lemma_without_append(a, b.drop_last(), c);
        assert((a + b).drop_last() =~= a + b.drop_last());
        assert((a + b).last() == b.last());
        if b.last() != c {
            assert(without(a, c) + without(b.drop_last(), c).push(b.last()) =~= (without(a, c)
                + without(b.drop_last(), c)).push(b.last()));
        }
    }
}

proof fn lemma_without_lacking(s: Seq<char>, c: char)
    requires
        lacks(s, c),
    ensures
        without(s, c) == s,
    decreases s.len(),
{
    if s.len() > 0 {
        lemma_without_lacking(s.drop_last(), c);
        assert(s.drop_last().push(s.last()) =~= s);
    }
}

proof fn lemma_without_repeated(sep: Seq<char>, c: char)
    requires
        forall|i: int| 0 <= i < sep.len() ==> sep[i] == c,
    ensures
        without(sep, c) == Seq::<char>::empty(),
    decreases sep.len(),
{
    if sep.len() > 0 {
        lemma_without_repeated(sep.drop_last(), c);
    }
}

proof fn lemma_join_lacks(p: Seq<Seq<char>>, c: char)
    requires
        all_lack(p, c),
    ensures
        lacks(join(p), c),
    decreases p.len(),
{
    if p.len() > 0 {
        assert(all_lack(p.drop_last(), c)) by {
            assert forall|i: int| 0 <= i < p.drop_last().len() implies lacks(
                #[trigger] p.drop_last()[i],
                c,
            ) by {
                assert(p.drop_last()[i] == p[i]);
            }
        }
        lemma_join_lacks(p.drop_last(), c);
        assert(lacks(p[p.len() - 1], c));
        let j = join(p.drop_last()) + p.last();
        assert forall|i: int| 0 <= i < j.len() implies j[i] != c by {
            if i < join(p.drop_last()).len() {
            } else {
                assert(j[i] == p.last()[i - join(p.drop_last()).len()]);
            }
        }
    }
}

proof fn lemma_drop_empty_all_lack(p: Seq<Seq<char>>, c: char)
    requires
        all_lack(p, c),
    ensures
        all_lack(drop_empty(p), c),
    decreases p.len(),
{
    if p.len() > 0 {
        assert(all_lack(p.drop_last(), c)) by {
            assert forall|i: int| 0 <= i < p.drop_last().len() implies lacks(
                #[trigger] p.drop_last()[i],
                c,
            ) by {
                assert(p.drop_last()[i] == p[i]);
            }
        }
        lemma_drop_empty_all_lack(p.drop_last(), c);
        assert(lacks(p[p.len() - 1], c));
    }
}

proof fn lemma_all_lack_append(a: Seq<Seq<char>>, b: Seq<Seq<char>>, c: char)
    requires
        all_lack(a, c),
        all_lack(b, c),
    ensures
        all_lack(a + b, c),
{
    assert forall|i: int| 0 <= i < (a + b).len() implies lacks(#[trigger] (a + b)[i], c) by {
        if i < a.len() {
            assert((a + b)[i] == a[i]);
        } else {
            assert((a + b)[i] == b[i - a.len()]);
        }
    }
}

/// Removing `c` from the pieces of a split at a separator made of `c` only
/// gives the text with `c` removed.
proof fn lemma_split_without(s: Seq<char>, sep: Seq<char>, start: int, c: char)
    requires
        0 <= start <= s.len(),
        sep.len() > 0,
        forall|i: int| 0 <= i < sep.len() ==> sep[i] == c,
    ensures
        without(join(split_from(s, sep, start)), c) == without(s.subrange(start, s.len() as int), c),
    decreases s.len() - start,
{
    lemma_first_occurrence(s, sep, start);
    match first_occurrence_from(s, sep, start) {
        Some(j) => {
            let piece = s.subrange(start, j);
            let rest = split_from(s, sep, j + sep.len());
            lemma_split_without(s, sep, j + sep.len(), c);
            lemma_join_append(seq![piece], rest);
            lemma_join_one(piece);
            lemma_without_append(piece, join(rest), c);
            let tail = s.subrange(j + sep.len(), s.len() as int);
            assert(s.subrange(start, s.len() as int) =~= piece + sep + tail);
            lemma_without_append(piece + sep, tail, c);
            lemma_without_append(piece, sep, c);
            lemma_without_repeated(sep, c);
            assert(without(piece, c) + Seq::<char>::empty() =~= without(piece, c));
        },
        None => {
            lemma_join_one(s.subrange(start, s.len() as int));
        },
    }
}

/// The pieces of a split at the one-character separator `c` hold no `c`.
proof fn lemma_split_single_lacks(s: Seq<char>, c: char, start: int)
    requires
        0 <= start <= s.len(),
    ensures
        all_lack(split_from(s, seq![c], start), c),
    decreases s.len() - start,
{
    let sep = seq![c];
    lemma_first_occurrence(s, sep, start);
    assert forall|k: int| start <= k < s.len() && !occurs_at(s, sep, k) implies s[k] != c by {
        if s[k] == c {
            assert(s.subrange(k, k + 1) =~= sep);
        }
    }
    match first_occurrence_from(s, sep, start) {
        Some(j) => {
            let piece = s.subrange(start, j);
            let rest = split_from(s, sep, j + 1);
            lemma_split_single_lacks(s, c, j + 1);
            assert(all_lack(seq![piece], c)) by {
                assert forall|i: int| 0 <= i < piece.len() implies piece[i] != c by {
                    assert(piece[i] == s[start + i]);
                    assert(!occurs_at(s, sep, start + i));
                }
                assert(seq![piece][0] == piece);
            }
            lemma_all_lack_append(seq![piece], rest, c);
        },
        None => {
            let piece = s.subrange(start, s.len() as int);
            assert forall|i: int| 0 <= i < piece.len() implies piece[i] != c by {
                assert(piece[i] == s[start + i]);
                assert(!occurs_at(s, sep, start + i));
            }
            assert(seq![piece][0] == piece);
        },
    }
}

proof fn lemma_stage_without(chunks: Seq<Seq<char>>, sep: Seq<char>, c: char)
    requires
        sep.len() > 0,
        forall|i: int| 0 <= i < sep.len() ==> sep[i] == c,
    ensures
        without(join(split_stage(chunks, sep)), c) == without(join(chunks), c),
    decreases chunks.len(),
{
    if chunks.len() > 0 {
        let last = chunks.last();
        lemma_stage_without(chunks.drop_last(), sep, c);
        let pieces = split_from(last, sep, 0);
        lemma_join_append(split_stage(chunks.drop_last(), sep), drop_empty(pieces));
        lemma_join_drop_empty(pieces);
        lemma_without_append(join(split_stage(chunks.drop_last(), sep)), join(pieces), c);
        lemma_split_without(last, sep, 0, c);
        assert(last.subrange(0, last.len() as int) =~= last);
        lemma_without_append(join(chunks.drop_last()), last, c);
    }
}

proof fn lemma_stage_single_lacks(chunks: Seq<Seq<char>>, c: char)
    ensures
        all_lack(split_stage(chunks, seq![c]), c),
    decreases chunks.len(),
{
    if chunks.len() > 0 {
        lemma_stage_single_lacks(chunks.drop_last(), c);
        lemma_split_single_lacks(chunks.last(), c, 0);
        lemma_drop_empty_all_lack(split_from(chunks.last(), seq![c], 0), c);
        lemma_all_lack_append(
            split_stage(chunks.drop_last(), seq![c]),
            drop_empty(split_from(chunks.last(), seq![c], 0)),
            c,
        );
    }
}

proof fn lemma_singletons_append(a: Seq<char>, b: Seq<char>)
    ensures
        singletons(a + b) == singletons(a) + singletons(b),
{
    assert(singletons(a + b) =~= singletons(a) + singletons(b));
}

proof fn lemma_stage_empty_separator(chunks: Seq<Seq<char>>)
    ensures
        split_stage(chunks, Seq::<char>::empty()) == singletons(join(chunks)),
    decreases chunks.len(),
{
    if chunks.len() == 0 {
        assert(singletons(Seq::<char>::empty()) =~= Seq::<Seq<char>>::empty());
    } else {
        lemma_stage_empty_separator(chunks.drop_last());
        lemma_empty_separator(chunks.last());
        lemma_singletons_append(join(chunks.drop_last()), chunks.last());
    }
}

/// A separator of two or more characters leaves one-character chunks as they are.
proof fn lemma_stage_long_separator(chunks: Seq<Seq<char>>, sep: Seq<char>)
    requires
        sep.len() >= 2,
        forall|i: int| 0 <= i < chunks.len() ==> (#[trigger] chunks[i]).len() == 1,
    ensures
        split_stage(chunks, sep) == chunks,
    decreases chunks.len(),
{
    if chunks.len() > 0 {
        let last = chunks.last();
        assert(forall|i: int|
            0 <= i < chunks.drop_last().len() ==> chunks.drop_last()[i] == chunks[i]);
        lemma_stage_long_separator(chunks.drop_last(), sep);
        assert(last.len() == 1);
        assert(first_occurrence_from(last, sep, 0) is None);
        assert(last.subrange(0, 1) =~= last);
        assert(split_from(last, sep, 0) == seq![last]);
        lemma_drop_empty_one(last);
        assert(chunks.drop_last() + seq![last] =~= chunks);
    }
}

proof fn lemma_visible_is_without(s: Seq<char>)
    ensures
        visible_chars(s) == without(without(s, '\n'), ' '),
    decreases s.len(),
{
    reveal(Seq::filter);
    if s.len() > 0 {
        lemma_visible_is_without(s.drop_last());
        let c = s.last();
        if c == '\n' {
        } else {
            assert(without(s, '\n') == without(s.drop_last(), '\n').push(c));
            assert(without(s, '\n').drop_last() =~= without(s.drop_last(), '\n'));
            assert(without(s, '\n').last() == c);
        }
    }
}

/// The chunks of a document are its characters other than newline and
/// space, one character per chunk, in the order of the text.
pub proof fn law_document_chunks_are_visible_chars(content: Seq<char>)
    ensures
        document_chunks(content) == singletons(visible_chars(content)),
{
    let seps = chunk_separators();
    let nn = seq!['\n', '\n'];
    let nl = seq!['\n'];
    let sp = seq![' '];
    let c0 = seq![content];
    let c1 = split_stage(c0, nn);
    let c2 = split_stage(c1, nl);
    let c3 = split_stage(c2, sp);
    let c4 = split_stage(c3, Seq::<char>::empty());
    // Unfold the cascade one separator at a time.
    let s1 = seps.drop_first();
    let s2 = s1.drop_first();
    let s3 = s2.drop_first();
    let s4 = s3.drop_first();
    let s5 = s4.drop_first();
    let s6 = s5.drop_first();
    let s7 = s6.drop_first();
    assert(seps[0] == nn);
    assert(s1[0] == nl);
    assert(s2[0] == sp);
    assert(s3[0] == Seq::<char>::empty());
    assert(s4[0] == seq!['!', ' ']);
    assert(s5[0] == seq!['?', ' ']);
    assert(s6[0] == seq!['.', ' ']);
    assert(s7.len() == 0);
    // The text without newlines and spaces.
    lemma_join_one(content);
    lemma_stage_without(c0, nn, '\n');
    lemma_stage_without(c1, nl, '\n');
    lemma_stage_single_lacks(c1, '\n');
    lemma_join_lacks(c2, '\n');
    lemma_without_lacking(join(c2), '\n');
    lemma_stage_without(c2, sp, ' ');
    lemma_stage_single_lacks(c2, ' ');
    lemma_join_lacks(c3, ' ');
    lemma_without_lacking(join(c3), ' ');
    assert(join(c3) == without(without(content, '\n'), ' '));
    lemma_visible_is_without(content);
    // One character per chunk.
    lemma_stage_empty_separator(c3);
    assert(forall|i: int| 0 <= i < c4.len() ==> (#[trigger] c4[i]).len() == 1);
    lemma_stage_long_separator(c4, seq!['!', ' ']);
    lemma_stage_long_separator(c4, seq!['?', ' ']);
    lemma_stage_long_separator(c4, seq!['.', ' ']);
    assert(split_all(c0, seps) == split_all(c1, s1));
    assert(split_all(c1, s1) == split_all(c2, s2));
    assert(split_all(c2, s2) == split_all(c3, s3));
    assert(split_all(c3, s3) == split_all(c4, s4));
    assert(split_all(c4, s4) == split_all(c4, s5));
    assert(split_all(c4, s5) == split_all(c4, s6));
    assert(split_all(c4, s6) == split_all(c4, s7));
    assert(split_all(c4, s7) == c4);
}

/// The chunks of all documents are the characters of their texts, taken
/// in document order, other than newline and space, one character per chunk.
pub proof fn law_chunks_are_visible_chars(contents: Seq<Seq<char>>)
    ensures
        chunks_of_contents(contents) == singletons(visible_chars(join(contents))),
    decreases contents.len(),
{
    if contents.len() == 0 {
        reveal(Seq::filter);
        assert(singletons(visible_chars(Seq::<char>::empty())) =~= Seq::<Seq<char>>::empty());
    } else {
        let rest = contents.drop_last();
        let last = contents.last();
        law_chunks_are_visible_chars(rest);
        law_document_chunks_are_visible_chars(last);
        Seq::filter_distributes_over_add(join(rest), last, |c: char| is_visible(c));
        lemma_singletons_append(visible_chars(join(rest)), visible_chars(last));
    }
}

} // verus!
