use vstd::prelude::*;

verus! {

/// Lines split on `sep`: every maximal run between separators is one piece,
/// so the result always has one more piece than `s` has separators.
pub open spec fn split_on(s: Seq<char>, sep: char) -> Seq<Seq<char>>
    decreases s.len(),
{
    if s.len() == 0 {
        seq![Seq::<char>::empty()]
    } else {
        let init = split_on(s.drop_last(), sep);
        if s.last() == sep {
            init.push(Seq::<char>::empty())
        } else {
            init.update(init.len() - 1, init.last().push(s.last()))
        }
    }
}

/// The pieces of `pieces` glued together with `sep` between neighbours.
pub open spec fn join_with(pieces: Seq<Seq<char>>, sep: char) -> Seq<char>
    decreases pieces.len(),
{
    if pieces.len() == 0 {
        Seq::<char>::empty()
    } else if pieces.len() == 1 {
        pieces[0]
    } else {
        join_with(pieces.drop_last(), sep).push(sep) + pieces.last()
    }
}

/// `s` holds no occurrence of `c`.
pub open spec fn free_of(s: Seq<char>, c: char) -> bool {
    forall|i: int| 0 <= i < s.len() ==> s[i] != c
}

pub proof fn lemma_split_on_nonempty(s: Seq<char>, sep: char)
    ensures
        split_on(s, sep).len() >= 1,
    decreases s.len(),
{
    if s.len() > 0 {
        lemma_split_on_nonempty(s.drop_last(), sep);
    }
}

proof fn lemma_split_append_free(a: Seq<char>, y: Seq<char>, sep: char)
    requires
        free_of(y, sep),
    ensures
        split_on(a + y, sep).len() == split_on(a, sep).len(),
        split_on(a + y, sep) == split_on(a, sep).update(
            split_on(a, sep).len() - 1,
            split_on(a, sep).last() + y,
        ),
    decreases y.len(),
{
    lemma_split_on_nonempty(a, sep);
    if y.len() == 0 {
        assert(a + y =~= a);
        assert(split_on(a, sep).last() + y =~= split_on(a, sep).last());
        assert(split_on(a, sep).update(split_on(a, sep).len() - 1, split_on(a, sep).last())
            =~= split_on(a, sep));
    } else {
        let y0 = y.drop_last();
        assert(free_of(y0, sep));
        lemma_split_append_free(a, y0, sep);
        assert((a + y).drop_last() =~= a + y0);
        assert((a + y).last() == y.last());
        assert(split_on(a, sep).last() + y0 + seq![y.last()] =~= split_on(a, sep).last() + y);
        lemma_split_on_nonempty(a + y0, sep);
        assert(y[y.len() - 1] != sep);
        let sa = split_on(a, sep);
        let s0 = split_on(a + y0, sep);
        assert(s0.last() == sa.last() + y0);
        assert(split_on(a + y, sep) == s0.update(s0.len() - 1, s0.last().push(y.last())));
        assert((sa.last() + y0).push(y.last()) =~= sa.last() + y);
        assert(split_on(a + y, sep) =~= split_on(a, sep).update(
            split_on(a, sep).len() - 1,
            split_on(a, sep).last() + y,
        ));
    }
}

/// Splitting what `join_with` glued gives the pieces back, as long as no
/// piece holds the separator itself.
pub proof fn lemma_split_join(pieces: Seq<Seq<char>>, sep: char)
    requires
        pieces.len() >= 1,
        forall|i: int| 0 <= i < pieces.len() ==> free_of(#[trigger] pieces[i], sep),
    ensures
        split_on(join_with(pieces, sep), sep) == pieces,
    decreases pieces.len(),
{
    if pieces.len() == 1 {
        let e = Seq::<char>::empty();
        lemma_split_append_free(e, pieces[0], sep);
        assert(e + pieces[0] =~= pieces[0]);
        assert(split_on(e, sep) =~= seq![e]);
        assert(e + pieces[0] =~= pieces[0]);
        assert(split_on(pieces[0], sep) =~= pieces);
    } else {
        let init = pieces.drop_last();
        assert forall|i: int| 0 <= i < init.len() implies free_of(#[trigger] init[i], sep) by {
            assert(init[i] == pieces[i]);
        }
        lemma_split_join(init, sep);
        let j = join_with(init, sep);
        assert(pieces.last() == pieces[pieces.len() - 1]);
        lemma_split_append_free(j.push(sep), pieces.last(), sep);
        assert(j.push(sep).drop_last() =~= j);
        lemma_split_on_nonempty(j, sep);
        assert(split_on(j.push(sep), sep) =~= init.push(Seq::<char>::empty()));
        assert(Seq::<char>::empty() + pieces.last() =~= pieces.last());
        assert(split_on(join_with(pieces, sep), sep) =~= pieces);
    }
}

proof fn lemma_join_extend_last(p: Seq<Seq<char>>, sep: char, c: char)
    requires
        p.len() >= 1,
    ensures
        join_with(p.update(p.len() - 1, p.last().push(c)), sep) == join_with(p, sep).push(c),
{
    let q = p.update(p.len() - 1, p.last().push(c));
    if p.len() == 1 {
        assert(q[0] == p[0].push(c));
    } else {
        assert(q.drop_last() =~= p.drop_last());
        assert(q.last() == p.last().push(c));
        assert(join_with(q, sep) == join_with(q.drop_last(), sep).push(sep) + q.last());
        assert(join_with(p.drop_last(), sep).push(sep) + p.last().push(c) =~= (join_with(
            p.drop_last(),
            sep,
        ).push(sep) + p.last()).push(c));
    }
}

/// Gluing back the pieces that splitting gave restores the text.
pub proof fn lemma_join_split(s: Seq<char>, sep: char)
    ensures
        join_with(split_on(s, sep), sep) == s,
    decreases s.len(),
{
    if s.len() == 0 {
        assert(join_with(seq![Seq::<char>::empty()], sep) == Seq::<char>::empty());
    } else {
        let init = split_on(s.drop_last(), sep);
        lemma_join_split(s.drop_last(), sep);
        lemma_split_on_nonempty(s.drop_last(), sep);
        if s.last() == sep {
            let p = init.push(Seq::<char>::empty());
            assert(p.drop_last() =~= init);
            assert(join_with(p, sep) == join_with(init, sep).push(sep) + Seq::<char>::empty());
            assert(s.drop_last().push(sep) + Seq::<char>::empty() =~= s);
        } else {
            lemma_join_extend_last(init, sep, s.last());
            assert(s.drop_last().push(s.last()) =~= s);
        }
    }
}

/// How many times `c` occurs in `s`.
pub open spec fn count_char(s: Seq<char>, c: char) -> nat
    decreases s.len(),
{
    if s.len() == 0 {
        0
    } else {
        count_char(s.drop_last(), c) + if s.last() == c { 1nat } else { 0nat }
    }
}

/// Splitting gives one piece more than there are separators.
pub proof fn lemma_split_len(s: Seq<char>, sep: char)
    ensures
        split_on(s, sep).len() == count_char(s, sep) + 1,
    decreases s.len(),
{
    if s.len() > 0 {
        lemma_split_len(s.drop_last(), sep);
    }
}

/// Counting over a concatenation adds the counts.
pub proof fn lemma_count_concat(a: Seq<char>, b: Seq<char>, c: char)
    ensures
        count_char(a + b, c) == count_char(a, c) + count_char(b, c),
    decreases b.len(),
{
    if b.len() == 0 {
        assert(a + b =~= a);
    } else {
        lemma_count_concat(a, b.drop_last(), c);
        assert((a + b).drop_last() =~= a + b.drop_last());
    }
}

/// `String::push`, which appends one character.
#[verifier::external_body]
pub(crate) fn push_char(s: &mut String, c: char)
    ensures
        final(s)@ == old(s)@.push(c),
{
    s.push(c);
}

/// The characters of `s`, in order.
pub fn chars_of(s: &str) -> (v: Vec<char>)
    ensures
        v@ == s@,
{
    let n = s.unicode_len();
    let mut v: Vec<char> = Vec::new();
    let mut i: usize = 0;
    while i < n
        invariant
            n == s@.len(),
            i <= n,
            v@ == s@.take(i as int),
        decreases n - i,
    {
        let c = s.get_char(i);
        v.push(c);
        i = i + 1;
        assert(v@ =~= s@.take(i as int));
    }
    assert(s@.take(n as int) =~= s@);
    v
}

/// A `String` holding exactly the characters `cs[from..to]`.
pub fn string_of_range(cs: &Vec<char>, from: usize, to: usize) -> (r: String)
    requires
        from <= to <= cs.len(),
    ensures
        r@ == cs@.subrange(from as int, to as int),
{
    let mut r = String::new();
    let mut i: usize = from;
    while i < to
        invariant
            from <= i <= to <= cs.len(),
            r@ == cs@.subrange(from as int, i as int),
        decreases to - i,
    {
        push_char(&mut r, cs[i]);
        i = i + 1;
        assert(r@ =~= cs@.subrange(from as int, i as int));
    }
    r
}

/// A `String` holding exactly the characters of `cs`.
pub fn string_of(cs: &Vec<char>) -> (r: String)
    ensures
        r@ == cs@,
{
    let r = string_of_range(cs, 0, cs.len());
    assert(cs@.subrange(0, cs@.len() as int) =~= cs@);
    r
}

/// Splits `s` at every `sep`.
pub fn split_string(s: &str, sep: char) -> (pieces: Vec<String>)
    ensures
        pieces@.len() == split_on(s@, sep).len(),
        forall|i: int| 0 <= i < pieces@.len() ==> #[trigger] pieces@[i]@ == split_on(s@, sep)[i],
{
    let cs = chars_of(s);
    let mut pieces: Vec<String> = Vec::new();
    let mut cur = String::new();
    let mut i: usize = 0;
    while i < cs.len()
        invariant
            cs@ == s@,
            i <= cs.len(),
            pieces@.len() + 1 == split_on(s@.take(i as int), sep).len(),
            forall|k: int| 0 <= k < pieces@.len() ==> #[trigger] pieces@[k]@ == split_on(s@.take(i as int), sep)[k],
            cur@ == split_on(s@.take(i as int), sep).last(),
        decreases cs.len() - i,
    {
        let c = cs[i];
        proof {
            assert(s@.take(i + 1).drop_last() =~= s@.take(i as int));
            lemma_split_on_nonempty(s@.take(i as int), sep);
        }
        if c == sep {
            pieces.push(cur);
            cur = String::new();
        } else {
            push_char(&mut cur, c);
        }
        i = i + 1;
    }
    assert(s@.take(cs.len() as int) =~= s@);
    pieces.push(cur);
    pieces
}

/// Glues the strings of `pieces` together with `sep` between neighbours.
pub fn join_strings(pieces: &Vec<String>, sep: char) -> (r: String)
    ensures
        r@ == join_with(pieces@.map_values(|p: String| p@), sep),
{
    let ghost views = pieces@.map_values(|p: String| p@);
    let mut r = String::new();
    let mut i: usize = 0;
    while i < pieces.len()
        invariant
            i <= pieces.len(),
            views == pieces@.map_values(|p: String| p@),
            r@ == join_with(views.take(i as int), sep),
        decreases pieces.len() - i,
    {
        proof {
            assert(views.take(i + 1).drop_last() =~= views.take(i as int));
        }
        if i > 0 {
            push_char(&mut r, sep);
        }
        r.append(pieces[i].as_str());
        i = i + 1;
        proof {
            let t = views.take(i as int);
            assert(t.last() == pieces@[i - 1]@);
            if i == 1 {
                assert(r@ =~= t[0]);
            }
        }
    }
    assert(views.take(pieces.len() as int) =~= views);
    r
}

/// `s` with every occurrence of `pat` replaced by `rep`, scanning from the
/// left and not letting occurrences overlap.
pub open spec fn replace_all(s: Seq<char>, pat: Seq<char>, rep: Seq<char>) -> Seq<char>
    decreases s.len(),
{
    if pat.len() == 0 {
        if s.len() == 0 {
            rep
        } else {
            rep + seq![s[0]] + replace_all(s.skip(1), pat, rep)
        }
    } else if s.len() < pat.len() {
        s
    } else if s.take(pat.len() as int) == pat {
        rep + replace_all(s.skip(pat.len() as int), pat, rep)
    } else {
        seq![s[0]] + replace_all(s.skip(1), pat, rep)
    }
}

/// Whether `pat` occurs in `cs` starting at `i`.
pub fn occurs_at(cs: &Vec<char>, i: usize, pat: &Vec<char>) -> (r: bool)
    requires
        i <= cs.len(),
    ensures
        r == (pat.len() <= cs.len() - i && cs@.skip(i as int).take(pat.len() as int) == pat@),
{
    if pat.len() > cs.len() - i {
        return false;
    }
    let mut k: usize = 0;
    while k < pat.len()
        invariant
            pat.len() <= cs.len() - i,
            k <= pat.len(),
            forall|j: int| 0 <= j < k ==> cs@[i + j] == pat@[j],
        decreases pat.len() - k,
    {
        if cs[i + k] != pat[k] {
            proof {
                assert(cs@.skip(i as int).take(pat.len() as int)[k as int] != pat@[k as int]);
            }
            return false;
        }
        k = k + 1;
    }
    assert(cs@.skip(i as int).take(pat.len() as int) =~= pat@);
    true
}

/// `s` with every occurrence of `pat` replaced by `rep`, as `str::replace`
/// does it.
pub fn replace_string(s: &str, pat: &str, rep: &str) -> (r: String)
    ensures
        r@ == replace_all(s@, pat@, rep@),
{
    let cs = chars_of(s);
    let ps = chars_of(pat);
    let mut r = String::new();
    if ps.len() == 0 {
        let mut i: usize = 0;
        assert(s@.skip(0) =~= s@);
        assert(r@ + replace_all(s@, pat@, rep@) =~= replace_all(s@, pat@, rep@));
        while i < cs.len()
            invariant
                cs@ == s@,
                ps@ == pat@,
                pat@.len() == 0,
                i <= cs.len(),
                replace_all(s@, pat@, rep@) == r@ + replace_all(s@.skip(i as int), pat@, rep@),
            decreases cs.len() - i,
        {
            r.append(rep);
            push_char(&mut r, cs[i]);
            proof {
                assert(s@.skip(i as int).skip(1) =~= s@.skip(i + 1));
            }
            i = i + 1;
        }
        assert(s@.skip(cs.len() as int) =~= Seq::<char>::empty());
        r.append(rep);
        return r;
    }
    let mut i: usize = 0;
    assert(s@.skip(0) =~= s@);
    assert(r@ + replace_all(s@, pat@, rep@) =~= replace_all(s@, pat@, rep@));
    while i < cs.len()
        invariant
            cs@ == s@,
            ps@ == pat@,
            ps.len() > 0,
            i <= cs.len(),
            replace_all(s@, pat@, rep@) == r@ + replace_all(s@.skip(i as int), pat@, rep@),
        decreases cs.len() - i,
    {
        let t = Ghost(s@.skip(i as int));
        if occurs_at(&cs, i, &ps) {
            r.append(rep);
            proof {
                assert(t@.skip(pat@.len() as int) =~= s@.skip(i + ps.len()));
            }
            i = i + ps.len();
        } else {
            push_char(&mut r, cs[i]);
            proof {
                assert(t@.skip(1) =~= s@.skip(i + 1));
                if t@.len() < pat@.len() {
                    assert(replace_all(t@, pat@, rep@) == t@);
                    assert(replace_all(t@.skip(1), pat@, rep@) == t@.skip(1)) by {
                        assert(t@.skip(1).len() < pat@.len());
                    }
                    assert(t@ =~= seq![t@[0]] + t@.skip(1));
                }
            }
            i = i + 1;
        }
    }
    assert(s@.skip(cs.len() as int) =~= Seq::<char>::empty());
    assert(r@ + Seq::<char>::empty() =~= r@);
    r
}

/// `pat` occurs in `s` starting at `i`.
pub open spec fn occurs_at_index(s: Seq<char>, pat: Seq<char>, i: int) -> bool {
    0 <= i && i + pat.len() <= s.len() && s.subrange(i, i + pat.len()) == pat
}

/// `i` is where `pat` first occurs in `s`.
pub open spec fn is_first_occurrence(s: Seq<char>, pat: Seq<char>, i: int) -> bool {
    occurs_at_index(s, pat, i) && forall|j: int| 0 <= j < i ==> !occurs_at_index(s, pat, j)
}

/// Where `pat` first occurs in `s`, if it does.
pub open spec fn first_occurrence(s: Seq<char>, pat: Seq<char>) -> Option<int> {
    if exists|i: int| occurs_at_index(s, pat, i) {
        Some(choose|i: int| is_first_occurrence(s, pat, i))
    } else {
        None
    }
}

pub proof fn lemma_first_occurrence_unique(s: Seq<char>, pat: Seq<char>, i: int)
    requires
        is_first_occurrence(s, pat, i),
    ensures
        first_occurrence(s, pat) == Some(i),
{
    assert(exists|k: int| occurs_at_index(s, pat, k));
    let c = choose|k: int| is_first_occurrence(s, pat, k);
    assert(is_first_occurrence(s, pat, c));
    if c < i {
        assert(!occurs_at_index(s, pat, c));
    }
    if i < c {
        assert(!occurs_at_index(s, pat, i));
    }
}

/// Where `pat` first occurs in `cs`, as `str::find` reports it (counted in
/// characters).
pub fn find_chars(cs: &Vec<char>, pat: &Vec<char>) -> (r: Option<usize>)
    ensures
        match first_occurrence(cs@, pat@) {
            None => r is None,
            Some(i) => r == Some(i as usize),
        },
        r matches Some(i) ==> is_first_occurrence(cs@, pat@, i as int),
{
    let mut i: usize = 0;
    loop
        invariant
            i <= cs.len(),
            forall|j: int| 0 <= j < i ==> !occurs_at_index(cs@, pat@, j),
        decreases cs.len() - i,
    {
        let hit = occurs_at(cs, i, pat);
        proof {
            if pat@.len() + i <= cs@.len() {
                assert(cs@.skip(i as int).take(pat@.len() as int) =~= cs@.subrange(i as int, i + pat@.len()));
            }
        }
        if hit {
            proof {
                lemma_first_occurrence_unique(cs@, pat@, i as int);
            }
            return Some(i);
        }
        if i == cs.len() {
            proof {
                assert forall|j: int| !occurs_at_index(cs@, pat@, j) by {
                    if 0 <= j && j + pat@.len() <= cs@.len() && j != i {
                        assert(j < i);
                    }
                }
            }
            return None;
        }
        i = i + 1;
    }
}

/// Whether `pat` occurs in `cs`.
pub fn contains_chars(cs: &Vec<char>, pat: &Vec<char>) -> (b: bool)
    ensures
        b == first_occurrence(cs@, pat@) is Some,
{
    find_chars(cs, pat).is_some()
}

/// Unicode's `White_Space` property: the tab, line feed, vertical tab,
/// form feed and carriage return, the space, next line, no-break space,
/// ogham space mark, the spaces from en quad to hair space, the line and
/// paragraph separators, the narrow no-break space, the medium mathematical
/// space and the ideographic space.
pub open spec fn white_space(c: char) -> bool {
    let n = c as u32;
    ||| 0x09 <= n <= 0x0D
    ||| n == 0x20
    ||| n == 0x85
    ||| n == 0xA0
    ||| n == 0x1680
    ||| 0x2000 <= n <= 0x200A
    ||| n == 0x2028
    ||| n == 0x2029
    ||| n == 0x202F
    ||| n == 0x205F
    ||| n == 0x3000
}

/// Whether `c` is white space.
pub fn is_whitespace(c: char) -> (b: bool)
    ensures
        b == white_space(c),
{
    let n = c as u32;
    (0x09 <= n && n <= 0x0D) || n == 0x20 || n == 0x85 || n == 0xA0 || n == 0x1680 || (0x2000 <= n && n
        <= 0x200A) || n == 0x2028 || n == 0x2029 || n == 0x202F || n == 0x205F || n == 0x3000
}

/// The number of words of `s`: maximal runs of characters that are not
/// white space.
pub open spec fn words(s: Seq<char>) -> nat
    decreases s.len(),
{
    if s.len() == 0 {
        0
    } else {
        let starts = !white_space(s.last()) && (s.len() == 1 || white_space(s[s.len() - 2]));
        words(s.drop_last()) + if starts { 1nat } else { 0nat }
    }
}

proof fn lemma_words_bounded(s: Seq<char>)
    ensures
        words(s) <= s.len(),
    decreases s.len(),
{
    if s.len() > 0 {
        lemma_words_bounded(s.drop_last());
    }
}

/// How many words `s` has, as `split_whitespace().count()` counts them.
pub fn word_count(s: &str) -> (n: usize)
    ensures
        n == words(s@),
{
    let cs = chars_of(s);
    let mut n: usize = 0;
    let mut prev_ws = true;
    let mut i: usize = 0;
    while i < cs.len()
        invariant
            cs@ == s@,
            i <= cs.len(),
            n == words(s@.take(i as int)),
            prev_ws == (i == 0 || white_space(s@[i - 1])),
        decreases cs.len() - i,
    {
        proof {
            assert(s@.take(i + 1).drop_last() =~= s@.take(i as int));
            lemma_words_bounded(s@.take(i as int));
        }
        let ws = is_whitespace(cs[i]);
        if !ws && prev_ws {
            n = n + 1;
        }
        prev_ws = ws;
        i = i + 1;
    }
    assert(s@.take(cs.len() as int) =~= s@);
    n
}

/// The words of all of `texts` together.
pub open spec fn total_words(texts: Seq<Seq<char>>) -> nat
    decreases texts.len(),
{
    if texts.len() == 0 {
        0
    } else {
        total_words(texts.drop_last()) + words(texts.last())
    }
}

/// How many words `texts` hold together; `None` when the count does not
/// fit in a `usize`.
pub fn count_words(texts: &Vec<String>) -> (r: Option<usize>)
    ensures
        total_words(texts@.map_values(|t: String| t@)) <= usize::MAX ==> r == Some(
            total_words(texts@.map_values(|t: String| t@)) as usize,
        ),
        total_words(texts@.map_values(|t: String| t@)) > usize::MAX ==> r is None,
{
    let ghost views = texts@.map_values(|t: String| t@);
    let mut total: usize = 0;
    let mut i: usize = 0;
    while i < texts.len()
        invariant
            i <= texts.len(),
            views == texts@.map_values(|t: String| t@),
            total == total_words(views.take(i as int)),
        decreases texts.len() - i,
    {
        proof {
            assert(views.take(i + 1).drop_last() =~= views.take(i as int));
        }
        let n = word_count(texts[i].as_str());
        if total > usize::MAX - n {
            proof {
                lemma_total_words_grows(views, i as int + 1);
            }
            return None;
        }
        total = total + n;
        i = i + 1;
    }
    assert(views.take(texts.len() as int) =~= views);
    Some(total)
}

proof fn lemma_total_words_grows(v: Seq<Seq<char>>, k: int)
    requires
        0 <= k <= v.len(),
    ensures
        total_words(v.take(k)) <= total_words(v),
    decreases v.len() - k,
{
    if k < v.len() {
        lemma_total_words_grows(v, k + 1);
        assert(v.take(k + 1).drop_last() =~= v.take(k));
    } else {
        assert(v.take(k) =~= v);
    }
}

} // verus!
