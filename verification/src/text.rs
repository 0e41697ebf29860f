//! Character-level text helpers: moving between `&str`, `Vec<char>` and
//! `String`, and splitting character sequences on a separator.
use vstd::prelude::*;

verus! {

/// Holds when `s` does not contain the character `sep`.
pub open spec fn free_of(s: Seq<char>, sep: char) -> bool {
    forall|i: int| 0 <= i < s.len() ==> s[i] != sep
}

/// Holds when no element of `pieces` contains the character `sep`.
pub open spec fn all_free_of(pieces: Seq<Seq<char>>, sep: char) -> bool {
    forall|i: int| 0 <= i < pieces.len() ==> free_of(#[trigger] pieces[i], sep)
}

/// The pieces of `s` between occurrences of `sep`, in order. Splitting never
/// yields an empty result: a string without `sep` is one piece (possibly
/// empty), and each occurrence of `sep` starts a new piece.
pub open spec fn split_on(s: Seq<char>, sep: char) -> Seq<Seq<char>>
    decreases s.len(),
{
    if s.len() == 0 {
        seq![Seq::<char>::empty()]
    } else if s[0] == sep {
        seq![Seq::<char>::empty()] + split_on(s.drop_first(), sep)
    } else {
        let rest = split_on(s.drop_first(), sep);
        seq![seq![s[0]] + rest[0]] + rest.drop_first()
    }
}

/// The concatenation of `pieces` with `sep` between consecutive pieces.
pub open spec fn join_with(pieces: Seq<Seq<char>>, sep: char) -> Seq<char>
    decreases pieces.len(),
{
    if pieces.len() == 0 {
        Seq::<char>::empty()
    } else if pieces.len() == 1 {
        pieces[0]
    } else {
        pieces[0] + seq![sep] + join_with(pieces.drop_first(), sep)
    }
}

/// Splitting always yields at least one piece.
pub proof fn lemma_split_on_nonempty(s: Seq<char>, sep: char)
    ensures
        split_on(s, sep).len() >= 1,
    decreases s.len(),
{
    if s.len() > 0 {
        lemma_split_on_nonempty(s.drop_first(), sep);
    }
}

/// A string without the separator splits into exactly itself.
pub proof fn lemma_split_free(s: Seq<char>, sep: char)
    requires
        free_of(s, sep),
    ensures
        split_on(s, sep) == seq![s],
    decreases s.len(),
{
    if s.len() == 0 {
        assert(split_on(s, sep) =~~= seq![s]);
    } else {
        lemma_split_free(s.drop_first(), sep);
        let rest = split_on(s.drop_first(), sep);
        assert(rest.drop_first() =~~= Seq::<Seq<char>>::empty());
        assert(seq![s[0]] + s.drop_first() =~= s);
        assert(split_on(s, sep) =~~= seq![s]);
    }
}

/// Splitting off a separator-free prefix: the prefix becomes the first piece
/// and the rest splits independently.
pub proof fn lemma_split_prefix_free(x: Seq<char>, r: Seq<char>, sep: char)
    requires
        free_of(x, sep),
    ensures
        split_on(x + seq![sep] + r, sep) == seq![x] + split_on(r, sep),
    decreases x.len(),
{
    let s = x + seq![sep] + r;
    if x.len() == 0 {
        assert(s[0] == sep);
        assert(s.drop_first() =~= r);
        assert(split_on(s, sep) =~~= seq![x] + split_on(r, sep));
    } else {
        assert(s[0] == x[0]);
        assert(s.drop_first() =~= x.drop_first() + seq![sep] + r);
        lemma_split_prefix_free(x.drop_first(), r, sep);
        let rest = split_on(s.drop_first(), sep);
        assert(rest == seq![x.drop_first()] + split_on(r, sep));
        assert(rest[0] == x.drop_first());
        assert(seq![s[0]] + rest[0] =~= x);
        assert(rest.drop_first() =~~= split_on(r, sep));
        assert(split_on(s, sep) =~~= seq![x] + split_on(r, sep));
    }
}

/// Splitting a joined sequence of separator-free pieces recovers exactly
/// those pieces.
pub proof fn lemma_split_join(pieces: Seq<Seq<char>>, sep: char)
    requires
        pieces.len() >= 1,
        all_free_of(pieces, sep),
    ensures
        split_on(join_with(pieces, sep), sep) == pieces,
    decreases pieces.len(),
{
    if pieces.len() == 1 {
        lemma_split_free(pieces[0], sep);
        assert(split_on(join_with(pieces, sep), sep) =~~= pieces);
    } else {
        lemma_split_join(pieces.drop_first(), sep);
        lemma_split_prefix_free(pieces[0], join_with(pieces.drop_first(), sep), sep);
        assert(split_on(join_with(pieces, sep), sep) =~~= pieces);
    }
}

/// A join of pieces that all avoid a character other than the separator
/// avoids that character too.
pub proof fn lemma_join_free_of(pieces: Seq<Seq<char>>, sep: char, c: char)
    requires
        c != sep,
        all_free_of(pieces, c),
    ensures
        free_of(join_with(pieces, sep), c),
    decreases pieces.len(),
{
    if pieces.len() == 1 {
        assert(free_of(pieces[0], c));
    } else if pieces.len() > 1 {
        lemma_join_free_of(pieces.drop_first(), sep, c);
        assert(free_of(pieces[0], c));
    }
}

/// Joining one more piece appends a separator and then that piece.
pub proof fn lemma_join_push(pieces: Seq<Seq<char>>, x: Seq<char>, sep: char)
    requires
        pieces.len() >= 1,
    ensures
        join_with(pieces.push(x), sep) == join_with(pieces, sep) + seq![sep] + x,
    decreases pieces.len(),
{
    if pieces.len() == 1 {
        assert(pieces.push(x).drop_first() =~~= seq![x]);
        assert(pieces.push(x)[0] == pieces[0]);
        assert(join_with(seq![x], sep) == x);
    } else {
        assert(pieces.push(x).drop_first() =~~= pieces.drop_first().push(x));
        lemma_join_push(pieces.drop_first(), x, sep);
        assert(pieces[0] + seq![sep] + (join_with(pieces.drop_first(), sep) + seq![sep] + x) =~= (
        pieces[0] + seq![sep] + join_with(pieces.drop_first(), sep)) + seq![sep] + x);
    }
}

/// A line with a trailing carriage return loses it; any other line is kept
/// as it is.
pub open spec fn strip_cr(line: Seq<char>) -> Seq<char> {
    if line.len() > 0 && line.last() == '\r' {
        line.drop_last()
    } else {
        line
    }
}

/// The physical lines of a document: pieces between `\n` characters, each
/// with one trailing `\r` removed, and with no spurious empty line after a
/// trailing line terminator.
pub open spec fn lines_spec(s: Seq<char>) -> Seq<Seq<char>> {
    if s.len() == 0 {
        Seq::<Seq<char>>::empty()
    } else if s.last() == '\n' {
        split_on(s.drop_last(), '\n').map_values(|l: Seq<char>| strip_cr(l))
    } else {
        split_on(s, '\n').map_values(|l: Seq<char>| strip_cr(l))
    }
}

/// Relies on `String::push`: appends the given character to the end of the
/// string.
#[verifier::external_body]
pub(crate) fn push_char(out: &mut String, c: char)
    ensures
        final(out)@ == old(out)@.push(c),
{
    out.push(c)
}

/// Collects the characters of `s` into a vector, preserving order.
pub fn chars_of_str(s: &str) -> (r: Vec<char>)
    ensures
        r@ == s@,
{
    let n = s.unicode_len();
    let mut r: Vec<char> = Vec::new();
    let mut i: usize = 0;
    while i < n
        invariant
            i <= n,
            n == s@.len(),
            r@ == s@.take(i as int),
        decreases n - i,
    {
        r.push(s.get_char(i));
        i = i + 1;
        proof {
            assert(r@ =~= s@.take(i as int));
        }
    }
    proof {
        assert(s@.take(n as int) =~= s@);
    }
    r
}

/// Builds an owned string out of a character vector, preserving order.
pub fn string_of_chars(v: &Vec<char>) -> (r: String)
    ensures
        r@ == v@,
{
    let mut r = String::new();
    let mut i: usize = 0;
    while i < v.len()
        invariant
            i <= v@.len(),
            r@ == v@.take(i as int),
        decreases v@.len() - i,
    {
        push_char(&mut r, v[i]);
        i = i + 1;
        proof {
            assert(r@ =~= v@.take(i as int));
        }
    }
    proof {
        assert(v@.take(v@.len() as int) =~= v@);
    }
    r
}

/// Copies the first `end` characters of `v` into a fresh vector.
pub fn copy_prefix(v: &Vec<char>, end: usize) -> (r: Vec<char>)
    requires
        end <= v@.len(),
    ensures
        r@ == v@.take(end as int),
{
    let mut r: Vec<char> = Vec::new();
    let mut i: usize = 0;
    while i < end
        invariant
            i <= end <= v@.len(),
            r@ == v@.take(i as int),
        decreases end - i,
    {
        r.push(v[i]);
        i = i + 1;
        proof {
            assert(r@ =~= v@.take(i as int));
        }
    }
    r
}

/// Splits the first `end` characters of `v` on every occurrence of `sep`,
/// yielding the pieces of [`split_on`] in order.
pub fn split_prefix(v: &Vec<char>, end: usize, sep: char) -> (r: Vec<Vec<char>>)
    requires
        end <= v@.len(),
    ensures
        r@.len() == split_on(v@.take(end as int), sep).len(),
        forall|j: int|
            0 <= j < r@.len() ==> #[trigger] r@[j]@ == split_on(v@.take(end as int), sep)[j],
{
    let ghost full = split_on(v@.take(end as int), sep);
    let mut out: Vec<Vec<char>> = Vec::new();
    let mut cur: Vec<char> = Vec::new();
    let mut i: usize = 0;
    proof {
        assert(v@.subrange(0, end as int) =~= v@.take(end as int));
        lemma_split_on_nonempty(v@.take(end as int), sep);
        assert(cur@ + full[0] =~= full[0]);
    }
    while i < end
        invariant
            i <= end <= v@.len(),
            full == split_on(v@.take(end as int), sep),
            full.len() == out@.len() + split_on(v@.subrange(i as int, end as int), sep).len(),
            forall|j: int| 0 <= j < out@.len() ==> full[j] == #[trigger] out@[j]@,
            out@.len() < full.len(),
            full[out@.len() as int] == cur@ + split_on(v@.subrange(i as int, end as int), sep)[0],
            forall|j: int|
                1 <= j < split_on(v@.subrange(i as int, end as int), sep).len() ==> full[out@.len()
                    + j] == #[trigger] split_on(v@.subrange(i as int, end as int), sep)[j],
        decreases end - i,
    {
        let ghost tail = split_on(v@.subrange(i as int, end as int), sep);
        let ghost tail2 = split_on(v@.subrange(i as int + 1, end as int), sep);
        proof {
            let t = v@.subrange(i as int, end as int);
            assert(t.len() > 0);
            assert(t[0] == v@[i as int]);
            assert(t.drop_first() =~= v@.subrange(i as int + 1, end as int));
            lemma_split_on_nonempty(v@.subrange(i as int + 1, end as int), sep);
        }
        let c = v[i];
        if c == sep {
            proof {
                assert(tail == seq![Seq::<char>::empty()] + tail2);
                assert(tail[0] == Seq::<char>::empty());
                assert(cur@ + tail[0] =~= cur@);
                assert(tail[1] == tail2[0]);
            }
            out.push(cur);
            cur = Vec::new();
            proof {
                assert(cur@ + tail2[0] =~= tail2[0]);
                assert(forall|j: int|
                    1 <= j < tail2.len() ==> #[trigger] tail2[j] == tail[j + 1]);
            }
        } else {
            proof {
                assert(tail == seq![seq![v@[i as int]] + tail2[0]] + tail2.drop_first());
                assert(tail[0] == seq![v@[i as int]] + tail2[0]);
                assert(cur@.push(c) + tail2[0] =~= cur@ + tail[0]);
                assert(forall|j: int|
                    1 <= j < tail2.len() ==> #[trigger] tail2[j] == tail2.drop_first()[j - 1]
                        && tail2.drop_first()[j - 1] == tail[j]);
            }
            cur.push(c);
        }
        i = i + 1;
    }
    proof {
        assert(v@.subrange(i as int, end as int) =~= Seq::<char>::empty());
        assert(split_on(v@.subrange(i as int, end as int), sep) == seq![Seq::<char>::empty()]);
        assert(full[out@.len() as int] =~= cur@);
    }
    out.push(cur);
    out
}

/// Concatenates `fields` into one string with `sep` between consecutive
/// fields.
pub fn join_strings(fields: &Vec<String>, sep: char) -> (r: String)
    requires
        fields@.len() >= 1,
    ensures
        r@ == join_with(fields@.map_values(|f: String| f@), sep),
{
    let ghost views = fields@.map_values(|f: String| f@);
    let mut r = String::new();
    r.append(fields[0].as_str());
    proof {
        assert(r@ =~= views[0]);
        assert(views.take(1) =~~= seq![views[0]]);
    }
    let mut k: usize = 1;
    while k < fields.len()
        invariant
            1 <= k <= fields@.len(),
            views == fields@.map_values(|f: String| f@),
            r@ == join_with(views.take(k as int), sep),
        decreases fields@.len() - k,
    {
        push_char(&mut r, sep);
        r.append(fields[k].as_str());
        proof {
            lemma_join_push(views.take(k as int), views[k as int], sep);
            assert(views.take(k as int).push(views[k as int]) =~~= views.take(k as int + 1));
            assert(r@ =~= join_with(views.take(k as int), sep) + seq![sep] + views[k as int]);
        }
        k = k + 1;
    }
    proof {
        assert(views.take(views.len() as int) =~~= views);
    }
    r
}

/// Splits `v` into its physical lines, as [`lines_spec`] describes.
pub fn document_lines(v: &Vec<char>) -> (r: Vec<Vec<char>>)
    ensures
        r@.len() == lines_spec(v@).len(),
        forall|j: int| 0 <= j < r@.len() ==> #[trigger] r@[j]@ == lines_spec(v@)[j],
{
    if v.len() == 0 {
        let r: Vec<Vec<char>> = Vec::new();
        return r;
    }
    let end: usize = if v[v.len() - 1] == '\n' {
        v.len() - 1
    } else {
        v.len()
    };
    proof {
        if v@.last() == '\n' {
            assert(v@.take(end as int) =~= v@.drop_last());
        } else {
            assert(v@.take(end as int) =~= v@);
        }
    }
    let ghost base = split_on(v@.take(end as int), '\n');
    let raw = split_prefix(v, end, '\n');
    let mut out: Vec<Vec<char>> = Vec::new();
    let mut k: usize = 0;
    while k < raw.len()
        invariant
            k <= raw@.len(),
            out@.len() == k,
            raw@.len() == base.len(),
            forall|j: int| 0 <= j < raw@.len() ==> #[trigger] raw@[j]@ == base[j],
            forall|j: int| 0 <= j < k ==> #[trigger] out@[j]@ == strip_cr(base[j]),
        decreases raw@.len() - k,
    {
        let line = &raw[k];
        let m: usize = if line.len() > 0 && line[line.len() - 1] == '\r' {
            line.len() - 1
        } else {
            line.len()
        };
        let piece = copy_prefix(line, m);
        proof {
            if line@.len() > 0 && line@.last() == '\r' {
                assert(line@.take(m as int) =~= line@.drop_last());
            } else {
                assert(line@.take(m as int) =~= line@);
            }
            assert(piece@ == strip_cr(base[k as int]));
        }
        out.push(piece);
        k = k + 1;
    }
    proof {
        assert(lines_spec(v@) == base.map_values(|l: Seq<char>| strip_cr(l)));
    }
    out
}

} // verus!
