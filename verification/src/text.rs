//! The mathematical model of row-oriented text.
//!
//! A buffer is a sequence of rows, each a sequence of characters with no
//! embedded `'\n'`: newlines exist only as row separators. `split_lines`
//! and `join_lines` translate between a flat character sequence with
//! embedded newlines and the row-oriented form.

use vstd::prelude::*;

verus! {

/// A line holds no newline character; newlines only separate rows.
pub open spec fn line_wf(s: Seq<char>) -> bool {
    forall|i: int| 0 <= i < s.len() ==> s[i] != '\n'
}

/// Every row of the buffer is a proper line.
pub open spec fn lines_wf(rows: Seq<Seq<char>>) -> bool {
    forall|i: int| 0 <= i < rows.len() ==> line_wf(#[trigger] rows[i])
}

/// Splits a character sequence on `'\n'`: `n` newlines give `n + 1` pieces,
/// in order, with the separators removed.
pub open spec fn split_lines(s: Seq<char>) -> Seq<Seq<char>>
    decreases s.len(),
{
    if s.len() == 0 {
        seq![Seq::<char>::empty()]
    } else if s[0] == '\n' {
        seq![Seq::<char>::empty()] + split_lines(s.drop_first())
    } else {
        let rest = split_lines(s.drop_first());
        seq![seq![s[0]] + rest[0]] + rest.drop_first()
    }
}

/// Joins pieces with a `'\n'` separator between each adjacent pair.
pub open spec fn join_lines(ls: Seq<Seq<char>>) -> Seq<char>
    decreases ls.len(),
{
    if ls.len() == 0 {
        Seq::empty()
    } else if ls.len() == 1 {
        ls[0]
    } else {
        ls[0] + seq!['\n'] + join_lines(ls.drop_first())
    }
}

/// Splitting always yields at least one piece.
pub proof fn lemma_split_lines_len(s: Seq<char>)
    ensures
        split_lines(s).len() >= 1,
    decreases s.len(),
{
    if s.len() == 0 {
    } else {
        lemma_split_lines_len(s.drop_first());
    }
}

/// A split has at most one piece more than the text has characters.
pub proof fn lemma_split_lines_count(s: Seq<char>)
    ensures
        split_lines(s).len() <= s.len() + 1,
    decreases s.len(),
{
    if s.len() == 0 {
    } else {
        lemma_split_lines_count(s.drop_first());
        lemma_split_lines_len(s.drop_first());
    }
}

/// A sequence without newlines splits into exactly itself.
pub proof fn lemma_split_lines_no_nl(s: Seq<char>)
    requires
        line_wf(s),
    ensures
        split_lines(s) == seq![s],
    decreases s.len(),
{
    if s.len() == 0 {
        assert(split_lines(s) =~~= seq![s]);
    } else {
        assert(line_wf(s.drop_first()));
        lemma_split_lines_no_nl(s.drop_first());
        assert(seq![s[0]] + s.drop_first() =~= s);
        assert(split_lines(s) =~~= seq![s]);
    }
}

/// Every piece of a split is itself a proper line.
pub proof fn lemma_split_lines_wf(s: Seq<char>)
    ensures
        lines_wf(split_lines(s)),
    decreases s.len(),
{
    if s.len() == 0 {
    } else {
        lemma_split_lines_wf(s.drop_first());
        let rest = split_lines(s.drop_first());
        lemma_split_lines_len(s.drop_first());
        if s[0] == '\n' {
        } else {
            assert(line_wf(seq![s[0]] + rest[0]));
        }
    }
}

/// Prepending newline-free text extends the first piece of the split.
pub proof fn lemma_split_lines_prepend(a: Seq<char>, b: Seq<char>)
    requires
        line_wf(a),
    ensures
        split_lines(a + b) == seq![a + split_lines(b)[0]] + split_lines(b).drop_first(),
    decreases a.len(),
{
    lemma_split_lines_len(b);
    if a.len() == 0 {
        assert(a + b =~= b);
        assert(a + split_lines(b)[0] =~= split_lines(b)[0]);
        assert(seq![split_lines(b)[0]] + split_lines(b).drop_first() =~~= split_lines(b));
    } else {
        let a1 = a.drop_first();
        assert(line_wf(a1));
        lemma_split_lines_prepend(a1, b);
        let ab = a + b;
        assert(ab.len() > 0 && ab[0] == a[0] && a[0] != '\n');
        assert(ab.drop_first() =~= a1 + b);
        let rest = split_lines(a1 + b);
        assert(split_lines(ab) == seq![seq![ab[0]] + rest[0]] + rest.drop_first());
        assert(rest[0] == a1 + split_lines(b)[0]);
        assert(seq![a[0]] + (a1 + split_lines(b)[0]) =~= a + split_lines(b)[0]);
        assert(rest.drop_first() =~~= split_lines(b).drop_first());
        assert(split_lines(ab) =~~= seq![a + split_lines(b)[0]] + split_lines(b).drop_first());
    }
}

/// A newline glues two splits: the pieces of `a`, then the pieces of `b`,
/// when `a` itself holds no newline.
pub proof fn lemma_split_lines_nl(a: Seq<char>, b: Seq<char>)
    requires
        line_wf(a),
    ensures
        split_lines(a + seq!['\n'] + b) == seq![a] + split_lines(b),
    decreases a.len(),
{
    lemma_split_lines_len(b);
    let nb = seq!['\n'] + b;
    assert(nb[0] == '\n');
    assert(nb.drop_first() =~= b);
    assert(split_lines(nb) == seq![Seq::<char>::empty()] + split_lines(b));
    lemma_split_lines_prepend(a, nb);
    assert(a + seq!['\n'] + b =~= a + nb);
    assert(a + split_lines(nb)[0] =~= a);
    assert(split_lines(nb).drop_first() =~~= split_lines(b));
    assert(seq![a] + split_lines(b) =~~= seq![a + split_lines(nb)[0]] + split_lines(nb).drop_first());
}

/// Joining the pieces of a split recovers the original sequence.
pub proof fn lemma_join_split(s: Seq<char>)
    ensures
        join_lines(split_lines(s)) == s,
    decreases s.len(),
{
    if s.len() == 0 {
    } else {
        let s1 = s.drop_first();
        lemma_join_split(s1);
        let r = split_lines(s1);
        lemma_split_lines_len(s1);
        if s[0] == '\n' {
            let sp = seq![Seq::<char>::empty()] + r;
            assert(sp.len() >= 2);
            assert(sp.drop_first() =~~= r);
            assert(sp[0] + seq!['\n'] + join_lines(r) =~= s);
        } else {
            let sp = seq![seq![s[0]] + r[0]] + r.drop_first();
            if r.len() == 1 {
                assert(sp.len() == 1);
                assert(join_lines(r) == r[0]);
                assert(sp[0] =~= s);
            } else {
                assert(sp.len() >= 2);
                assert(sp.drop_first() =~~= r.drop_first());
                assert(join_lines(r) == r[0] + seq!['\n'] + join_lines(r.drop_first()));
                assert(sp[0] + seq!['\n'] + join_lines(r.drop_first()) =~= seq![s[0]] + join_lines(r));
                assert(seq![s[0]] + s1 =~= s);
            }
        }
    }
}

/// Splitting the join of proper lines recovers the lines.
pub proof fn lemma_split_join(ls: Seq<Seq<char>>)
    requires
        ls.len() >= 1,
        lines_wf(ls),
    ensures
        split_lines(join_lines(ls)) == ls,
    decreases ls.len(),
{
    if ls.len() == 1 {
        lemma_split_lines_no_nl(ls[0]);
        assert(split_lines(join_lines(ls)) =~~= ls);
    } else {
        let rest = ls.drop_first();
        assert(lines_wf(rest));
        lemma_split_join(rest);
        lemma_split_lines_nl(ls[0], join_lines(rest));
        assert(join_lines(ls) == ls[0] + seq!['\n'] + join_lines(rest));
        assert(seq![ls[0]] + rest =~~= ls);
    }
}

/// Appending one character to the text extends the split: a newline opens a
/// fresh empty piece, any other character extends the last piece.
pub proof fn lemma_split_lines_push(s: Seq<char>, c: char)
    ensures
        c == '\n' ==> split_lines(s.push(c)) == split_lines(s) + seq![Seq::<char>::empty()],
        c != '\n' ==> split_lines(s.push(c)) == split_lines(s).update(
            split_lines(s).len() - 1,
            split_lines(s).last().push(c),
        ),
    decreases s.len(),
{
    lemma_split_lines_len(s);
    if s.len() == 0 {
        if c == '\n' {
            assert(s.push(c)[0] == '\n');
            assert(s.push(c).drop_first() =~= s);
            assert(split_lines(s.push(c)) =~~= split_lines(s) + seq![Seq::<char>::empty()]);
        } else {
            assert(s.push(c)[0] == c);
            assert(s.push(c).drop_first() =~= s);
            assert(seq![c] + split_lines(s)[0] =~= Seq::<char>::empty().push(c));
            assert(split_lines(s.push(c)) =~~= split_lines(s).update(
                split_lines(s).len() - 1,
                split_lines(s).last().push(c),
            ));
        }
    } else {
        let s1 = s.drop_first();
        lemma_split_lines_push(s1, c);
        lemma_split_lines_len(s1);
        assert(s.push(c)[0] == s[0]);
        assert(s.push(c).drop_first() =~= s1.push(c));
        let r = split_lines(s1);
        let rc = split_lines(s1.push(c));
        if s[0] == '\n' {
            if c == '\n' {
                assert(split_lines(s.push(c)) =~~= split_lines(s) + seq![Seq::<char>::empty()]);
            } else {
                assert(rc == r.update(r.len() - 1, r.last().push(c)));
                assert(split_lines(s.push(c)) =~~= split_lines(s).update(
                    split_lines(s).len() - 1,
                    split_lines(s).last().push(c),
                ));
            }
        } else {
            if c == '\n' {
                assert(rc == r + seq![Seq::<char>::empty()]);
                assert(rc[0] == r[0]);
                assert(rc.drop_first() =~~= r.drop_first() + seq![Seq::<char>::empty()]);
                assert(split_lines(s.push(c)) =~~= split_lines(s) + seq![Seq::<char>::empty()]);
            } else {
                assert(rc == r.update(r.len() - 1, r.last().push(c)));
                assert(rc[0] == if r.len() == 1 { r[0].push(c) } else { r[0] });
                if r.len() == 1 {
                    assert(rc.drop_first() =~~= r.drop_first());
                    assert(seq![s[0]] + r[0].push(c) =~= (seq![s[0]] + r[0]).push(c));
                    assert(split_lines(s.push(c)) =~~= split_lines(s).update(
                        split_lines(s).len() - 1,
                        split_lines(s).last().push(c),
                    ));
                } else {
                    assert(rc.drop_first() =~~= r.drop_first().update(
                        r.drop_first().len() - 1,
                        r.drop_first().last().push(c),
                    ));
                    assert(split_lines(s.push(c)) =~~= split_lines(s).update(
                        split_lines(s).len() - 1,
                        split_lines(s).last().push(c),
                    ));
                }
            }
        }
    }
}

/// Appending newline-free text extends the last piece of the split.
pub proof fn lemma_split_lines_append(a: Seq<char>, b: Seq<char>)
    requires
        line_wf(b),
    ensures
        split_lines(a + b) == split_lines(a).update(
            split_lines(a).len() - 1,
            split_lines(a).last() + b,
        ),
    decreases b.len(),
{
    lemma_split_lines_len(a);
    if b.len() == 0 {
        assert(a + b =~= a);
        assert(split_lines(a).last() + b =~= split_lines(a).last());
        assert(split_lines(a).update(split_lines(a).len() - 1, split_lines(a).last() + b) =~~=
            split_lines(a));
    } else {
        let b1 = b.drop_last();
        let c = b.last();
        assert(line_wf(b1));
        assert(c != '\n');
        lemma_split_lines_append(a, b1);
        lemma_split_lines_push(a + b1, c);
        assert((a + b1).push(c) =~= a + b);
        let sa = split_lines(a);
        let s1 = sa.update(sa.len() - 1, sa.last() + b1);
        assert(split_lines(a + b) == s1.update(s1.len() - 1, s1.last().push(c)));
        assert((sa.last() + b1).push(c) =~= sa.last() + b);
        assert(split_lines(a + b) =~~= sa.update(sa.len() - 1, sa.last() + b));
    }
}

/// Appending one more piece appends a newline and that piece to the join.
pub proof fn lemma_join_lines_push(ls: Seq<Seq<char>>, x: Seq<char>)
    requires
        ls.len() >= 1,
    ensures
        join_lines(ls.push(x)) == join_lines(ls) + seq!['\n'] + x,
    decreases ls.len(),
{
    if ls.len() == 1 {
        assert(ls.push(x).drop_first() =~~= seq![x]);
        assert(join_lines(seq![x]) == x);
        assert(ls.push(x)[0] == ls[0]);
        assert(join_lines(ls.push(x)) == ls[0] + seq!['\n'] + x);
    } else {
        lemma_join_lines_push(ls.drop_first(), x);
        assert(ls.push(x).drop_first() =~~= ls.drop_first().push(x));
        assert(join_lines(ls.push(x)) == ls[0] + seq!['\n'] + (join_lines(ls.drop_first())
            + seq!['\n'] + x));
        assert(ls[0] + seq!['\n'] + (join_lines(ls.drop_first()) + seq!['\n'] + x) =~= (ls[0]
            + seq!['\n'] + join_lines(ls.drop_first())) + seq!['\n'] + x);
    }
}

/// Copies the half-open character range `[from, to)` of `src` into a new
/// vector.
pub fn copy_range(src: &Vec<char>, from: usize, to: usize) -> (r: Vec<char>)
    requires
        from <= to <= src@.len(),
    ensures
        r@ == src@.subrange(from as int, to as int),
{
    let mut r: Vec<char> = Vec::new();
    let mut i: usize = from;
    proof {
        assert(r@ =~= src@.subrange(from as int, from as int));
    }
    while i < to
        invariant
            from <= i <= to <= src@.len(),
            r@ == src@.subrange(from as int, i as int),
        decreases to - i,
    {
        r.push(src[i]);
        proof {
            assert(r@ =~= src@.subrange(from as int, i + 1));
        }
        i = i + 1;
    }
    r
}

/// Appends every character of `src` to `dst`.
pub fn extend_chars(dst: &mut Vec<char>, src: &Vec<char>)
    ensures
        final(dst)@ == old(dst)@ + src@,
{
    let mut i: usize = 0;
    proof {
        assert(dst@ =~= old(dst)@ + src@.take(0));
    }
    while i < src.len()
        invariant
            i <= src@.len(),
            dst@ == old(dst)@ + src@.take(i as int),
        decreases src@.len() - i,
    {
        dst.push(src[i]);
        proof {
            assert(dst@ =~= old(dst)@ + src@.take(i + 1));
        }
        i = i + 1;
    }
    proof {
        assert(old(dst)@ + src@.take(src@.len() as int) =~= old(dst)@ + src@);
    }
}

/// Splits a character vector on `'\n'` into the vector of its pieces.
pub fn split_chars(contents: &Vec<char>) -> (r: Vec<Vec<char>>)
    ensures
        r@.map_values(|p: Vec<char>| p@) == split_lines(contents@),
{
    let mut pieces: Vec<Vec<char>> = Vec::new();
    let mut cur: Vec<char> = Vec::new();
    let mut i: usize = 0;
    proof {
        assert(contents@.take(0) =~= Seq::<char>::empty());
        assert(pieces@.map_values(|p: Vec<char>| p@).push(cur@) =~~= split_lines(
            contents@.take(0),
        ));
    }
    while i < contents.len()
        invariant
            i <= contents@.len(),
            pieces@.map_values(|p: Vec<char>| p@).push(cur@) == split_lines(contents@.take(i as int)),
        decreases contents@.len() - i,
    {
        let c = contents[i];
        proof {
            lemma_split_lines_push(contents@.take(i as int), c);
            assert(contents@.take(i as int).push(c) =~= contents@.take(i + 1));
        }
        if c == '\n' {
            pieces.push(cur);
            cur = Vec::new();
            proof {
                assert(pieces@.map_values(|p: Vec<char>| p@).push(cur@) =~~= split_lines(
                    contents@.take(i + 1),
                ));
            }
        } else {
            cur.push(c);
            proof {
                let prev = split_lines(contents@.take(i as int));
                lemma_split_lines_len(contents@.take(i as int));
                assert(pieces@.map_values(|p: Vec<char>| p@).push(cur@) =~~= prev.update(
                    prev.len() - 1,
                    prev.last().push(c),
                ));
            }
        }
        i = i + 1;
    }
    proof {
        assert(contents@.take(contents@.len() as int) =~= contents@);
    }
    pieces.push(cur);
    proof {
        lemma_split_lines_len(contents@);
    }
    pieces
}


/// The decimal digit character for a value below ten.
pub open spec fn digit_char(d: int) -> char {
    if d == 0 {
        '0'
    } else if d == 1 {
        '1'
    } else if d == 2 {
        '2'
    } else if d == 3 {
        '3'
    } else if d == 4 {
        '4'
    } else if d == 5 {
        '5'
    } else if d == 6 {
        '6'
    } else if d == 7 {
        '7'
    } else if d == 8 {
        '8'
    } else {
        '9'
    }
}

/// The decimal digits of a number, most significant first.
pub open spec fn dec_digits(n: int) -> Seq<char>
    decreases n,
{
    if n < 10 {
        seq![digit_char(n)]
    } else {
        dec_digits(n / 10).push(digit_char(n % 10))
    }
}

/// Writes a number as its decimal digit characters.
pub fn usize_to_chars(n: usize) -> (v: Vec<char>)
    ensures
        v@ == dec_digits(n as int),
{
    let mut rev: Vec<char> = Vec::new();
    let mut m: usize = n;
    loop
        invariant_except_break
            (rev@.len() == 0 && m == n) || (m > 0 && dec_digits(n as int) == dec_digits(m as int)
                + rev@.reverse()),
        ensures
            dec_digits(n as int) == rev@.reverse(),
        decreases m,
    {
        let d = m % 10;
        let c = match d {
            0 => '0',
            1 => '1',
            2 => '2',
            3 => '3',
            4 => '4',
            5 => '5',
            6 => '6',
            7 => '7',
            8 => '8',
            _ => '9',
        };
        proof {
            assert(c == digit_char(d as int));
        }
        let ghost rev0 = rev@;
        let ghost m0 = m as int;
        rev.push(c);
        m = m / 10;
        proof {
            assert(rev@.reverse() =~= seq![c] + rev0.reverse());
            if rev0.len() == 0 {
                if m == 0 {
                    assert(dec_digits(n as int) =~= rev@.reverse());
                } else {
                    assert(dec_digits(n as int) == dec_digits(m0 / 10).push(digit_char(m0 % 10)));
                    assert(dec_digits(m0 / 10).push(c) =~= dec_digits(m0 / 10) + seq![c]);
                    assert(dec_digits(n as int) =~= dec_digits(m as int) + rev@.reverse());
                }
            } else {
                if m == 0 {
                    assert(dec_digits(m0) =~= seq![c]);
                    assert(dec_digits(n as int) =~= rev@.reverse());
                } else {
                    assert(dec_digits(m0) == dec_digits(m0 / 10).push(digit_char(m0 % 10)));
                    assert(dec_digits(m0 / 10).push(c) =~= dec_digits(m0 / 10) + seq![c]);
                    assert(dec_digits(n as int) =~= dec_digits(m as int) + rev@.reverse());
                }
            }
        }
        if m == 0 {
            break ;
        }
    }
    let digit_count = rev.len();
    let mut v: Vec<char> = Vec::new();
    let mut k: usize = 0;
    while k < digit_count
        invariant
            k <= digit_count,
            digit_count == rev@.len(),
            dec_digits(n as int) == rev@.reverse(),
            v@ == rev@.reverse().take(k as int),
        decreases digit_count - k,
    {
        v.push(rev[digit_count - 1 - k]);
        proof {
            assert(v@ =~= rev@.reverse().take(k + 1));
        }
        k = k + 1;
    }
    proof {
        assert(v@ =~= rev@.reverse());
    }
    v
}

/// Converts a string of plain (seven-bit) characters into the vector of its
/// characters.
pub fn str_to_chars(s: &str) -> (v: Vec<char>)
    requires
        vstd::string::is_ascii(s),
    ensures
        v@ == s@,
{
    broadcast use vstd::string::is_ascii_spec_bytes;
    broadcast use vstd::utf8::is_ascii_chars_encode_utf8;

    let bytes = s.as_bytes();
    let n = bytes.len();
    let mut v: Vec<char> = Vec::new();
    let mut i: usize = 0;
    while i < n
        invariant
            i <= n,
            n == s@.len(),
            bytes@.len() == s@.len(),
            vstd::string::is_ascii(s),
            forall|k: int| 0 <= k < n ==> #[trigger] bytes@[k] == s@[k] as u8,
            v@ == s@.take(i as int),
        decreases n - i,
    {
        let b = bytes[i];
        let c = b as char;
        proof {
            assert(s@[i as int] as u8 == b);
            assert('\0' <= s@[i as int] <= '\u{7f}');
            assert(c == s@[i as int]);
        }
        v.push(c);
        proof {
            assert(v@ =~= s@.take(i + 1));
        }
        i = i + 1;
    }
    proof {
        assert(v@ =~= s@);
    }
    v
}

} // verus!
