use vstd::prelude::*;

verus! {

/// The characters the normalizer treats as whitespace: space, horizontal
/// tab, line feed, vertical tab, form feed, carriage return.
pub open spec fn is_space_char(c: char) -> bool {
    c == ' ' || c == '\t' || c == '\n' || c == '\u{b}' || c == '\u{c}' || c == '\r'
}

/// Executable whitespace test.
pub fn is_space(c: char) -> (r: bool)
    ensures
        r == is_space_char(c),
{
    c == ' ' || c == '\t' || c == '\n' || c == '\u{b}' || c == '\u{c}' || c == '\r'
}

/// One left-to-right pass of whitespace collapsing: every run of whitespace
/// characters becomes a single space.  `pending` says whether the character
/// just before `s` belonged to a whitespace run, in which case a leading run
/// of `s` extends it and produces nothing.
pub open spec fn collapse_from(s: Seq<char>, pending: bool) -> Seq<char>
    decreases s.len(),
{
    if s.len() == 0 {
        Seq::empty()
    } else if is_space_char(s[0]) {
        if pending {
            collapse_from(s.drop_first(), true)
        } else {
            seq![' '] + collapse_from(s.drop_first(), true)
        }
    } else {
        seq![s[0]] + collapse_from(s.drop_first(), false)
    }
}

/// The text with every whitespace run collapsed to a single space.
pub open spec fn collapsed(s: Seq<char>) -> Seq<char> {
    collapse_from(s, false)
}

/// Drops one leading space, if any.
pub open spec fn trim_front(s: Seq<char>) -> Seq<char> {
    if s.len() > 0 && s[0] == ' ' {
        s.drop_first()
    } else {
        s
    }
}

/// Drops one trailing space, if any.
pub open spec fn trim_back(s: Seq<char>) -> Seq<char> {
    if s.len() > 0 && s.last() == ' ' {
        s.drop_last()
    } else {
        s
    }
}

/// Canonical form of candidate input: whitespace runs collapsed to single
/// spaces, then trimmed.  After collapsing, at most one space can remain at
/// either edge, so trimming one suffices.
pub open spec fn normalized(s: Seq<char>) -> Seq<char> {
    trim_back(trim_front(collapsed(s)))
}

/// Collapses and trims whitespace, as [`normalized`] describes.
pub fn normalize(input: &Vec<char>) -> (r: Vec<char>)
    ensures
        r@ == normalized(input@),
{
    let ghost s = input@;
    let mut out: Vec<char> = Vec::new();
    let mut pending = false;
    let mut i: usize = 0;
    proof {
        assert(s.skip(0) =~= s);
    }
    while i < input.len()
        invariant
            i <= input.len(),
            s == input@,
            out@ + collapse_from(s.skip(i as int), pending) == collapse_from(s, false),
        decreases input.len() - i,
    {
        let ghost rest = s.skip(i as int);
        proof {
            assert(rest[0] == s[i as int]);
            assert(rest.drop_first() =~= s.skip(i + 1 as int));
        }
        let c = input[i];
        if is_space(c) {
            if !pending {
                out.push(' ');
                pending = true;
                proof {
                    assert(out@ + collapse_from(s.skip(i + 1 as int), true) =~= collapse_from(
                        s,
                        false,
                    ));
                }
            } else {
                proof {
                    assert(out@ + collapse_from(s.skip(i + 1 as int), true) =~= collapse_from(
                        s,
                        false,
                    ));
                }
            }
        } else {
            out.push(c);
            pending = false;
            proof {
                assert(out@ + collapse_from(s.skip(i + 1 as int), false) =~= collapse_from(
                    s,
                    false,
                ));
            }
        }
        i = i + 1;
    }
    proof {
        assert(s.skip(s.len() as int) =~= Seq::<char>::empty());
        assert(out@ + Seq::<char>::empty() =~= out@);
        assert(out@ == collapsed(s));
    }
    if out.len() > 0 && out[0] == ' ' {
        out.remove(0);
        proof {
            assert(out@ =~= trim_front(collapsed(s)));
        }
    }
    if out.len() > 0 && out[out.len() - 1] == ' ' {
        out.pop();
    }
    proof {
        assert(out@ =~= normalized(s));
    }
    out
}

/// Index of the last space of `s`, or -1 when `s` holds none.
pub open spec fn rfind_space(s: Seq<char>) -> int
    decreases s.len(),
{
    if s.len() == 0 {
        -1
    } else if s.last() == ' ' {
        s.len() - 1
    } else {
        rfind_space(s.drop_last())
    }
}

/// Finds the last space of `v`, as [`rfind_space`] describes.
pub fn find_last_space(v: &Vec<char>) -> (r: Option<usize>)
    ensures
        match r {
            Some(i) => rfind_space(v@) == i as int && i < v.len(),
            None => rfind_space(v@) == -1,
        },
{
    let mut j: usize = v.len();
    proof {
        assert(v@.take(v@.len() as int) =~= v@);
    }
    while j > 0
        invariant
            j <= v.len(),
            rfind_space(v@) == rfind_space(v@.take(j as int)),
        decreases j,
    {
        proof {
            assert(v@.take(j as int).last() == v@[j - 1 as int]);
            assert(v@.take(j as int).drop_last() =~= v@.take(j - 1 as int));
        }
        if v[j - 1] == ' ' {
            return Some(j - 1);
        }
        j = j - 1;
    }
    proof {
        assert(v@.take(0) =~= Seq::<char>::empty());
    }
    None
}

/// Copies `v[from..to]`.
pub fn copy_range(v: &Vec<char>, from: usize, to: usize) -> (r: Vec<char>)
    requires
        from <= to <= v.len(),
    ensures
        r@ == v@.subrange(from as int, to as int),
{
    let mut r: Vec<char> = Vec::new();
    let mut i: usize = from;
    while i < to
        invariant
            from <= i <= to <= v.len(),
            r@ == v@.subrange(from as int, i as int),
        decreases to - i,
    {
        let c = v[i];
        r.push(c);
        proof {
            assert(v@.subrange(from as int, i + 1 as int) =~= v@.subrange(
                from as int,
                i as int,
            ).push(v@[i as int]));
        }
        i = i + 1;
    }
    r
}

/// Splits normalized input at its last space into the candidate name and the
/// candidate phone suffix.  Returns `None` when the text holds no separator.
pub fn split_name_suffix(v: &Vec<char>) -> (r: Option<(Vec<char>, Vec<char>)>)
    ensures
        match r {
            Some(pair) => {
                let i = rfind_space(v@);
                &&& 0 <= i < v@.len()
                &&& pair.0@ == v@.take(i)
                &&& pair.1@ == v@.skip(i + 1)
            },
            None => rfind_space(v@) == -1,
        },
{
    match find_last_space(v) {
        None => None,
        Some(i) => {
            let name = copy_range(v, 0, i);
            let suffix = copy_range(v, i + 1, v.len());
            proof {
                assert(name@ =~= v@.take(i as int));
                assert(suffix@ =~= v@.skip(i + 1 as int));
            }
            Some((name, suffix))
        },
    }
}

/// The character for one decimal digit.
pub open spec fn digit_char(d: int) -> char {
    if d == 0 {
        '0'
    } else if d == 1 {
        '1'
    } else if d == 2 {
        '2'
    } else if d == 3 {
        '3'
    } else if d == 4 {
        '4'
    } else if d == 5 {
        '5'
    } else if d == 6 {
        '6'
    } else if d == 7 {
        '7'
    } else if d == 8 {
        '8'
    } else {
        '9'
    }
}

/// The decimal rendering of a non-negative number, most significant digit
/// first, without leading zeros (except for the number zero itself).
pub open spec fn dec_digits(n: int) -> Seq<char>
    decreases n when n >= 0
{
    if n < 10 {
        seq![digit_char(n)]
    } else {
        dec_digits(n / 10).push(digit_char(n % 10))
    }
}

/// Executable digit rendering.
fn digit_of(d: u64) -> (r: char)
    requires
        d < 10,
    ensures
        r == digit_char(d as int),
{
    if d == 0 {
        '0'
    } else if d == 1 {
        '1'
    } else if d == 2 {
        '2'
    } else if d == 3 {
        '3'
    } else if d == 4 {
        '4'
    } else if d == 5 {
        '5'
    } else if d == 6 {
        '6'
    } else if d == 7 {
        '7'
    } else if d == 8 {
        '8'
    } else {
        '9'
    }
}

/// Appends the decimal rendering of `n`, as [`dec_digits`] describes.
pub fn push_decimal(n: u64, out: &mut Vec<char>)
    ensures
        final(out)@ == old(out)@ + dec_digits(n as int),
    decreases n,
{
    if n < 10 {
        out.push(digit_of(n));
        proof {
            assert(out@ =~= old(out)@ + dec_digits(n as int));
        }
    } else {
        push_decimal(n / 10, out);
        out.push(digit_of(n % 10));
        proof {
            assert(out@ =~= old(out)@ + dec_digits(n as int));
        }
    }
}

/// Appends a copy of `v`.
pub fn append_chars(out: &mut Vec<char>, v: &Vec<char>)
    ensures
        final(out)@ == old(out)@ + v@,
{
    let mut i: usize = 0;
    while i < v.len()
        invariant
            i <= v.len(),
            out@ == old(out)@ + v@.take(i as int),
        decreases v.len() - i,
    {
        let c = v[i];
        out.push(c);
        proof {
            assert(old(out)@ + v@.take(i + 1 as int) =~= (old(out)@ + v@.take(i as int)).push(
                v@[i as int],
            ));
        }
        i = i + 1;
    }
    proof {
        assert(old(out)@ + v@.take(v@.len() as int) =~= old(out)@ + v@);
    }
}

/// Character-for-character equality of two texts.
pub fn chars_eq(a: &Vec<char>, b: &Vec<char>) -> (r: bool)
    ensures
        r == (a@ == b@),
{
    if a.len() != b.len() {
        return false;
    }
    let mut i: usize = 0;
    while i < a.len()
        invariant
            i <= a.len(),
            a@.len() == b@.len(),
            forall|j: int| 0 <= j < i ==> a@[j] == b@[j],
        decreases a.len() - i,
    {
        if a[i] != b[i] {
            return false;
        }
        i = i + 1;
    }
    proof {
        assert(a@ =~= b@);
    }
    true
}

/// Replacing one whitespace character of the text by another whitespace
/// character leaves the collapsed form unchanged.
pub proof fn lemma_collapse_space_kind(s: Seq<char>, i: int, c: char, pending: bool)
    requires
        0 <= i < s.len(),
        is_space_char(s[i]),
        is_space_char(c),
    ensures
        collapse_from(s.update(i, c), pending) == collapse_from(s, pending),
    decreases i,
{
    let t = s.update(i, c);
    if i == 0 {
        assert(t.drop_first() =~= s.drop_first());
    } else {
        assert(t[0] == s[0]);
        assert(t.drop_first() =~= s.drop_first().update(i - 1, c));
        if is_space_char(s[0]) {
            lemma_collapse_space_kind(s.drop_first(), i - 1, c, true);
        } else {
            lemma_collapse_space_kind(s.drop_first(), i - 1, c, false);
        }
    }
}

/// Inserting one more whitespace character beside a whitespace character of
/// the text leaves the collapsed form unchanged: a longer run still
/// collapses to the same single space.
pub proof fn lemma_collapse_space_repeat(s: Seq<char>, i: int, c: char, pending: bool)
    requires
        0 <= i < s.len(),
        is_space_char(s[i]),
        is_space_char(c),
    ensures
        collapse_from(s.insert(i, c), pending) == collapse_from(s, pending),
    decreases i,
{
    let t = s.insert(i, c);
    if i == 0 {
        assert(t[0] == c);
        assert(t.drop_first() =~= s);
        if pending {
            assert(collapse_from(t, true) == collapse_from(s, true));
        } else {
            assert(collapse_from(t, false) == seq![' '] + collapse_from(s, true));
            assert(collapse_from(s, false) == seq![' '] + collapse_from(s.drop_first(), true));
            assert(collapse_from(s, true) == collapse_from(s.drop_first(), true));
        }
    } else {
        assert(t[0] == s[0]);
        assert(t.drop_first() =~= s.drop_first().insert(i - 1, c));
        if is_space_char(s[0]) {
            lemma_collapse_space_repeat(s.drop_first(), i - 1, c, true);
        } else {
            lemma_collapse_space_repeat(s.drop_first(), i - 1, c, false);
        }
    }
}

/// Normalization is insensitive to the kind of whitespace: replacing one
/// whitespace character by another does not change the normalized text.
pub proof fn lemma_normalized_space_kind(s: Seq<char>, i: int, c: char)
    requires
        0 <= i < s.len(),
        is_space_char(s[i]),
        is_space_char(c),
    ensures
        normalized(s.update(i, c)) == normalized(s),
{
    lemma_collapse_space_kind(s, i, c, false);
}

/// Normalization is insensitive to repeated whitespace: inserting one more
/// whitespace character beside a whitespace character does not change the
/// normalized text.
pub proof fn lemma_normalized_space_repeat(s: Seq<char>, i: int, c: char)
    requires
        0 <= i < s.len(),
        is_space_char(s[i]),
        is_space_char(c),
    ensures
        normalized(s.insert(i, c)) == normalized(s),
{
    lemma_collapse_space_repeat(s, i, c, false);
}

} // verus!
