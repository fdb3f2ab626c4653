//! Character-level text operations: trimming, splitting into lines and fields,
//! ordering, joining and decimal numerals, each stated over sequences of
//! characters.
use vstd::prelude::*;

verus! {

/// `String::push` appends one character to the end of the string.
pub assume_specification[ String::push ](s: &mut String, c: char)
    ensures
        final(s)@ == old(s)@.push(c),
;

// ---------------------------------------------------------------------------
// Model
// ---------------------------------------------------------------------------

/// The characters that carry Unicode's `White_Space` property.
pub open spec fn is_white_space(c: char) -> bool {
    let u = c as u32;
    ||| 0x9 <= u <= 0xd
    ||| u == 0x20
    ||| u == 0x85
    ||| u == 0xa0
    ||| u == 0x1680
    ||| 0x2000 <= u <= 0x200a
    ||| u == 0x2028
    ||| u == 0x2029
    ||| u == 0x202f
    ||| u == 0x205f
    ||| u == 0x3000
}

/// `s` without its leading white space.
pub open spec fn trim_start(s: Seq<char>) -> Seq<char>
    decreases s.len(),
{
    if s.len() > 0 && is_white_space(s[0]) {
        trim_start(s.drop_first())
    } else {
        s
    }
}

/// `s` without its trailing white space.
pub open spec fn trim_end(s: Seq<char>) -> Seq<char>
    decreases s.len(),
{
    if s.len() > 0 && is_white_space(s.last()) {
        trim_end(s.drop_last())
    } else {
        s
    }
}

/// `s` without white space at either end.
pub open spec fn trim(s: Seq<char>) -> Seq<char> {
    trim_start(trim_end(s))
}

/// The fields of `s` between the occurrences of `sep`; there is always one
/// more field than there are separators.
pub open spec fn split_on<T>(s: Seq<T>, sep: T) -> Seq<Seq<T>>
    decreases s.len(),
{
    if s.len() == 0 {
        seq![Seq::<T>::empty()]
    } else {
        let fields = split_on(s.drop_last(), sep);
        if s.last() == sep {
            fields.push(Seq::<T>::empty())
        } else {
            fields.drop_last().push(fields.last().push(s.last()))
        }
    }
}

/// `line` without one trailing carriage return.
pub open spec fn strip_carriage_return(line: Seq<char>) -> Seq<char> {
    if line.len() > 0 && line.last() == '\r' {
        line.drop_last()
    } else {
        line
    }
}

/// The lines of `s`. A line ends at a line feed, or a carriage return and a
/// line feed; the ending of the last line is optional.
pub open spec fn lines(s: Seq<char>) -> Seq<Seq<char>> {
    let fields = split_on(s, '\n');
    let ended = fields.drop_last().map_values(|l: Seq<char>| strip_carriage_return(l));
    if fields.last().len() == 0 {
        ended
    } else {
        ended.push(fields.last())
    }
}

/// Where `c` first occurs in `s`, or the length of `s`.
pub open spec fn first_index(s: Seq<char>, c: char) -> int
    decreases s.len(),
{
    if s.len() == 0 || s[0] == c {
        0
    } else {
        1 + first_index(s.drop_first(), c)
    }
}

/// What stands before and after the first `sep`.
pub open spec fn split_once(s: Seq<char>, sep: char) -> Option<(Seq<char>, Seq<char>)> {
    let i = first_index(s, sep);
    if i < s.len() {
        Some((s.take(i), s.skip(i + 1)))
    } else {
        None
    }
}

/// Lexicographic order by code point.
pub open spec fn lex_le(a: Seq<char>, b: Seq<char>) -> bool
    decreases a.len(),
{
    if a.len() == 0 {
        true
    } else if b.len() == 0 {
        false
    } else if a[0] == b[0] {
        lex_le(a.drop_first(), b.drop_first())
    } else {
        (a[0] as int) < (b[0] as int)
    }
}

/// The parts in order, with `sep` between neighbours.
pub open spec fn join_with<T>(parts: Seq<Seq<T>>, sep: Seq<T>) -> Seq<T>
    decreases parts.len(),
{
    if parts.len() == 0 {
        Seq::empty()
    } else if parts.len() == 1 {
        parts[0]
    } else {
        join_with(parts.drop_last(), sep) + sep + parts.last()
    }
}

/// The decimal digit for `n`, which is below ten.
pub open spec fn digit(n: nat) -> char {
    if n == 0 {
        '0'
    } else if n == 1 {
        '1'
    } else if n == 2 {
        '2'
    } else if n == 3 {
        '3'
    } else if n == 4 {
        '4'
    } else if n == 5 {
        '5'
    } else if n == 6 {
        '6'
    } else if n == 7 {
        '7'
    } else if n == 8 {
        '8'
    } else {
        '9'
    }
}

/// The decimal numeral of `n`.
pub open spec fn decimal(n: nat) -> Seq<char>
    decreases n,
{
    if n < 10 {
        seq![digit(n)]
    } else {
        decimal(n / 10).push(digit(n % 10))
    }
}

/// The strings of a list as character sequences.
pub open spec fn strings_view(v: Seq<String>) -> Seq<Seq<char>> {
    v.map_values(|s: String| s@)
}

/// The characters of an optional string.
pub open spec fn opt_view(o: Option<String>) -> Option<Seq<char>> {
    match o {
        Some(s) => Some(s@),
        None => None,
    }
}

/// The texts of an outcome.
pub open spec fn outcome_view(r: Result<String, String>) -> Result<Seq<char>, Seq<char>> {
    match r {
        Ok(s) => Ok(s@),
        Err(e) => Err(e@),
    }
}

/// The character vectors of a list as character sequences.
pub open spec fn chars_view(v: Seq<Vec<char>>) -> Seq<Seq<char>> {
    v.map_values(|s: Vec<char>| s@)
}

// ---------------------------------------------------------------------------
// Conversions
// ---------------------------------------------------------------------------

/// The characters of `s`.
pub fn to_chars(s: &str) -> (v: Vec<char>)
    ensures
        v@ == s@,
{
    let mut v: Vec<char> = Vec::new();
    for c in it: s.chars()
        invariant
            it.seq() == s@,
            v@ == s@.take(it.index()),
    {
        assert(s@.take(it.index() + 1) == s@.take(it.index()).push(c));
        v.push(c);
    }
    assert(s@.take(s@.len() as int) == s@);
    v
}

/// The string of the characters `v[from..to]`.
pub fn string_of_range(v: &Vec<char>, from: usize, to: usize) -> (s: String)
    requires
        from <= to <= v.len(),
    ensures
        s@ == v@.subrange(from as int, to as int),
{
    let mut s: String = String::new();
    let mut i: usize = from;
    while i < to
        invariant
            from <= i <= to <= v.len(),
            s@ == v@.subrange(from as int, i as int),
        decreases to - i,
    {
        s.push(v[i]);
        assert(v@.subrange(from as int, i + 1) == v@.subrange(from as int, i as int).push(
            v@[i as int],
        ));
        i += 1;
    }
    s
}

/// The string of the characters in `v`.
pub fn from_chars(v: &Vec<char>) -> (s: String)
    ensures
        s@ == v@,
{
    assert(v@.subrange(0, v@.len() as int) == v@);
    string_of_range(v, 0, v.len())
}

/// The characters `v[from..to]`.
pub fn chars_of_range(v: &Vec<char>, from: usize, to: usize) -> (r: Vec<char>)
    requires
        from <= to <= v.len(),
    ensures
        r@ == v@.subrange(from as int, to as int),
{
    let mut r: Vec<char> = Vec::new();
    let mut i: usize = from;
    while i < to
        invariant
            from <= i <= to <= v.len(),
            r@ == v@.subrange(from as int, i as int),
        decreases to - i,
    {
        r.push(v[i]);
        assert(v@.subrange(from as int, i + 1) == v@.subrange(from as int, i as int).push(
            v@[i as int],
        ));
        i += 1;
    }
    r
}

/// The `{:?}` form of a text, as `str`'s `Debug` writes it.
pub uninterp spec fn debug_form(s: Seq<char>) -> Seq<char>;

/// `str`'s `Debug` gives the text in quotes, with escapes; the name stands for
/// its output.
#[verifier::external_body]
pub(crate) fn debug_text(s: &str) -> (r: String)
    ensures
        r@ == debug_form(s@),
{
    format!("{:?}", s)
}

// ---------------------------------------------------------------------------
// Equality and order
// ---------------------------------------------------------------------------

/// Whether two character vectors hold the same characters.
pub fn chars_eq(a: &Vec<char>, b: &Vec<char>) -> (r: bool)
    ensures
        r == (a@ == b@),
{
    if a.len() != b.len() {
        return false;
    }
    let mut i: usize = 0;
    while i < a.len()
        invariant
            i <= a.len(),
            a.len() == b.len(),
            forall|j: int| 0 <= j < i ==> a@[j] == b@[j],
        decreases a.len() - i,
    {
        if a[i] != b[i] {
            return false;
        }
        i += 1;
    }
    assert(a@ =~= b@);
    true
}

/// Whether two strings hold the same characters.
pub fn str_eq(a: &str, b: &str) -> (r: bool)
    ensures
        r == (a@ == b@),
{
    let x = to_chars(a);
    let y = to_chars(b);
    chars_eq(&x, &y)
}

/// A character's code point fits in 32 bits.
proof fn char_code(c: char)
    ensures
        (c as u32) as int == c as int,
{
}

/// Whether `a` comes before `b`, or equals it, in code point order.
pub fn chars_le(a: &Vec<char>, b: &Vec<char>) -> (r: bool)
    ensures
        r == lex_le(a@, b@),
{
    let mut i: usize = 0;
    assert(a@.skip(0) == a@);
    assert(b@.skip(0) == b@);
    while i < a.len() && i < b.len()
        invariant
            i <= a.len(),
            i <= b.len(),
            lex_le(a@, b@) == lex_le(a@.skip(i as int), b@.skip(i as int)),
        decreases a.len() - i,
    {
        let x: char = a[i];
        let y: char = b[i];
        if x != y {
            proof {
                char_code(x);
                char_code(y);
            }
            return (x as u32) < (y as u32);
        }
        assert(a@.skip(i as int).drop_first() == a@.skip(i + 1));
        assert(b@.skip(i as int).drop_first() == b@.skip(i + 1));
        i += 1;
    }
    i == a.len()
}

/// Whether `a` comes before `b`, or equals it, in code point order.
pub fn str_le(a: &str, b: &str) -> (r: bool)
    ensures
        r == lex_le(a@, b@),
{
    let x = to_chars(a);
    let y = to_chars(b);
    chars_le(&x, &y)
}

/// The lexicographic order is reflexive.
pub proof fn lex_le_reflexive(a: Seq<char>)
    ensures
        lex_le(a, a),
    decreases a.len(),
{
    if a.len() > 0 {
        lex_le_reflexive(a.drop_first());
    }
}

/// Of two texts one comes before the other in the lexicographic order.
pub proof fn lex_le_total(a: Seq<char>, b: Seq<char>)
    ensures
        lex_le(a, b) || lex_le(b, a),
    decreases a.len(),
{
    if a.len() > 0 && b.len() > 0 && a[0] == b[0] {
        lex_le_total(a.drop_first(), b.drop_first());
    }
}

/// The lexicographic order is transitive.
pub proof fn lex_le_transitive(a: Seq<char>, b: Seq<char>, c: Seq<char>)
    requires
        lex_le(a, b),
        lex_le(b, c),
    ensures
        lex_le(a, c),
    decreases a.len(),
{
    if a.len() > 0 && b.len() > 0 && c.len() > 0 && a[0] == b[0] && b[0] == c[0] {
        lex_le_transitive(a.drop_first(), b.drop_first(), c.drop_first());
    }
}

/// Two texts that each come before the other are equal.
pub proof fn lex_le_antisymmetric(a: Seq<char>, b: Seq<char>)
    requires
        lex_le(a, b),
        lex_le(b, a),
    ensures
        a == b,
    decreases a.len(),
{
    if a.len() > 0 && b.len() > 0 {
        lex_le_antisymmetric(a.drop_first(), b.drop_first());
        assert(a =~= seq![a[0]] + a.drop_first());
        assert(b =~= seq![b[0]] + b.drop_first());
    } else {
        assert(a =~= b);
    }
}

// ---------------------------------------------------------------------------
// Trimming
// ---------------------------------------------------------------------------

/// Whether `c` is white space.
pub fn is_space(c: char) -> (r: bool)
    ensures
        r == is_white_space(c),
{
    let u: u32 = c as u32;
    (0x9 <= u && u <= 0xd) || u == 0x20 || u == 0x85 || u == 0xa0 || u == 0x1680 || (0x2000 <= u
        && u <= 0x200a) || u == 0x2028 || u == 0x2029 || u == 0x202f || u == 0x205f || u == 0x3000
}

/// `v` without white space at either end.
pub fn trim_chars(v: &Vec<char>) -> (r: Vec<char>)
    ensures
        r@ == trim(v@),
{
    let mut end: usize = v.len();
    assert(v@.take(v@.len() as int) == v@);
    while end > 0 && is_space(v[end - 1])
        invariant
            end <= v.len(),
            trim_end(v@) == trim_end(v@.take(end as int)),
        decreases end,
    {
        assert(v@.take(end as int).drop_last() == v@.take(end - 1));
        end -= 1;
    }
    let ghost kept = v@.take(end as int);
    assert(trim_end(v@) == kept);
    let mut start: usize = 0;
    assert(kept.skip(0) == kept);
    while start < end && is_space(v[start])
        invariant
            start <= end <= v.len(),
            kept == v@.take(end as int),
            trim_start(kept) == trim_start(kept.skip(start as int)),
        decreases end - start,
    {
        assert(kept.skip(start as int).drop_first() == kept.skip(start + 1));
        start += 1;
    }
    assert(kept.skip(start as int) == v@.subrange(start as int, end as int));
    chars_of_range(v, start, end)
}

/// `s` without white space at either end.
pub fn trim_str(s: &str) -> (r: String)
    ensures
        r@ == trim(s@),
{
    let v = to_chars(s);
    let t = trim_chars(&v);
    from_chars(&t)
}

// ---------------------------------------------------------------------------
// Splitting
// ---------------------------------------------------------------------------

/// There is always at least one field.
pub proof fn split_on_nonempty<T>(s: Seq<T>, sep: T)
    ensures
        split_on(s, sep).len() >= 1,
    decreases s.len(),
{
    if s.len() > 0 {
        split_on_nonempty(s.drop_last(), sep);
    }
}

/// Joining the fields with the separator gives the text back.
pub proof fn split_on_join<T>(s: Seq<T>, sep: T)
    ensures
        join_with(split_on(s, sep), seq![sep]) == s,
    decreases s.len(),
{
    let fields = split_on(s, sep);
    split_on_nonempty(s, sep);
    if s.len() > 0 {
        let before = split_on(s.drop_last(), sep);
        split_on_nonempty(s.drop_last(), sep);
        split_on_join(s.drop_last(), sep);
        assert(s == s.drop_last().push(s.last()));
        if s.last() == sep {
            assert(fields.drop_last() == before);
            assert(join_with(fields, seq![sep]) =~= join_with(before, seq![sep]) + seq![sep]);
        } else {
            assert(fields.drop_last() == before.drop_last());
            assert(join_with(fields, seq![sep]) =~= join_with(before, seq![sep]).push(s.last()));
        }
    }
}

/// No field holds the separator.
pub proof fn split_on_excludes<T>(s: Seq<T>, sep: T)
    ensures
        forall|i: int| 0 <= i < split_on(s, sep).len() ==> !(#[trigger] split_on(s, sep)[i]).contains(
            sep,
        ),
    decreases s.len(),
{
    let fields = split_on(s, sep);
    if s.len() > 0 {
        let before = split_on(s.drop_last(), sep);
        split_on_nonempty(s.drop_last(), sep);
        split_on_excludes(s.drop_last(), sep);
        assert forall|i: int| 0 <= i < fields.len() implies !(#[trigger] fields[i]).contains(
            sep,
        ) by {
            if i < fields.len() - 1 {
                assert(fields[i] == before[i]);
            } else if s.last() != sep {
                let last = before[before.len() - 1];
                assert(!last.contains(sep));
                assert(fields[i] == last.push(s.last()));
                if fields[i].contains(sep) {
                    let k = choose|k: int| 0 <= k < fields[i].len() && fields[i][k] == sep;
                    assert(last[k] == sep);
                }
            }
        }
    }
}

/// Whatever is not the separator stands in some field.
pub proof fn split_on_covers<T>(s: Seq<T>, sep: T, i: int)
    requires
        0 <= i < s.len(),
        s[i] != sep,
    ensures
        exists|k: int, j: int|
            0 <= k < split_on(s, sep).len() && 0 <= j < split_on(s, sep)[k].len()
                && #[trigger] split_on(s, sep)[k][j] == s[i],
    decreases s.len(),
{
    let fields = split_on(s, sep);
    let before = split_on(s.drop_last(), sep);
    split_on_nonempty(s.drop_last(), sep);
    if i == s.len() - 1 {
        let k = fields.len() - 1;
        let j = fields[k].len() - 1;
        assert(fields[k][j] == s[i]);
    } else {
        split_on_covers(s.drop_last(), sep, i);
        let (k, j) = choose|k: int, j: int|
            0 <= k < before.len() && 0 <= j < before[k].len() && #[trigger] before[k][j]
                == s.drop_last()[i];
        assert(fields[k][j] == s[i]);
    }
}

/// The fields of `v` between the occurrences of `sep`.
pub fn split_chars(v: &Vec<char>, sep: char) -> (r: Vec<Vec<char>>)
    ensures
        chars_view(r@) == split_on(v@, sep),
{
    let mut fields: Vec<Vec<char>> = Vec::new();
    let mut current: Vec<char> = Vec::new();
    let mut i: usize = 0;
    assert(chars_view(fields@).push(current@) =~= split_on(v@.take(0), sep));
    while i < v.len()
        invariant
            i <= v.len(),
            chars_view(fields@).push(current@) == split_on(v@.take(i as int), sep),
        decreases v.len() - i,
    {
        let c: char = v[i];
        let ghost before = chars_view(fields@).push(current@);
        let ghost done = chars_view(fields@);
        proof {
            let now = v@.take(i + 1);
            assert(now.drop_last() == v@.take(i as int));
            assert(now.last() == c);
            assert(before.drop_last() == done);
        }
        if c == sep {
            fields.push(current);
            assert(chars_view(fields@) =~= before);
            current = Vec::new();
            assert(current@ =~= Seq::<char>::empty());
        } else {
            current.push(c);
        }
        i += 1;
    }
    assert(v@.take(v@.len() as int) == v@);
    let ghost done = chars_view(fields@);
    let ghost last = current@;
    fields.push(current);
    assert(chars_view(fields@) =~= done.push(last));
    fields
}

/// Where `c` first occurs in `v`, or the length of `v`.
pub fn find_char(v: &Vec<char>, c: char) -> (i: usize)
    ensures
        i <= v.len(),
        i as int == first_index(v@, c),
{
    let mut i: usize = 0;
    assert(v@.skip(0) =~= v@);
    while i < v.len() && v[i] != c
        invariant
            i <= v.len(),
            first_index(v@, c) == i + first_index(v@.skip(i as int), c),
        decreases v.len() - i,
    {
        assert(v@.skip(i as int).drop_first() =~= v@.skip(i + 1));
        i += 1;
    }
    i
}

/// The lines of `v`.
pub fn line_chars(v: &Vec<char>) -> (r: Vec<Vec<char>>)
    ensures
        chars_view(r@) == lines(v@),
{
    let fields = split_chars(v, '\n');
    proof {
        split_on_nonempty(v@, '\n');
    }
    let ghost all = split_on(v@, '\n');
    let ghost ended = all.drop_last().map_values(|l: Seq<char>| strip_carriage_return(l));
    let mut r: Vec<Vec<char>> = Vec::new();
    let mut i: usize = 0;
    while i + 1 < fields.len()
        invariant
            chars_view(fields@) == all,
            all == split_on(v@, '\n'),
            ended == all.drop_last().map_values(|l: Seq<char>| strip_carriage_return(l)),
            0 <= i < fields.len(),
            fields.len() == all.len(),
            chars_view(r@) == ended.take(i as int),
        decreases fields.len() - i,
    {
        let line: &Vec<char> = &fields[i];
        assert(line@ == all[i as int]);
        let n: usize = line.len();
        let end: usize = if n > 0 && line[n - 1] == '\r' {
            n - 1
        } else {
            n
        };
        let piece = chars_of_range(line, 0, end);
        assert(piece@ =~= strip_carriage_return(all[i as int]));
        let ghost before = chars_view(r@);
        r.push(piece);
        assert(chars_view(r@) =~= before.push(ended[i as int]));
        assert(ended.take(i + 1) =~= ended.take(i as int).push(ended[i as int]));
        i += 1;
    }
    assert(ended.take(i as int) =~= ended);
    let last: &Vec<char> = &fields[i];
    assert(last@ == all.last());
    if last.len() > 0 {
        let piece = chars_of_range(last, 0, last.len());
        assert(piece@ =~= last@);
        r.push(piece);
        assert(chars_view(r@) =~= ended.push(all.last()));
    }
    r
}

// ---------------------------------------------------------------------------
// Building
// ---------------------------------------------------------------------------

/// The parts in order, with `sep` between neighbours.
pub fn join_strings(parts: &Vec<String>, sep: &str) -> (r: String)
    ensures
        r@ == join_with(strings_view(parts@), sep@),
{
    let mut r: String = String::new();
    let ghost all = strings_view(parts@);
    let mut i: usize = 0;
    assert(all.take(0) =~= Seq::empty());
    while i < parts.len()
        invariant
            all == strings_view(parts@),
            i <= parts.len(),
            r@ == join_with(all.take(i as int), sep@),
        decreases parts.len() - i,
    {
        proof {
            assert(all.take(i + 1).drop_last() == all.take(i as int));
            assert(all.take(i + 1).last() == parts@[i as int]@);
        }
        if i > 0 {
            r.append(sep);
        }
        r.append(parts[i].as_str());
        if i == 0 {
            assert(r@ =~= parts@[0]@);
        }
        i += 1;
    }
    assert(all.take(parts@.len() as int) =~= all);
    r
}

/// Appends a word to a list of words.
pub fn push_word(words: &mut Vec<String>, word: &str)
    ensures
        strings_view(final(words)@) == strings_view(old(words)@).push(word@),
{
    words.push(word.to_owned());
    assert(strings_view(words@) =~= strings_view(old(words)@).push(word@));
}

/// The words of a fixed command followed by nothing.
pub fn no_words() -> (r: Vec<String>)
    ensures
        strings_view(r@) == Seq::<Seq<char>>::empty(),
{
    let r: Vec<String> = Vec::new();
    assert(strings_view(r@) =~= Seq::<Seq<char>>::empty());
    r
}

/// `a` followed by `b`.
pub fn concat2(a: &str, b: &str) -> (r: String)
    ensures
        r@ == a@ + b@,
{
    let mut r: String = a.to_owned();
    r.append(b);
    r
}

/// `a` followed by `b` and `c`.
pub fn concat3(a: &str, b: &str, c: &str) -> (r: String)
    ensures
        r@ == a@ + b@ + c@,
{
    let mut r: String = a.to_owned();
    r.append(b);
    r.append(c);
    r
}

/// Appends the decimal numeral of `n`.
pub fn push_decimal(s: &mut String, n: u64)
    ensures
        final(s)@ == old(s)@ + decimal(n as nat),
    decreases n,
{
    if n >= 10 {
        push_decimal(s, n / 10);
    }
    let d: u64 = n % 10;
    let c: char = if d == 0 {
        '0'
    } else if d == 1 {
        '1'
    } else if d == 2 {
        '2'
    } else if d == 3 {
        '3'
    } else if d == 4 {
        '4'
    } else if d == 5 {
        '5'
    } else if d == 6 {
        '6'
    } else if d == 7 {
        '7'
    } else if d == 8 {
        '8'
    } else {
        '9'
    };
    s.push(c);
    assert(s@ =~= old(s)@ + decimal(n as nat));
}

// ---------------------------------------------------------------------------
// Laws
// ---------------------------------------------------------------------------

/// The fields on either side of a separator are those of the two sides.
pub proof fn split_on_add<T>(a: Seq<T>, b: Seq<T>, sep: T)
    ensures
        split_on(a.push(sep) + b, sep) == split_on(a, sep) + split_on(b, sep),
    decreases b.len(),
{
    let whole = a.push(sep) + b;
    if b.len() == 0 {
        assert(whole =~= a.push(sep));
        assert(whole.drop_last() =~= a);
        assert(split_on(whole, sep) =~= split_on(a, sep) + split_on(b, sep));
    } else {
        split_on_add(a, b.drop_last(), sep);
        split_on_nonempty(b.drop_last(), sep);
        assert(whole.drop_last() =~= a.push(sep) + b.drop_last());
        assert(whole.last() == b.last());
        assert(split_on(whole, sep) =~= split_on(a, sep) + split_on(b, sep));
    }
}

/// What holds no separator is a single field.
pub proof fn split_on_plain<T>(s: Seq<T>, sep: T)
    requires
        !s.contains(sep),
    ensures
        split_on(s, sep) == seq![s],
    decreases s.len(),
{
    if s.len() > 0 {
        let front = s.drop_last();
        assert(!front.contains(sep)) by {
            if front.contains(sep) {
                let k = choose|k: int| 0 <= k < front.len() && front[k] == sep;
                assert(s[k] == sep);
            }
        }
        assert(s.contains(s.last())) by {
            assert(s[s.len() - 1] == s.last());
        }
        split_on_plain(front, sep);
        assert(split_on(s, sep) =~= seq![s]) by {
            assert(front.push(s.last()) =~= s);
            assert(seq![front].drop_last() =~= Seq::empty());
        }
    } else {
        assert(split_on(s, sep) =~= seq![s]) by {
            assert(s =~= Seq::empty());
        }
    }
}

/// The lines of a text, each ended by `end`.
pub open spec fn ended_lines(lines: Seq<Seq<char>>, end: Seq<char>) -> Seq<char>
    decreases lines.len(),
{
    if lines.len() == 0 {
        Seq::empty()
    } else {
        ended_lines(lines.drop_last(), end) + lines.last() + end
    }
}

/// Whether the text fits on a line: it holds no line feed, and does not end in a
/// carriage return.
pub open spec fn fits_on_a_line(s: Seq<char>) -> bool {
    !s.contains('\n') && (s.len() > 0 ==> s.last() != '\r')
}

proof fn fields_of_ended_lines(ls: Seq<Seq<char>>)
    requires
        forall|i: int| 0 <= i < ls.len() ==> !(#[trigger] ls[i]).contains('\n'),
    ensures
        split_on(ended_lines(ls, seq!['\n']), '\n') == ls.push(Seq::empty()),
    decreases ls.len(),
{
    if ls.len() == 0 {
        assert(split_on(ended_lines(ls, seq!['\n']), '\n') =~= ls.push(Seq::empty()));
    } else {
        let front = ls.drop_last();
        let last = ls[ls.len() - 1];
        assert forall|i: int| 0 <= i < front.len() implies !(#[trigger] front[i]).contains('\n') by {
            assert(front[i] == ls[i]);
        }
        fields_of_ended_lines(front);
        let before = ended_lines(front, seq!['\n']);
        let whole = before + last;
        assert(ended_lines(ls, seq!['\n']) =~= whole.push('\n') + Seq::<char>::empty());
        split_on_add(whole, Seq::empty(), '\n');
        split_on_plain(Seq::<char>::empty(), '\n');
        split_on_plain(last, '\n');
        if before.len() > 0 {
            assert(before.last() == '\n');
            let start = before.drop_last();
            assert(start.push('\n') =~= before);
            split_on_add(start, last, '\n');
            split_on_add(start, Seq::empty(), '\n');
            assert(start.push('\n') + Seq::<char>::empty() =~= before);
            assert(split_on(start, '\n') =~= front) by {
                assert((split_on(start, '\n') + seq![Seq::<char>::empty()]).drop_last()
                    =~= split_on(start, '\n'));
                assert(front.push(Seq::empty()).drop_last() =~= front);
            }
            assert(split_on(whole, '\n') =~= ls);
        } else {
            assert(front.len() == 0);
            assert(whole =~= last);
            assert(split_on(whole, '\n') =~= ls);
        }
        assert(split_on(ended_lines(ls, seq!['\n']), '\n') =~= ls.push(Seq::empty()));
    }
}

/// Reading a text that was written line by line gives the lines back.
pub proof fn lines_read_back(ls: Seq<Seq<char>>)
    requires
        forall|i: int| 0 <= i < ls.len() ==> fits_on_a_line(#[trigger] ls[i]),
    ensures
        lines(ended_lines(ls, seq!['\n'])) == ls,
{
    assert forall|i: int| 0 <= i < ls.len() implies !(#[trigger] ls[i]).contains('\n') by {
        assert(fits_on_a_line(ls[i]));
    }
    fields_of_ended_lines(ls);
    let fields = ls.push(Seq::empty());
    assert(fields.drop_last() =~= ls);
    assert(fields.drop_last().map_values(|l: Seq<char>| strip_carriage_return(l)) =~= ls) by {
        assert forall|i: int| 0 <= i < ls.len() implies strip_carriage_return(#[trigger] ls[i])
            == ls[i] by {
            assert(fits_on_a_line(ls[i]));
        }
    }
}

/// Lines that end in a carriage return and a line feed are read without either.
pub proof fn carriage_returns_are_no_part_of_a_line(ls: Seq<Seq<char>>)
    requires
        forall|i: int| 0 <= i < ls.len() ==> !(#[trigger] ls[i]).contains('\n'),
    ensures
        lines(ended_lines(ls, seq!['\r', '\n'])) == ls,
{
    let returned = ls.map_values(|l: Seq<char>| l.push('\r'));
    ended_lines_with_returns(ls);
    assert forall|i: int| 0 <= i < returned.len() implies !(#[trigger] returned[i]).contains(
        '\n',
    ) by {
        assert(!ls[i].contains('\n'));
        if returned[i].contains('\n') {
            let k = choose|k: int| 0 <= k < returned[i].len() && returned[i][k] == '\n';
            assert(ls[i][k] == '\n');
        }
    }
    fields_of_ended_lines(returned);
    let fields = returned.push(Seq::empty());
    assert(fields.drop_last() =~= returned);
    assert(returned.map_values(|l: Seq<char>| strip_carriage_return(l)) =~= ls) by {
        assert forall|i: int| 0 <= i < ls.len() implies strip_carriage_return(
            #[trigger] returned[i],
        ) == ls[i] by {
            assert(ls[i].push('\r').drop_last() =~= ls[i]);
        }
    }
}

proof fn ended_lines_with_returns(ls: Seq<Seq<char>>)
    ensures
        ended_lines(ls, seq!['\r', '\n']) == ended_lines(
            ls.map_values(|l: Seq<char>| l.push('\r')),
            seq!['\n'],
        ),
    decreases ls.len(),
{
    let returned = ls.map_values(|l: Seq<char>| l.push('\r'));
    if ls.len() > 0 {
        ended_lines_with_returns(ls.drop_last());
        assert(returned.drop_last() =~= ls.drop_last().map_values(|l: Seq<char>| l.push('\r')));
        assert(returned.last() == ls.last().push('\r'));
        let front = ended_lines(ls.drop_last(), seq!['\r', '\n']);
        assert(front + ls.last() + seq!['\r', '\n'] =~= front + ls.last().push('\r') + seq!['\n']);
    }
}

/// Whether trimming takes `from` characters off the start of the text and
/// leaves those before `to`.
pub open spec fn is_trimmed(s: Seq<char>, from: int, to: int) -> bool {
    &&& 0 <= from <= to <= s.len()
    &&& forall|i: int| 0 <= i < from ==> is_white_space(#[trigger] s[i])
    &&& forall|i: int| to <= i < s.len() ==> is_white_space(#[trigger] s[i])
    &&& from < to ==> !is_white_space(s[from]) && !is_white_space(s[to - 1])
}

/// Trimming takes white space off both ends, all of it and nothing else.
pub proof fn trimming_takes_white_space(s: Seq<char>)
    ensures
        exists|from: int, to: int| #[trigger] is_trimmed(s, from, to) && trim(s) == s.subrange(
            from,
            to,
        ),
        trim(s).len() == 0 <==> forall|i: int|
            0 <= i < s.len() ==> is_white_space(#[trigger] s[i]),
{
    trim_end_facts(s);
    let e = trim_end(s);
    trim_start_facts(e);
    let t = trim_start(e);
    let from = e.len() - t.len();
    let to = e.len() as int;
    assert(t =~= s.subrange(from, to));
    assert forall|i: int| 0 <= i < from implies is_white_space(#[trigger] s[i]) by {
        assert(is_white_space(e[i]));
    }
    assert(from < to ==> t[0] == s[from]);
    assert(is_trimmed(s, from, to));
    if forall|i: int| 0 <= i < s.len() ==> is_white_space(#[trigger] s[i]) {
        if from < to {
            assert(is_white_space(s[from]));
        }
    } else {
        let k = choose|k: int| 0 <= k < s.len() && !is_white_space(#[trigger] s[k]);
        assert(from <= k < to);
    }
}

/// A text without white space at its ends is not changed by trimming.
pub proof fn trimming_keeps_the_rest(s: Seq<char>)
    requires
        s.len() > 0 ==> !is_white_space(s[0]) && !is_white_space(s.last()),
    ensures
        trim(s) == s,
{
}

proof fn trim_end_facts(s: Seq<char>)
    ensures
        trim_end(s).len() <= s.len(),
        trim_end(s) == s.take(trim_end(s).len() as int),
        trim_end(s).len() > 0 ==> !is_white_space(trim_end(s).last()),
        forall|i: int| trim_end(s).len() <= i < s.len() ==> is_white_space(#[trigger] s[i]),
    decreases s.len(),
{
    if s.len() > 0 && is_white_space(s.last()) {
        let front = s.drop_last();
        trim_end_facts(front);
        assert(trim_end(s) =~= s.take(trim_end(s).len() as int));
        assert forall|i: int| trim_end(s).len() <= i < s.len() implies is_white_space(
            #[trigger] s[i],
        ) by {
            if i < front.len() {
                assert(front[i] == s[i]);
            }
        }
    } else {
        assert(s.take(s.len() as int) =~= s);
    }
}

proof fn trim_start_facts(s: Seq<char>)
    ensures
        trim_start(s).len() <= s.len(),
        trim_start(s) == s.skip(s.len() - trim_start(s).len()),
        trim_start(s).len() > 0 ==> !is_white_space(trim_start(s)[0]),
        forall|i: int|
            0 <= i < s.len() - trim_start(s).len() ==> is_white_space(#[trigger] s[i]),
    decreases s.len(),
{
    if s.len() > 0 && is_white_space(s[0]) {
        let rest = s.drop_first();
        trim_start_facts(rest);
        assert(trim_start(s) =~= s.skip(s.len() - trim_start(s).len()));
        assert forall|i: int| 0 <= i < s.len() - trim_start(s).len() implies is_white_space(
            #[trigger] s[i],
        ) by {
            if i > 0 {
                assert(rest[i - 1] == s[i]);
            }
        }
    } else {
        assert(s.skip(0) =~= s);
    }
}

/// Splitting at the first separator gives what stands on either side of it, and
/// nothing where there is none.
pub proof fn split_once_gives_both_sides(s: Seq<char>, sep: char)
    ensures
        split_once(s, sep) is None <==> !s.contains(sep),
        split_once(s, sep) matches Some((a, b)) ==> s == a.push(sep) + b && !a.contains(sep),
    decreases s.len(),
{
    first_index_facts(s, sep);
    let i = first_index(s, sep);
    if i < s.len() {
        assert(s[i] == sep);
        assert(s =~= s.take(i).push(sep) + s.skip(i + 1));
    }
}

proof fn first_index_facts(s: Seq<char>, c: char)
    ensures
        0 <= first_index(s, c) <= s.len(),
        first_index(s, c) < s.len() ==> s[first_index(s, c)] == c,
        forall|i: int| 0 <= i < first_index(s, c) ==> #[trigger] s[i] != c,
    decreases s.len(),
{
    if s.len() > 0 && s[0] != c {
        let rest = s.drop_first();
        first_index_facts(rest, c);
        assert forall|i: int| 0 <= i < first_index(s, c) implies #[trigger] s[i] != c by {
            if i > 0 {
                assert(rest[i - 1] == s[i]);
            }
        }
    }
}

/// The number that decimal digits denote.
pub open spec fn number_of(digits: Seq<char>) -> int
    decreases digits.len(),
{
    if digits.len() == 0 {
        0
    } else {
        10 * number_of(digits.drop_last()) + (digits.last() as int - '0' as int)
    }
}

/// A numeral denotes its number, consists of digits, and has no needless zero in
/// front.
pub proof fn numerals_denote_their_number(n: nat)
    ensures
        number_of(decimal(n)) == n,
        decimal(n).len() > 0,
        forall|i: int| 0 <= i < decimal(n).len() ==> '0' <= #[trigger] decimal(n)[i] <= '9',
        n > 0 ==> decimal(n)[0] != '0',
        n == 0 ==> decimal(n).len() == 1,
    decreases n,
{
    if n < 10 {
        assert(seq![digit(n)].drop_last() =~= Seq::empty());
        assert(number_of(Seq::empty()) == 0);
        assert(seq![digit(n)].last() == digit(n));
    } else {
        let front = decimal(n / 10);
        numerals_denote_their_number(n / 10);
        assert(decimal(n).drop_last() =~= front);
        assert(decimal(n).last() == digit(n % 10));
        assert forall|i: int| 0 <= i < decimal(n).len() implies '0' <= #[trigger] decimal(n)[i]
            <= '9' by {
            if i < front.len() {
                assert(decimal(n)[i] == front[i]);
            }
        }
        assert(decimal(n)[0] == front[0]);
    }
}

/// Texts are ordered as in a dictionary: a text comes before its extensions, and
/// where two texts first differ, the smaller character decides.
pub proof fn the_first_difference_decides(common: Seq<char>, a: Seq<char>, b: Seq<char>)
    ensures
        lex_le(common + a, common + b) == lex_le(a, b),
        lex_le(common, common + b),
        b.len() > 0 ==> !lex_le(common + b, common),
        a.len() > 0 && b.len() > 0 && a[0] != b[0] ==> (lex_le(common + a, common + b) <==> (
        a[0] as int) < (b[0] as int)),
    decreases common.len(),
{
    if common.len() == 0 {
        assert(common + a =~= a);
        assert(common + b =~= b);
    } else {
        let rest = common.drop_first();
        the_first_difference_decides(rest, a, b);
        assert((common + a).drop_first() =~= rest + a);
        assert((common + b).drop_first() =~= rest + b);
    }
}

/// Parts stand in order, with the separator between them and nowhere else.
pub proof fn joined_parts_stand_in_order(parts: Seq<Seq<char>>, sep: Seq<char>, last: Seq<char>)
    ensures
        join_with(Seq::<Seq<char>>::empty(), sep).len() == 0,
        join_with(seq![last], sep) == last,
        parts.len() > 0 ==> join_with(parts.push(last), sep) == join_with(parts, sep) + sep + last,
{
    assert(parts.push(last).drop_last() =~= parts);
}

/// A last line that is not ended is a line too, as it is.
pub proof fn the_last_line_need_not_be_ended(ls: Seq<Seq<char>>, last: Seq<char>)
    requires
        forall|i: int| 0 <= i < ls.len() ==> fits_on_a_line(#[trigger] ls[i]),
        last.len() > 0,
        !last.contains('\n'),
    ensures
        lines(ended_lines(ls, seq!['\n']) + last) == ls.push(last),
{
    let before = ended_lines(ls, seq!['\n']);
    assert forall|i: int| 0 <= i < ls.len() implies !(#[trigger] ls[i]).contains('\n') by {
        assert(fits_on_a_line(ls[i]));
    }
    fields_of_ended_lines(ls);
    split_on_plain(last, '\n');
    let fields = split_on(before + last, '\n');
    if before.len() > 0 {
        assert(before.last() == '\n');
        let start = before.drop_last();
        assert(start.push('\n') =~= before);
        split_on_add(start, last, '\n');
        split_on_add(start, Seq::empty(), '\n');
        split_on_plain(Seq::<char>::empty(), '\n');
        assert(start.push('\n') + Seq::<char>::empty() =~= before);
        assert(split_on(start, '\n') =~= ls) by {
            assert((split_on(start, '\n') + seq![Seq::<char>::empty()]).drop_last() =~= split_on(
                start,
                '\n',
            ));
            assert(ls.push(Seq::empty()).drop_last() =~= ls);
        }
        assert(fields =~= ls.push(last));
    } else {
        assert(before + last =~= last);
        assert(ls.len() == 0) by {
            if ls.len() > 0 {
                assert(before.len() >= 1);
            }
        }
        assert(fields =~= ls.push(last));
    }
    assert(fields.drop_last() =~= ls);
    assert(ls.map_values(|l: Seq<char>| strip_carriage_return(l)) =~= ls) by {
        assert forall|i: int| 0 <= i < ls.len() implies strip_carriage_return(#[trigger] ls[i])
            == ls[i] by {
            assert(fits_on_a_line(ls[i]));
        }
    }
}

} // verus!
