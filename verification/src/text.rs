//! Text helpers with exact specifications: decimal numbers, string
//! comparison, joining, trimming and splitting.
use vstd::prelude::*;
use vstd::string::StringExecFns;

verus! {

/// The character of a decimal digit.
pub open spec fn digit_char(d: nat) -> char {
    if d == 0 { '0' }
    else if d == 1 { '1' }
    else if d == 2 { '2' }
    else if d == 3 { '3' }
    else if d == 4 { '4' }
    else if d == 5 { '5' }
    else if d == 6 { '6' }
    else if d == 7 { '7' }
    else if d == 8 { '8' }
    else { '9' }
}

/// Decimal digits of a natural number, most significant first, no leading zeros.
pub open spec fn decimal(n: nat) -> Seq<char>
    decreases n,
{
    if n < 10 {
        seq![digit_char(n)]
    } else {
        decimal(n / 10).push(digit_char(n % 10))
    }
}

/// Decimal text of an integer, with a leading '-' when negative.
pub open spec fn int_text(i: int) -> Seq<char> {
    if i < 0 {
        seq!['-'] + decimal((-i) as nat)
    } else {
        decimal(i as nat)
    }
}

fn digit_str(d: u64) -> (r: &'static str)
    requires
        d < 10,
    ensures
        r@ == seq![digit_char(d as nat)],
{
    proof {
        reveal_strlit("0");
        reveal_strlit("1");
        reveal_strlit("2");
        reveal_strlit("3");
        reveal_strlit("4");
        reveal_strlit("5");
        reveal_strlit("6");
        reveal_strlit("7");
        reveal_strlit("8");
        reveal_strlit("9");
    }
    if d == 0 { "0" }
    else if d == 1 { "1" }
    else if d == 2 { "2" }
    else if d == 3 { "3" }
    else if d == 4 { "4" }
    else if d == 5 { "5" }
    else if d == 6 { "6" }
    else if d == 7 { "7" }
    else if d == 8 { "8" }
    else { "9" }
}

/// Appends the decimal digits of `n` to `s`.
pub fn push_decimal(s: &mut String, n: u64)
    ensures
        final(s)@ == old(s)@ + decimal(n as nat),
    decreases n,
{
    if n >= 10 {
        push_decimal(s, n / 10);
    }
    s.append(digit_str(n % 10));
}


/// Appends the decimal text of `x` (with a '-' when negative) to `s`.
pub fn push_i32(s: &mut String, x: i32)
    ensures
        final(s)@ == old(s)@ + int_text(x as int),
{
    if x < 0 {
        s.append("-");
        proof { reveal_strlit("-"); }
        let m: i64 = x as i64;
        let n: u64 = (0i64 - m) as u64;
        push_decimal(s, n);
        assert(final(s)@ =~= old(s)@ + int_text(x as int));
    } else {
        push_decimal(s, x as u64);
    }
}

/// The decimal text of an `i32`, as `to_string` writes it.
pub fn i32_text(x: i32) -> (r: String)
    ensures
        r@ == int_text(x as int),
{
    let mut s = String::new();
    push_i32(&mut s, x);
    assert(s@ =~= int_text(x as int));
    s
}

/// The decimal text of a `usize`, as `to_string` writes it.
pub fn usize_text(n: usize) -> (r: String)
    ensures
        r@ == decimal(n as nat),
{
    let mut s = String::new();
    push_decimal(&mut s, n as u64);
    assert(s@ =~= decimal(n as nat));
    s
}

/// Whether two strings hold the same characters.
pub fn str_eq(a: &str, b: &str) -> (r: bool)
    ensures
        r == (a@ == b@),
{
    let sa = String::from_str(a);
    let sb = String::from_str(b);
    sa == sb
}

/// Lexicographic order on character sequences, comparing characters by
/// their code points; this is the order of `str` in Rust (UTF-8 byte order
/// and code point order agree).
pub open spec fn seq_less(a: Seq<char>, b: Seq<char>) -> bool
    decreases a.len(),
{
    if a.len() == 0 {
        b.len() > 0
    } else if b.len() == 0 {
        false
    } else if a[0] != b[0] {
        (a[0] as int) < (b[0] as int)
    } else {
        seq_less(a.drop_first(), b.drop_first())
    }
}

/// `seq_less` is irreflexive.
pub proof fn lemma_seq_less_irreflexive(a: Seq<char>)
    ensures
        !seq_less(a, a),
    decreases a.len(),
{
    if a.len() > 0 {
        lemma_seq_less_irreflexive(a.drop_first());
    }
}

/// `seq_less` is transitive.
pub proof fn lemma_seq_less_transitive(a: Seq<char>, b: Seq<char>, c: Seq<char>)
    requires
        seq_less(a, b),
        seq_less(b, c),
    ensures
        seq_less(a, c),
    decreases a.len(),
{
    if a.len() > 0 && b.len() > 0 && c.len() > 0 {
        if a[0] == b[0] && b[0] == c[0] {
            lemma_seq_less_transitive(a.drop_first(), b.drop_first(), c.drop_first());
        }
    }
}

/// Two different sequences are ordered one way or the other.
pub proof fn lemma_seq_less_total(a: Seq<char>, b: Seq<char>)
    requires
        a != b,
    ensures
        seq_less(a, b) || seq_less(b, a),
    decreases a.len(),
{
    if a.len() > 0 && b.len() > 0 {
        if a[0] == b[0] {
            if a.drop_first() == b.drop_first() {
                assert(a =~= seq![a[0]] + a.drop_first());
                assert(b =~= seq![b[0]] + b.drop_first());
            }
            lemma_seq_less_total(a.drop_first(), b.drop_first());
        } else {
            assert((a[0] as int) != (b[0] as int));
        }
    } else if a.len() == 0 && b.len() == 0 {
        assert(a =~= b);
    }
}

proof fn lemma_seq_less_skip(a: Seq<char>, b: Seq<char>, i: int)
    requires
        0 <= i <= a.len(),
        i <= b.len(),
        a.take(i) == b.take(i),
    ensures
        seq_less(a, b) == seq_less(a.skip(i), b.skip(i)),
    decreases i,
{
    if i > 0 {
        assert(a[0] == a.take(i)[0]);
        assert(b[0] == b.take(i)[0]);
        assert(a.drop_first().take(i - 1) =~= a.take(i).drop_first());
        assert(b.drop_first().take(i - 1) =~= b.take(i).drop_first());
        lemma_seq_less_skip(a.drop_first(), b.drop_first(), i - 1);
        assert(a.drop_first().skip(i - 1) =~= a.skip(i));
        assert(b.drop_first().skip(i - 1) =~= b.skip(i));
    } else {
        assert(a.skip(0) =~= a);
        assert(b.skip(0) =~= b);
    }
}

/// Whether `a` comes before `b` in the order of `str`.
pub fn str_less(a: &str, b: &str) -> (r: bool)
    ensures
        r == seq_less(a@, b@),
{
    let la = a.unicode_len();
    let lb = b.unicode_len();
    let mut i: usize = 0;
    while i < la && i < lb
        invariant
            la == a@.len(),
            lb == b@.len(),
            i <= la,
            i <= lb,
            a@.take(i as int) == b@.take(i as int),
        decreases la - i,
    {
        let ca = a.get_char(i);
        let cb = b.get_char(i);
        if ca != cb {
            proof {
                lemma_seq_less_skip(a@, b@, i as int);
                assert(a@.skip(i as int)[0] == ca);
                assert(b@.skip(i as int)[0] == cb);
            }
            return (ca as u32) < (cb as u32);
        }
        assert(a@.take(i + 1) =~= a@.take(i as int).push(ca));
        assert(b@.take(i + 1) =~= b@.take(i as int).push(cb));
        i = i + 1;
    }
    proof {
        lemma_seq_less_skip(a@, b@, i as int);
    }
    i < lb
}

/// The parts joined with `sep` between each two of them, as `join` does.
pub open spec fn join(parts: Seq<Seq<char>>, sep: Seq<char>) -> Seq<char>
    decreases parts.len(),
{
    if parts.len() == 0 {
        Seq::empty()
    } else if parts.len() == 1 {
        parts[0]
    } else {
        join(parts.drop_last(), sep) + sep + parts.last()
    }
}

/// The views of a vector of strings.
pub open spec fn views(v: Seq<String>) -> Seq<Seq<char>> {
    v.map_values(|s: String| s@)
}

/// Joins the strings with `sep` between each two of them.
pub fn join_strings(parts: &Vec<String>, sep: &str) -> (r: String)
    ensures
        r@ == join(views(parts@), sep@),
{
    let mut r = String::new();
    let n = parts.len();
    let mut i: usize = 0;
    while i < n
        invariant
            n == parts@.len(),
            i <= n,
            r@ == join(views(parts@).take(i as int), sep@),
        decreases n - i,
    {
        let ghost before = r@;
        proof {
            assert(views(parts@).take(i + 1).drop_last() =~= views(parts@).take(i as int));
            assert(views(parts@).take(i + 1).last() == parts@[i as int]@);
        }
        if i > 0 {
            r.append(sep);
        } else {
            assert(views(parts@).take(0) =~= Seq::<Seq<char>>::empty());
            assert(views(parts@).take(1) =~= seq![parts@[0]@]);
        }
        r.append(parts[i].as_str());
        proof {
            if i == 0 {
                assert(r@ =~= parts@[0]@);
            }
        }
        i = i + 1;
    }
    assert(views(parts@).take(n as int) =~= views(parts@));
    r
}


/// Unicode `White_Space`, the property that `char::is_whitespace` and
/// `str::trim` go by.
pub open spec fn is_white_space(c: char) -> bool {
    let n = c as int;
    ||| 9 <= n <= 13
    ||| n == 32
    ||| n == 0x85
    ||| n == 0xA0
    ||| n == 0x1680
    ||| 0x2000 <= n <= 0x200A
    ||| n == 0x2028
    ||| n == 0x2029
    ||| n == 0x202F
    ||| n == 0x205F
    ||| n == 0x3000
}

/// Whether `c` is white space.
pub fn char_is_white_space(c: char) -> (r: bool)
    ensures
        r == is_white_space(c),
{
    let n = c as u32;
    (9 <= n && n <= 13) || n == 32 || n == 0x85 || n == 0xA0 || n == 0x1680 || (0x2000 <= n
        && n <= 0x200A) || n == 0x2028 || n == 0x2029 || n == 0x202F || n == 0x205F || n
        == 0x3000
}

/// `s` without its leading white space.
pub open spec fn trim_start(s: Seq<char>) -> Seq<char>
    decreases s.len(),
{
    if s.len() > 0 && is_white_space(s[0]) {
        trim_start(s.drop_first())
    } else {
        s
    }
}

/// `s` without its trailing white space.
pub open spec fn trim_end(s: Seq<char>) -> Seq<char>
    decreases s.len(),
{
    if s.len() > 0 && is_white_space(s.last()) {
        trim_end(s.drop_last())
    } else {
        s
    }
}

/// `s` without leading and trailing white space, as `str::trim` gives it.
pub open spec fn trim(s: Seq<char>) -> Seq<char> {
    trim_end(trim_start(s))
}

/// What trimming the start leaves is a suffix of the text that starts with
/// no white space.
pub proof fn lemma_trim_start_suffix(s: Seq<char>)
    ensures
        trim_start(s).len() <= s.len(),
        trim_start(s) =~= s.skip(s.len() - trim_start(s).len()),
        trim_start(s).len() > 0 ==> !is_white_space(trim_start(s)[0]),
    decreases s.len(),
{
    if s.len() > 0 && is_white_space(s[0]) {
        lemma_trim_start_suffix(s.drop_first());
    }
}

/// What trimming the end leaves is a prefix of the text that ends with no
/// white space.
pub proof fn lemma_trim_end_prefix(s: Seq<char>)
    ensures
        trim_end(s).len() <= s.len(),
        trim_end(s) =~= s.take(trim_end(s).len() as int),
        trim_end(s).len() > 0 ==> !is_white_space(trim_end(s).last()),
    decreases s.len(),
{
    if s.len() > 0 && is_white_space(s.last()) {
        lemma_trim_end_prefix(s.drop_last());
    }
}

/// Trimmed text starts and ends with no white space, holds no character the
/// text does not hold, and trimming it again changes nothing.
pub proof fn lemma_trim_settled(s: Seq<char>, c: char)
    ensures
        !s.contains(c) ==> !trim(s).contains(c),
        trim(trim(s)) == trim(s),
{
    let u = trim_start(s);
    let t = trim_end(u);
    lemma_trim_start_suffix(s);
    lemma_trim_end_prefix(u);
    if !s.contains(c) && t.contains(c) {
        let k = choose|k: int| 0 <= k < t.len() && t[k] == c;
        assert(t[k] == u.take(t.len() as int)[k]);
        assert(u[k] == s.skip(s.len() - u.len())[k]);
        assert(s[s.len() - u.len() + k] == c);
    }
    if t.len() > 0 {
        assert(t[0] == u.take(t.len() as int)[0]);
        assert(trim_start(t) == t);
    } else {
        assert(trim_start(t) == t);
    }
}

/// Removes leading and trailing white space.
pub fn trim_str(s: &str) -> (r: &str)
    ensures
        r@ == trim(s@),
{
    let n = s.unicode_len();
    let mut i: usize = 0;
    assert(s@.skip(0) =~= s@);
    while i < n && char_is_white_space(s.get_char(i))
        invariant
            n == s@.len(),
            i <= n,
            trim_start(s@) == trim_start(s@.skip(i as int)),
        decreases n - i,
    {
        assert(s@.skip(i as int).drop_first() =~= s@.skip(i + 1));
        i = i + 1;
    }
    proof {
        if i < n {
            assert(s@.skip(i as int)[0] == s@[i as int]);
        }
    }
    let mut j: usize = n;
    assert(s@.subrange(i as int, n as int) =~= s@.skip(i as int));
    while j > i && char_is_white_space(s.get_char(j - 1))
        invariant
            n == s@.len(),
            i <= j <= n,
            trim_start(s@) == s@.skip(i as int),
            trim(s@) == trim_end(s@.subrange(i as int, j as int)),
        decreases j,
    {
        assert(s@.subrange(i as int, j as int).drop_last() =~= s@.subrange(i as int, j - 1));
        j = j - 1;
    }
    s.substring_char(i, j)
}

/// The pieces of `s` between the occurrences of `c`, as `str::split` gives them.
pub open spec fn split_on(s: Seq<char>, c: char) -> Seq<Seq<char>>
    decreases s.len(),
{
    if s.len() == 0 {
        seq![Seq::empty()]
    } else {
        let p = split_on(s.drop_last(), c);
        if s.last() == c {
            p.push(Seq::empty())
        } else {
            p.update(p.len() - 1, p.last().push(s.last()))
        }
    }
}

/// There is always at least one piece.
pub proof fn lemma_split_on_nonempty(s: Seq<char>, c: char)
    ensures
        split_on(s, c).len() >= 1,
    decreases s.len(),
{
    if s.len() > 0 {
        lemma_split_on_nonempty(s.drop_last(), c);
    }
}

/// The number of occurrences of `c` in `s`.
pub open spec fn count_char(s: Seq<char>, c: char) -> nat
    decreases s.len(),
{
    if s.len() == 0 {
        0
    } else {
        count_char(s.drop_last(), c) + if s.last() == c { 1nat } else { 0nat }
    }
}

/// Splitting on `c` gives one piece more than there are occurrences of `c`.
pub proof fn lemma_split_on_len(s: Seq<char>, c: char)
    ensures
        split_on(s, c).len() == count_char(s, c) + 1,
    decreases s.len(),
{
    if s.len() > 0 {
        lemma_split_on_len(s.drop_last(), c);
        lemma_split_on_nonempty(s.drop_last(), c);
    }
}

/// The views of a vector of string slices.
pub open spec fn str_views(v: Seq<&str>) -> Seq<Seq<char>> {
    v.map_values(|s: &str| s@)
}

/// Splits `s` at each occurrence of `c`.
pub fn split_pieces<'a>(s: &'a str, c: char) -> (r: Vec<&'a str>)
    ensures
        str_views(r@) == split_on(s@, c),
{
    let n = s.unicode_len();
    let mut pieces: Vec<&'a str> = Vec::new();
    let mut start: usize = 0;
    let mut i: usize = 0;
    assert(s@.take(0) =~= Seq::<char>::empty());
    assert(split_on(Seq::<char>::empty(), c) =~= seq![Seq::<char>::empty()]);
    while i < n
        invariant
            n == s@.len(),
            start <= i <= n,
            split_on(s@.take(i as int), c) == str_views(pieces@).push(
                s@.subrange(start as int, i as int),
            ),
        decreases n - i,
    {
        let ch = s.get_char(i);
        let ghost before = str_views(pieces@);
        assert(s@.take(i + 1).drop_last() =~= s@.take(i as int));
        assert(s@.take(i + 1).last() == ch);
        if ch == c {
            let piece = s.substring_char(start, i);
            pieces.push(piece);
            start = i + 1;
            assert(str_views(pieces@) =~= before.push(piece@));
            assert(s@.subrange(start as int, i + 1) =~= Seq::<char>::empty());
            assert(split_on(s@.take(i + 1), c) =~= str_views(pieces@).push(
                s@.subrange(start as int, i + 1),
            ));
        } else {
            assert(s@.subrange(start as int, i + 1) =~= s@.subrange(start as int, i as int).push(
                ch,
            ));
            assert(split_on(s@.take(i + 1), c) =~= str_views(pieces@).push(
                s@.subrange(start as int, i + 1),
            ));
        }
        i = i + 1;
    }
    let last = s.substring_char(start, n);
    let ghost before = str_views(pieces@);
    pieces.push(last);
    assert(str_views(pieces@) =~= before.push(last@));
    assert(s@.take(n as int) =~= s@);
    pieces
}

/// The number of pieces that splitting `s` at each `c` gives.
pub fn piece_count(s: &str, c: char) -> (r: usize)
    ensures
        r == split_on(s@, c).len(),
{
    let pieces = split_pieces(s, c);
    assert(str_views(pieces@).len() == pieces@.len());
    pieces.len()
}


/// Decimal text holds only digits.
pub proof fn lemma_decimal_no_char(n: nat, c: char)
    requires
        c != '0' && c != '1' && c != '2' && c != '3' && c != '4' && c != '5' && c != '6' && c
            != '7' && c != '8' && c != '9',
    ensures
        count_char(decimal(n), c) == 0,
    decreases n,
{
    let k = (n % 10) as nat;
    assert(digit_char(k) != c);
    if n >= 10 {
        lemma_decimal_no_char(n / 10, c);
        assert(decimal(n).drop_last() =~= decimal(n / 10));
        assert(decimal(n).last() == digit_char(k));
    } else {
        assert(decimal(n).drop_last() =~= Seq::<char>::empty());
        assert(count_char(Seq::<char>::empty(), c) == 0);
        assert(decimal(n).last() == digit_char(n));
    }
}


proof fn lemma_join_extend_last(p: Seq<Seq<char>>, sep: Seq<char>, ch: char)
    requires
        p.len() >= 1,
    ensures
        join(p.update(p.len() - 1, p.last().push(ch)), sep) == join(p, sep).push(ch),
{
    let q = p.update(p.len() - 1, p.last().push(ch));
    if p.len() == 1 {
        assert(q[0] == p[0].push(ch));
    } else {
        assert(q.drop_last() =~= p.drop_last());
        assert(q.last() == p.last().push(ch));
        assert(join(q, sep) =~= join(p, sep).push(ch));
    }
}

/// Splitting at each `c` and joining the pieces with `c` gives back the
/// text.
pub proof fn law_split_then_join(s: Seq<char>, c: char)
    ensures
        join(split_on(s, c), seq![c]) == s,
    decreases s.len(),
{
    if s.len() == 0 {
        assert(split_on(s, c) =~= seq![Seq::<char>::empty()]);
        assert(s =~= Seq::<char>::empty());
    } else {
        let p = split_on(s.drop_last(), c);
        law_split_then_join(s.drop_last(), c);
        lemma_split_on_nonempty(s.drop_last(), c);
        if s.last() == c {
            let q = p.push(Seq::<char>::empty());
            assert(q.drop_last() =~= p);
            assert(join(q, seq![c]) =~= s);
        } else {
            lemma_join_extend_last(p, seq![c], s.last());
            assert(s =~= s.drop_last().push(s.last()));
        }
    }
}

/// No piece of a split holds the character split at.
pub proof fn law_split_pieces_lack_separator(s: Seq<char>, c: char)
    ensures
        forall|i: int| 0 <= i < split_on(s, c).len() ==> !(#[trigger] split_on(s, c)[i]).contains(
            c,
        ),
    decreases s.len(),
{
    if s.len() > 0 {
        law_split_pieces_lack_separator(s.drop_last(), c);
        lemma_split_on_nonempty(s.drop_last(), c);
        let p = split_on(s.drop_last(), c);
        if s.last() != c {
            assert forall|i: int| 0 <= i < split_on(s, c).len() implies !(
            #[trigger] split_on(s, c)[i]).contains(c) by {
                if i == p.len() - 1 {
                    let l = p.last().push(s.last());
                    assert(!p[p.len() - 1].contains(c));
                    if l.contains(c) {
                        let k = choose|k: int| 0 <= k < l.len() && l[k] == c;
                        if k < l.len() - 1 {
                            assert(p.last()[k] == c);
                        }
                    }
                }
            }
        } else {
            assert forall|i: int| 0 <= i < split_on(s, c).len() implies !(
            #[trigger] split_on(s, c)[i]).contains(c) by {
                if i < p.len() {
                    assert(split_on(s, c)[i] == p[i]);
                }
            }
        }
    }
}

} // verus!
