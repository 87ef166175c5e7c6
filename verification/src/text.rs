//! Small verified text utilities shared by the gateway: decimal rendering of
//! integers and substring containment.

use vstd::prelude::*;

verus! {

/// The character for a single decimal digit.
pub open spec fn spec_digit(d: int) -> char {
    if d == 0 {
        '0'
    } else if d == 1 {
        '1'
    } else if d == 2 {
        '2'
    } else if d == 3 {
        '3'
    } else if d == 4 {
        '4'
    } else if d == 5 {
        '5'
    } else if d == 6 {
        '6'
    } else if d == 7 {
        '7'
    } else if d == 8 {
        '8'
    } else {
        '9'
    }
}

/// The usual decimal rendering of `n`, without leading zeroes (except for 0
/// itself).
pub open spec fn spec_dec(n: nat) -> Seq<char>
    decreases n,
{
    if n < 10 {
        seq![spec_digit(n as int)]
    } else {
        spec_dec(n / 10) + seq![spec_digit((n % 10) as int)]
    }
}

fn digit_str(d: u64) -> (r: &'static str)
    requires
        d < 10,
    ensures
        r@ == seq![spec_digit(d as int)],
{
    let s: &'static str = match d {
        0 => "0",
        1 => "1",
        2 => "2",
        3 => "3",
        4 => "4",
        5 => "5",
        6 => "6",
        7 => "7",
        8 => "8",
        _ => "9",
    };
    proof {
        reveal_strlit("0");
        reveal_strlit("1");
        reveal_strlit("2");
        reveal_strlit("3");
        reveal_strlit("4");
        reveal_strlit("5");
        reveal_strlit("6");
        reveal_strlit("7");
        reveal_strlit("8");
        reveal_strlit("9");
        assert(s@ =~= seq![spec_digit(d as int)]);
    }
    s
}

/// Renders `n` in decimal.
pub fn u64_to_dec(n: u64) -> (r: String)
    ensures
        r@ == spec_dec(n as nat),
    decreases n,
{
    if n < 10 {
        let r = String::from_str(digit_str(n));
        r
    } else {
        let mut r = u64_to_dec(n / 10);
        r.append(digit_str(n % 10));
        r
    }
}

/// A fixed-point rate in hundredths of a unit, shown in the unit itself:
/// whole rates without a fraction, others with one or two fractional
/// digits.
pub open spec fn spec_rate_display(r: u32) -> Seq<char> {
    if r % 100 == 0 {
        spec_dec((r / 100) as nat)
    } else if r % 10 == 0 {
        spec_dec((r / 100) as nat) + seq!['.', spec_digit(((r / 10) % 10) as int)]
    } else {
        spec_dec((r / 100) as nat) + seq!['.', spec_digit(((r / 10) % 10) as int), spec_digit(
            (r % 10) as int,
        )]
    }
}

/// Renders a rate given in hundredths.
pub fn rate_display(r: u32) -> (s: String)
    ensures
        s@ == spec_rate_display(r),
{
    let mut s = u64_to_dec((r / 100) as u64);
    if r % 100 != 0 {
        s.append(".");
        proof {
            reveal_strlit(".");
            assert("."@ =~= seq!['.']);
        }
        s.append(digit_str(((r / 10) % 10) as u64));
        if r % 10 != 0 {
            s.append(digit_str((r % 10) as u64));
        }
    }
    s
}

/// Whether `c` is one of the ten decimal digit characters.
pub open spec fn spec_is_digit_char(c: char) -> bool {
    c == '0' || c == '1' || c == '2' || c == '3' || c == '4' || c == '5' || c == '6' || c == '7'
        || c == '8' || c == '9'
}

/// Every character of a decimal rendering is a digit.
pub proof fn lemma_dec_all_digits(n: nat)
    ensures
        forall|i: int| 0 <= i < spec_dec(n).len() ==> spec_is_digit_char(#[trigger] spec_dec(n)[i]),
    decreases n,
{
    if n >= 10 {
        lemma_dec_all_digits(n / 10);
        assert forall|i: int| 0 <= i < spec_dec(n).len() implies spec_is_digit_char(
            #[trigger] spec_dec(n)[i],
        ) by {
            if i < spec_dec(n / 10).len() {
                assert(spec_dec(n)[i] == spec_dec(n / 10)[i]);
            } else {
                assert(spec_dec(n)[i] == spec_digit((n % 10) as int));
                assert(0 <= n % 10 < 10);
            }
        }
    } else {
        assert(spec_dec(n)[0] == spec_digit(n as int));
        assert(0 <= (n as int) < 10);
    }
}

proof fn lemma_digit_injective(a: int, b: int)
    requires
        0 <= a < 10,
        0 <= b < 10,
        spec_digit(a) == spec_digit(b),
    ensures
        a == b,
{
}

/// Distinct numbers have distinct decimal renderings.
pub proof fn lemma_dec_injective(a: nat, b: nat)
    requires
        spec_dec(a) == spec_dec(b),
    ensures
        a == b,
    decreases a,
{
    if a < 10 && b < 10 {
        assert(spec_dec(a)[0] == spec_digit(a as int));
        assert(spec_dec(b)[0] == spec_digit(b as int));
        lemma_digit_injective(a as int, b as int);
    } else if a < 10 {
        lemma_dec_len_ge_2(b);
        assert(spec_dec(a).len() == 1);
    } else if b < 10 {
        lemma_dec_len_ge_2(a);
        assert(spec_dec(b).len() == 1);
    } else {
        let la = spec_dec(a / 10).len() as int;
        let lb = spec_dec(b / 10).len() as int;
        assert(spec_dec(a).len() == la + 1);
        assert(spec_dec(b).len() == lb + 1);
        assert(la == lb);
        assert(spec_dec(a).last() == spec_digit((a % 10) as int));
        assert(spec_dec(b).last() == spec_digit((b % 10) as int));
        lemma_digit_injective((a % 10) as int, (b % 10) as int);
        assert(spec_dec(a / 10) =~= spec_dec(b / 10)) by {
            assert forall|i: int| 0 <= i < la implies #[trigger] spec_dec(a / 10)[i] == spec_dec(
                b / 10,
            )[i] by {
                assert(spec_dec(a)[i] == spec_dec(a / 10)[i]);
                assert(spec_dec(b)[i] == spec_dec(b / 10)[i]);
            }
        }
        lemma_dec_injective(a / 10, b / 10);
    }
}

/// A decimal rendering of a number of ten or more has at least two characters.
pub proof fn lemma_dec_len_ge_2(n: nat)
    requires
        n >= 10,
    ensures
        spec_dec(n).len() >= 2,
{
    lemma_dec_len_ge_1(n / 10);
}

/// A decimal rendering is never empty.
pub proof fn lemma_dec_len_ge_1(n: nat)
    ensures
        spec_dec(n).len() >= 1,
    decreases n,
{
    if n >= 10 {
        lemma_dec_len_ge_1(n / 10);
    }
}

/// The character for a single lower-case hexadecimal digit.
pub open spec fn spec_hex_digit(d: int) -> char {
    if d < 10 {
        spec_digit(d)
    } else if d == 10 {
        'a'
    } else if d == 11 {
        'b'
    } else if d == 12 {
        'c'
    } else if d == 13 {
        'd'
    } else if d == 14 {
        'e'
    } else {
        'f'
    }
}

fn hex_digit_str(d: u32) -> (r: &'static str)
    requires
        d < 16,
    ensures
        r@ == seq![spec_hex_digit(d as int)],
{
    if d < 10 {
        digit_str(d as u64)
    } else {
        let s: &'static str = match d {
            10 => "a",
            11 => "b",
            12 => "c",
            13 => "d",
            14 => "e",
            _ => "f",
        };
        proof {
            reveal_strlit("a");
            reveal_strlit("b");
            reveal_strlit("c");
            reveal_strlit("d");
            reveal_strlit("e");
            reveal_strlit("f");
            assert(s@ =~= seq![spec_hex_digit(d as int)]);
        }
        s
    }
}

/// How one character is written inside a JSON string: quotes and backslashes
/// are escaped, control characters take the `\u00XX` form, everything else
/// stands as itself.
pub open spec fn spec_escape_char(c: char) -> Seq<char> {
    if c == '"' {
        seq!['\\', '"']
    } else if c == '\\' {
        seq!['\\', '\\']
    } else if (c as u32) < 32 {
        seq!['\\', 'u', '0', '0', spec_hex_digit((c as u32 / 16) as int), spec_hex_digit(
            (c as u32 % 16) as int,
        )]
    } else {
        seq![c]
    }
}

/// The JSON string-escaping of a text, character by character.
pub open spec fn spec_json_escape(s: Seq<char>) -> Seq<char>
    decreases s.len(),
{
    if s.len() == 0 {
        Seq::empty()
    } else {
        spec_json_escape(s.drop_last()) + spec_escape_char(s.last())
    }
}

/// Escapes a text for inclusion in a JSON string literal.
pub fn json_escape(s: &str) -> (r: String)
    ensures
        r@ == spec_json_escape(s@),
{
    let n = s.unicode_len();
    let mut r = String::new();
    let mut i: usize = 0;
    while i < n
        invariant
            i <= n,
            n == s@.len(),
            r@ == spec_json_escape(s@.take(i as int)),
        decreases n - i,
    {
        let c = s.get_char(i);
        if c == '"' {
            r.append("\\\"");
            proof {
                reveal_strlit("\\\"");
                assert("\\\""@ =~= spec_escape_char(c));
            }
        } else if c == '\\' {
            r.append("\\\\");
            proof {
                reveal_strlit("\\\\");
                assert("\\\\"@ =~= spec_escape_char(c));
            }
        } else if (c as u32) < 32 {
            let code = c as u32;
            r.append("\\u00");
            r.append(hex_digit_str(code / 16));
            r.append(hex_digit_str(code % 16));
            proof {
                reveal_strlit("\\u00");
                assert("\\u00"@ + seq![spec_hex_digit((c as u32 / 16) as int)] + seq![
                    spec_hex_digit((c as u32 % 16) as int),
                ] =~= spec_escape_char(c));
            }
        } else {
            let piece = s.substring_char(i, i + 1);
            r.append(piece);
            proof {
                assert(s@.subrange(i as int, i as int + 1) =~= seq![s@[i as int]]);
                assert(piece@ =~= spec_escape_char(c));
            }
        }
        proof {
            assert(s@.take(i as int + 1).drop_last() =~= s@.take(i as int));
            assert(s@.take(i as int + 1).last() == s@[i as int]);
        }
        i += 1;
    }
    proof {
        assert(s@.take(n as int) =~= s@);
    }
    r
}

/// ASCII lower-casing of a single character; anything but `'A'..'Z'` is
/// unchanged.
pub open spec fn spec_lower_char(c: char) -> char {
    if c == 'A' {
        'a'
    } else if c == 'B' {
        'b'
    } else if c == 'C' {
        'c'
    } else if c == 'D' {
        'd'
    } else if c == 'E' {
        'e'
    } else if c == 'F' {
        'f'
    } else if c == 'G' {
        'g'
    } else if c == 'H' {
        'h'
    } else if c == 'I' {
        'i'
    } else if c == 'J' {
        'j'
    } else if c == 'K' {
        'k'
    } else if c == 'L' {
        'l'
    } else if c == 'M' {
        'm'
    } else if c == 'N' {
        'n'
    } else if c == 'O' {
        'o'
    } else if c == 'P' {
        'p'
    } else if c == 'Q' {
        'q'
    } else if c == 'R' {
        'r'
    } else if c == 'S' {
        's'
    } else if c == 'T' {
        't'
    } else if c == 'U' {
        'u'
    } else if c == 'V' {
        'v'
    } else if c == 'W' {
        'w'
    } else if c == 'X' {
        'x'
    } else if c == 'Y' {
        'y'
    } else if c == 'Z' {
        'z'
    } else {
        c
    }
}

fn lower_char(c: char) -> (r: char)
    ensures
        r == spec_lower_char(c),
{
    match c {
        'A' => 'a',
        'B' => 'b',
        'C' => 'c',
        'D' => 'd',
        'E' => 'e',
        'F' => 'f',
        'G' => 'g',
        'H' => 'h',
        'I' => 'i',
        'J' => 'j',
        'K' => 'k',
        'L' => 'l',
        'M' => 'm',
        'N' => 'n',
        'O' => 'o',
        'P' => 'p',
        'Q' => 'q',
        'R' => 'r',
        'S' => 's',
        'T' => 't',
        'U' => 'u',
        'V' => 'v',
        'W' => 'w',
        'X' => 'x',
        'Y' => 'y',
        'Z' => 'z',
        other => other,
    }
}

/// Exact string equality.
pub fn str_eq(a: &str, b: &str) -> (r: bool)
    ensures
        r == (a@ == b@),
{
    let a_len = a.unicode_len();
    let b_len = b.unicode_len();
    if a_len != b_len {
        proof {
            assert(a@.len() != b@.len());
        }
        return false;
    }
    let mut i: usize = 0;
    while i < a_len
        invariant
            i <= a_len,
            a_len == a@.len(),
            a_len == b@.len(),
            forall|j: int| 0 <= j < i ==> a@[j] == b@[j],
        decreases a_len - i,
    {
        if a.get_char(i) != b.get_char(i) {
            return false;
        }
        i += 1;
    }
    proof {
        assert(a@ =~= b@);
    }
    true
}

/// Equality of two strings up to ASCII case.
pub open spec fn spec_eq_ignore_ascii_case(a: Seq<char>, b: Seq<char>) -> bool {
    a.len() == b.len() && forall|i: int|
        0 <= i < a.len() ==> spec_lower_char(#[trigger] a[i]) == spec_lower_char(b[i])
}

/// String equality up to ASCII case.
pub fn eq_ignore_ascii_case(a: &str, b: &str) -> (r: bool)
    ensures
        r == spec_eq_ignore_ascii_case(a@, b@),
{
    let a_len = a.unicode_len();
    let b_len = b.unicode_len();
    if a_len != b_len {
        return false;
    }
    let mut i: usize = 0;
    while i < a_len
        invariant
            i <= a_len,
            a_len == a@.len(),
            a_len == b@.len(),
            forall|j: int| 0 <= j < i ==> spec_lower_char(#[trigger] a@[j]) == spec_lower_char(
                b@[j],
            ),
        decreases a_len - i,
    {
        if lower_char(a.get_char(i)) != lower_char(b.get_char(i)) {
            return false;
        }
        i += 1;
    }
    true
}

/// The first position at or after `from` where `c` occurs in `s`, or -1
/// when it does not occur there.
pub open spec fn spec_find(s: Seq<char>, c: char, from: int) -> int
    decreases s.len() - from,
{
    if from < 0 || from >= s.len() {
        -1
    } else if s[from] == c {
        from
    } else {
        spec_find(s, c, from + 1)
    }
}

/// What a found (or not found) position means.
pub proof fn lemma_find_props(s: Seq<char>, c: char, from: int)
    requires
        0 <= from,
    ensures
        spec_find(s, c, from) == -1 ==> forall|j: int| from <= j < s.len() ==> s[j] != c,
        spec_find(s, c, from) != -1 ==> from <= spec_find(s, c, from) < s.len() && s[spec_find(
            s,
            c,
            from,
        )] == c && forall|j: int| from <= j < spec_find(s, c, from) ==> s[j] != c,
    decreases s.len() - from,
{
    if from < s.len() && s[from] != c {
        lemma_find_props(s, c, from + 1);
    }
}

/// Finds the first occurrence of `c` in `s` at or after `from`.
pub fn find_char(s: &str, c: char, from: usize) -> (r: Option<usize>)
    ensures
        match r {
            Some(i) => spec_find(s@, c, from as int) == i,
            None => spec_find(s@, c, from as int) == -1,
        },
{
    let n = s.unicode_len();
    let mut i: usize = from;
    while i < n
        invariant
            from <= i,
            n == s@.len(),
            spec_find(s@, c, from as int) == spec_find(s@, c, i as int),
        decreases n - i,
    {
        if s.get_char(i) == c {
            return Some(i);
        }
        i += 1;
    }
    None
}

/// Appends `src`'s bytes to `dst`.
pub fn append_bytes(dst: &mut Vec<u8>, src: &Vec<u8>)
    ensures
        final(dst)@ == old(dst)@ + src@,
{
    let ghost d0 = dst@;
    let n = src.len();
    let mut i: usize = 0;
    while i < n
        invariant
            i <= n,
            n == src@.len(),
            dst@ == d0 + src@.take(i as int),
        decreases n - i,
    {
        dst.push(src[i]);
        proof {
            assert(dst@ =~= d0 + src@.take(i as int + 1));
        }
        i += 1;
    }
    proof {
        assert(d0 + src@.take(n as int) =~= d0 + src@);
    }
}

/// The division of a text into successive pieces of at most `size`
/// characters: all of them exactly `size` long but possibly the last.
pub open spec fn spec_chunks(s: Seq<char>, size: int) -> Seq<Seq<char>>
    recommends
        size >= 1,
    decreases s.len(),
{
    if s.len() == 0 || size < 1 {
        Seq::empty()
    } else if s.len() <= size {
        seq![s]
    } else {
        seq![s.take(size)] + spec_chunks(s.skip(size), size)
    }
}

/// The views of a vector of strings.
pub open spec fn spec_str_views(v: Seq<String>) -> Seq<Seq<char>> {
    Seq::new(v.len(), |i: int| v[i]@)
}

/// Splits a text into successive pieces of at most `size` characters.
pub fn chunk_text(text: &str, size: usize) -> (r: Vec<String>)
    requires
        size >= 1,
    ensures
        spec_str_views(r@) == spec_chunks(text@, size as int),
{
    let n = text.unicode_len();
    let mut r: Vec<String> = Vec::new();
    let mut i: usize = 0;
    proof {
        assert(text@.skip(0) =~= text@);
        assert(spec_str_views(r@) =~= Seq::<Seq<char>>::empty());
    }
    while i < n
        invariant
            size >= 1,
            i <= n,
            n == text@.len(),
            i < n ==> spec_chunks(text@, size as int) =~= spec_str_views(r@) + spec_chunks(
                text@.skip(i as int),
                size as int,
            ),
            i == n ==> spec_chunks(text@, size as int) =~= spec_str_views(r@),
        decreases n - i,
    {
        let end = if n - i > size {
            i + size
        } else {
            n
        };
        let piece = text.substring_char(i, end);
        let chunk = String::from_str(piece);
        let ghost views_before = spec_str_views(r@);
        r.push(chunk);
        proof {
            let rest = text@.skip(i as int);
            assert(rest.len() == n - i);
            assert(spec_str_views(r@) =~= views_before + seq![chunk@]);
            if n - i > size {
                assert(chunk@ =~= rest.take(size as int));
                assert(rest.skip(size as int) =~= text@.skip(end as int));
                assert(spec_chunks(rest, size as int) == seq![rest.take(size as int)]
                    + spec_chunks(rest.skip(size as int), size as int));
            } else {
                assert(chunk@ =~= rest);
                assert(spec_chunks(rest, size as int) == seq![rest]);
            }
        }
        i = end;
    }
    proof {
        if n == 0 {
            assert(spec_str_views(r@) =~= Seq::<Seq<char>>::empty());
        }
    }
    r
}

/// Lexicographic order on texts, by character code point (the order UTF-8
/// byte comparison realizes).
pub open spec fn spec_lex_lt(a: Seq<char>, b: Seq<char>) -> bool
    decreases a.len(),
{
    if b.len() == 0 {
        false
    } else if a.len() == 0 {
        true
    } else if a[0] != b[0] {
        a[0] < b[0]
    } else {
        spec_lex_lt(a.drop_first(), b.drop_first())
    }
}

/// Any two texts are ordered or equal.
pub proof fn lemma_lex_trichotomy(a: Seq<char>, b: Seq<char>)
    ensures
        spec_lex_lt(a, b) || spec_lex_lt(b, a) || a == b,
    decreases a.len(),
{
    if a.len() == 0 && b.len() == 0 {
        assert(a =~= b);
    } else if a.len() == 0 {
        assert(spec_lex_lt(a, b));
    } else if b.len() == 0 {
        assert(spec_lex_lt(b, a));
    } else if a[0] != b[0] {
        assert(spec_lex_lt(a, b) == (a[0] < b[0]));
        assert(spec_lex_lt(b, a) == (b[0] < a[0]));
    } else {
        lemma_lex_trichotomy(a.drop_first(), b.drop_first());
        if a.drop_first() == b.drop_first() {
            assert(a.drop_first().len() == a.len() - 1);
            assert(b.drop_first().len() == b.len() - 1);
            assert(a.len() == b.len());
            assert forall|i: int| 0 <= i < a.len() implies a[i] == b[i] by {
                if i > 0 {
                    assert(a[i] == a.drop_first()[i - 1]);
                    assert(b[i] == b.drop_first()[i - 1]);
                }
            }
            assert(a =~= b);
        }
    }
}

/// The order is irreflexive.
pub proof fn lemma_lex_irreflexive(a: Seq<char>)
    ensures
        !spec_lex_lt(a, a),
    decreases a.len(),
{
    if a.len() > 0 {
        lemma_lex_irreflexive(a.drop_first());
    }
}

/// The order is transitive.
pub proof fn lemma_lex_transitive(a: Seq<char>, b: Seq<char>, c: Seq<char>)
    requires
        spec_lex_lt(a, b),
        spec_lex_lt(b, c),
    ensures
        spec_lex_lt(a, c),
    decreases a.len(),
{
    if a.len() > 0 && b.len() > 0 && c.len() > 0 && a[0] == b[0] && b[0] == c[0] {
        lemma_lex_transitive(a.drop_first(), b.drop_first(), c.drop_first());
    }
}

/// Compares two strings in the lexicographic order.
pub fn str_lt(a: &str, b: &str) -> (r: bool)
    ensures
        r == spec_lex_lt(a@, b@),
{
    let a_len = a.unicode_len();
    let b_len = b.unicode_len();
    let mut i: usize = 0;
    proof {
        assert(a@.skip(0) =~= a@);
        assert(b@.skip(0) =~= b@);
    }
    while i < a_len && i < b_len
        invariant
            i <= a_len,
            i <= b_len,
            a_len == a@.len(),
            b_len == b@.len(),
            spec_lex_lt(a@, b@) == spec_lex_lt(a@.skip(i as int), b@.skip(i as int)),
        decreases a_len - i,
    {
        let ca = a.get_char(i);
        let cb = b.get_char(i);
        if ca != cb {
            proof {
                assert(a@.skip(i as int)[0] == ca);
                assert(b@.skip(i as int)[0] == cb);
            }
            return ca < cb;
        }
        proof {
            assert(a@.skip(i as int).drop_first() =~= a@.skip(i as int + 1));
            assert(b@.skip(i as int).drop_first() =~= b@.skip(i as int + 1));
        }
        i += 1;
    }
    proof {
        assert(a@.skip(i as int).len() == a_len - i);
        assert(b@.skip(i as int).len() == b_len - i);
    }
    a_len < b_len
}

/// Whether `needle` occurs in `hay` starting at position `i`.
pub open spec fn spec_occurs_at(hay: Seq<u8>, needle: Seq<u8>, i: int) -> bool {
    &&& 0 <= i
    &&& i + needle.len() <= hay.len()
    &&& hay.subrange(i, i + needle.len() as int) == needle
}

/// Whether `needle` occurs anywhere in `hay`.
pub open spec fn spec_contains(hay: Seq<u8>, needle: Seq<u8>) -> bool {
    exists|i: int| spec_occurs_at(hay, needle, i)
}

/// Relies on memchr::memmem::find: returns the index of the first occurrence
/// of `needle` in `hay`, or `None` when there is none.
#[verifier::external_body]
fn find_sub(hay: &[u8], needle: &[u8]) -> (r: Option<usize>)
    ensures
        match r {
            Some(i) => spec_occurs_at(hay@, needle@, i as int) && forall|j: int|
                0 <= j < i ==> !spec_occurs_at(hay@, needle@, j),
            None => !spec_contains(hay@, needle@),
        },
{
    memchr::memmem::find(hay, needle)
}

/// Whether `needle` occurs anywhere in `hay`.
pub fn contains_sub(hay: &[u8], needle: &[u8]) -> (r: bool)
    ensures
        r == spec_contains(hay@, needle@),
{
    find_sub(hay, needle).is_some()
}

} // verus!
