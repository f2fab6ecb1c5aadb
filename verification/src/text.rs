//! Text building blocks: equality, decimal numerals, joining and padding.
use vstd::prelude::*;

verus! {

/// True when the two strings hold the same characters.
pub fn str_eq(a: &str, b: &str) -> (r: bool)
    ensures
        r == (a@ == b@),
{
    a.to_owned() == b.to_owned()
}

/// The character of one decimal digit.
pub open spec fn digit_char(d: nat) -> char {
    if d == 0 {
        '0'
    } else if d == 1 {
        '1'
    } else if d == 2 {
        '2'
    } else if d == 3 {
        '3'
    } else if d == 4 {
        '4'
    } else if d == 5 {
        '5'
    } else if d == 6 {
        '6'
    } else if d == 7 {
        '7'
    } else if d == 8 {
        '8'
    } else {
        '9'
    }
}

/// The decimal numeral of `n`, without leading zeros.
pub open spec fn dec(n: nat) -> Seq<char>
    decreases n,
{
    if n < 10 {
        seq![digit_char(n)]
    } else {
        dec(n / 10).push(digit_char(n % 10))
    }
}

/// The decimal numeral of `n` with an explicit sign: `+7`, `-3`, `+0`.
pub open spec fn signed_dec(n: int) -> Seq<char> {
    if n < 0 {
        seq!['-'] + dec((-n) as nat)
    } else {
        seq!['+'] + dec(n as nat)
    }
}

/// The decimal numeral of `n`, with a sign below zero only.
pub open spec fn integer_dec(n: int) -> Seq<char> {
    if n < 0 {
        seq!['-'] + dec((-n) as nat)
    } else {
        dec(n as nat)
    }
}

/// Exactly `width` decimal digits of `n`, zero-padded (`n < 10^width`).
pub open spec fn dec_fixed(n: nat, width: nat) -> Seq<char>
    decreases width,
{
    if width == 0 {
        Seq::empty()
    } else {
        dec_fixed(n / 10, (width - 1) as nat).push(digit_char(n % 10))
    }
}

fn digit_str(d: u64) -> (r: &'static str)
    requires
        d < 10,
    ensures
        r@ == seq![digit_char(d as nat)],
{
    proof {
        reveal_strlit("0");
        reveal_strlit("1");
        reveal_strlit("2");
        reveal_strlit("3");
        reveal_strlit("4");
        reveal_strlit("5");
        reveal_strlit("6");
        reveal_strlit("7");
        reveal_strlit("8");
        reveal_strlit("9");
    }
    if d == 0 {
        "0"
    } else if d == 1 {
        "1"
    } else if d == 2 {
        "2"
    } else if d == 3 {
        "3"
    } else if d == 4 {
        "4"
    } else if d == 5 {
        "5"
    } else if d == 6 {
        "6"
    } else if d == 7 {
        "7"
    } else if d == 8 {
        "8"
    } else {
        "9"
    }
}

/// The decimal numeral of `n`.
pub fn decimal(n: u64) -> (r: String)
    ensures
        r@ == dec(n as nat),
    decreases n,
{
    if n < 10 {
        digit_str(n).to_owned()
    } else {
        decimal(n / 10).concat(digit_str(n % 10))
    }
}

/// The decimal numeral of `n` with an explicit sign.
pub fn signed_decimal(n: i64) -> (r: String)
    ensures
        r@ == signed_dec(n as int),
{
    proof {
        reveal_strlit("+");
    }
    if n < 0 {
        integer_decimal(n)
    } else {
        "+".to_owned().concat(decimal(n as u64).as_str())
    }
}

/// The decimal numeral of `n`, with a sign below zero only.
pub fn integer_decimal(n: i64) -> (r: String)
    ensures
        r@ == integer_dec(n as int),
{
    proof {
        reveal_strlit("-");
    }
    if n < 0 {
        let magnitude: u64 = (-(n + 1)) as u64 + 1;
        "-".to_owned().concat(decimal(magnitude).as_str())
    } else {
        decimal(n as u64)
    }
}

/// `width` decimal digits of `n`, the lowest ones, zero-padded.
pub fn decimal_fixed(n: u64, width: u64) -> (r: String)
    ensures
        r@ == dec_fixed(n as nat, width as nat),
    decreases width,
{
    if width == 0 {
        String::new()
    } else {
        decimal_fixed(n / 10, width - 1).concat(digit_str(n % 10))
    }
}

/// A letter from `A` to `Z` in lower case; other characters unchanged.
pub open spec fn lower(c: char) -> char {
    if 'A' <= c <= 'Z' {
        (c as u32 + 32) as char
    } else {
        c
    }
}

/// A letter from `A` to `Z` in lower case, as text.
fn lower_letter(c: char) -> (r: &'static str)
    requires
        'A' <= c <= 'Z',
    ensures
        r@ == seq![lower(c)],
{
    let letters = "abcdefghijklmnopqrstuvwxyz";
    let k: usize = (c as u32 - 'A' as u32) as usize;
    proof {
        reveal_strlit("abcdefghijklmnopqrstuvwxyz");
        assert(letters@[k as int] == lower(c)) by {
            assert(k == 0 || k == 1 || k == 2 || k == 3 || k == 4 || k == 5 || k == 6 || k == 7
                || k == 8 || k == 9 || k == 10 || k == 11 || k == 12 || k == 13 || k == 14 || k ==
                15 || k == 16 || k == 17 || k == 18 || k == 19 || k == 20 || k == 21 || k == 22
                || k == 23 || k == 24 || k == 25);
        }
    }
    let r = letters.substring_char(k, k + 1);
    assert(r@ =~= seq![lower(c)]);
    r
}

/// A text with its letters `A` to `Z` in lower case.
pub open spec fn lowered(s: Seq<char>) -> Seq<char> {
    s.map_values(|c: char| lower(c))
}

/// A text with its letters `A` to `Z` in lower case, every other character
/// unchanged.
pub fn lowercase(s: &str) -> (r: String)
    ensures
        r@ == lowered(s@),
{
    let n: usize = s.unicode_len();
    let mut out = String::new();
    let mut i: usize = 0;
    assert(lowered(s@.take(0)) =~= Seq::empty());
    while i < n
        invariant
            i <= n,
            n == s@.len(),
            out@ == lowered(s@.take(i as int)),
        decreases n - i,
    {
        proof {
            assert(s@.take(i + 1) =~= s@.take(i as int).push(s@[i as int]));
            assert(lowered(s@.take(i + 1)) =~= lowered(s@.take(i as int)).push(
                lower(s@[i as int]),
            ));
        }
        let c: char = s.get_char(i);
        if 'A' <= c && c <= 'Z' {
            out = out.concat(lower_letter(c));
        } else {
            let one = s.substring_char(i, i + 1);
            assert(one@ =~= seq![s@[i as int]]);
            out = out.concat(one);
        }
        assert(out@ =~= lowered(s@.take(i + 1)));
        i = i + 1;
    }
    assert(s@.take(i as int) =~= s@);
    out
}

/// A string as the `Debug` formatter quotes it.
pub uninterp spec fn quoted(s: Seq<char>) -> Seq<char>;

/// `format!` of a string with `{:?}`. The text depends on the string alone;
/// how characters are escaped is left unsaid.
#[verifier::external_body]
pub(crate) fn quote(s: &str) -> (r: String)
    ensures
        r@ == quoted(s@),
{
    format!("{s:?}")
}

/// The views of a list of strings.
pub open spec fn texts(v: Seq<String>) -> Seq<Seq<char>> {
    v.map_values(|s: String| s@)
}

/// The parts, in order, with `sep` between consecutive ones.
pub open spec fn joined(parts: Seq<Seq<char>>, sep: Seq<char>) -> Seq<char>
    decreases parts.len(),
{
    if parts.len() == 0 {
        Seq::empty()
    } else if parts.len() == 1 {
        parts[0]
    } else {
        joined(parts.drop_last(), sep) + sep + parts.last()
    }
}

/// The strings, in order, with `sep` between consecutive ones.
pub fn join(parts: &Vec<String>, sep: &str) -> (r: String)
    ensures
        r@ == joined(texts(parts@), sep@),
{
    let mut out = String::new();
    let mut i: usize = 0;
    proof {
        assert(texts(parts@).take(0) =~= Seq::empty());
    }
    while i < parts.len()
        invariant
            i <= parts.len(),
            out@ == joined(texts(parts@).take(i as int), sep@),
        decreases parts.len() - i,
    {
        let ghost all = texts(parts@);
        proof {
            assert(all.take(i + 1).drop_last() =~= all.take(i as int));
            assert(all.take(i + 1).last() == parts@[i as int]@);
        }
        if i > 0 {
            out = out.concat(sep);
        }
        out = out.concat(parts[i].as_str());
        i = i + 1;
    }
    proof {
        assert(texts(parts@).take(i as int) =~= texts(parts@));
    }
    out
}

/// Whether `a` comes no later than `b` in character order.
pub open spec fn no_later(a: Seq<char>, b: Seq<char>) -> bool
    decreases a.len(),
{
    if a.len() == 0 {
        true
    } else if b.len() == 0 {
        false
    } else if a[0] != b[0] {
        a[0] < b[0]
    } else {
        no_later(a.drop_first(), b.drop_first())
    }
}

/// Whether `a` comes no later than `b` in character order.
pub fn is_no_later(a: &str, b: &str) -> (r: bool)
    ensures
        r == no_later(a@, b@),
{
    let n: usize = a.unicode_len();
    let m: usize = b.unicode_len();
    let mut i: usize = 0;
    assert(a@.subrange(0, a@.len() as int) =~= a@);
    assert(b@.subrange(0, b@.len() as int) =~= b@);
    while i < n && i < m
        invariant
            i <= n,
            i <= m,
            n == a@.len(),
            m == b@.len(),
            no_later(a@, b@) == no_later(
                a@.subrange(i as int, a@.len() as int),
                b@.subrange(i as int, b@.len() as int),
            ),
        decreases n - i,
    {
        let x: char = a.get_char(i);
        let y: char = b.get_char(i);
        let ghost ra = a@.subrange(i as int, a@.len() as int);
        let ghost rb = b@.subrange(i as int, b@.len() as int);
        assert(ra[0] == x && rb[0] == y);
        if x != y {
            return x < y;
        }
        assert(ra.drop_first() =~= a@.subrange(i + 1, a@.len() as int));
        assert(rb.drop_first() =~= b@.subrange(i + 1, b@.len() as int));
        i = i + 1;
    }
    i >= n
}

/// Character order is a total order.
pub proof fn character_order_is_total(a: Seq<char>, b: Seq<char>, c: Seq<char>)
    ensures
        no_later(a, a),
        no_later(a, b) || no_later(b, a),
        no_later(a, b) && no_later(b, a) ==> a == b,
        no_later(a, b) && no_later(b, c) ==> no_later(a, c),
    decreases a.len(),
{
    if a.len() > 0 {
        character_order_is_total(a.drop_first(), b.drop_first(), c.drop_first());
        if b.len() > 0 && a[0] == b[0] && no_later(a, b) && no_later(b, a) {
            assert(a =~= seq![a[0]] + a.drop_first());
            assert(b =~= seq![b[0]] + b.drop_first());
        }
    } else if b.len() == 0 {
        assert(a =~= b);
    }
}

/// A character with a colon turned into a dash.
pub open spec fn dashed_char(c: char) -> char {
    if c == ':' {
        '-'
    } else {
        c
    }
}

/// A text with its colons turned into dashes.
pub open spec fn dashed(s: Seq<char>) -> Seq<char> {
    s.map_values(|c: char| dashed_char(c))
}

/// A text with its colons turned into dashes, for use in a file name.
pub fn dash_colons(s: &str) -> (r: String)
    ensures
        r@ == dashed(s@),
{
    let n: usize = s.unicode_len();
    let mut out = String::new();
    let mut i: usize = 0;
    proof {
        reveal_strlit("-");
        assert("-"@ =~= seq!['-']);
        assert(dashed(s@.take(0)) =~= Seq::empty());
    }
    while i < n
        invariant
            i <= n,
            n == s@.len(),
            out@ == dashed(s@.take(i as int)),
            "-"@ == seq!['-'],
        decreases n - i,
    {
        proof {
            assert(s@.take(i + 1) =~= s@.take(i as int).push(s@[i as int]));
            assert(dashed(s@.take(i + 1)) =~= dashed(s@.take(i as int)).push(
                dashed_char(s@[i as int]),
            ));
        }
        if s.get_char(i) == ':' {
            out = out.concat("-");
        } else {
            let one = s.substring_char(i, i + 1);
            assert(one@ =~= seq![s@[i as int]]);
            out = out.concat(one);
        }
        assert(out@ =~= dashed(s@.take(i + 1)));
        i = i + 1;
    }
    assert(s@.take(i as int) =~= s@);
    out
}

/// `n` spaces.
pub open spec fn blanks(n: nat) -> Seq<char> {
    Seq::new(n, |i: int| ' ')
}

/// `n` spaces.
pub fn spaces(n: usize) -> (r: String)
    ensures
        r@ == blanks(n as nat),
{
    let mut out = String::new();
    let mut i: usize = 0;
    while i < n
        invariant
            i <= n,
            out@ == blanks(i as nat),
        decreases n - i,
    {
        proof {
            reveal_strlit(" ");
        }
        out = out.concat(" ");
        i = i + 1;
    }
    out
}

/// Reading a numeral back.
pub open spec fn digit_value(c: char) -> nat {
    if '0' <= c <= '9' {
        (c as nat - '0' as nat) as nat
    } else {
        0
    }
}

/// The number that a string of decimal digits denotes.
pub open spec fn numeral_value(s: Seq<char>) -> nat
    decreases s.len(),
{
    if s.len() == 0 {
        0
    } else {
        10 * numeral_value(s.drop_last()) + digit_value(s.last())
    }
}

/// A numeral denotes the number it was printed from, so that different
/// numbers never print alike.
pub proof fn numerals_denote_their_number(n: nat)
    ensures
        numeral_value(dec(n)) == n,
        dec(n).len() >= 1,
    decreases n,
{
    if n < 10 {
        assert(dec(n).drop_last() =~= Seq::empty());
        assert(numeral_value(dec(n).drop_last()) == 0);
    } else {
        numerals_denote_their_number(n / 10);
        assert(dec(n).drop_last() =~= dec(n / 10));
    }
}

/// A fixed-width numeral denotes the lowest digits of the number.
pub proof fn fixed_numerals_denote_their_number(n: nat, width: nat)
    ensures
        dec_fixed(n, width).len() == width,
        n < pow10(width) ==> numeral_value(dec_fixed(n, width)) == n,
    decreases width,
{
    if width == 0 {
    } else {
        fixed_numerals_denote_their_number(n / 10, (width - 1) as nat);
        assert(dec_fixed(n, width).drop_last() =~= dec_fixed(n / 10, (width - 1) as nat));
        if n < pow10(width) {
            assert(n / 10 < pow10((width - 1) as nat)) by (nonlinear_arith)
                requires
                    n < 10 * pow10((width - 1) as nat),
            ;
        }
    }
}

/// `10^k`.
pub open spec fn pow10(k: nat) -> nat
    decreases k,
{
    if k == 0 {
        1
    } else {
        10 * pow10((k - 1) as nat)
    }
}

/// The first character in which two texts differ decides which comes first;
/// a text comes no later than what starts with it.
pub proof fn the_first_difference_decides(a: Seq<char>, b: Seq<char>, i: int)
    requires
        0 <= i <= a.len(),
        i <= b.len(),
        forall|k: int| 0 <= k < i ==> #[trigger] a[k] == b[k],
    ensures
        i < a.len() && i < b.len() && a[i] < b[i] ==> no_later(a, b) && !no_later(b, a),
        i == a.len() ==> no_later(a, b),
        i == a.len() && i < b.len() ==> !no_later(b, a),
    decreases i,
{
    if i > 0 {
        assert(a[0] == b[0]);
        let ra = a.drop_first();
        let rb = b.drop_first();
        assert forall|k: int| 0 <= k < i - 1 implies #[trigger] ra[k] == rb[k] by {
            assert(a[k + 1] == b[k + 1]);
        }
        the_first_difference_decides(ra, rb, i - 1);
    }
}

/// Lower case changes the letters `A` to `Z` alone, each into the letter at
/// its place in the alphabet, and keeps every other character.
pub proof fn lower_case_keeps_the_rest(s: Seq<char>, i: int)
    requires
        0 <= i < s.len(),
    ensures
        lowered(s).len() == s.len(),
        'A' <= s[i] <= 'Z' ==> 'a' <= lowered(s)[i] <= 'z' && lowered(s)[i] as nat - 'a' as nat
            == s[i] as nat - 'A' as nat,
        !('A' <= s[i] <= 'Z') ==> lowered(s)[i] == s[i],
{
}

/// A text for a file name has no colon: each is a dash, and every other
/// character stays.
pub proof fn file_names_have_no_colon(s: Seq<char>, i: int)
    requires
        0 <= i < s.len(),
    ensures
        dashed(s).len() == s.len(),
        dashed(s)[i] != ':',
        s[i] == ':' ==> dashed(s)[i] == '-',
        s[i] != ':' ==> dashed(s)[i] == s[i],
{
}

/// A joined text holds its parts in order, with the separator between
/// consecutive ones and at neither end.
pub proof fn separators_stand_between(a: Seq<char>, b: Seq<char>, more: Seq<Seq<char>>, sep: Seq<char>)
    ensures
        joined(Seq::empty(), sep) == Seq::<char>::empty(),
        joined(seq![a], sep) == a,
        joined(seq![a, b], sep) == a + sep + b,
        more.len() > 0 ==> joined(more.push(a), sep) == joined(more, sep) + sep + a,
{
    assert(seq![a, b].drop_last() =~= seq![a]);
    assert(more.push(a).drop_last() =~= more);
}

/// A sign stands before a number below zero and, where asked for, before any
/// other; a number without its sign is its absolute value.
pub proof fn signs_stand_in_front(n: int)
    ensures
        n < 0 ==> signed_dec(n)[0] == '-' && integer_dec(n) == signed_dec(n)
            && signed_dec(n).drop_first() == dec((-n) as nat),
        n >= 0 ==> signed_dec(n)[0] == '+' && signed_dec(n).drop_first() == dec(n as nat)
            && integer_dec(n) == dec(n as nat),
{
    if n < 0 {
        assert(signed_dec(n).drop_first() =~= dec((-n) as nat));
    } else {
        assert(signed_dec(n).drop_first() =~= dec(n as nat));
    }
}

/// Padding is made of spaces, as many as asked for.
pub proof fn padding_is_blank(n: nat, i: int)
    ensures
        blanks(n).len() == n,
        0 <= i < n ==> blanks(n)[i] == ' ',
{
}

} // verus!
