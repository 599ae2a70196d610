//! Text building blocks: decimal and hexadecimal numerals, padding, trimming
//! and the ordering of call signs.

use vstd::prelude::*;
use vstd::string::*;

verus! {

/// The character of the decimal digit `d`.
pub open spec fn digit_char(d: nat) -> char {
    if d == 0 { '0' }
    else if d == 1 { '1' }
    else if d == 2 { '2' }
    else if d == 3 { '3' }
    else if d == 4 { '4' }
    else if d == 5 { '5' }
    else if d == 6 { '6' }
    else if d == 7 { '7' }
    else if d == 8 { '8' }
    else { '9' }
}

/// `n` in decimal, without leading zeros.
pub open spec fn decimal(n: nat) -> Seq<char>
    decreases n,
{
    if n < 10 {
        seq![digit_char(n)]
    } else {
        decimal(n / 10).push(digit_char(n % 10))
    }
}

/// Appends the decimal digit `d`.
fn push_digit(out: &mut String, d: u64)
    requires
        d < 10,
    ensures
        final(out)@ == old(out)@.push(digit_char(d as nat)),
{
    proof {
        reveal_strlit("0");
        reveal_strlit("1");
        reveal_strlit("2");
        reveal_strlit("3");
        reveal_strlit("4");
        reveal_strlit("5");
        reveal_strlit("6");
        reveal_strlit("7");
        reveal_strlit("8");
        reveal_strlit("9");
    }
    let digit: &str = match d {
        0 => "0",
        1 => "1",
        2 => "2",
        3 => "3",
        4 => "4",
        5 => "5",
        6 => "6",
        7 => "7",
        8 => "8",
        _ => "9",
    };
    out.append(digit);
    assert(out@ =~= old(out)@.push(digit_char(d as nat)));
}

/// Appends `n` in decimal.
pub fn push_decimal(out: &mut String, n: u64)
    ensures
        final(out)@ == old(out)@ + decimal(n as nat),
    decreases n,
{
    if n < 10 {
        push_digit(out, n);
        assert(out@ =~= old(out)@ + decimal(n as nat));
    } else {
        push_decimal(out, n / 10);
        push_digit(out, n % 10);
        assert(out@ =~= old(out)@ + decimal(n as nat));
    }
}

/// The two last decimal digits of `n`, zero-padded.
pub open spec fn two_digits(n: nat) -> Seq<char> {
    seq![digit_char(n / 10 % 10), digit_char(n % 10)]
}

/// `n` hundredths as a decimal number with two fractional digits.
pub open spec fn hundredths(n: nat) -> Seq<char> {
    decimal(n / 100) + "."@ + two_digits(n % 100)
}

/// `n` tenths as a decimal number with one fractional digit.
pub open spec fn tenths(n: nat) -> Seq<char> {
    decimal(n / 10) + "."@ + seq![digit_char(n % 10)]
}

/// `n` spaces.
pub open spec fn spaces(n: nat) -> Seq<char> {
    Seq::new(n, |i: int| ' ')
}

/// `s` filled up on the right with spaces to at least `width` characters.
pub open spec fn pad_right(s: Seq<char>, width: nat) -> Seq<char> {
    if s.len() < width {
        s + spaces((width - s.len()) as nat)
    } else {
        s
    }
}

/// `s` filled up on the left with spaces to at least `width` characters.
pub open spec fn pad_left(s: Seq<char>, width: nat) -> Seq<char> {
    if s.len() < width {
        spaces((width - s.len()) as nat) + s
    } else {
        s
    }
}

/// Appends `n` as two zero-padded decimal digits.
pub fn push_two_digits(out: &mut String, n: u64)
    ensures
        final(out)@ == old(out)@ + two_digits(n as nat),
{
    push_digit(out, n / 10 % 10);
    push_digit(out, n % 10);
    assert(out@ =~= old(out)@ + two_digits(n as nat));
}

/// Appends `n` hundredths with two fractional digits.
pub fn push_hundredths(out: &mut String, n: u64)
    ensures
        final(out)@ == old(out)@ + hundredths(n as nat),
{
    push_decimal(out, n / 100);
    out.append(".");
    push_two_digits(out, n % 100);
    assert(out@ =~= old(out)@ + hundredths(n as nat));
}

/// Appends `n` tenths with one fractional digit.
pub fn push_tenths(out: &mut String, n: u64)
    ensures
        final(out)@ == old(out)@ + tenths(n as nat),
{
    push_decimal(out, n / 10);
    out.append(".");
    push_digit(out, n % 10);
    assert(out@ =~= old(out)@ + tenths(n as nat));
}

/// Appends `n` spaces.
pub fn push_spaces(out: &mut String, n: usize)
    ensures
        final(out)@ == old(out)@ + spaces(n as nat),
{
    proof {
        reveal_strlit(" ");
    }
    let ghost start = out@;
    let mut i: usize = 0;
    while i < n
        invariant
            i <= n,
            out@ == start + spaces(i as nat),
            " "@ == seq![' '],
        decreases n - i,
    {
        out.append(" ");
        i = i + 1;
        assert(out@ =~= start + spaces(i as nat));
    }
}

/// Appends `s`, filled up on the right to `width` characters.
pub fn push_padded_right(out: &mut String, s: &str, width: usize)
    ensures
        final(out)@ == old(out)@ + pad_right(s@, width as nat),
{
    let len = s.unicode_len();
    out.append(s);
    if len < width {
        push_spaces(out, width - len);
    }
    assert(out@ =~= old(out)@ + pad_right(s@, width as nat));
}

/// Appends `n` in decimal, filled up on the left to `width` characters.
pub fn push_decimal_padded_left(out: &mut String, n: u64, width: usize)
    ensures
        final(out)@ == old(out)@ + pad_left(decimal(n as nat), width as nat),
{
    let mut numeral = String::new();
    push_decimal(&mut numeral, n);
    assert(numeral@ =~= decimal(n as nat));
    let len = numeral.as_str().unicode_len();
    if len < width {
        push_spaces(out, width - len);
    }
    out.append(numeral.as_str());
    assert(out@ =~= old(out)@ + pad_left(decimal(n as nat), width as nat));
}

/// The upper-case hexadecimal digit of `d`.
pub open spec fn hex_char(d: nat) -> char {
    if d < 10 { digit_char(d) }
    else if d == 10 { 'A' }
    else if d == 11 { 'B' }
    else if d == 12 { 'C' }
    else if d == 13 { 'D' }
    else if d == 14 { 'E' }
    else { 'F' }
}

/// `n` as four upper-case hexadecimal digits.
pub open spec fn hex4(n: nat) -> Seq<char> {
    seq![
        hex_char(n / 4096 % 16),
        hex_char(n / 256 % 16),
        hex_char(n / 16 % 16),
        hex_char(n % 16),
    ]
}

fn push_hex_digit(out: &mut String, d: u16)
    requires
        d < 16,
    ensures
        final(out)@ == old(out)@.push(hex_char(d as nat)),
{
    proof {
        reveal_strlit("A");
        reveal_strlit("B");
        reveal_strlit("C");
        reveal_strlit("D");
        reveal_strlit("E");
        reveal_strlit("F");
    }
    if d < 10 {
        push_digit(out, d as u64);
    } else {
        let digit: &str = match d {
            10 => "A",
            11 => "B",
            12 => "C",
            13 => "D",
            14 => "E",
            _ => "F",
        };
        out.append(digit);
        assert(out@ =~= old(out)@.push(hex_char(d as nat)));
    }
}

/// Appends `n` as four upper-case hexadecimal digits.
pub fn push_hex4(out: &mut String, n: u16)
    ensures
        final(out)@ == old(out)@ + hex4(n as nat),
{
    push_hex_digit(out, n / 4096 % 16);
    push_hex_digit(out, n / 256 % 16);
    push_hex_digit(out, n / 16 % 16);
    push_hex_digit(out, n % 16);
    assert(out@ =~= old(out)@ + hex4(n as nat));
}

/// Whether `c` has the Unicode property White_Space.
pub open spec fn is_white(c: char) -> bool {
    let u = c as u32;
    ||| 0x09 <= u <= 0x0D
    ||| u == 0x20
    ||| u == 0x85
    ||| u == 0xA0
    ||| u == 0x1680
    ||| 0x2000 <= u <= 0x200A
    ||| u == 0x2028
    ||| u == 0x2029
    ||| u == 0x202F
    ||| u == 0x205F
    ||| u == 0x3000
}

fn char_is_white(c: char) -> (r: bool)
    ensures
        r == is_white(c),
{
    let u: u32 = c as u32;
    (0x09 <= u && u <= 0x0D) || u == 0x20 || u == 0x85 || u == 0xA0 || u == 0x1680
        || (0x2000 <= u && u <= 0x200A) || u == 0x2028 || u == 0x2029 || u == 0x202F
        || u == 0x205F || u == 0x3000
}

/// `s` without the white space at its end.
pub open spec fn trim_end(s: Seq<char>) -> Seq<char>
    decreases s.len(),
{
    if s.len() > 0 && is_white(s.last()) {
        trim_end(s.drop_last())
    } else {
        s
    }
}

/// `s` without the white space at its start.
pub open spec fn trim_start(s: Seq<char>) -> Seq<char>
    decreases s.len(),
{
    if s.len() > 0 && is_white(s.first()) {
        trim_start(s.drop_first())
    } else {
        s
    }
}

/// `s` without the white space at its start and its end.
pub open spec fn trimmed(s: Seq<char>) -> Seq<char> {
    trim_end(trim_start(s))
}

/// `text` without the white space at its start and its end.
pub fn trim(text: &str) -> (r: &str)
    ensures
        r@ == trimmed(text@),
{
    let len = text.unicode_len();
    let mut from: usize = 0;
    assert(text@.skip(0) =~= text@);
    while from < len && char_is_white(text.get_char(from))
        invariant
            from <= len,
            len == text@.len(),
            trim_start(text@.skip(from as int)) == trim_start(text@),
        decreases len - from,
    {
        assert(text@.skip(from as int).drop_first() =~= text@.skip(from + 1));
        from = from + 1;
    }
    assert(trim_start(text@) == text@.skip(from as int)) by {
        if from < len {
            assert(text@.skip(from as int).first() == text@[from as int]);
        }
    }
    let mut to: usize = len;
    assert(text@.subrange(from as int, len as int) =~= text@.skip(from as int));
    while from < to && char_is_white(text.get_char(to - 1))
        invariant
            from <= to <= len,
            len == text@.len(),
            trim_end(text@.subrange(from as int, to as int)) == trimmed(text@),
        decreases to,
    {
        assert(text@.subrange(from as int, to as int).drop_last() =~= text@.subrange(
            from as int,
            to - 1,
        ));
        to = to - 1;
    }
    let r = text.substring_char(from, to);
    assert(trim_end(r@) == r@);
    r
}

/// Whether `a` comes before `b` in the order of their code points.
pub open spec fn text_lt(a: Seq<char>, b: Seq<char>) -> bool
    decreases b.len(),
{
    if b.len() == 0 {
        false
    } else if a.len() == 0 {
        true
    } else if a[0] == b[0] {
        text_lt(a.drop_first(), b.drop_first())
    } else {
        a[0] < b[0]
    }
}

/// No text comes before itself.
pub proof fn lemma_text_lt_irreflexive(a: Seq<char>)
    ensures
        !text_lt(a, a),
    decreases a.len(),
{
    if a.len() > 0 {
        lemma_text_lt_irreflexive(a.drop_first());
    }
}

/// The order of texts is transitive.
pub proof fn lemma_text_lt_transitive(a: Seq<char>, b: Seq<char>, c: Seq<char>)
    requires
        text_lt(a, b),
        text_lt(b, c),
    ensures
        text_lt(a, c),
    decreases c.len(),
{
    if a.len() > 0 && a[0] == b[0] && b[0] == c[0] {
        lemma_text_lt_transitive(a.drop_first(), b.drop_first(), c.drop_first());
    }
}

/// Of two different texts one comes before the other.
pub proof fn lemma_text_lt_total(a: Seq<char>, b: Seq<char>)
    ensures
        a == b || text_lt(a, b) || text_lt(b, a),
    decreases a.len(),
{
    if a.len() > 0 && b.len() > 0 && a[0] == b[0] {
        lemma_text_lt_total(a.drop_first(), b.drop_first());
        if a.drop_first() == b.drop_first() {
            assert(a =~= seq![a[0]] + a.drop_first());
            assert(b =~= seq![b[0]] + b.drop_first());
        }
    } else if a.len() == 0 && b.len() == 0 {
        assert(a =~= b);
    }
}

/// Whether `a` comes before `b` in the order of their code points.
pub fn text_less(a: &str, b: &str) -> (r: bool)
    ensures
        r == text_lt(a@, b@),
{
    let la = a.unicode_len();
    let lb = b.unicode_len();
    let mut i: usize = 0;
    assert(a@.skip(0) =~= a@);
    assert(b@.skip(0) =~= b@);
    while i < la && i < lb
        invariant
            i <= la,
            i <= lb,
            la == a@.len(),
            lb == b@.len(),
            text_lt(a@.skip(i as int), b@.skip(i as int)) == text_lt(a@, b@),
        decreases la - i,
    {
        let ca: char = a.get_char(i);
        let cb: char = b.get_char(i);
        if ca != cb {
            return ca < cb;
        }
        assert(a@.skip(i as int).drop_first() =~= a@.skip(i + 1));
        assert(b@.skip(i as int).drop_first() =~= b@.skip(i + 1));
        i = i + 1;
    }
    i < lb
}

/// Whether two texts are the same.
pub fn same_text(a: &str, b: &str) -> (r: bool)
    ensures
        r == (a@ == b@),
{
    let la = a.unicode_len();
    let lb = b.unicode_len();
    if la != lb {
        return false;
    }
    let mut i: usize = 0;
    while i < la
        invariant
            i <= la,
            la == a@.len(),
            lb == b@.len(),
            la == lb,
            forall|j: int| 0 <= j < i ==> a@[j] == b@[j],
        decreases la - i,
    {
        if a.get_char(i) != b.get_char(i) {
            return false;
        }
        i = i + 1;
    }
    assert(a@ =~= b@);
    true
}

/// The upper-case form of a text, as `str::to_uppercase` gives it.
pub uninterp spec fn unicode_uppercase(s: Seq<char>) -> Seq<char>;

/// The upper-case form of an ASCII character.
pub open spec fn ascii_upper(c: char) -> char {
    if 'a' <= c <= 'z' {
        ((c as u32) - 32) as char
    } else {
        c
    }
}

/// Whether every character of `s` is an ASCII character.
pub open spec fn all_ascii(s: Seq<char>) -> bool {
    forall|i: int| 0 <= i < s.len() ==> (#[trigger] s[i] as u32) < 128
}

/// The upper-case form of an ASCII text, character by character.
pub open spec fn ascii_uppercase(s: Seq<char>) -> Seq<char> {
    Seq::new(s.len(), |i: int| ascii_upper(s[i]))
}

/// The upper-case form of a text.
pub open spec fn uppercase(s: Seq<char>) -> Seq<char> {
    if all_ascii(s) {
        ascii_uppercase(s)
    } else {
        unicode_uppercase(s)
    }
}

/// Calls `str::to_uppercase`. Its result depends on the text alone and is
/// named [`unicode_uppercase`]; an ASCII text keeps its length, and each
/// letter `a` to `z` becomes the capital letter. Nothing is claimed of how
/// other characters change.
#[verifier::external_body]
pub(crate) fn to_uppercase(s: &str) -> (r: String)
    ensures
        r@ == unicode_uppercase(s@),
        all_ascii(s@) ==> r@ == ascii_uppercase(s@),
{
    s.to_uppercase()
}

/// An ASCII text in upper case is again an ASCII text and stays as it is when
/// it is put into upper case once more.
pub proof fn law_uppercase_is_final(s: Seq<char>)
    requires
        all_ascii(s),
    ensures
        all_ascii(uppercase(s)),
        uppercase(s).len() == s.len(),
        uppercase(uppercase(s)) == uppercase(s),
{
    let u = uppercase(s);
    assert forall|i: int| 0 <= i < u.len() implies (#[trigger] u[i] as u32) < 128
        && ascii_upper(u[i]) == u[i] by {
        assert((s[i] as u32) < 128);
        assert(u[i] == ascii_upper(s[i]));
    }
    assert(ascii_uppercase(u) =~= u);
}

/// Trimming leaves neither white space at the ends nor anything to trim, and
/// keeps an ASCII text one.
pub proof fn law_trimmed_has_bare_ends(s: Seq<char>)
    ensures
        trimmed(s).len() <= s.len(),
        trimmed(s).len() > 0 ==> !is_white(trimmed(s).first()) && !is_white(trimmed(s).last()),
        trimmed(trimmed(s)) == trimmed(s),
        all_ascii(s) ==> all_ascii(trimmed(s)),
{
    lemma_trim_start(s);
    lemma_trim_end(trim_start(s));
}

proof fn lemma_trim_start(s: Seq<char>)
    ensures
        trim_start(s).len() <= s.len(),
        trim_start(s).len() > 0 ==> !is_white(trim_start(s).first()),
        all_ascii(s) ==> all_ascii(trim_start(s)),
    decreases s.len(),
{
    if s.len() > 0 && is_white(s.first()) {
        lemma_trim_start(s.drop_first());
    }
}

proof fn lemma_trim_end(s: Seq<char>)
    ensures
        trim_end(s).len() <= s.len(),
        trim_end(s).len() > 0 ==> !is_white(trim_end(s).last()) && trim_end(s).first() == s.first(),
        all_ascii(s) ==> all_ascii(trim_end(s)),
    decreases s.len(),
{
    if s.len() > 0 && is_white(s.last()) {
        lemma_trim_end(s.drop_last());
    }
}

/// The number that a text of decimal digits spells.
pub open spec fn read_decimal(s: Seq<char>) -> int
    decreases s.len(),
{
    if s.len() == 0 {
        0
    } else {
        10 * read_decimal(s.drop_last()) + (s.last() as int - '0' as int)
    }
}

/// Whether a text consists of decimal digits.
pub open spec fn all_digits(s: Seq<char>) -> bool {
    forall|i: int| 0 <= i < s.len() ==> '0' <= #[trigger] s[i] <= '9'
}

/// A numeral consists of digits, has no leading zero, and reads back as the
/// number that it was made from.
pub proof fn law_decimal_reads_back(n: nat)
    ensures
        read_decimal(decimal(n)) == n,
        all_digits(decimal(n)),
        decimal(n).len() >= 1,
        n >= 1 ==> decimal(n)[0] != '0',
    decreases n,
{
    let t = decimal(n);
    if n >= 10 {
        law_decimal_reads_back(n / 10);
        assert(t.drop_last() =~= decimal(n / 10));
        assert(t.last() == digit_char(n % 10));
        assert(t[0] == decimal(n / 10)[0]);
    } else {
        assert(t.drop_last() =~= Seq::<char>::empty());
        reveal_with_fuel(read_decimal, 2);
    }
}

proof fn lemma_read_two(a: char, b: char)
    ensures
        read_decimal(seq![a, b]) == 10 * (a as int - '0' as int) + (b as int - '0' as int),
        read_decimal(seq![a]) == a as int - '0' as int,
{
    reveal_with_fuel(read_decimal, 3);
    assert(seq![a, b].drop_last() =~= seq![a]);
    assert(seq![a].drop_last() =~= Seq::<char>::empty());
}

/// Two zero-padded digits read back as the last two digits of the number.
pub proof fn law_two_digits_read_back(n: nat)
    ensures
        two_digits(n).len() == 2,
        all_digits(two_digits(n)),
        read_decimal(two_digits(n)) == n % 100,
{
    lemma_read_two(digit_char(n / 10 % 10), digit_char(n % 10));
    assert(n % 100 == 10 * (n / 10 % 10) + n % 10);
}

/// A number with two fractional digits has a numeral before the point, two
/// digits behind it, and reads back as the hundredths that it was made from.
pub proof fn law_hundredths_read_back(n: nat)
    ensures
        ({
            let t = hundredths(n);
            let k = t.len() - 3;
            &&& k >= 1
            &&& t[k] == '.'
            &&& all_digits(t.take(k)) && all_digits(t.skip(k + 1))
            &&& n >= 100 ==> t[0] != '0'
            &&& 100 * read_decimal(t.take(k)) + read_decimal(t.skip(k + 1)) == n
        }),
{
    reveal_strlit(".");
    law_decimal_reads_back(n / 100);
    law_two_digits_read_back(n % 100);
    let t = hundredths(n);
    let k = t.len() - 3;
    assert(t.take(k) =~= decimal(n / 100));
    assert(t.skip(k + 1) =~= two_digits(n % 100));
    assert(t[0] == decimal(n / 100)[0]);
    assert((n % 100) % 100 == n % 100);
}

/// A number with one fractional digit has a numeral before the point, one
/// digit behind it, and reads back as the tenths that it was made from.
pub proof fn law_tenths_read_back(n: nat)
    ensures
        ({
            let t = tenths(n);
            let k = t.len() - 2;
            &&& k >= 1
            &&& t[k] == '.'
            &&& all_digits(t.take(k)) && all_digits(t.skip(k + 1))
            &&& n >= 10 ==> t[0] != '0'
            &&& 10 * read_decimal(t.take(k)) + read_decimal(t.skip(k + 1)) == n
        }),
{
    reveal_strlit(".");
    law_decimal_reads_back(n / 10);
    lemma_read_two(digit_char(n % 10), '0');
    let t = tenths(n);
    let k = t.len() - 2;
    assert(t.take(k) =~= decimal(n / 10));
    let d = seq![digit_char(n % 10)];
    assert(all_digits(d));
    assert(t.skip(k + 1) =~= d);
    assert(t[0] == decimal(n / 10)[0]);
}

/// Padding adds spaces on one side until the width is reached; a text that is
/// wide enough stays as it is.
pub proof fn law_padding_keeps_the_text(s: Seq<char>, width: nat)
    ensures
        pad_right(s, width).len() == if s.len() < width { width } else { s.len() },
        pad_left(s, width).len() == pad_right(s, width).len(),
        pad_right(s, width).take(s.len() as int) == s,
        pad_left(s, width).skip(pad_left(s, width).len() - s.len()) == s,
        forall|i: int|
            s.len() <= i < pad_right(s, width).len() ==> #[trigger] pad_right(s, width)[i] == ' ',
        forall|i: int|
            0 <= i < pad_left(s, width).len() - s.len() ==> #[trigger] pad_left(s, width)[i]
                == ' ',
{
    assert(pad_right(s, width).take(s.len() as int) =~= s);
    assert(pad_left(s, width).skip(pad_left(s, width).len() - s.len()) =~= s);
}

/// The number that a hexadecimal digit stands for.
pub open spec fn read_hex(c: char) -> int {
    if '0' <= c <= '9' {
        c as int - '0' as int
    } else {
        c as int - 'A' as int + 10
    }
}

proof fn lemma_hex_digit(d: nat)
    requires
        d < 16,
    ensures
        read_hex(hex_char(d)) == d,
        '0' <= hex_char(d) <= '9' || 'A' <= hex_char(d) <= 'F',
{
}

/// Four hexadecimal digits, with capital letters, read back as the number
/// that they were made from.
pub proof fn law_hex4_reads_back(n: nat)
    requires
        n < 0x1_0000,
    ensures
        hex4(n).len() == 4,
        forall|i: int|
            0 <= i < 4 ==> '0' <= #[trigger] hex4(n)[i] <= '9' || 'A' <= hex4(n)[i] <= 'F',
        ((read_hex(hex4(n)[0]) * 16 + read_hex(hex4(n)[1])) * 16 + read_hex(hex4(n)[2])) * 16
            + read_hex(hex4(n)[3]) == n,
{
    lemma_hex_digit(n / 4096 % 16);
    lemma_hex_digit(n / 256 % 16);
    lemma_hex_digit(n / 16 % 16);
    lemma_hex_digit(n % 16);
}

/// White space is what Unicode calls so.
pub proof fn law_white_space(c: char)
    ensures
        is_white(c) <==> {
            ||| c == '\t' || c == '\n' || c == '\u{b}' || c == '\u{c}' || c == '\r' || c == ' '
            ||| c == '\u{85}' || c == '\u{a0}' || c == '\u{1680}'
            ||| '\u{2000}' <= c <= '\u{200a}'
            ||| c == '\u{2028}' || c == '\u{2029}' || c == '\u{202f}' || c == '\u{205f}'
            ||| c == '\u{3000}'
        },
{
}

proof fn lemma_trim_start_at(s: Seq<char>) -> (i: int)
    ensures
        0 <= i <= s.len(),
        trim_start(s) == s.skip(i),
        forall|k: int| 0 <= k < i ==> is_white(#[trigger] s[k]),
        i < s.len() ==> !is_white(s[i]),
    decreases s.len(),
{
    if s.len() > 0 && is_white(s.first()) {
        let rest = s.drop_first();
        let i = lemma_trim_start_at(rest);
        assert(rest.skip(i) =~= s.skip(i + 1));
        assert forall|k: int| 0 <= k < i + 1 implies is_white(#[trigger] s[k]) by {
            if k > 0 {
                assert(s[k] == rest[k - 1]);
            }
        }
        assert(i < rest.len() ==> rest[i] == s[i + 1]);
        i + 1
    } else {
        assert(s.skip(0) =~= s);
        0
    }
}

proof fn lemma_trim_end_at(s: Seq<char>) -> (j: int)
    ensures
        0 <= j <= s.len(),
        trim_end(s) == s.take(j),
        forall|k: int| j <= k < s.len() ==> is_white(#[trigger] s[k]),
        j > 0 ==> !is_white(s[j - 1]),
    decreases s.len(),
{
    if s.len() > 0 && is_white(s.last()) {
        let rest = s.drop_last();
        let j = lemma_trim_end_at(rest);
        assert(rest.take(j) =~= s.take(j));
        assert forall|k: int| j <= k < s.len() implies is_white(#[trigger] s[k]) by {
            if k < s.len() - 1 {
                assert(s[k] == rest[k]);
            }
        }
        assert(j > 0 ==> rest[j - 1] == s[j - 1]);
        j
    } else {
        assert(s.take(s.len() as int) =~= s);
        s.len() as int
    }
}

/// Trimming cuts a text out of the middle: what falls away on either side is
/// white space, and what stays neither starts nor ends with it.
pub proof fn law_trimming_cuts_only_white_space(s: Seq<char>)
    ensures
        exists|i: int, j: int|
            0 <= i <= j <= s.len() && trimmed(s) == #[trigger] s.subrange(i, j) && (forall|k: int|
                (0 <= k < i || j <= k < s.len()) ==> is_white(#[trigger] s[k])) && (i < j
                ==> !is_white(s[i]) && !is_white(s[j - 1])),
{
    let i = lemma_trim_start_at(s);
    let t = s.skip(i);
    let m = lemma_trim_end_at(t);
    let j = i + m;
    assert(t.take(m) =~= s.subrange(i, j));
    assert forall|k: int| 0 <= k < i || j <= k < s.len() implies is_white(#[trigger] s[k]) by {
        if k >= j {
            assert(s[k] == t[k - i]);
        }
    }
    if i < j {
        assert(t[m - 1] == s[j - 1]);
        assert(!is_white(s[i]));
    }
    assert(trimmed(s) == s.subrange(i, j));
}

/// A text is empty once trimmed exactly where all of it is white space.
pub proof fn law_blank_is_all_white(s: Seq<char>)
    ensures
        trimmed(s).len() == 0 <==> forall|k: int| 0 <= k < s.len() ==> is_white(#[trigger] s[k]),
{
    law_trimming_cuts_only_white_space(s);
    let (i, j) = choose|i: int, j: int|
        0 <= i <= j <= s.len() && trimmed(s) == #[trigger] s.subrange(i, j) && (forall|k: int|
            (0 <= k < i || j <= k < s.len()) ==> is_white(#[trigger] s[k])) && (i < j
            ==> !is_white(s[i]) && !is_white(s[j - 1]));
    assert(trimmed(s).len() == j - i);
}

/// One text comes before another where, after what they have in common, it
/// ends or goes on with the smaller character.
pub proof fn law_first_difference_decides(a: Seq<char>, b: Seq<char>)
    ensures
        text_lt(a, b) <==> exists|k: int|
            0 <= k <= a.len() && k < b.len() && #[trigger] a.take(k) == b.take(k) && (k == a.len()
                || a[k] < b[k]),
    decreases b.len(),
{
    if b.len() > 0 {
        if a.len() > 0 && a[0] == b[0] {
            let (u, v) = (a.drop_first(), b.drop_first());
            law_first_difference_decides(u, v);
            if text_lt(u, v) {
                let m = choose|k: int|
                    0 <= k <= u.len() && k < v.len() && #[trigger] u.take(k) == v.take(k) && (k
                        == u.len() || u[k] < v[k]);
                assert forall|i: int| 0 <= i < m + 1 implies a[i] == b[i] by {
                    if i > 0 {
                        assert(u.take(m)[i - 1] == v.take(m)[i - 1]);
                    }
                }
                assert(a.take(m + 1) =~= b.take(m + 1));
            }
            if exists|k: int|
                0 <= k <= a.len() && k < b.len() && #[trigger] a.take(k) == b.take(k) && (k
                    == a.len() || a[k] < b[k]) {
                let k = choose|k: int|
                    0 <= k <= a.len() && k < b.len() && #[trigger] a.take(k) == b.take(k) && (k
                        == a.len() || a[k] < b[k]);
                assert(k > 0);
                assert forall|i: int| 0 <= i < k - 1 implies u[i] == v[i] by {
                    assert(a.take(k)[i + 1] == b.take(k)[i + 1]);
                }
                assert(u.take(k - 1) =~= v.take(k - 1));
            }
        } else {
            assert(a.take(0) =~= b.take(0));
            assert forall|k: int|
                0 < k <= a.len() && k < b.len() && #[trigger] a.take(k) == b.take(k) implies a[0]
                == b[0] by {
                assert(a.take(k)[0] == b.take(k)[0]);
            }
        }
    }
}

/// In an ASCII text each letter `a` to `z` becomes the capital letter in its
/// place and every other character stays.
pub proof fn law_uppercase_goes_letter_by_letter(s: Seq<char>, i: int)
    requires
        forall|k: int| 0 <= k < s.len() ==> (#[trigger] s[k] as u32) < 128,
        0 <= i < s.len(),
    ensures
        uppercase(s).len() == s.len(),
        'a' <= s[i] <= 'z' ==> 'A' <= uppercase(s)[i] <= 'Z' && uppercase(s)[i] as int - 'A' as int
            == s[i] as int - 'a' as int,
        !('a' <= s[i] <= 'z') ==> uppercase(s)[i] == s[i],
{
    assert(all_ascii(s));
    assert((s[i] as u32) < 128);
}

/// A text with another character is left to Unicode.
pub proof fn law_uppercase_of_other_texts(s: Seq<char>, i: int)
    requires
        0 <= i < s.len(),
        s[i] as u32 >= 128,
    ensures
        uppercase(s) == unicode_uppercase(s),
{
    assert(!all_ascii(s));
}

} // verus!
