//! Decimal text: turning unsigned and signed integers into decimal digit
//! strings and reading them back, with round-trip lemmas.

use vstd::prelude::*;

verus! {

/// Whether `c` is a decimal digit.
pub open spec fn is_digit(c: char) -> bool {
    c == '0' || c == '1' || c == '2' || c == '3' || c == '4' || c == '5' || c == '6' || c == '7'
        || c == '8' || c == '9'
}

/// The numeric value of a digit character; 0 for anything else.
pub open spec fn digit_val(c: char) -> nat {
    if c == '1' {
        1
    } else if c == '2' {
        2
    } else if c == '3' {
        3
    } else if c == '4' {
        4
    } else if c == '5' {
        5
    } else if c == '6' {
        6
    } else if c == '7' {
        7
    } else if c == '8' {
        8
    } else if c == '9' {
        9
    } else {
        0
    }
}

/// The digit character for a value below ten; '0' for anything else.
pub open spec fn digit_char(d: nat) -> char {
    if d == 1 {
        '1'
    } else if d == 2 {
        '2'
    } else if d == 3 {
        '3'
    } else if d == 4 {
        '4'
    } else if d == 5 {
        '5'
    } else if d == 6 {
        '6'
    } else if d == 7 {
        '7'
    } else if d == 8 {
        '8'
    } else if d == 9 {
        '9'
    } else {
        '0'
    }
}

proof fn lemma_digit_char_val(d: nat)
    requires
        d < 10,
    ensures
        is_digit(digit_char(d)),
        digit_val(digit_char(d)) == d,
{
}

/// The decimal digit string of `n`, most significant digit first.
pub open spec fn dec_str(n: nat) -> Seq<char>
    decreases n,
{
    if n < 10 {
        seq![digit_char(n)]
    } else {
        dec_str(n / 10).push(digit_char(n % 10))
    }
}

/// Every character of `s` is a decimal digit.
pub open spec fn all_digits(s: Seq<char>) -> bool {
    forall|i: int| 0 <= i < s.len() ==> is_digit(#[trigger] s[i])
}

/// The value of a digit string, read most significant digit first.
pub open spec fn dec_val(s: Seq<char>) -> nat
    decreases s.len(),
{
    if s.len() == 0 {
        0
    } else {
        dec_val(s.drop_last()) * 10 + digit_val(s.last())
    }
}

/// Reading back the decimal digit string of `n` yields `n` again.
pub proof fn lemma_dec_str_val(n: nat)
    ensures
        dec_str(n).len() >= 1,
        all_digits(dec_str(n)),
        dec_val(dec_str(n)) == n,
    decreases n,
{
    if n < 10 {
        lemma_digit_char_val(n);
        let s = dec_str(n);
        assert(s =~= seq![digit_char(n)]);
        assert(s.last() == digit_char(n));
        assert(s.drop_last() =~= Seq::<char>::empty());
        assert(dec_val(s.drop_last()) == 0);
        assert(dec_val(s) == digit_val(digit_char(n)));
    } else {
        lemma_dec_str_val(n / 10);
        lemma_digit_char_val(n % 10);
        let s = dec_str(n / 10).push(digit_char(n % 10));
        assert(s.drop_last() =~= dec_str(n / 10));
        assert(dec_val(s) == dec_val(dec_str(n / 10)) * 10 + (n % 10));
    }
}

/// A one-character string holding the digit for `d`.
pub fn digit_string(d: u64) -> (s: String)
    requires
        d < 10,
    ensures
        s@ =~= seq![digit_char(d as nat)],
{
    proof {
        reveal_strlit("0");
        reveal_strlit("1");
        reveal_strlit("2");
        reveal_strlit("3");
        reveal_strlit("4");
        reveal_strlit("5");
        reveal_strlit("6");
        reveal_strlit("7");
        reveal_strlit("8");
        reveal_strlit("9");
    }
    let lit: &str = if d == 0 {
        "0"
    } else if d == 1 {
        "1"
    } else if d == 2 {
        "2"
    } else if d == 3 {
        "3"
    } else if d == 4 {
        "4"
    } else if d == 5 {
        "5"
    } else if d == 6 {
        "6"
    } else if d == 7 {
        "7"
    } else if d == 8 {
        "8"
    } else {
        "9"
    };
    String::from_str(lit)
}

/// Formats `n` in decimal.
pub fn fmt_u64(n: u64) -> (s: String)
    ensures
        s@ == dec_str(n as nat),
    decreases n,
{
    if n < 10 {
        digit_string(n)
    } else {
        let mut s = fmt_u64(n / 10);
        let d = digit_string(n % 10);
        s.append(d.as_str());
        proof {
            assert(s@ =~= dec_str((n / 10) as nat).push(digit_char((n % 10) as nat)));
        }
        s
    }
}

/// The digit value of `c`, or `None` when `c` is no digit.
fn digit_of(c: char) -> (r: Option<u64>)
    ensures
        r is Some <==> is_digit(c),
        r matches Some(d) ==> d < 10 && d as nat == digit_val(c),
{
    match c {
        '0' => Some(0),
        '1' => Some(1),
        '2' => Some(2),
        '3' => Some(3),
        '4' => Some(4),
        '5' => Some(5),
        '6' => Some(6),
        '7' => Some(7),
        '8' => Some(8),
        '9' => Some(9),
        _ => None,
    }
}

/// Extending a digit string by one character multiplies its value by ten
/// and adds the new digit.
proof fn lemma_dec_val_step(s: Seq<char>, i: int)
    requires
        0 <= i < s.len(),
    ensures
        dec_val(s.take(i + 1)) == dec_val(s.take(i)) * 10 + digit_val(s[i]),
{
    assert(s.take(i + 1).drop_last() =~= s.take(i));
    assert(s.take(i + 1).last() == s[i]);
}

/// The value of a prefix never exceeds the value of a longer prefix.
proof fn lemma_dec_val_take_mono(s: Seq<char>, i: int, j: int)
    requires
        0 <= i <= j <= s.len(),
    ensures
        dec_val(s.take(i)) <= dec_val(s.take(j)),
    decreases j - i,
{
    if i < j {
        lemma_dec_val_take_mono(s, i, j - 1);
        lemma_dec_val_step(s, j - 1);
    }
}

/// Reads a decimal digit string as a `u64`.
///
/// Returns `Some` exactly when the text is one or more digits whose value
/// fits; the value is then the decimal value of the digits.
pub fn parse_u64(s: &str) -> (r: Option<u64>)
    ensures
        r is Some <==> s@.len() > 0 && all_digits(s@) && dec_val(s@) <= u64::MAX,
        r matches Some(v) ==> v as nat == dec_val(s@),
{
    let len = s.unicode_len();
    if len == 0 {
        return None;
    }
    let mut acc: u64 = 0;
    let mut i: usize = 0;
    while i < len
        invariant
            0 <= i <= len,
            len == s@.len(),
            all_digits(s@.take(i as int)),
            acc as nat == dec_val(s@.take(i as int)),
        decreases len - i,
    {
        let c = s.get_char(i);
        match digit_of(c) {
            None => {
                assert(!is_digit(s@[i as int]));
                return None;
            },
            Some(d) => {
                proof {
                    lemma_dec_val_step(s@, i as int);
                }
                if acc > (u64::MAX - d) / 10 {
                    proof {
                        assert(acc * 10 + d > u64::MAX);
                        lemma_dec_val_take_mono(s@, i + 1, len as int);
                        assert(s@.take(len as int) =~= s@);
                    }
                    return None;
                }
                assert(acc * 10 + d <= u64::MAX);
                acc = acc * 10 + d;
                i = i + 1;
            },
        }
    }
    proof {
        assert(s@.take(len as int) =~= s@);
    }
    Some(acc)
}

/// Reads a decimal digit string as a `u8`.
pub fn parse_u8(s: &str) -> (r: Option<u8>)
    ensures
        r is Some <==> s@.len() > 0 && all_digits(s@) && dec_val(s@) <= u8::MAX,
        r matches Some(v) ==> v as nat == dec_val(s@),
{
    match parse_u64(s) {
        None => None,
        Some(v) => if v <= 255 {
            Some(v as u8)
        } else {
            None
        },
    }
}

/// The decimal text of an integer: a minus sign for negative values,
/// then the digits of the magnitude.
pub open spec fn int_str(n: int) -> Seq<char> {
    if n >= 0 {
        dec_str(n as nat)
    } else {
        seq!['-'] + dec_str((-n) as nat)
    }
}

/// Whether `s` is an optional minus sign followed by one or more digits.
pub open spec fn is_int_text(s: Seq<char>) -> bool {
    if s.len() > 0 && s[0] == '-' {
        s.len() > 1 && all_digits(s.skip(1))
    } else {
        s.len() > 0 && all_digits(s)
    }
}

/// The value of integer text: the digit value, negated after a minus sign.
pub open spec fn int_text_val(s: Seq<char>) -> int {
    if s.len() > 0 && s[0] == '-' {
        -(dec_val(s.skip(1)) as int)
    } else {
        dec_val(s) as int
    }
}

/// Reading back the decimal text of an integer yields the integer again.
pub proof fn lemma_int_str_val(n: int)
    ensures
        int_str(n).len() >= 1,
        is_int_text(int_str(n)),
        int_text_val(int_str(n)) == n,
        !contains_char(int_str(n), ','),
{
    if n >= 0 {
        lemma_dec_str_val(n as nat);
        assert forall|i: int| 0 <= i < int_str(n).len() implies int_str(n)[i] != ',' by {
            assert(is_digit(int_str(n)[i]));
        }
    } else {
        lemma_dec_str_val((-n) as nat);
        let s = seq!['-'] + dec_str((-n) as nat);
        assert(s.skip(1) =~= dec_str((-n) as nat));
        assert forall|i: int| 0 <= i < s.len() implies s[i] != ',' by {
            if i > 0 {
                assert(is_digit(dec_str((-n) as nat)[i - 1]));
            }
        }
    }
}

/// Formats `n` in decimal, with a minus sign for negative values.
pub fn fmt_i64(n: i64) -> (s: String)
    ensures
        s@ == int_str(n as int),
{
    if n >= 0 {
        let s = fmt_u64(n as u64);
        s
    } else {
        let mag: u64 = if n == i64::MIN {
            9223372036854775808u64
        } else {
            (-n) as u64
        };
        assert(mag as nat == (-(n as int)) as nat);
        let mut s = String::from_str("-");
        let digits = fmt_u64(mag);
        s.append(digits.as_str());
        proof {
            reveal_strlit("-");
            assert(s@ =~= seq!['-'] + dec_str(mag as nat));
        }
        s
    }
}

/// Reads optionally signed decimal text as an `i64`.
pub fn parse_i64(s: &str) -> (r: Option<i64>)
    ensures
        r is Some <==> is_int_text(s@) && i64::MIN <= int_text_val(s@) <= i64::MAX,
        r matches Some(v) ==> v as int == int_text_val(s@),
{
    let len = s.unicode_len();
    if len == 0 {
        return None;
    }
    if s.get_char(0) == '-' {
        let digits = s.substring_char(1, len);
        proof {
            assert(digits@ =~= s@.skip(1));
        }
        match parse_u64(digits) {
            None => {
                // either not all digits, or the magnitude does not even
                // fit a u64, which puts it far below i64::MIN
                if digits.unicode_len() > 0 {
                    proof {
                        if all_digits(s@.skip(1)) {
                            assert(dec_val(s@.skip(1)) > u64::MAX);
                        }
                    }
                }
                None
            },
            Some(m) => {
                if m == 9223372036854775808u64 {
                    Some(i64::MIN)
                } else if m <= 9223372036854775807u64 {
                    Some(-(m as i64))
                } else {
                    None
                }
            },
        }
    } else {
        match parse_u64(s) {
            None => None,
            Some(v) => if v <= 9223372036854775807u64 {
                Some(v as i64)
            } else {
                None
            },
        }
    }
}

/// Whether `c` occurs in `s`.
pub open spec fn contains_char(s: Seq<char>, c: char) -> bool {
    exists|i: int| 0 <= i < s.len() && s[i] == c
}

/// The fields of `s` between occurrences of the separator, in order.
/// Splitting the empty string yields one empty field, as `str::split` does.
pub open spec fn split_sep(s: Seq<char>, sep: char) -> Seq<Seq<char>>
    decreases s.len(),
{
    if s.len() == 0 {
        seq![Seq::<char>::empty()]
    } else if s[0] == sep {
        seq![Seq::<char>::empty()] + split_sep(s.skip(1), sep)
    } else {
        let rest = split_sep(s.skip(1), sep);
        seq![seq![s[0]] + rest[0]] + rest.skip(1)
    }
}

/// Splitting always yields at least one field.
pub proof fn lemma_split_sep_len(s: Seq<char>, sep: char)
    ensures
        split_sep(s, sep).len() >= 1,
    decreases s.len(),
{
    if s.len() > 0 {
        lemma_split_sep_len(s.skip(1), sep);
    }
}

/// The fields joined with the separator between them.
pub open spec fn join_sep(fields: Seq<Seq<char>>, sep: char) -> Seq<char>
    decreases fields.len(),
{
    if fields.len() <= 1 {
        if fields.len() == 0 {
            Seq::empty()
        } else {
            fields[0]
        }
    } else {
        fields[0] + seq![sep] + join_sep(fields.skip(1), sep)
    }
}

/// Joining one more field appends a separator and that field.
pub proof fn lemma_join_push(fields: Seq<Seq<char>>, g: Seq<char>, sep: char)
    requires
        fields.len() >= 1,
    ensures
        join_sep(fields.push(g), sep) =~= join_sep(fields, sep) + seq![sep] + g,
    decreases fields.len(),
{
    if fields.len() == 1 {
        let two = fields.push(g);
        assert(two.skip(1) =~~= seq![g]);
        assert(join_sep(seq![g], sep) =~= g);
        assert(join_sep(two, sep) =~= fields[0] + seq![sep] + g);
    } else {
        let rest = fields.skip(1);
        lemma_join_push(rest, g, sep);
        assert(fields.push(g).skip(1) =~~= rest.push(g));
        assert(join_sep(fields.push(g), sep) =~= fields[0] + seq![sep] + join_sep(
            rest.push(g),
            sep,
        ));
        assert(fields[0] + seq![sep] + (join_sep(rest, sep) + seq![sep] + g) =~= (fields[0]
            + seq![sep] + join_sep(rest, sep)) + seq![sep] + g);
    }
}

/// A separator-free prefix becomes the head of the first field.
proof fn lemma_split_prefix(a: Seq<char>, s: Seq<char>, sep: char)
    requires
        !contains_char(a, sep),
    ensures
        split_sep(a + s, sep) =~~= seq![a + split_sep(s, sep)[0]] + split_sep(s, sep).skip(1),
    decreases a.len(),
{
    lemma_split_sep_len(s, sep);
    if a.len() == 0 {
        assert(a + s =~= s);
        assert(a + split_sep(s, sep)[0] =~= split_sep(s, sep)[0]);
        assert(seq![split_sep(s, sep)[0]] + split_sep(s, sep).skip(1) =~~= split_sep(s, sep));
    } else {
        let c = a[0];
        assert(c != sep);
        let a1 = a.skip(1);
        assert(!contains_char(a1, sep)) by {
            assert(forall|i: int|
                0 <= i < a1.len() ==> a1[i] == a[i + 1]);
        }
        lemma_split_prefix(a1, s, sep);
        let t = a1 + s;
        assert((a + s)[0] == c);
        assert((a + s).skip(1) =~= t);
        let rest = split_sep(t, sep);
        assert(split_sep(a + s, sep) =~~= seq![seq![c] + rest[0]] + rest.skip(1));
        lemma_split_sep_len(a1 + s, sep);
        assert(rest =~~= seq![a1 + split_sep(s, sep)[0]] + split_sep(s, sep).skip(1));
        assert(rest[0] =~= a1 + split_sep(s, sep)[0]);
        assert(seq![c] + rest[0] =~= a + split_sep(s, sep)[0]);
        assert(rest.skip(1) =~~= split_sep(s, sep).skip(1));
    }
}

/// Splitting a separator-free string yields that string as the one field.
pub proof fn lemma_split_whole(a: Seq<char>, sep: char)
    requires
        !contains_char(a, sep),
    ensures
        split_sep(a, sep) =~~= seq![a],
{
    lemma_split_prefix(a, Seq::empty(), sep);
    assert(a + Seq::<char>::empty() =~= a);
    assert(a + split_sep(Seq::empty(), sep)[0] =~= a);
}

/// Splitting undoes joining when no field contains the separator.
pub proof fn lemma_split_join(fields: Seq<Seq<char>>, sep: char)
    requires
        fields.len() >= 1,
        forall|i: int| 0 <= i < fields.len() ==> !contains_char(#[trigger] fields[i], sep),
    ensures
        split_sep(join_sep(fields, sep), sep) =~~= fields,
    decreases fields.len(),
{
    if fields.len() == 1 {
        lemma_split_whole(fields[0], sep);
        assert(split_sep(join_sep(fields, sep), sep) =~~= seq![fields[0]]);
        assert(seq![fields[0]] =~~= fields);
    } else {
        let f0 = fields[0];
        let rest = fields.skip(1);
        assert(forall|i: int| 0 <= i < rest.len() ==> !contains_char(#[trigger] rest[i], sep))
            by {
            assert(forall|i: int| 0 <= i < rest.len() ==> rest[i] == fields[i + 1]);
        }
        lemma_split_join(rest, sep);
        let jr = join_sep(rest, sep);
        assert(join_sep(fields, sep) =~= f0 + (seq![sep] + jr)) by {
            assert(f0 + seq![sep] + jr =~= f0 + (seq![sep] + jr));
        }
        let t = seq![sep] + jr;
        lemma_split_prefix(f0, t, sep);
        assert(t[0] == sep);
        assert(t.skip(1) =~= jr);
        assert(split_sep(t, sep) =~~= seq![Seq::<char>::empty()] + split_sep(jr, sep));
        lemma_split_sep_len(jr, sep);
        assert(split_sep(t, sep)[0] =~= Seq::<char>::empty());
        assert(f0 + split_sep(t, sep)[0] =~= f0);
        assert(split_sep(t, sep).skip(1) =~~= split_sep(jr, sep));
        assert(split_sep(join_sep(fields, sep), sep) =~~= seq![f0] + split_sep(jr, sep));
        assert(seq![f0] + split_sep(jr, sep) =~~= fields);
    }
}

/// Whether `c` is blank: a space, tab, carriage return or line feed.
pub open spec fn is_space(c: char) -> bool {
    c == ' ' || c == '\t' || c == '\r' || c == '\n'
}

/// `s` with leading blanks removed.
pub open spec fn trim_front(s: Seq<char>) -> Seq<char>
    decreases s.len(),
{
    if s.len() > 0 && is_space(s[0]) {
        trim_front(s.skip(1))
    } else {
        s
    }
}

/// `s` with trailing blanks removed.
pub open spec fn trim_back(s: Seq<char>) -> Seq<char>
    decreases s.len(),
{
    if s.len() > 0 && is_space(s.last()) {
        trim_back(s.drop_last())
    } else {
        s
    }
}

/// `s` with leading and trailing blanks removed.
pub open spec fn trim_spec(s: Seq<char>) -> Seq<char> {
    trim_back(trim_front(s))
}

/// A string without blanks at either end trims to itself.
pub proof fn lemma_trim_id(s: Seq<char>)
    requires
        s.len() > 0 ==> !is_space(s[0]),
        s.len() > 0 ==> !is_space(s.last()),
    ensures
        trim_spec(s) == s,
{
}

proof fn lemma_trim_front_skip(s: Seq<char>, i: int)
    requires
        0 <= i <= s.len(),
        forall|k: int| 0 <= k < i ==> is_space(#[trigger] s[k]),
        i < s.len() ==> !is_space(s[i]),
    ensures
        trim_front(s) =~= s.skip(i),
    decreases i,
{
    if i == 0 {
        assert(s.skip(0) =~= s);
    } else {
        assert(is_space(s[0]));
        let s1 = s.skip(1);
        assert(forall|k: int| 0 <= k < i - 1 ==> s1[k] == s[k + 1]);
        lemma_trim_front_skip(s1, i - 1);
        assert(s1.skip(i - 1) =~= s.skip(i));
    }
}

proof fn lemma_trim_back_take(s: Seq<char>, j: int)
    requires
        0 <= j <= s.len(),
        forall|k: int| j <= k < s.len() ==> is_space(#[trigger] s[k]),
        j > 0 ==> !is_space(s[j - 1]),
    ensures
        trim_back(s) =~= s.take(j),
    decreases s.len() - j,
{
    if j == s.len() as int {
        if s.len() == 0 {
            assert(s.take(0) =~= s);
        } else {
            assert(!is_space(s.last()));
            assert(s.take(j) =~= s);
        }
    } else {
        assert(is_space(s.last()));
        let s1 = s.drop_last();
        assert(forall|k: int| 0 <= k < s1.len() ==> s1[k] == s[k]);
        lemma_trim_back_take(s1, j);
        assert(s1.take(j) =~= s.take(j));
    }
}

fn is_space_exec(c: char) -> (r: bool)
    ensures
        r == is_space(c),
{
    c == ' ' || c == '\t' || c == '\r' || c == '\n'
}

/// `s` with leading and trailing blanks removed, as `str::trim` removes
/// them from text in this alphabet.
pub fn trim<'a>(s: &'a str) -> (r: &'a str)
    ensures
        r@ == trim_spec(s@),
{
    let len = s.unicode_len();
    let mut i: usize = 0;
    while i < len && is_space_exec(s.get_char(i))
        invariant
            0 <= i <= len,
            len == s@.len(),
            forall|k: int| 0 <= k < i ==> is_space(#[trigger] s@[k]),
        decreases len - i,
    {
        i = i + 1;
    }
    let mut j: usize = len;
    while j > i && is_space_exec(s.get_char(j - 1))
        invariant
            i <= j <= len,
            len == s@.len(),
            forall|k: int| j <= k < len ==> is_space(#[trigger] s@[k]),
        decreases j,
    {
        j = j - 1;
    }
    let r = s.substring_char(i, j);
    proof {
        lemma_trim_front_skip(s@, i as int);
        let t = s@.skip(i as int);
        assert(forall|k: int| 0 <= k < t.len() ==> t[k] == s@[k + i]);
        if j == i {
            lemma_trim_back_take(t, 0);
        } else {
            assert(!is_space(t[j - i - 1]));
            lemma_trim_back_take(t, j - i);
        }
        assert(t.take(j - i) =~= s@.subrange(i as int, j as int));
    }
    r
}

/// The longest digit-only prefix of `s`.
pub open spec fn digit_prefix(s: Seq<char>) -> Seq<char>
    decreases s.len(),
{
    if s.len() > 0 && is_digit(s[0]) {
        seq![s[0]] + digit_prefix(s.skip(1))
    } else {
        Seq::empty()
    }
}

proof fn lemma_digit_prefix_take(s: Seq<char>, i: int)
    requires
        0 <= i <= s.len(),
        forall|k: int| 0 <= k < i ==> is_digit(#[trigger] s[k]),
        i < s.len() ==> !is_digit(s[i]),
    ensures
        digit_prefix(s) =~= s.take(i),
    decreases i,
{
    if i == 0 {
        assert(s.take(0) =~= Seq::<char>::empty());
    } else {
        assert(is_digit(s[0]));
        let s1 = s.skip(1);
        assert(forall|k: int| 0 <= k < i - 1 ==> s1[k] == s[k + 1]);
        lemma_digit_prefix_take(s1, i - 1);
        assert(seq![s[0]] + s1.take(i - 1) =~= s.take(i));
    }
}

fn is_digit_exec(c: char) -> (r: bool)
    ensures
        r == is_digit(c),
{
    match digit_of(c) {
        Some(_) => true,
        None => false,
    }
}

/// The longest digit-only prefix of `s`.
pub fn take_digit_prefix<'a>(s: &'a str) -> (r: &'a str)
    ensures
        r@ == digit_prefix(s@),
{
    let len = s.unicode_len();
    let mut i: usize = 0;
    while i < len && is_digit_exec(s.get_char(i))
        invariant
            0 <= i <= len,
            len == s@.len(),
            forall|k: int| 0 <= k < i ==> is_digit(#[trigger] s@[k]),
        decreases len - i,
    {
        i = i + 1;
    }
    let r = s.substring_char(0, i);
    proof {
        lemma_digit_prefix_take(s@, i as int);
        assert(s@.take(i as int) =~= s@.subrange(0, i as int));
    }
    r
}

/// The views of a sequence of strings.
pub open spec fn views_of(v: Seq<String>) -> Seq<Seq<char>> {
    v.map_values(|t: String| t@)
}

/// The non-empty fields, in order.
pub open spec fn keep_nonempty(fields: Seq<Seq<char>>) -> Seq<Seq<char>>
    decreases fields.len(),
{
    if fields.len() == 0 {
        Seq::empty()
    } else {
        let pre = keep_nonempty(fields.drop_last());
        if fields.last().len() > 0 {
            pre.push(fields.last())
        } else {
            pre
        }
    }
}

/// The non-empty fields before the last one, in order.
pub open spec fn nonempty_before_last(fields: Seq<Seq<char>>) -> Seq<Seq<char>>
    recommends
        fields.len() >= 1,
{
    keep_nonempty(fields.drop_last())
}

/// Splits `s` at every occurrence of `sep`, as `str::split` does: the
/// result has one field more than `s` has separators, empty fields kept.
pub fn split_sep_exec(s: &str, sep: char) -> (v: Vec<String>)
    ensures
        views_of(v@) =~~= split_sep(s@, sep),
{
    let len = s.unicode_len();
    let mut fields: Vec<String> = Vec::new();
    let mut start: usize = 0;
    let mut i: usize = 0;
    proof {
        lemma_split_sep_len(s@, sep);
        assert(s@.skip(0) =~= s@);
        assert(s@.subrange(0, 0) =~= Seq::<char>::empty());
        assert(Seq::<char>::empty() + split_sep(s@, sep)[0] =~= split_sep(s@, sep)[0]);
        assert(views_of(fields@) =~~= Seq::<Seq<char>>::empty());
        assert(split_sep(s@, sep) =~~= seq![split_sep(s@, sep)[0]] + split_sep(s@, sep).skip(1));
    }
    while i < len
        invariant
            0 <= start <= i <= len,
            len == s@.len(),
            !contains_char(s@.subrange(start as int, i as int), sep),
            split_sep(s@, sep) =~~= views_of(fields@) + (seq![
                s@.subrange(start as int, i as int) + split_sep(s@.skip(i as int), sep)[0],
            ] + split_sep(s@.skip(i as int), sep).skip(1)),
        decreases len - i,
    {
        proof {
            lemma_split_sep_len(s@.skip(i as int), sep);
            lemma_split_sep_len(s@.skip(i as int + 1), sep);
            assert(s@.skip(i as int)[0] == s@[i as int]);
            assert(s@.skip(i as int).skip(1) =~= s@.skip(i as int + 1));
        }
        let c = s.get_char(i);
        if c == sep {
            let ghost rest_next = split_sep(s@.skip(i as int + 1), sep);
            proof {
                assert(split_sep(s@.skip(i as int), sep) =~~= seq![Seq::<char>::empty()]
                    + rest_next);
            }
            let field = s.substring_char(start, i);
            fields.push(String::from_str(field));
            proof {
                let cur = s@.subrange(start as int, i as int);
                assert(cur + Seq::<char>::empty() =~= cur);
                assert(views_of(fields@) =~~= views_of(fields@.drop_last()).push(cur));
                assert(rest_next =~~= seq![rest_next[0]] + rest_next.skip(1));
            }
            start = i + 1;
            i = i + 1;
            proof {
                assert(s@.subrange(start as int, i as int) =~= Seq::<char>::empty());
            }
        } else {
            let ghost rest_next = split_sep(s@.skip(i as int + 1), sep);
            proof {
                let cur = s@.subrange(start as int, i as int);
                let cur1 = s@.subrange(start as int, i as int + 1);
                assert(split_sep(s@.skip(i as int), sep) =~~= seq![seq![s@[i as int]]
                    + rest_next[0]] + rest_next.skip(1));
                assert(cur1 =~= cur + seq![s@[i as int]]);
                assert(cur1 + rest_next[0] =~= cur + (seq![s@[i as int]] + rest_next[0]));
                assert(!contains_char(cur1, sep)) by {
                    assert(forall|k: int|
                        0 <= k < cur.len() ==> cur1[k] == cur[k]);
                }
            }
            i = i + 1;
        }
    }
    proof {
        assert(s@.skip(len as int) =~= Seq::<char>::empty());
    }
    let field = s.substring_char(start, len);
    fields.push(String::from_str(field));
    proof {
        let cur = s@.subrange(start as int, len as int);
        assert(cur + Seq::<char>::empty() =~= cur);
        assert(views_of(fields@) =~~= views_of(fields@.drop_last()).push(cur));
        assert(views_of(fields@) =~~= split_sep(s@, sep));
    }
    fields
}

} // verus!
