//! Text helpers: the few standard-library text functions the registry relies
//! on, a verified decimal reader and writer for category identifiers, and the
//! character filters applied to user-supplied free text.
use vstd::prelude::*;
use vstd::string::*;

verus! {

/// What `str::to_lowercase` returns for a given character sequence.
pub uninterp spec fn lower_of(s: Seq<char>) -> Seq<char>;

/// Whether `char::is_alphanumeric` holds of a character.
pub uninterp spec fn alphanumeric(c: char) -> bool;

/// Relies on `str::to_lowercase`: the result depends on the characters alone,
/// and an empty string stays empty.
#[verifier::external_body]
pub fn to_lowercase_string(s: &str) -> (r: String)
    ensures
        r@ == lower_of(s@),
        s@.len() == 0 ==> r@.len() == 0,
{
    s.to_lowercase()
}

/// Relies on `char::is_alphanumeric`: the result depends on the character alone.
#[verifier::external_body]
pub fn char_is_alphanumeric(c: char) -> (r: bool)
    ensures
        r == alphanumeric(c),
{
    c.is_alphanumeric()
}

/// Relies on `String::push`: appends the given character to the end of the string.
#[verifier::external_body]
pub fn push_char(s: &mut String, c: char)
    ensures
        final(s)@ == old(s)@.push(c),
{
    s.push(c)
}

/// Relies on `==` on `str`: string slices compare equal exactly when their
/// character sequences do.
#[verifier::external_body]
pub fn str_eq(a: &str, b: &str) -> (r: bool)
    ensures
        r == (a@ == b@),
{
    a == b
}

/// A decimal digit `'0'..='9'`.
pub open spec fn is_dec_digit(c: char) -> bool {
    48 <= c as int && c as int <= 57
}

/// The numeric value of a decimal digit.
pub open spec fn dec_digit_val(c: char) -> int {
    c as int - 48
}

/// A non-empty string of decimal digits.
pub open spec fn is_dec_string(s: Seq<char>) -> bool {
    s.len() > 0 && forall|i: int| 0 <= i < s.len() ==> is_dec_digit(#[trigger] s[i])
}

/// The number denoted by a string of decimal digits, most significant first.
pub open spec fn dec_value(s: Seq<char>) -> int
    decreases s.len(),
{
    if s.len() == 0 {
        0
    } else {
        dec_value(s.drop_last()) * 10 + dec_digit_val(s.last())
    }
}

/// The digit character for a value below ten.
pub open spec fn char_of_digit(d: int) -> char {
    if d == 0 { '0' }
    else if d == 1 { '1' }
    else if d == 2 { '2' }
    else if d == 3 { '3' }
    else if d == 4 { '4' }
    else if d == 5 { '5' }
    else if d == 6 { '6' }
    else if d == 7 { '7' }
    else if d == 8 { '8' }
    else if d == 9 { '9' }
    else { '0' }
}

/// The canonical decimal spelling of a non-negative number: no leading zeros.
pub open spec fn dec_string_of(n: int) -> Seq<char>
    decreases n,
{
    if n <= 0 {
        seq!['0']
    } else if n < 10 {
        seq![char_of_digit(n)]
    } else {
        dec_string_of(n / 10).push(char_of_digit(n % 10))
    }
}

pub proof fn lemma_dec_value_nonneg(s: Seq<char>)
    requires
        forall|i: int| 0 <= i < s.len() ==> is_dec_digit(#[trigger] s[i]),
    ensures
        dec_value(s) >= 0,
    decreases s.len(),
{
    if s.len() > 0 {
        lemma_dec_value_nonneg(s.drop_last());
    }
}

/// Appending digits never decreases the denoted value.
proof fn lemma_dec_value_prefix_le(s: Seq<char>, j: int)
    requires
        forall|i: int| 0 <= i < s.len() ==> is_dec_digit(#[trigger] s[i]),
        0 <= j <= s.len(),
    ensures
        dec_value(s.subrange(0, j)) <= dec_value(s),
    decreases s.len() - j,
{
    if j < s.len() {
        let t = s.subrange(0, j + 1);
        assert(t.drop_last() =~= s.subrange(0, j));
        lemma_dec_value_nonneg(s.subrange(0, j));
        assert(dec_value(t) == dec_value(s.subrange(0, j)) * 10 + dec_digit_val(t.last()));
        lemma_dec_value_prefix_le(s, j + 1);
        assert(s.subrange(0, s.len() as int) =~= s);
    } else {
        assert(s.subrange(0, j) =~= s);
    }
}

/// Reads a category identifier: the whole string must be decimal digits and
/// the value must fit in 64 bits.
pub fn parse_u64(s: &str) -> (r: Option<u64>)
    ensures
        match r {
            Some(v) => is_dec_string(s@) && dec_value(s@) == v as int,
            None => !is_dec_string(s@) || dec_value(s@) > u64::MAX,
        },
{
    let n: usize = s.unicode_len();
    if n == 0 {
        return None;
    }
    let mut acc: u64 = 0;
    let mut i: usize = 0;
    while i < n
        invariant
            0 <= i <= n,
            n == s@.len(),
            forall|k: int| 0 <= k < i ==> is_dec_digit(#[trigger] s@[k]),
            acc as int == dec_value(s@.subrange(0, i as int)),
        decreases n - i,
    {
        let c = s.get_char(i);
        let u = c as u32;
        if u < 48 || u > 57 {
            return None;
        }
        let d: u64 = (u - 48) as u64;
        let next = match acc.checked_mul(10) {
            Some(m) => m.checked_add(d),
            None => None,
        };
        proof {
            let pre = s@.subrange(0, i as int);
            let ext = s@.subrange(0, i as int + 1);
            assert(ext.drop_last() =~= pre);
            assert(ext.last() == s@[i as int]);
            assert(dec_value(ext) == dec_value(pre) * 10 + dec_digit_val(s@[i as int]));
        }
        match next {
            Some(v) => {
                acc = v;
            }
            None => {
                proof {
                    if is_dec_string(s@) {
                        lemma_dec_value_prefix_le(s@, i as int + 1);
                    }
                }
                return None;
            }
        }
        i = i + 1;
    }
    proof {
        assert(s@.subrange(0, n as int) =~= s@);
    }
    Some(acc)
}

/// The digit character of a value below ten.
fn digit_char(d: u64) -> (c: char)
    requires
        d < 10,
    ensures
        c == char_of_digit(d as int),
        is_dec_digit(c),
        dec_digit_val(c) == d as int,
{
    match d {
        0 => '0',
        1 => '1',
        2 => '2',
        3 => '3',
        4 => '4',
        5 => '5',
        6 => '6',
        7 => '7',
        8 => '8',
        _ => '9',
    }
}

/// Every canonical decimal spelling is a digit string.
proof fn lemma_dec_string_of_digits(n: int)
    ensures
        dec_string_of(n).len() > 0,
        forall|i: int| 0 <= i < dec_string_of(n).len() ==> is_dec_digit(#[trigger] dec_string_of(n)[i]),
    decreases n,
{
    if n >= 10 {
        lemma_dec_string_of_digits(n / 10);
        let s = dec_string_of(n);
        let p = dec_string_of(n / 10);
        assert(forall|i: int| 0 <= i < p.len() ==> s[i] == p[i]);
        assert(is_dec_digit(s[s.len() - 1]));
    }
}

/// The canonical decimal spelling denotes the number it was made from.
pub proof fn lemma_dec_string_of_value(n: int)
    requires
        n >= 0,
    ensures
        is_dec_string(dec_string_of(n)),
        dec_value(dec_string_of(n)) == n,
    decreases n,
{
    lemma_dec_string_of_digits(n);
    if n < 10 {
        let s = dec_string_of(n);
        assert(s.drop_last() =~= Seq::<char>::empty());
        assert(s.last() == char_of_digit(n));
        assert(dec_digit_val(char_of_digit(n)) == n);
        assert(dec_value(s) == dec_value(s.drop_last()) * 10 + dec_digit_val(s.last()));
        assert(dec_value(Seq::<char>::empty()) == 0);
    } else {
        lemma_dec_string_of_value(n / 10);
        let s = dec_string_of(n);
        let p = dec_string_of(n / 10);
        assert(s.drop_last() =~= p);
        assert(s.last() == char_of_digit(n % 10));
        assert(0 <= n % 10 < 10);
        assert(dec_digit_val(char_of_digit(n % 10)) == n % 10);
        assert(dec_value(s) == dec_value(p) * 10 + n % 10);
        assert(n / 10 * 10 + n % 10 == n);
    }
}

/// Writes a number in decimal, most significant digit first, no leading zeros.
pub fn u64_to_string(v: u64) -> (r: String)
    ensures
        r@ == dec_string_of(v as int),
{
    let mut out: Vec<char> = Vec::new();
    let mut rem: u64 = v;
    if rem == 0 {
        let mut r = String::new();
        push_char(&mut r, '0');
        proof {
            assert(r@ =~= dec_string_of(0));
        }
        return r;
    }
    while rem > 0
        invariant
            rem > 0 ==> dec_string_of(v as int) == dec_string_of(rem as int) + out@.reverse(),
            rem == 0 ==> dec_string_of(v as int) == out@.reverse(),
        decreases rem,
    {
        let d = rem % 10;
        let c = digit_char(d);
        let ghost pre = out@;
        out.push(c);
        proof {
            assert(out@.reverse() =~= seq![c] + pre.reverse());
            if rem >= 10 {
                assert(dec_string_of(rem as int) == dec_string_of(rem as int / 10).push(
                    char_of_digit(rem as int % 10)));
                assert(dec_string_of(rem as int / 10).push(c) + pre.reverse() =~= dec_string_of(
                    rem as int / 10) + out@.reverse());
            } else {
                assert(dec_string_of(rem as int) =~= seq![c]);
                assert(seq![c] + pre.reverse() =~= out@.reverse());
            }
        }
        rem = rem / 10;
    }
    let mut r = String::new();
    let mut j: usize = 0;
    let n = out.len();
    while j < n
        invariant
            0 <= j <= n,
            n == out@.len(),
            dec_string_of(v as int) == out@.reverse(),
            r@ == out@.reverse().subrange(0, j as int),
        decreases n - j,
    {
        push_char(&mut r, out[n - 1 - j]);
        proof {
            assert(out@.reverse()[j as int] == out@[n - 1 - j as int]);
            assert(out@.reverse().subrange(0, j as int + 1) =~= out@.reverse().subrange(0, j as int).push(
                out@[n - 1 - j as int]));
        }
        j = j + 1;
    }
    proof {
        assert(out@.reverse().subrange(0, n as int) =~= out@.reverse());
    }
    r
}

/// Reading back a written number gives the number: the decimal writer and
/// reader are inverse to each other.
pub proof fn lemma_decimal_round_trip(v: u64)
    ensures
        dec_value(dec_string_of(v as int)) == v as int,
        is_dec_string(dec_string_of(v as int)),
{
    lemma_dec_string_of_value(v as int);
}

/// A character kept unchanged in a slug.
pub open spec fn keeps_slug_char(c: char) -> bool {
    c == '_' || c == '-' || alphanumeric(c)
}

/// A slug with every character outside the slug alphabet removed.
pub open spec fn slug_filtered(s: Seq<char>) -> Seq<char>
    decreases s.len(),
{
    if s.len() == 0 {
        Seq::empty()
    } else if keeps_slug_char(s.last()) {
        slug_filtered(s.drop_last()).push(s.last())
    } else {
        slug_filtered(s.drop_last())
    }
}

/// Keeps letters, digits, `'_'` and `'-'`; drops every other character.
pub fn filter_slug(s: String) -> (r: String)
    ensures
        r@ == slug_filtered(s@),
{
    let n: usize = s.as_str().unicode_len();
    let mut r = String::new();
    let mut i: usize = 0;
    while i < n
        invariant
            0 <= i <= n,
            n == s@.len(),
            r@ == slug_filtered(s@.subrange(0, i as int)),
        decreases n - i,
    {
        let c = s.as_str().get_char(i);
        if c == '_' || c == '-' || char_is_alphanumeric(c) {
            push_char(&mut r, c);
        }
        proof {
            let ext = s@.subrange(0, i as int + 1);
            assert(ext.drop_last() =~= s@.subrange(0, i as int));
            assert(ext.last() == s@[i as int]);
        }
        i = i + 1;
    }
    proof {
        assert(s@.subrange(0, n as int) =~= s@);
    }
    r
}

/// A punctuation character kept unchanged in free text.
pub open spec fn keeps_text_char(c: char) -> bool {
    c == ' ' || c == '_' || c == '.' || c == '-' || c == ',' || c == '!' || c == '(' || c == ')'
        || c == '/' || c == '=' || c == ':' || c == '+' || c == '?' || c == '#' || c == '%'
        || c == '|'
}

/// Free text with newlines turned into spaces and every character outside the
/// allowed alphabet removed.
pub open spec fn text_filtered(s: Seq<char>) -> Seq<char>
    decreases s.len(),
{
    if s.len() == 0 {
        Seq::empty()
    } else if s.last() == '\n' {
        text_filtered(s.drop_last()).push(' ')
    } else if keeps_text_char(s.last()) || alphanumeric(s.last()) {
        text_filtered(s.drop_last()).push(s.last())
    } else {
        text_filtered(s.drop_last())
    }
}

/// Sanitizes an optional free-text field: newlines become spaces, characters
/// outside the allowed alphabet are dropped.
pub fn filter_text(s: Option<String>) -> (r: Option<String>)
    ensures
        match s {
            None => r is None,
            Some(x) => r matches Some(y) && y@ == text_filtered(x@),
        },
{
    let x = match s {
        Some(x) => x,
        None => { return None; }
    };
    let n: usize = x.as_str().unicode_len();
    let mut r = String::new();
    let mut i: usize = 0;
    while i < n
        invariant
            0 <= i <= n,
            n == x@.len(),
            r@ == text_filtered(x@.subrange(0, i as int)),
        decreases n - i,
    {
        let c = x.as_str().get_char(i);
        if c == '\n' {
            push_char(&mut r, ' ');
        } else if c == ' ' || c == '_' || c == '.' || c == '-' || c == ',' || c == '!' || c == '('
            || c == ')' || c == '/' || c == '=' || c == ':' || c == '+' || c == '?' || c == '#'
            || c == '%' || c == '|' || char_is_alphanumeric(c) {
            push_char(&mut r, c);
        }
        proof {
            let ext = x@.subrange(0, i as int + 1);
            assert(ext.drop_last() =~= x@.subrange(0, i as int));
            assert(ext.last() == x@[i as int]);
        }
        i = i + 1;
    }
    proof {
        assert(x@.subrange(0, n as int) =~= x@);
    }
    Some(r)
}

/// A character that the free-text filter passes through unchanged.
pub open spec fn text_kept(c: char) -> bool {
    c != '\n' && (keeps_text_char(c) || alphanumeric(c))
}

/// Every character of filtered free text is one the filter passes through
/// unchanged: newlines have become spaces and strays are gone.
proof fn lemma_text_filtered_chars(s: Seq<char>)
    ensures
        forall|i: int| 0 <= i < text_filtered(s).len() ==> text_kept(#[trigger] text_filtered(s)[i]),
    decreases s.len(),
{
    if s.len() > 0 {
        lemma_text_filtered_chars(s.drop_last());
        let rest = text_filtered(s.drop_last());
        let r = text_filtered(s);
        if r.len() == rest.len() + 1 {
            assert forall|i: int| 0 <= i < r.len() implies text_kept(#[trigger] r[i]) by {
                if i < rest.len() {
                    assert(r[i] == rest[i]);
                }
            }
        }
    }
}

/// Text made only of characters the filter passes through is left alone.
proof fn lemma_text_filtered_fixed(t: Seq<char>)
    requires
        forall|i: int| 0 <= i < t.len() ==> text_kept(#[trigger] t[i]),
    ensures
        text_filtered(t) == t,
    decreases t.len(),
{
    if t.len() > 0 {
        lemma_text_filtered_fixed(t.drop_last());
        assert(text_kept(t.last()));
        assert(text_filtered(t) =~= t);
    }
}

/// Filtering free text a second time changes nothing: the filter is
/// idempotent.
pub proof fn lemma_filter_text_idempotent(s: Seq<char>)
    ensures
        text_filtered(text_filtered(s)) == text_filtered(s),
{
    lemma_text_filtered_chars(s);
    lemma_text_filtered_fixed(text_filtered(s));
}

/// What one character of free text becomes in escaped markup.
pub open spec fn html_char(c: char) -> Seq<char> {
    if c == '<' {
        seq!['&', 'l', 't', ';']
    } else if c == '>' {
        seq!['&', 'g', 't', ';']
    } else if c == '\n' {
        seq!['\n']
    } else if keeps_text_char(c) || c == '\\' || alphanumeric(c) {
        seq![c]
    } else {
        Seq::empty()
    }
}

/// Free text with angle brackets escaped and every character outside the
/// allowed alphabet removed; newlines are kept.
pub open spec fn html_filtered(s: Seq<char>) -> Seq<char>
    decreases s.len(),
{
    if s.len() == 0 {
        Seq::empty()
    } else {
        html_filtered(s.drop_last()) + html_char(s.last())
    }
}

/// Sanitizes an optional free-text field for embedding in markup: `<` and `>`
/// are escaped, newlines kept, characters outside the allowed alphabet dropped.
pub fn filter_html(s: Option<String>) -> (r: Option<String>)
    ensures
        match s {
            None => r is None,
            Some(x) => r matches Some(y) && y@ == html_filtered(x@),
        },
{
    let x = match s {
        Some(x) => x,
        None => { return None; }
    };
    let n: usize = x.as_str().unicode_len();
    let mut r = String::new();
    let mut i: usize = 0;
    while i < n
        invariant
            0 <= i <= n,
            n == x@.len(),
            r@ == html_filtered(x@.subrange(0, i as int)),
        decreases n - i,
    {
        let c = x.as_str().get_char(i);
        let ghost pre = r@;
        if c == '<' {
            push_char(&mut r, '&');
            push_char(&mut r, 'l');
            push_char(&mut r, 't');
            push_char(&mut r, ';');
        } else if c == '>' {
            push_char(&mut r, '&');
            push_char(&mut r, 'g');
            push_char(&mut r, 't');
            push_char(&mut r, ';');
        } else if c == '\n' || c == ' ' || c == '_' || c == '.' || c == '-' || c == ',' || c == '!'
            || c == '(' || c == ')' || c == '/' || c == '=' || c == ':' || c == '+' || c == '?'
            || c == '#' || c == '%' || c == '|' || c == '\\' || char_is_alphanumeric(c) {
            push_char(&mut r, c);
        }
        proof {
            let ext = x@.subrange(0, i as int + 1);
            assert(ext.drop_last() =~= x@.subrange(0, i as int));
            assert(ext.last() == x@[i as int]);
            assert(r@ =~= pre + html_char(x@[i as int]));
        }
        i = i + 1;
    }
    proof {
        assert(x@.subrange(0, n as int) =~= x@);
    }
    Some(r)
}

} // verus!
