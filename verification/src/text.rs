//! Verified text building blocks: decimal rendering and parsing,
//! string escaping, and joining, each against an exact specification.

use vstd::prelude::*;
use vstd::string::*;

verus! {

/// Relies on `String::push`: appends exactly one character.
#[verifier::external_body]
pub fn push_char(s: &mut String, c: char)
    ensures
        final(s)@ == old(s)@ + seq![c],
{
    s.push(c);
}

/// Does `k` hold exactly the text of `lit`?
pub fn str_is(k: &String, lit: &str) -> (r: bool)
    ensures
        r == (k@ == lit@),
{
    let s = String::from_str(lit);
    k.eq(&s)
}

// --- decimal rendering ---

/// The character for one decimal digit.
pub open spec fn digit_char(d: int) -> char
    recommends
        0 <= d < 10,
{
    (('0' as int) + d) as char
}

/// The decimal rendering of a natural number, most significant digit first.
pub open spec fn dec_text(n: nat) -> Seq<char>
    decreases n,
{
    if n < 10 {
        seq![digit_char(n as int)]
    } else {
        dec_text(n / 10) + seq![digit_char((n % 10) as int)]
    }
}

/// The decimal rendering of an integer, with a leading minus sign when negative.
pub open spec fn int_text(i: int) -> Seq<char> {
    if i < 0 {
        seq!['-'] + dec_text((-i) as nat)
    } else {
        dec_text(i as nat)
    }
}

fn digit_to_char(d: u64) -> (c: char)
    requires
        d < 10,
    ensures
        c == digit_char(d as int),
{
    let c = (48u8 + d as u8) as char;
    assert(c == digit_char(d as int));
    c
}

/// Appends the decimal rendering of `n`.
pub fn push_dec(n: u64, out: &mut String)
    ensures
        final(out)@ == old(out)@ + dec_text(n as nat),
    decreases n,
{
    if n >= 10 {
        push_dec(n / 10, out);
    }
    push_char(out, digit_to_char(n % 10));
    proof {
        assert(final(out)@ == old(out)@ + dec_text(n as nat));
    }
}

/// Appends the decimal rendering of `i`, signed.
pub fn push_int(i: i64, out: &mut String)
    ensures
        final(out)@ == old(out)@ + int_text(i as int),
{
    if i < 0 {
        push_char(out, '-');
        let mag: u64 = if i == i64::MIN {
            9223372036854775808u64
        } else {
            (-i) as u64
        };
        assert(mag as int == -(i as int));
        push_dec(mag, out);
        assert(final(out)@ == old(out)@ + int_text(i as int));
    } else {
        push_dec(i as u64, out);
    }
}

/// The decimal rendering of `n` as an owned string.
pub fn render_u64(n: u64) -> (s: String)
    ensures
        s@ == dec_text(n as nat),
{
    let mut s = String::new();
    push_dec(n, &mut s);
    s
}

/// The decimal rendering of `i` as an owned string.
pub fn render_i64(i: i64) -> (s: String)
    ensures
        s@ == int_text(i as int),
{
    let mut s = String::new();
    push_int(i, &mut s);
    s
}

// --- decimal parsing ---

/// Is `c` an ASCII decimal digit?
pub open spec fn is_dec_digit(c: char) -> bool {
    '0' <= c && c <= '9'
}

/// The numeric value of a digit character.
pub open spec fn digit_val(c: char) -> int {
    (c as int) - ('0' as int)
}

/// Does every character of `s` hold a decimal digit?
pub open spec fn all_dec_digits(s: Seq<char>) -> bool {
    forall|i: int| 0 <= i < s.len() ==> is_dec_digit(s[i])
}

/// The value of a digit string, most significant digit first.
pub open spec fn digits_val(s: Seq<char>) -> int
    decreases s.len(),
{
    if s.len() == 0 {
        0
    } else {
        digits_val(s.drop_last()) * 10 + digit_val(s.last())
    }
}

/// What `str::parse::<u64>` accepts: an optional `+` sign, then one or
/// more digits whose value fits.
pub open spec fn parse_u64_spec(s: Seq<char>) -> Option<u64> {
    let body = if s.len() > 0 && s[0] == '+' {
        s.drop_first()
    } else {
        s
    };
    if body.len() > 0 && all_dec_digits(body) && digits_val(body) <= u64::MAX as int {
        Some(digits_val(body) as u64)
    } else {
        None
    }
}

/// What `str::parse::<i64>` accepts: an optional `+` or `-` sign, then
/// one or more digits whose signed value fits.
pub open spec fn parse_i64_spec(s: Seq<char>) -> Option<i64> {
    if s.len() > 0 && s[0] == '-' {
        let body = s.drop_first();
        if body.len() > 0 && all_dec_digits(body) && -digits_val(body) >= i64::MIN as int {
            Some((-digits_val(body)) as i64)
        } else {
            None
        }
    } else {
        let body = if s.len() > 0 && s[0] == '+' {
            s.drop_first()
        } else {
            s
        };
        if body.len() > 0 && all_dec_digits(body) && digits_val(body) <= i64::MAX as int {
            Some(digits_val(body) as i64)
        } else {
            None
        }
    }
}

proof fn lemma_digits_val_snoc(s: Seq<char>, i: int)
    requires
        0 <= i < s.len(),
    ensures
        digits_val(s.take(i + 1)) == digits_val(s.take(i)) * 10 + digit_val(s[i]),
{
    assert(s.take(i + 1).drop_last() =~= s.take(i));
    assert(s.take(i + 1).last() == s[i]);
}

proof fn lemma_digits_val_nonneg(s: Seq<char>)
    requires
        all_dec_digits(s),
    ensures
        digits_val(s) >= 0,
    decreases s.len(),
{
    if s.len() > 0 {
        assert(all_dec_digits(s.drop_last()));
        lemma_digits_val_nonneg(s.drop_last());
    }
}

proof fn lemma_digits_val_mono(s: Seq<char>, i: int)
    requires
        all_dec_digits(s),
        0 <= i <= s.len(),
    ensures
        digits_val(s.take(i)) <= digits_val(s),
    decreases s.len() - i,
{
    if i < s.len() {
        lemma_digits_val_snoc(s, i);
        assert(all_dec_digits(s.take(i))) by {
            assert(forall|j: int| 0 <= j < i ==> s.take(i)[j] == s[j]);
        }
        lemma_digits_val_nonneg(s.take(i));
        lemma_digits_val_mono(s, i + 1);
    } else {
        assert(s.take(i) =~= s);
    }
}

/// Parses the digit run `s[from..]`; `Some` exactly when it is nonempty,
/// all digits, and its value is at most `limit`.
fn parse_digits(s: &str, from: usize, len: usize, limit: u64) -> (r: Option<u64>)
    requires
        len == s@.len(),
        from as int <= s@.len(),
        limit >= 9,
    ensures
        (match r {
            Some(v) => {
                let body = s@.skip(from as int);
                body.len() > 0 && all_dec_digits(body) && digits_val(body) == v as int && v
                    <= limit
            },
            None => {
                let body = s@.skip(from as int);
                !(body.len() > 0 && all_dec_digits(body) && digits_val(body) <= limit as int)
            },
        }),
{
    let ghost body = s@.skip(from as int);
    if from >= len {
        return None;
    }
    let mut acc: u64 = 0;
    let mut i: usize = from;
    while i < len
        invariant
            len == s@.len(),
            limit >= 9,
            from as int <= i as int <= s@.len(),
            body == s@.skip(from as int),
            all_dec_digits(body.take(i - from)),
            digits_val(body.take(i - from)) == acc as int,
            acc <= limit,
        decreases len - i,
    {
        let c = s.get_char(i);
        proof {
            assert(body[i - from] == s@[i as int]);
        }
        if c < '0' || c > '9' {
            proof {
                assert(!is_dec_digit(body[i - from]));
            }
            return None;
        }
        let d: u64 = (c as u32 - '0' as u32) as u64;
        proof {
            assert(d < 10 && d as int == digit_val(body[i - from]));
        }
        assert(d <= limit);
        if acc > (limit - d) / 10 {
            proof {
                lemma_digits_val_snoc(body, i - from);
                assert(digits_val(body.take(i - from + 1)) > limit as int) by (nonlinear_arith)
                    requires
                        digits_val(body.take(i - from + 1)) == acc as int * 10 + d as int,
                        acc as int > ((limit as int) - d as int) / 10,
                        0 <= d < 10,
                        acc <= limit,
                ;
                if all_dec_digits(body) {
                    lemma_digits_val_mono(body, i - from + 1);
                }
            }
            return None;
        }
        proof {
            assert(acc as int * 10 + d as int <= limit as int) by (nonlinear_arith)
                requires
                    acc as int <= ((limit as int) - d as int) / 10,
                    0 <= d < 10,
                    limit as int >= d as int || true,
                    0 <= acc,
                    0 <= limit <= u64::MAX as int,
            ;
            lemma_digits_val_snoc(body, i - from);
        }
        acc = acc * 10 + d;
        i = i + 1;
    }
    proof {
        assert(body.take(i - from) =~= body);
    }
    Some(acc)
}

/// Parses `s` as `str::parse::<u64>` does.
pub fn parse_u64(s: &str) -> (r: Option<u64>)
    ensures
        r == parse_u64_spec(s@),
{
    let len = s.unicode_len();
    if len == 0 {
        return None;
    }
    let first = s.get_char(0);
    let from: usize = if first == '+' {
        1
    } else {
        0
    };
    proof {
        if first == '+' {
            assert(s@.skip(1) =~= s@.drop_first());
        } else {
            assert(s@.skip(0) =~= s@);
        }
    }
    parse_digits(s, from, len, u64::MAX)
}

/// Parses `s` as `str::parse::<i64>` does.
pub fn parse_i64(s: &str) -> (r: Option<i64>)
    ensures
        r == parse_i64_spec(s@),
{
    let len = s.unicode_len();
    if len == 0 {
        return None;
    }
    let first = s.get_char(0);
    if first == '-' {
        proof {
            assert(s@.skip(1) =~= s@.drop_first());
        }
        match parse_digits(s, 1, len, 9223372036854775808u64) {
            Some(mag) => {
                let r = if mag == 9223372036854775808u64 {
                    i64::MIN
                } else {
                    -(mag as i64)
                };
                Some(r)
            },
            None => None,
        }
    } else {
        let from: usize = if first == '+' {
            1
        } else {
            0
        };
        proof {
            if first == '+' {
                assert(s@.skip(1) =~= s@.drop_first());
            } else {
                assert(s@.skip(0) =~= s@);
            }
        }
        match parse_digits(s, from, len, i64::MAX as u64) {
            Some(v) => Some(v as i64),
            None => None,
        }
    }
}

/// A decimal rendering consists of digits alone, is never empty, and
/// reads back as the number it renders.
pub proof fn lemma_dec_text_digits(n: nat)
    ensures
        all_dec_digits(dec_text(n)),
        digits_val(dec_text(n)) == n,
        dec_text(n).len() > 0,
    decreases n,
{
    if n < 10 {
        let s = dec_text(n);
        assert(s == seq![digit_char(n as int)]);
        assert(s.drop_last() =~= Seq::<char>::empty());
        assert(is_dec_digit(digit_char(n as int)));
        assert(digits_val(Seq::<char>::empty()) == 0);
        assert(s.last() == digit_char(n as int));
        assert(digit_val(s.last()) == n);
        assert(digits_val(s) == n);
    } else {
        lemma_dec_text_digits(n / 10);
        let s = dec_text(n);
        let t = dec_text(n / 10);
        let c = digit_char((n % 10) as int);
        assert(s == t + seq![c]);
        assert(s.drop_last() =~= t);
        assert(s.last() == c);
        assert(is_dec_digit(c));
        assert(forall|i: int| 0 <= i < t.len() ==> s[i] == t[i]);
        assert(all_dec_digits(s));
        assert(digits_val(s) == digits_val(t) * 10 + digit_val(c));
        assert(digit_val(c) == n % 10);
        assert(digits_val(t) == n / 10);
        assert(digits_val(s) == (n / 10) * 10 + n % 10);
        assert((n / 10) * 10 + n % 10 == n) by (nonlinear_arith);
        assert(digits_val(s) == n);
    }
}

/// Parsing a rendered `u64` gives the number back.
pub proof fn lemma_parse_u64_render(n: u64)
    ensures
        parse_u64_spec(dec_text(n as nat)) == Some(n),
{
    lemma_dec_text_digits(n as nat);
    let s = dec_text(n as nat);
    assert(is_dec_digit(s[0]));
    assert(s[0] != '+');
}

/// Parsing a rendered `i64` gives the number back.
pub proof fn lemma_parse_i64_render(i: i64)
    ensures
        parse_i64_spec(int_text(i as int)) == Some(i),
{
    if i >= 0 {
        lemma_dec_text_digits(i as nat);
        let s = int_text(i as int);
        assert(s == dec_text(i as nat));
        assert(is_dec_digit(s[0]));
        assert(s[0] != '-' && s[0] != '+');
    } else {
        let mag = (-(i as int)) as nat;
        lemma_dec_text_digits(mag);
        let s = int_text(i as int);
        assert(s == seq!['-'] + dec_text(mag));
        assert(s[0] == '-');
        assert(s.drop_first() =~= dec_text(mag));
        assert(digits_val(s.drop_first()) == mag);
        assert(-digits_val(s.drop_first()) == i as int);
    }
}

// --- joining ---

/// `parts` joined by the single character `sep`.
pub open spec fn join_texts(parts: Seq<Seq<char>>, sep: char) -> Seq<char>
    decreases parts.len(),
{
    if parts.len() == 0 {
        Seq::empty()
    } else if parts.len() == 1 {
        parts[0]
    } else {
        join_texts(parts.drop_last(), sep) + seq![sep] + parts.last()
    }
}

/// How one more part extends a join.
pub proof fn lemma_join_snoc(parts: Seq<Seq<char>>, sep: char, i: int)
    requires
        0 <= i < parts.len(),
    ensures
        join_texts(parts.take(i + 1), sep) == if i == 0 {
            parts[0]
        } else {
            join_texts(parts.take(i), sep) + seq![sep] + parts[i]
        },
{
    assert(parts.take(i + 1).drop_last() =~= parts.take(i));
    assert(parts.take(i + 1).last() == parts[i]);
    if i == 0 {
        assert(parts.take(1)[0] == parts[0]);
    }
}

/// Joins `parts` with `sep`, as `[_]::join` with a one-character
/// separator does.
pub fn join_parts(parts: &Vec<String>, sep: char) -> (r: String)
    ensures
        r@ == join_texts(parts.deep_view(), sep),
{
    let mut r = String::new();
    let mut i: usize = 0;
    while i < parts.len()
        invariant
            i <= parts.len(),
            r@ == join_texts(parts.deep_view().take(i as int), sep),
        decreases parts.len() - i,
    {
        if i > 0 {
            push_char(&mut r, sep);
        }
        r.append(parts[i].as_str());
        proof {
            let pv = parts.deep_view();
            assert(pv.take(i + 1).drop_last() =~= pv.take(i as int));
            assert(pv.take(i + 1).last() == pv[i as int]);
            assert(pv[i as int] == parts[i as int]@);
        }
        i = i + 1;
    }
    proof {
        assert(parts.deep_view().take(parts.len() as int) =~= parts.deep_view());
    }
    r
}

// --- escaping ---

/// The codec's minimal escaping of one character: newline and double
/// quote only.
pub open spec fn esc_min_char(c: char) -> Seq<char> {
    if c == '\n' {
        seq!['\\', 'n']
    } else if c == '"' {
        seq!['\\', '"']
    } else {
        seq![c]
    }
}

/// The codec's minimal escaping of a string.
pub open spec fn esc_min(s: Seq<char>) -> Seq<char>
    decreases s.len(),
{
    if s.len() == 0 {
        Seq::empty()
    } else {
        esc_min_char(s[0]) + esc_min(s.drop_first())
    }
}

proof fn lemma_esc_min_snoc(s: Seq<char>, i: int)
    requires
        0 <= i < s.len(),
    ensures
        esc_min(s.take(i + 1)) == esc_min(s.take(i)) + esc_min_char(s[i]),
    decreases i,
{
    if i == 0 {
        assert(s.take(1) =~= seq![s[0]]);
        assert(s.take(1).drop_first() =~= Seq::<char>::empty());
        assert(s.take(0) =~= Seq::<char>::empty());
        assert(s.take(1)[0] == s[0]);
        assert(esc_min(s.take(1)) == esc_min_char(s.take(1)[0]) + esc_min(s.take(1).drop_first()));
        assert(esc_min(s.take(1)) =~= esc_min_char(s[0]));
        assert(esc_min(s.take(0)) + esc_min_char(s[0]) =~= esc_min_char(s[0]));
    } else {
        let t = s.drop_first();
        lemma_esc_min_snoc(t, i - 1);
        assert(s.take(i + 1).drop_first() =~= t.take(i));
        assert(s.take(i).drop_first() =~= t.take(i - 1));
        assert(s.take(i + 1)[0] == s[0]);
        assert(s.take(i)[0] == s[0]);
        assert(t[i - 1] == s[i]);
        assert(esc_min(s.take(i + 1)) == esc_min_char(s[0]) + esc_min(t.take(i)));
        assert(esc_min(s.take(i)) == esc_min_char(s[0]) + esc_min(t.take(i - 1)));
        assert(esc_min_char(s[0]) + (esc_min(t.take(i - 1)) + esc_min_char(s[i])) =~= (esc_min_char(
            s[0],
        ) + esc_min(t.take(i - 1))) + esc_min_char(s[i]));
    }
}

/// The character for one hexadecimal digit, lower case.
pub open spec fn hex_char(d: int) -> char
    recommends
        0 <= d < 16,
{
    if d < 10 {
        digit_char(d)
    } else {
        (('a' as int) + (d - 10)) as char
    }
}

/// Full JSON escaping of one character: quote, backslash, the short
/// control escapes, and `\u00..` for the remaining control characters.
pub open spec fn esc_json_char(c: char) -> Seq<char> {
    if c == '"' {
        seq!['\\', '"']
    } else if c == '\\' {
        seq!['\\', '\\']
    } else if c == '\u{8}' {
        seq!['\\', 'b']
    } else if c == '\t' {
        seq!['\\', 't']
    } else if c == '\n' {
        seq!['\\', 'n']
    } else if c == '\u{c}' {
        seq!['\\', 'f']
    } else if c == '\r' {
        seq!['\\', 'r']
    } else if (c as int) < 32 {
        seq!['\\', 'u', '0', '0', hex_char((c as int) / 16), hex_char((c as int) % 16)]
    } else {
        seq![c]
    }
}

/// Full JSON escaping of a string.
pub open spec fn esc_json(s: Seq<char>) -> Seq<char>
    decreases s.len(),
{
    if s.len() == 0 {
        Seq::empty()
    } else {
        esc_json_char(s[0]) + esc_json(s.drop_first())
    }
}

proof fn lemma_esc_json_snoc(s: Seq<char>, i: int)
    requires
        0 <= i < s.len(),
    ensures
        esc_json(s.take(i + 1)) == esc_json(s.take(i)) + esc_json_char(s[i]),
    decreases i,
{
    if i == 0 {
        assert(s.take(1).drop_first() =~= Seq::<char>::empty());
        assert(s.take(0) =~= Seq::<char>::empty());
        assert(s.take(1)[0] == s[0]);
        assert(esc_json(s.take(1)) == esc_json_char(s.take(1)[0]) + esc_json(
            s.take(1).drop_first(),
        ));
        assert(esc_json(s.take(1)) =~= esc_json_char(s[0]));
        assert(esc_json(s.take(0)) + esc_json_char(s[0]) =~= esc_json_char(s[0]));
    } else {
        let t = s.drop_first();
        lemma_esc_json_snoc(t, i - 1);
        assert(s.take(i + 1).drop_first() =~= t.take(i));
        assert(s.take(i).drop_first() =~= t.take(i - 1));
        assert(s.take(i + 1)[0] == s[0]);
        assert(s.take(i)[0] == s[0]);
        assert(t[i - 1] == s[i]);
        assert(esc_json(s.take(i + 1)) == esc_json_char(s[0]) + esc_json(t.take(i)));
        assert(esc_json(s.take(i)) == esc_json_char(s[0]) + esc_json(t.take(i - 1)));
        assert(esc_json_char(s[0]) + (esc_json(t.take(i - 1)) + esc_json_char(s[i])) =~= (
        esc_json_char(s[0]) + esc_json(t.take(i - 1))) + esc_json_char(s[i]));
    }
}

fn hex_to_char(d: u32) -> (c: char)
    requires
        d < 16,
    ensures
        c == hex_char(d as int),
{
    if d < 10 {
        digit_to_char(d as u64)
    } else {
        let c = (97u8 + (d as u8 - 10)) as char;
        assert(c == hex_char(d as int));
        c
    }
}

/// Appends the fully JSON-escaped form of `s`.
pub fn push_esc_json(s: &str, out: &mut String)
    ensures
        final(out)@ == old(out)@ + esc_json(s@),
{
    let len = s.unicode_len();
    let mut i: usize = 0;
    while i < len
        invariant
            len == s@.len(),
            i <= len,
            out@ == old(out)@ + esc_json(s@.take(i as int)),
        decreases len - i,
    {
        let c = s.get_char(i);
        let code = c as u32;
        if c == '"' {
            out.append("\\\"");
            proof {
                reveal_strlit("\\\"");
            }
        } else if c == '\\' {
            out.append("\\\\");
            proof {
                reveal_strlit("\\\\");
            }
        } else if c == '\u{8}' {
            out.append("\\b");
            proof {
                reveal_strlit("\\b");
            }
        } else if c == '\t' {
            out.append("\\t");
            proof {
                reveal_strlit("\\t");
            }
        } else if c == '\n' {
            out.append("\\n");
            proof {
                reveal_strlit("\\n");
            }
        } else if c == '\u{c}' {
            out.append("\\f");
            proof {
                reveal_strlit("\\f");
            }
        } else if c == '\r' {
            out.append("\\r");
            proof {
                reveal_strlit("\\r");
            }
        } else if code < 32 {
            out.append("\\u00");
            proof {
                reveal_strlit("\\u00");
            }
            push_char(out, hex_to_char(code / 16));
            push_char(out, hex_to_char(code % 16));
            proof {
                assert(out@ == old(out)@ + esc_json(s@.take(i as int)) + esc_json_char(c)) by {
                    assert(esc_json_char(c) =~= "\\u00"@ + seq![
                        hex_char((c as int) / 16),
                        hex_char((c as int) % 16),
                    ]) by {
                        reveal_strlit("\\u00");
                    }
                }
            }
        } else {
            push_char(out, c);
        }
        proof {
            lemma_esc_json_snoc(s@, i as int);
        }
        i = i + 1;
    }
    proof {
        assert(s@.take(len as int) =~= s@);
    }
}

/// The JSON rendering of a boolean.
pub open spec fn bool_text(b: bool) -> Seq<char> {
    if b {
        "true"@
    } else {
        "false"@
    }
}

/// Appends the minimally escaped form of `s`.
pub fn push_esc_min(s: &str, out: &mut String)
    ensures
        final(out)@ == old(out)@ + esc_min(s@),
{
    let len = s.unicode_len();
    let mut i: usize = 0;
    while i < len
        invariant
            len == s@.len(),
            i <= len,
            out@ == old(out)@ + esc_min(s@.take(i as int)),
        decreases len - i,
    {
        let c = s.get_char(i);
        if c == '\n' {
            out.append("\\n");
            proof {
                reveal_strlit("\\n");
            }
        } else if c == '"' {
            out.append("\\\"");
            proof {
                reveal_strlit("\\\"");
            }
        } else {
            push_char(out, c);
        }
        proof {
            lemma_esc_min_snoc(s@, i as int);
        }
        i = i + 1;
    }
    proof {
        assert(s@.take(len as int) =~= s@);
    }
}

} // verus!

