//! Rendering of runtime values back into surface syntax.
//!
//! A [`Value`] is the closed union the bytecode executor produces: an
//! integer, a byte string, or a vector of values. [`mvm_pretty`] turns one
//! into text: integers as decimal, byte strings either as a double-quoted
//! display string (when they decode as control-character-free UTF-8) or as
//! a hex literal `x"..."`, and vectors as `[a, b, ...]`.

use vstd::prelude::*;
use vstd::string::StrSliceExecFns;
use vstd::string::StringExecFns;
use vstd::utf8::decode_utf8;
use vstd::utf8::valid_utf8;

verus! {

broadcast use vstd::std_specs::vec::group_vec_axioms;

/// A runtime value: the closed union produced by the bytecode executor.
///
/// The executor's integers are 256 bits wide; an integer is held as its
/// high and low 128-bit halves, in that order.
pub enum Value {
    Int(u128, u128),
    Bytes(Vec<u8>),
    Vector(Vec<Value>),
}

/// Truthiness of a value: an integer is truthy exactly when it is
/// nonzero; byte strings and vectors are always truthy.
pub open spec fn spec_truthy(v: Value) -> bool {
    match v {
        Value::Int(hi, lo) => hi != 0 || lo != 0,
        Value::Bytes(_) => true,
        Value::Vector(_) => true,
    }
}

/// Decides the truthiness of a value.
pub fn truthy(v: &Value) -> (r: bool)
    ensures
        r == spec_truthy(*v),
{
    match v {
        Value::Int(hi, lo) => *hi != 0 || *lo != 0,
        Value::Bytes(_) => true,
        Value::Vector(_) => true,
    }
}

/// The character for the decimal digit `d`.
pub open spec fn spec_digit_char(d: int) -> char {
    (((48 + d) as u8) as char)
}

/// The decimal digit string of `n`, most significant digit first.
pub open spec fn spec_decimal(n: nat) -> Seq<char>
    decreases n,
{
    if n < 10 {
        seq![spec_digit_char(n as int)]
    } else {
        spec_decimal(n / 10).push(spec_digit_char((n % 10) as int))
    }
}

/// The character for the hex digit `d` (lowercase).
pub open spec fn spec_hex_digit(d: int) -> char {
    if d < 10 {
        (((48 + d) as u8) as char)
    } else {
        (((87 + d) as u8) as char)
    }
}

/// Lowercase hex rendering of `b`, two digits per byte, high nibble first.
pub open spec fn spec_hex(b: Seq<u8>) -> Seq<char>
    decreases b.len(),
{
    if b.len() == 0 {
        Seq::empty()
    } else {
        seq![
            spec_hex_digit((b[0] / 16) as int),
            spec_hex_digit((b[0] % 16) as int),
        ] + spec_hex(b.drop_first())
    }
}

/// A control character: Unicode category `Cc`, i.e. U+0000 through U+001F
/// or U+007F through U+009F.
pub open spec fn is_control_char(c: char) -> bool {
    (c as u32) < 0x20 || (0x7f <= (c as u32) && (c as u32) <= 0x9f)
}

/// True iff some character of `s` is a control character.
pub open spec fn has_control_char(s: Seq<char>) -> bool {
    exists|i: int| 0 <= i < s.len() && is_control_char(s[i])
}

/// What `snailquote::escape` returns on the characters `s`.
pub uninterp spec fn escape_of(s: Seq<char>) -> Seq<char>;

/// A character the escaper never quotes: a lowercase letter or a digit.
pub open spec fn is_plain_char(c: char) -> bool {
    (97 <= (c as u32) && (c as u32) <= 122) || (48 <= (c as u32) && (c as u32) <= 57)
}

/// A plain word: nonempty, lowercase letters and digits only.
pub open spec fn is_plain_word(s: Seq<char>) -> bool {
    s.len() > 0 && (forall|i: int| 0 <= i < s.len() ==> is_plain_char(s[i]))
}

/// `q` with every single-quote replaced by a double quote.
pub open spec fn spec_swap_quotes(q: Seq<char>) -> Seq<char> {
    q.map_values(|c: char| if c == '\'' { '"' } else { c })
}

/// Normalization of an escaped string to a double-quoted form: output that
/// the escaper single-quoted has every single quote blindly replaced by a
/// double quote; output it already double-quoted is kept; anything else (a
/// bare word) is wrapped in double quotes.
pub open spec fn spec_normalize_quotes(q: Seq<char>) -> Seq<char> {
    if q.len() > 0 && q[0] == '\'' {
        spec_swap_quotes(q)
    } else if q.len() > 0 && q[0] == '"' {
        q
    } else {
        seq!['"'] + q + seq!['"']
    }
}

/// Rendering of a byte string: a quoted display string when the bytes are
/// control-character-free UTF-8, else a hex literal `x"..."`.
pub open spec fn spec_render_bytes(b: Seq<u8>) -> Seq<char> {
    if valid_utf8(b) && !has_control_char(decode_utf8(b)) {
        spec_normalize_quotes(escape_of(decode_utf8(b)))
    } else {
        seq!['x', '"'] + spec_hex(b) + seq!['"']
    }
}

/// What the decimal digit string of the 256-bit integer with the given
/// high and low halves is.
pub uninterp spec fn u256_decimal_of(hi: u128, lo: u128) -> Seq<char>;

/// Rendering of a value. An integer that fits in 128 bits has its decimal
/// form pinned exactly; a wider one renders as the named decimal of its
/// two halves.
pub open spec fn spec_render(v: Value) -> Seq<char>
    decreases v,
{
    match v {
        Value::Int(hi, lo) => if hi == 0 {
            spec_decimal(lo as nat)
        } else {
            u256_decimal_of(hi, lo)
        },
        Value::Bytes(b) => spec_render_bytes(b@),
        Value::Vector(vv) => seq!['['] + spec_render_list(vv@) + seq![']'],
    }
}

/// Rendering of a list of values, joined by `", "`.
pub open spec fn spec_render_list(vs: Seq<Value>) -> Seq<char>
    decreases vs,
{
    if vs.len() == 0 {
        Seq::empty()
    } else if vs.len() == 1 {
        spec_render(vs[0])
    } else {
        spec_render_list(vs.drop_last()) + seq![',', ' '] + spec_render(vs[vs.len() - 1])
    }
}

/// Appends one character to a string.
///
/// Relies on `String::push`: appends exactly the given character.
#[verifier::external_body]
fn push_char(s: &mut String, c: char)
    ensures
        final(s)@ == old(s)@.push(c),
{
    s.push(c);
}

/// Relies on `String::from_utf8`: succeeds exactly on valid UTF-8 input
/// and returns the decoded character sequence.
#[verifier::external_body]
fn utf8_to_string(v: &Vec<u8>) -> (r: Option<String>)
    ensures
        r is Some <==> valid_utf8(v@),
        r is Some ==> r.unwrap()@ == decode_utf8(v@),
{
    String::from_utf8(v.clone()).ok()
}

/// Relies on ethnum's `U256` display: the decimal digit string of the
/// full 256-bit value, a function of the two halves alone.
#[verifier::external_body]
fn u256_decimal(hi: u128, lo: u128) -> (r: String)
    ensures
        r@ == u256_decimal_of(hi, lo),
{
    ethnum::U256::from_words(hi, lo).to_string()
}

/// Relies on `hex::encode`: lowercase hexadecimal, two digits per byte,
/// most significant nibble first.
#[verifier::external_body]
fn hex_encode(b: &Vec<u8>) -> (r: String)
    ensures
        r@ == spec_hex(b@),
{
    hex::encode(b)
}

/// Relies on `snailquote::escape`: the escaped text is a function of the
/// input characters alone, and text made only of characters that need no
/// quoting comes back unchanged.
#[verifier::external_body]
fn escape_string(s: &str) -> (r: String)
    ensures
        r@ == escape_of(s@),
        is_plain_word(s@) ==> r@ == s@,
{
    snailquote::escape(s).into_owned()
}

fn digit_char(d: u8) -> (c: char)
    requires
        d < 10,
    ensures
        c == spec_digit_char(d as int),
{
    (48 + d) as char
}

/// The decimal digit string of `n`.
pub fn decimal_string(n: u128) -> (r: String)
    ensures
        r@ == spec_decimal(n as nat),
    decreases n,
{
    if n < 10 {
        let mut s = String::new();
        push_char(&mut s, digit_char(n as u8));
        proof {
            assert(s@ =~= spec_decimal(n as nat));
        }
        s
    } else {
        let mut s = decimal_string(n / 10);
        push_char(&mut s, digit_char((n % 10) as u8));
        proof {
            assert(s@ =~= spec_decimal(n as nat));
        }
        s
    }
}

/// True iff `s` contains a control character.
pub fn contains_control(s: &str) -> (r: bool)
    ensures
        r == has_control_char(s@),
{
    let n = s.unicode_len();
    let mut i: usize = 0;
    while i < n
        invariant
            i <= n,
            n == s@.len(),
            forall|j: int| 0 <= j < i ==> !is_control_char(s@[j]),
        decreases n - i,
    {
        let c = s.get_char(i);
        let u = c as u32;
        if u < 0x20 || (0x7f <= u && u <= 0x9f) {
            return true;
        }
        i = i + 1;
    }
    false
}

/// Normalizes escaper output to a double-quoted form.
pub fn normalize_quotes(q: &str) -> (r: String)
    ensures
        r@ == spec_normalize_quotes(q@),
{
    let n = q.unicode_len();
    if n == 0 {
        let mut s = String::new();
        push_char(&mut s, '"');
        push_char(&mut s, '"');
        proof {
            assert(s@ =~= spec_normalize_quotes(q@));
        }
        s
    } else {
        let first = q.get_char(0);
        if first == '\'' {
            let mut s = String::new();
            let mut i: usize = 0;
            while i < n
                invariant
                    i <= n,
                    n == q@.len(),
                    s@ =~= spec_swap_quotes(q@.take(i as int)),
                decreases n - i,
            {
                let c = q.get_char(i);
                if c == '\'' {
                    push_char(&mut s, '"');
                } else {
                    push_char(&mut s, c);
                }
                proof {
                    assert(q@.take(i + 1).drop_last() =~= q@.take(i as int));
                    assert(q@.take(i + 1).last() == q@[i as int]);
                    assert(spec_swap_quotes(q@.take(i + 1)) =~= spec_swap_quotes(
                        q@.take(i as int),
                    ).push(if q@[i as int] == '\'' {
                        '"'
                    } else {
                        q@[i as int]
                    }));
                }
                i = i + 1;
            }
            proof {
                assert(q@.take(n as int) =~= q@);
            }
            s
        } else if first == '"' {
            q.to_owned()
        } else {
            let mut s = String::new();
            push_char(&mut s, '"');
            s.append(q);
            push_char(&mut s, '"');
            proof {
                assert(s@ =~= spec_normalize_quotes(q@));
            }
            s
        }
    }
}

/// Renders a byte string as a hex literal `x"..."`.
fn render_hex(b: &Vec<u8>) -> (r: String)
    ensures
        r@ == seq!['x', '"'] + spec_hex(b@) + seq!['"'],
{
    let mut s = String::new();
    push_char(&mut s, 'x');
    push_char(&mut s, '"');
    let h = hex_encode(b);
    s.append(h.as_str());
    push_char(&mut s, '"');
    proof {
        assert(s@ =~= seq!['x', '"'] + spec_hex(b@) + seq!['"']);
    }
    s
}

/// Renders a byte string: quoted text when it is control-character-free
/// UTF-8, else the hex literal.
///
/// The second guarantee is the round-trip law restricted to plain words:
/// bytes decoding to lowercase letters and digits render as exactly that
/// text wrapped in double quotes, which the string-literal grammar reads
/// back as the same bytes.
fn render_bytes(b: &Vec<u8>) -> (r: String)
    ensures
        r@ == spec_render_bytes(b@),
        valid_utf8(b@) && is_plain_word(decode_utf8(b@)) ==> r@ == seq!['"'] + decode_utf8(b@)
            + seq!['"'],
{
    let decoded = utf8_to_string(b);
    match decoded {
        Some(s) => {
            if !contains_control(s.as_str()) {
                let esc = escape_string(s.as_str());
                let out = normalize_quotes(esc.as_str());
                proof {
                    if is_plain_word(s@) {
                        assert(!(esc@[0] == '\''));
                        assert(!(esc@[0] == '"'));
                        assert(out@ == seq!['"'] + s@ + seq!['"']);
                    }
                }
                out
            } else {
                proof {
                    if is_plain_word(decode_utf8(b@)) {
                        let t = decode_utf8(b@);
                        let w = choose|i: int| 0 <= i < t.len() && is_control_char(t[i]);
                        assert(is_plain_char(t[w]));
                    }
                }
                render_hex(b)
            }
        },
        None => render_hex(b),
    }
}

/// Converts a runtime value to its surface-syntax text.
///
/// Integers render as decimal; byte strings as a double-quoted display
/// string when they are control-character-free UTF-8 and as `x"<hex>"`
/// otherwise; vectors as `[...]` with elements joined by `", "`.
///
/// The second guarantee is the round-trip law restricted to plain words
/// (lowercase letters and digits): such byte strings render as exactly
/// their text wrapped in double quotes. For other printable strings the
/// rendering goes through the escaper and its blind quote substitution,
/// which the tests probe.
pub fn mvm_pretty(val: &Value) -> (r: String)
    ensures
        r@ == spec_render(*val),
        (match *val {
            Value::Bytes(b) => valid_utf8(b@) && is_plain_word(decode_utf8(b@)) ==> r@ == seq![
                '"',
            ] + decode_utf8(b@) + seq!['"'],
            _ => true,
        }),
    decreases *val,
{
    match val {
        Value::Int(hi, lo) => {
            if *hi == 0 {
                decimal_string(*lo)
            } else {
                u256_decimal(*hi, *lo)
            }
        },
        Value::Bytes(b) => render_bytes(b),
        Value::Vector(vv) => {
            let mut s = String::new();
            push_char(&mut s, '[');
            let mut i: usize = 0;
            #[verifier::loop_isolation(false)]
            while i < vv.len()
                invariant
                    i <= vv@.len(),
                    s@ =~= seq!['['] + spec_render_list(vv@.take(i as int)),
                decreases vv@.len() - i,
            {
                if i > 0 {
                    s.append(", ");
                }
                proof {
                    assert(decreases_to!(Value::Vector(*vv) => *vv));
                    assert(decreases_to!(*vv => vv@[i as int]));
                }
                let piece = mvm_pretty(&vv[i]);
                s.append(piece.as_str());
                proof {
                    assert(vv@.take(i + 1).drop_last() =~= vv@.take(i as int));
                    assert(vv@.take(i + 1)[vv@.take(i + 1).len() - 1] == vv@[i as int]);
                    reveal_strlit(", ");
                    assert((", ")@ =~= seq![',', ' ']);
                    assert(s@ =~= seq!['['] + spec_render_list(vv@.take(i + 1)));
                }
                i = i + 1;
            }
            push_char(&mut s, ']');
            proof {
                assert(vv@.take(vv@.len() as int) =~= vv@);
                assert(s@ =~= spec_render(*val));
            }
            s
        },
    }
}

} // verus!
