use vstd::prelude::*;

verus! {

/// The text `s` between `pre` and `suf`, or nothing when `s` is empty.
pub open spec fn wrap_spec(s: Seq<char>, pre: Seq<char>, suf: Seq<char>) -> Seq<char> {
    if s.len() == 0 {
        s
    } else {
        pre + s + suf
    }
}

/// Relies on `String::push`: the character is appended at the end.
#[verifier::external_body]
pub(crate) fn push_char(s: &mut String, c: char)
    ensures
        final(s)@ == old(s)@.push(c),
{
    s.push(c)
}

/// ASCII lower-case letters raised to upper case; every other character stays.
pub(crate) fn ascii_upper(c: char) -> (r: char)
    ensures
        r == ascii_upper_spec(c),
{
    if 'a' <= c && c <= 'z' {
        let b: u8 = ((c as u32) - 32) as u8;
        b as char
    } else {
        c
    }
}

/// A character raised to upper case where it is an ASCII letter.
pub open spec fn ascii_upper_spec(c: char) -> char {
    if 'a' <= c && c <= 'z' {
        ((c as u32) - 32) as char
    } else {
        c
    }
}

/// Wraps `s` with a prefix and a suffix, unless it is empty.
pub fn wrap(s: &str, prefix: &str, suffix: &str) -> (r: String)
    ensures
        r@ == wrap_spec(s@, prefix@, suffix@),
{
    if s.is_empty() {
        String::new()
    } else {
        let mut r = String::from_str(prefix);
        r.append(s);
        r.append(suffix);
        r
    }
}

/// The decimal digit of `d` (below ten).
pub open spec fn digit(d: nat) -> char {
    if d == 0 { '0' }
    else if d == 1 { '1' }
    else if d == 2 { '2' }
    else if d == 3 { '3' }
    else if d == 4 { '4' }
    else if d == 5 { '5' }
    else if d == 6 { '6' }
    else if d == 7 { '7' }
    else if d == 8 { '8' }
    else { '9' }
}

/// The decimal notation of `n`, without leading zeros.
pub open spec fn dec_spec(n: nat) -> Seq<char>
    decreases n,
{
    if n < 10 {
        seq![digit(n)]
    } else {
        dec_spec(n / 10).push(digit(n % 10))
    }
}

pub(crate) fn digit_char(d: u64) -> (c: char)
    requires
        d < 10,
    ensures
        c == digit(d as nat),
{
    if d == 0 { '0' }
    else if d == 1 { '1' }
    else if d == 2 { '2' }
    else if d == 3 { '3' }
    else if d == 4 { '4' }
    else if d == 5 { '5' }
    else if d == 6 { '6' }
    else if d == 7 { '7' }
    else if d == 8 { '8' }
    else { '9' }
}

/// The decimal notation of `n`.
pub fn dec(n: u64) -> (r: String)
    ensures
        r@ == dec_spec(n as nat),
    decreases n,
{
    if n < 10 {
        let mut r = String::new();
        push_char(&mut r, digit_char(n));
        r
    } else {
        let mut r = dec(n / 10);
        push_char(&mut r, digit_char(n % 10));
        r
    }
}

/// What one character becomes inside a double-quoted script string.
pub open spec fn escape_char(c: char) -> Seq<char> {
    if c == '\n' {
        seq!['\\', 'n']
    } else if c == '"' {
        seq!['\\', '"']
    } else {
        seq![c]
    }
}

/// Line breaks and double quotes escaped with a backslash.
pub open spec fn escape_spec(s: Seq<char>) -> Seq<char>
    decreases s.len(),
{
    if s.len() == 0 {
        s
    } else {
        escape_spec(s.drop_last()) + escape_char(s.last())
    }
}

/// Escapes `s` for a double-quoted script string.
pub fn escape(s: &str) -> (r: String)
    ensures
        r@ == escape_spec(s@),
{
    let n = s.unicode_len();
    let mut r = String::new();
    let mut i: usize = 0;
    while i < n
        invariant
            n == s@.len(),
            i <= n,
            r@ == escape_spec(s@.subrange(0, i as int)),
        decreases n - i,
    {
        let c = s.get_char(i);
        if c == '\n' {
            push_char(&mut r, '\\');
            push_char(&mut r, 'n');
        } else if c == '"' {
            push_char(&mut r, '\\');
            push_char(&mut r, '"');
        } else {
            push_char(&mut r, c);
        }
        proof {
            let t = s@.subrange(0, i + 1);
            assert(t.drop_last() =~= s@.subrange(0, i as int));
            assert(r@ =~= escape_spec(t));
        }
        i = i + 1;
    }
    assert(s@.subrange(0, n as int) =~= s@);
    r
}

/// A word separator of option names.
pub open spec fn is_sep(c: char) -> bool {
    c == ' ' || c == '-' || c == '_'
}

/// The lower camel case of a name, from the character at `i` on, where
/// `up` says that a separator came just before.
pub open spec fn camel_from(s: Seq<char>, i: nat, up: bool) -> Seq<char>
    decreases s.len() - i,
{
    if i >= s.len() {
        Seq::empty()
    } else if is_sep(s[i as int]) {
        camel_from(s, i + 1, true)
    } else {
        seq![if up { ascii_upper_spec(s[i as int]) } else { s[i as int] }] + camel_from(s, i + 1, false)
    }
}

/// Separators removed, and the letter after each raised to upper case.
pub open spec fn camel_spec(s: Seq<char>) -> Seq<char> {
    camel_from(s, 0, false)
}

/// Turns `slide-number`, `slide number` or `slide_number` into `slideNumber`.
pub fn lower_camelcase(doc: &str) -> (r: String)
    ensures
        r@ == camel_spec(doc@),
{
    let n = doc.unicode_len();
    let mut r = String::new();
    let mut is_word = false;
    let mut i: usize = 0;
    while i < n
        invariant
            n == doc@.len(),
            i <= n,
            r@ + camel_from(doc@, i as nat, is_word) == camel_spec(doc@),
        decreases n - i,
    {
        let c = doc.get_char(i);
        let ghost was = is_word;
        let ghost r0 = r@;
        if c == ' ' || c == '-' || c == '_' {
            is_word = true;
        } else {
            let d = if is_word { ascii_upper(c) } else { c };
            is_word = false;
            push_char(&mut r, d);
            proof {
                assert(seq![d] + camel_from(doc@, (i + 1) as nat, false) == camel_from(doc@, i as nat, was));
                assert(r@ + camel_from(doc@, (i + 1) as nat, false) =~= r0 + (seq![d] + camel_from(doc@, (i + 1) as nat, false)));
            }
        }
        i = i + 1;
    }
    r
}

} // verus!
