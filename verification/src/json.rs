//! JSON text for strings and unsigned integers, written as `serde_json`
//! writes them.

use vstd::prelude::*;
use crate::text::{decimal, hex_lower, push_decimal, push_hex_lower};

verus! {

/// How `serde_json` writes one character inside a string: `"` and `\`
/// escaped with a backslash, the short escapes `\b \f \n \r \t`, other
/// control characters below U+0020 as `\u00XX` (lower-case hex), and every
/// other character as itself.
pub open spec fn json_escape(c: char) -> Seq<char> {
    let x = c as u32;
    if c == '"' {
        seq!['\\', '"']
    } else if c == '\\' {
        seq!['\\', '\\']
    } else if x == 8 {
        seq!['\\', 'b']
    } else if x == 12 {
        seq!['\\', 'f']
    } else if x == 10 {
        seq!['\\', 'n']
    } else if x == 13 {
        seq!['\\', 'r']
    } else if x == 9 {
        seq!['\\', 't']
    } else if x < 32 {
        seq!['\\', 'u', '0', '0', hex_lower((x / 16) as int), hex_lower((x % 16) as int)]
    } else {
        seq![c]
    }
}

/// The escaped characters of a string, without the quotes.
pub open spec fn json_escaped(s: Seq<char>) -> Seq<char>
    decreases s.len(),
{
    if s.len() == 0 {
        Seq::empty()
    } else {
        json_escaped(s.drop_last()) + json_escape(s.last())
    }
}

/// A JSON string literal.
pub open spec fn json_string(s: Seq<char>) -> Seq<char> {
    seq!['"'] + json_escaped(s) + seq!['"']
}

/// Appends the escaped characters of `text` to `out`.
pub fn push_json_escaped(out: &mut String, text: &str)
    ensures
        final(out)@ == old(out)@ + json_escaped(text@),
{
    let n = text.unicode_len();
    let mut i: usize = 0;
    assert(text@.take(0) =~= Seq::<char>::empty());
    while i < n
        invariant
            n == text@.len(),
            i <= n,
            out@ == old(out)@ + json_escaped(text@.take(i as int)),
        decreases n - i,
    {
        let c = text.get_char(i);
        let x = c as u32;
        let ghost before = out@;
        if c == '"' {
            proof { reveal_strlit("\\\""); }
            out.append("\\\"");
        } else if c == '\\' {
            proof { reveal_strlit("\\\\"); }
            out.append("\\\\");
        } else if x == 8 {
            proof { reveal_strlit("\\b"); }
            out.append("\\b");
        } else if x == 12 {
            proof { reveal_strlit("\\f"); }
            out.append("\\f");
        } else if x == 10 {
            proof { reveal_strlit("\\n"); }
            out.append("\\n");
        } else if x == 13 {
            proof { reveal_strlit("\\r"); }
            out.append("\\r");
        } else if x == 9 {
            proof { reveal_strlit("\\t"); }
            out.append("\\t");
        } else if x < 32 {
            proof { reveal_strlit("\\u00"); }
            out.append("\\u00");
            push_hex_lower(out, (x / 16) as u8);
            push_hex_lower(out, (x % 16) as u8);
        } else {
            let single = text.substring_char(i, i + 1);
            out.append(single);
            assert(single@ =~= seq![c]);
        }
        proof {
            assert(out@ =~= before + json_escape(c));
            assert(text@.take(i as int + 1).drop_last() =~= text@.take(i as int));
            assert(text@.take(i as int + 1).last() == c);
        }
        i = i + 1;
    }
    assert(text@.take(n as int) =~= text@);
}

/// Appends `text` as a JSON string literal to `out`.
pub fn push_json_string(out: &mut String, text: &str)
    ensures
        final(out)@ == old(out)@ + json_string(text@),
{
    proof { reveal_strlit("\""); }
    out.append("\"");
    push_json_escaped(out, text);
    out.append("\"");
    assert(out@ =~= old(out)@ + json_string(text@));
}

/// Appends `n` as a JSON number to `out`.
pub fn push_json_u64(out: &mut String, n: u64)
    ensures
        final(out)@ == old(out)@ + decimal(n as nat),
{
    push_decimal(out, n);
}

} // verus!
