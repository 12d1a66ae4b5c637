use vstd::prelude::*;
use vstd::string::*;

verus! {

/// A hexadecimal digit character.
pub open spec fn hex_digit(n: int) -> char {
    if n < 10 {
        ((48 + n) as u8) as char
    } else {
        ((87 + n) as u8) as char
    }
}

/// The JSON escape of one character: quotes and backslashes are escaped, as
/// are control characters, by name where JSON has one.
pub open spec fn escape_char(c: char) -> Seq<char> {
    if c == '"' {
        seq!['\\', '"']
    } else if c == '\\' {
        seq!['\\', '\\']
    } else if c == '\u{8}' {
        seq!['\\', 'b']
    } else if c == '\u{c}' {
        seq!['\\', 'f']
    } else if c == '\n' {
        seq!['\\', 'n']
    } else if c == '\r' {
        seq!['\\', 'r']
    } else if c == '\t' {
        seq!['\\', 't']
    } else if (c as int) < 32 {
        seq!['\\', 'u', '0', '0', hex_digit(c as int / 16), hex_digit(c as int % 16)]
    } else {
        seq![c]
    }
}

/// The view of a list of strings: each as a character sequence.
pub open spec fn id_views(ids: Seq<String>) -> Seq<Seq<char>> {
    ids.map_values(|s: String| s@)
}

/// The JSON escape of a string body.
pub open spec fn json_escape(s: Seq<char>) -> Seq<char>
    decreases s.len(),
{
    if s.len() == 0 {
        Seq::empty()
    } else {
        json_escape(s.drop_last()) + escape_char(s.last())
    }
}

/// The items of a JSON array of strings, comma-separated, for the first `n`
/// items.
pub open spec fn string_array_items(items: Seq<Seq<char>>, n: int) -> Seq<char>
    decreases n,
{
    if n <= 0 {
        Seq::empty()
    } else if n == 1 {
        "\""@ + json_escape(items[0]) + "\""@
    } else {
        string_array_items(items, n - 1) + ",\""@ + json_escape(items[n - 1]) + "\""@
    }
}

/// A JSON array of strings.
pub open spec fn string_array_json(items: Seq<Seq<char>>) -> Seq<char> {
    "["@ + string_array_items(items, items.len() as int) + "]"@
}

/// One unfolding step of `json_escape` along a prefix.
proof fn lemma_json_escape_step(s: Seq<char>, i: int)
    requires
        0 <= i < s.len(),
    ensures
        json_escape(s.take(i + 1)) == json_escape(s.take(i)) + escape_char(s[i]),
{
    assert(s.take(i + 1).drop_last() =~= s.take(i));
    assert(s.take(i + 1).last() == s[i]);
}

/// Appends the JSON escape of `s` to `out`.
pub(crate) fn append_json_escaped(out: &mut String, s: &str)
    ensures
        final(out)@ == old(out)@ + json_escape(s@),
{
    let n = s.unicode_len();
    let mut i: usize = 0;
    while i < n
        invariant
            n == s@.len(),
            0 <= i <= n,
            out@ == old(out)@ + json_escape(s@.take(i as int)),
        decreases n - i,
    {
        let c = s.get_char(i);
        let cu = c as u32;
        if c == '"' {
            crate::text::push_char(out, '\\');
            crate::text::push_char(out, '"');
        } else if c == '\\' {
            crate::text::push_char(out, '\\');
            crate::text::push_char(out, '\\');
        } else if cu == 8 {
            crate::text::push_char(out, '\\');
            crate::text::push_char(out, 'b');
        } else if cu == 12 {
            crate::text::push_char(out, '\\');
            crate::text::push_char(out, 'f');
        } else if c == '\n' {
            crate::text::push_char(out, '\\');
            crate::text::push_char(out, 'n');
        } else if c == '\r' {
            crate::text::push_char(out, '\\');
            crate::text::push_char(out, 'r');
        } else if c == '\t' {
            crate::text::push_char(out, '\\');
            crate::text::push_char(out, 't');
        } else if cu < 32 {
            crate::text::push_char(out, '\\');
            crate::text::push_char(out, 'u');
            crate::text::push_char(out, '0');
            crate::text::push_char(out, '0');
            let hi: u8 = (cu / 16) as u8;
            let lo: u8 = (cu % 16) as u8;
            let hc: u8 = if hi < 10 {
                48 + hi
            } else {
                87 + hi
            };
            let lc: u8 = if lo < 10 {
                48 + lo
            } else {
                87 + lo
            };
            crate::text::push_char(out, hc as char);
            crate::text::push_char(out, lc as char);
        } else {
            crate::text::push_char(out, c);
        }
        proof {
            lemma_json_escape_step(s@, i as int);
            assert(out@ =~= old(out)@ + json_escape(s@.take(i + 1)));
        }
        i = i + 1;
    }
    proof {
        assert(s@.take(n as int) =~= s@);
    }
}

/// Appends a JSON array of strings to `out`.
pub(crate) fn append_string_array(out: &mut String, items: &Vec<String>)
    ensures
        final(out)@ == old(out)@ + string_array_json(id_views(items@)),
{
    let n = items.len();
    out.append("[");
    let mut i: usize = 0;
    while i < n
        invariant
            n == items@.len(),
            0 <= i <= n,
            out@ == old(out)@ + "["@ + string_array_items(id_views(items@), i as int),
        decreases n - i,
    {
        if i > 0 {
            out.append(",\"");
        } else {
            out.append("\"");
        }
        append_json_escaped(out, items[i].as_str());
        out.append("\"");
        proof {
            assert(id_views(items@)[i as int] == items@[i as int]@);
            assert(out@ =~= old(out)@ + "["@ + string_array_items(id_views(items@), i + 1));
        }
        i = i + 1;
    }
    out.append("]");
    proof {
        assert(out@ =~= old(out)@ + string_array_json(id_views(items@)));
    }
}

} // verus!
