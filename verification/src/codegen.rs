use vstd::prelude::*;
use vstd::string::*;

use crate::text::{ends_with, push_char, starts_with};

verus! {

/// True if `c` is an ASCII uppercase letter.
pub open spec fn is_ascii_upper(c: char) -> bool {
    65 <= c as int <= 90
}

/// The uppercase mapping of one character, as the Unicode case table gives it.
pub uninterp spec fn upper_of(c: char) -> Seq<char>;

/// The ASCII uppercase counterpart of an ASCII character.
pub open spec fn ascii_upper(c: char) -> char {
    if 97 <= c as int <= 122 {
        ((c as u8) - 32) as char
    } else {
        c
    }
}

/// Relies on char::to_uppercase: yields the Unicode uppercase mapping of the
/// character, which depends on the character alone; ASCII characters map to
/// their ASCII uppercase counterparts.
#[verifier::external_body]
fn char_upper_string(c: char) -> (r: String)
    ensures
        r@ == upper_of(c),
        (c as int) < 128 ==> r@ == seq![ascii_upper(c)],
{
    c.to_uppercase().to_string()
}

/// Whether an underscore separates the constant-case output just before the
/// character at index `j`: at the start of an uppercase run that follows a
/// non-uppercase character, and before the last character of an uppercase run
/// of length at least two that is followed by a non-uppercase character.
pub open spec fn underscore_before(s: Seq<char>, j: int) -> bool {
    &&& is_ascii_upper(s[j])
    &&& j > 0
    &&& (!is_ascii_upper(s[j - 1]) || (j + 1 < s.len() && !is_ascii_upper(s[j + 1])))
}

/// The output produced for the character at index `j` of the input.
pub open spec fn constant_case_piece(s: Seq<char>, j: int) -> Seq<char> {
    let up = if is_ascii_upper(s[j]) {
        seq![s[j]]
    } else {
        upper_of(s[j])
    };
    if underscore_before(s, j) {
        seq!['_'] + up
    } else {
        up
    }
}

/// The constant-case output for the first `n` characters of the input.
pub open spec fn constant_case_prefix(s: Seq<char>, n: int) -> Seq<char>
    decreases n,
{
    if n <= 0 {
        Seq::empty()
    } else {
        constant_case_prefix(s, n - 1) + constant_case_piece(s, n - 1)
    }
}

/// The `CONSTANT_CASE` rendering of a `CamelCase` name.
pub open spec fn camel_to_constant(s: Seq<char>) -> Seq<char> {
    constant_case_prefix(s, s.len() as int)
}

/// Helper function to convert `CamelCase` to `CONSTANT_CASE`.
pub fn camel_case_to_constant_case(camel: &str) -> (r: String)
    ensures
        r@ == camel_to_constant(camel@),
{
    let n = camel.unicode_len();
    let mut out = String::new();
    let mut i: usize = 0;
    while i < n
        invariant
            n == camel@.len(),
            0 <= i <= n,
            out@ == constant_case_prefix(camel@, i as int),
        decreases n - i,
    {
        let c = camel.get_char(i);
        let upper = {
            let cu = c as u32;
            cu >= 65 && cu <= 90
        };
        if upper {
            let sep = if i == 0 {
                false
            } else {
                let prev = camel.get_char(i - 1);
                let pu = prev as u32;
                if !(pu >= 65 && pu <= 90) {
                    true
                } else if i + 1 < n {
                    let next = camel.get_char(i + 1);
                    let nu = next as u32;
                    !(nu >= 65 && nu <= 90)
                } else {
                    false
                }
            };
            if sep {
                push_char(&mut out, '_');
            }
            push_char(&mut out, c);
        } else {
            let up = char_upper_string(c);
            out.append(up.as_str());
        }
        i = i + 1;
    }
    out
}


/// True if the file name names a per-schema descriptor: under the schema
/// directory, a proto file, and not one of the shared primitive files.
pub open spec fn is_descriptor_name(s: Seq<char>) -> bool {
    &&& s.len() >= 15
    &&& "foxglove/"@.is_prefix_of(s)
    &&& ".proto"@.is_suffix_of(s)
    &&& !"Primitive"@.is_suffix_of(s.subrange(9, s.len() - 6))
}

/// The base name of a per-schema descriptor file: the name with the schema
/// directory and the proto extension stripped, unless it names one of the
/// shared primitive files.
pub fn descriptor_base_name(name: &str) -> (r: Option<String>)
    ensures
        r is Some <==> is_descriptor_name(name@),
        r matches Some(b) ==> b@ == name@.subrange(9, name@.len() - 6),
{
    proof {
        reveal_strlit("foxglove/");
        reveal_strlit(".proto");
        reveal_strlit("Primitive");
    }
    if !starts_with(name, "foxglove/") {
        return None;
    }
    let n = name.unicode_len();
    if n < 15 {
        return None;
    }
    if !ends_with(name, ".proto") {
        return None;
    }
    let base = name.substring_char(9, n - 6);
    if ends_with(base, "Primitive") {
        return None;
    }
    Some(base.to_owned())
}


/// A line with its leading whitespace removed, as the Unicode white-space
/// property defines it.
pub uninterp spec fn trimmed_of(s: Seq<char>) -> Seq<char>;

/// Relies on str::trim_start: the string with leading whitespace removed,
/// which depends on the characters alone and is a suffix of the input.
#[verifier::external_body]
fn trim_start_string(s: &str) -> (r: String)
    ensures
        r@ == trimmed_of(s@),
        r@.is_suffix_of(s@),
{
    s.trim_start().to_owned()
}

/// The line with every backslash removed.
pub open spec fn strip_backslashes(s: Seq<char>) -> Seq<char> {
    s.filter(|c: char| c != '\\')
}

/// One unfolding step of `strip_backslashes` along a prefix.
proof fn lemma_strip_backslashes_step(s: Seq<char>, i: int)
    requires
        0 <= i < s.len(),
    ensures
        strip_backslashes(s.take(i + 1)) == if s[i] != '\\' {
            strip_backslashes(s.take(i)).push(s[i])
        } else {
            strip_backslashes(s.take(i))
        },
{
    reveal(Seq::filter);
    assert(s.take(i + 1).drop_last() =~= s.take(i));
    assert(s.take(i + 1).last() == s[i]);
}

/// Removes every backslash from a line.
fn remove_backslashes(s: &str) -> (r: String)
    ensures
        r@ == strip_backslashes(s@),
{
    let n = s.unicode_len();
    let mut out = String::new();
    let mut i: usize = 0;
    while i < n
        invariant
            n == s@.len(),
            0 <= i <= n,
            out@ == strip_backslashes(s@.take(i as int)),
        decreases n - i,
    {
        let c = s.get_char(i);
        proof {
            lemma_strip_backslashes_step(s@, i as int);
        }
        if c != '\\' {
            push_char(&mut out, c);
        }
        i = i + 1;
    }
    proof {
        assert(s@.take(n as int) =~= s@);
    }
    out
}

/// The doc-comment indentation marker that the protobuf compiler writes
/// with one space too many.
pub open spec fn wide_doc_marker() -> Seq<char> {
    "///  "@
}

/// The line with every occurrence of the too-wide doc marker narrowed by
/// one space, scanning left to right.
pub open spec fn narrow_doc_markers(s: Seq<char>) -> Seq<char>
    decreases s.len(),
{
    if s.len() >= 5 && s.take(5) == wide_doc_marker() {
        "/// "@ + narrow_doc_markers(s.skip(5))
    } else if s.len() == 0 {
        Seq::empty()
    } else {
        seq![s[0]] + narrow_doc_markers(s.skip(1))
    }
}

/// Narrows every too-wide doc marker of a line by one space.
fn replace_doc_markers(s: &str) -> (r: String)
    ensures
        r@ == narrow_doc_markers(s@),
{
    let n = s.unicode_len();
    let mut out = String::new();
    let mut i: usize = 0;
    proof {
        assert(s@.skip(0) =~= s@);
        assert(out@ + narrow_doc_markers(s@) =~= narrow_doc_markers(s@));
    }
    while i < n
        invariant
            n == s@.len(),
            0 <= i <= n,
            out@ + narrow_doc_markers(s@.skip(i as int)) == narrow_doc_markers(s@),
        decreases n - i,
    {
        let ghost rest = s@.skip(i as int);
        let is_marker = n - i >= 5 && s.get_char(i) == '/' && s.get_char(i + 1) == '/'
            && s.get_char(i + 2) == '/' && s.get_char(i + 3) == ' ' && s.get_char(i + 4) == ' ';
        if is_marker {
            proof {
                reveal_strlit("///  ");
                assert(rest.take(5) =~= wide_doc_marker());
                assert(rest.skip(5) =~= s@.skip(i + 5));
            }
            out.append("/// ");
            proof {
                assert(out@ + narrow_doc_markers(s@.skip(i + 5)) =~= narrow_doc_markers(s@));
            }
            i = i + 5;
        } else {
            let c = s.get_char(i);
            proof {
                reveal_strlit("///  ");
                if rest.len() >= 5 && rest.take(5) == wide_doc_marker() {
                    assert(rest.take(5)[0] == wide_doc_marker()[0]);
                    assert(rest.take(5)[1] == wide_doc_marker()[1]);
                    assert(rest.take(5)[2] == wide_doc_marker()[2]);
                    assert(rest.take(5)[3] == wide_doc_marker()[3]);
                    assert(rest.take(5)[4] == wide_doc_marker()[4]);
                    assert(false);
                }
                assert(narrow_doc_markers(rest) == seq![rest[0]] + narrow_doc_markers(
                    rest.skip(1),
                ));
                assert(rest[0] == c);
                assert(rest.skip(1) =~= s@.skip(i + 1));
            }
            push_char(&mut out, c);
            proof {
                assert(out@ + narrow_doc_markers(s@.skip(i + 1)) =~= narrow_doc_markers(s@));
            }
            i = i + 1;
        }
    }
    proof {
        assert(s@.skip(i as int) =~= Seq::<char>::empty());
        assert(out@ + narrow_doc_markers(Seq::<char>::empty()) =~= out@);
    }
    out
}

/// The transformation of one generated doc line: a code fence opens as a
/// text block and closes plainly, and inside a block the compiler's escapes
/// and extra indentation are undone. Returns the new in-block state and the
/// rewritten line.
pub open spec fn fix_line(in_block: bool, line: Seq<char>) -> (bool, Seq<char>) {
    if trimmed_of(line) == "/// ```"@ {
        (!in_block, if !in_block {
            line + "text"@
        } else {
            line
        })
    } else if in_block {
        (in_block, narrow_doc_markers(strip_backslashes(line)))
    } else {
        (in_block, line)
    }
}

/// The transformation of the first `n` lines, starting outside a block.
pub open spec fn fix_lines_prefix(lines: Seq<Seq<char>>, n: int) -> (bool, Seq<Seq<char>>)
    decreases n,
{
    if n <= 0 {
        (false, Seq::empty())
    } else {
        let prev = fix_lines_prefix(lines, n - 1);
        let step = fix_line(prev.0, lines[n - 1]);
        (step.0, prev.1.push(step.1))
    }
}

/// Rewrites the documentation lines of a generated source file so that its
/// code blocks render as text: fences gain the text annotation, and inside
/// a fence the compiler's escapes and extra indentation are undone.
pub fn fix_doc_lines(lines: Vec<String>) -> (r: Vec<String>)
    ensures
        crate::json::id_views(r@) == fix_lines_prefix(
            crate::json::id_views(lines@),
            lines@.len() as int,
        ).1,
{
    let ghost lviews = crate::json::id_views(lines@);
    let n = lines.len();
    let mut out: Vec<String> = Vec::new();
    let mut in_block: bool = false;
    let mut i: usize = 0;
    while i < n
        invariant
            lviews == crate::json::id_views(lines@),
            n == lines@.len(),
            0 <= i <= n,
            in_block == fix_lines_prefix(lviews, i as int).0,
            crate::json::id_views(out@) == fix_lines_prefix(lviews, i as int).1,
        decreases n - i,
    {
        let line = &lines[i];
        proof {
            assert(lviews[i as int] == lines@[i as int]@);
        }
        let trimmed = trim_start_string(line.as_str());
        let fixed: String;
        if crate::text::str_eq(trimmed.as_str(), "/// ```") {
            if !in_block {
                fixed = line.clone().concat("text");
            } else {
                fixed = line.clone();
            }
            in_block = !in_block;
        } else if in_block {
            let stripped = remove_backslashes(line.as_str());
            fixed = replace_doc_markers(stripped.as_str());
        } else {
            fixed = line.clone();
        }
        let ghost out_pre = out@;
        out.push(fixed);
        proof {
            assert(crate::json::id_views(out@) =~= crate::json::id_views(out_pre).push(fixed@));
        }
        i = i + 1;
    }
    proof {
        assert(crate::json::id_views(lines@).len() == n);
    }
    out
}

} // verus!
