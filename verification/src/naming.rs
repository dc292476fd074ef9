//! Names derived from `snake_case` identifiers: the readable default
//! description of a tool or argument, and the name of a tool's struct.

use vstd::prelude::*;
use crate::text::{chars_of, string_of};

verus! {

/// The uppercase mapping of `c` as `char::to_uppercase` yields it.
pub uninterp spec fn char_uppercase(c: char) -> Seq<char>;

/// `c` is one of `'a'..='z'`.
pub open spec fn is_ascii_lowercase(c: char) -> bool {
    'a' <= c <= 'z'
}

/// The uppercase mapping of `c`: for ASCII, `'a'..='z'` become `'A'..='Z'`
/// and every other character stays; beyond ASCII, the mapping of the Unicode
/// tables.
pub open spec fn uppercase(c: char) -> Seq<char> {
    if is_ascii_lowercase(c) {
        seq![((c as u32) - 32) as char]
    } else if (c as u32) < 128 {
        seq![c]
    } else {
        char_uppercase(c)
    }
}

/// The uppercase mapping of `c`, collected into a string
/// (`char::to_uppercase`). The contract states what the documentation of
/// `char::to_uppercase` promises: one or more characters, the ASCII letters
/// `'a'..='z'` mapped to `'A'..='Z'`, and every other ASCII character mapped
/// to itself. Beyond ASCII it names the result, which follows the Unicode
/// tables of the standard library.
#[verifier::external_body]
fn uppercase_of(c: char) -> (r: String)
    ensures
        r@ == uppercase(c),
        (c as u32) >= 128 ==> r@ == char_uppercase(c),
        r@.len() >= 1,
{
    c.to_uppercase().collect::<String>()
}

/// `s` with every `'_'` turned into a space.
pub open spec fn underscores_to_spaces(s: Seq<char>) -> Seq<char> {
    s.map_values(|c: char| if c == '_' { ' ' } else { c })
}

/// The readable form of a `snake_case` name: its first character in
/// uppercase, then the rest with `'_'` turned into spaces.
pub open spec fn formatted_name(s: Seq<char>) -> Seq<char> {
    if s.len() == 0 {
        seq![]
    } else {
        uppercase(s[0]) + underscores_to_spaces(s.drop_first())
    }
}

/// Formats a `snake_case` name into "Capitalized words with spaces"
/// (`add_values` becomes `Add values`).
pub fn format_name_for_description(s: &str) -> (r: String)
    ensures
        r@ == formatted_name(s@),
        r@.len() == 0 <==> s@.len() == 0,
{
    let cs = chars_of(s);
    if cs.len() == 0 {
        return String::new();
    }
    let first = uppercase_of(cs[0]);
    let mut out = chars_of(first.as_str());
    let ghost head = out@;
    let mut i: usize = 1;
    while i < cs.len()
        invariant
            1 <= i <= cs@.len(),
            out@ == head + underscores_to_spaces(cs@.subrange(1, i as int)),
        decreases cs@.len() - i,
    {
        let c = cs[i];
        out.push(if c == '_' { ' ' } else { c });
        assert(underscores_to_spaces(cs@.subrange(1, i + 1)) =~= underscores_to_spaces(
            cs@.subrange(1, i as int),
        ).push(if c == '_' { ' ' } else { c }));
        i = i + 1;
    }
    assert(cs@.subrange(1, cs@.len() as int) =~= cs@.drop_first());
    string_of(&out)
}

/// The `UpperCamelCase` form of `s`: the underscores dropped, and the first
/// character of each piece between them in uppercase when `capitalize` says
/// that a piece starts there.
pub open spec fn camel_case(s: Seq<char>, capitalize: bool) -> Seq<char>
    decreases s.len(),
{
    if s.len() == 0 {
        seq![]
    } else if s[0] == '_' {
        camel_case(s.drop_first(), true)
    } else if capitalize {
        uppercase(s[0]) + camel_case(s.drop_first(), false)
    } else {
        seq![s[0]] + camel_case(s.drop_first(), false)
    }
}

/// The name of the struct generated for the tool `fn_name`.
pub open spec fn tool_struct_name_of(fn_name: Seq<char>) -> Seq<char> {
    camel_case(fn_name, true) + seq!['T', 'o', 'o', 'l']
}

proof fn lemma_camel_case_step(s: Seq<char>, i: int, capitalize: bool)
    requires
        0 <= i < s.len(),
    ensures
        camel_case(s.skip(i), capitalize) == if s[i] == '_' {
            camel_case(s.skip(i + 1), true)
        } else if capitalize {
            uppercase(s[i]) + camel_case(s.skip(i + 1), false)
        } else {
            seq![s[i]] + camel_case(s.skip(i + 1), false)
        },
{
    assert(s.skip(i).drop_first() =~= s.skip(i + 1));
}

/// The `UpperCamelCase` struct name for a `snake_case` function name, with
/// `Tool` at the end (`my_awesome_tool` becomes `MyAwesomeToolTool`).
pub fn tool_struct_name(fn_name: &str) -> (r: String)
    ensures
        r@ == tool_struct_name_of(fn_name@),
{
    let cs = chars_of(fn_name);
    let mut out: Vec<char> = Vec::new();
    let mut capitalize = true;
    let mut i: usize = 0;
    assert(cs@.skip(0) =~= cs@);
    while i < cs.len()
        invariant
            i <= cs@.len(),
            out@ + camel_case(cs@.skip(i as int), capitalize) == camel_case(cs@, true),
        decreases cs@.len() - i,
    {
        let c = cs[i];
        proof {
            lemma_camel_case_step(cs@, i as int, capitalize);
        }
        let ghost before = out@;
        if c == '_' {
            capitalize = true;
        } else if capitalize {
            let up = uppercase_of(c);
            let ups = chars_of(up.as_str());
            let mut k: usize = 0;
            while k < ups.len()
                invariant
                    k <= ups@.len(),
                    out@ == before + ups@.take(k as int),
                decreases ups@.len() - k,
            {
                out.push(ups[k]);
                assert(before + ups@.take(k as int).push(ups@[k as int]) =~= before + ups@.take(
                    k + 1,
                ));
                k = k + 1;
            }
            assert(ups@.take(ups@.len() as int) =~= ups@);
            assert(out@ + camel_case(cs@.skip(i + 1), false) =~= before + (uppercase(c)
                + camel_case(cs@.skip(i + 1), false)));
            capitalize = false;
        } else {
            out.push(c);
            assert(out@ + camel_case(cs@.skip(i + 1), false) =~= before + (seq![c] + camel_case(
                cs@.skip(i + 1),
                false,
            )));
        }
        i = i + 1;
    }
    assert(cs@.skip(cs@.len() as int) =~= Seq::<char>::empty());
    out.push('T');
    out.push('o');
    out.push('o');
    out.push('l');
    assert(out@ =~= camel_case(cs@, true) + seq!['T', 'o', 'o', 'l']);
    string_of(&out)
}

/// A name that is already formatted stays as it is: formatting twice gives
/// what formatting once gave, when the first character is ASCII.
pub proof fn lemma_format_name_idempotent(s: Seq<char>)
    requires
        s.len() > 0 ==> (s[0] as u32) < 128,
    ensures
        formatted_name(formatted_name(s)) == formatted_name(s),
{
    if s.len() > 0 {
        let c = s[0];
        let f = formatted_name(s);
        let up = uppercase(c);
        assert(up.len() == 1);
        let u = up[0];
        assert((u as u32) < 128 && !is_ascii_lowercase(u));
        assert(f[0] == u);
        assert(uppercase(f[0]) == seq![u]);
        let rest = underscores_to_spaces(s.drop_first());
        assert(f.drop_first() =~= rest);
        assert(underscores_to_spaces(rest) =~= rest);
        assert(formatted_name(f) =~= f);
    }
}

} // verus!
