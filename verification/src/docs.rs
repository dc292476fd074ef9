//! Reading a function's documentation comment: the tool description, and the
//! argument descriptions listed under `Parameters:`.

use vstd::prelude::*;
use crate::naming::{format_name_for_description, formatted_name};
use crate::string_map::{StringMap, inserted, keys_distinct, has_key, key_position};
use crate::text::{
    chars_of, find_char, has_prefix, index_of, join_lines_with_space, join_with_space, lines,
    slice_chars, split_lines, starts_with_chars, string_of, trim, trim_chars, views_of,
};

verus! {

/// The state of the scan over the lines of a documentation comment.
pub struct DocScan {
    /// The trimmed, non-empty lines that describe the function.
    pub description_lines: Seq<Seq<char>>,
    /// The argument descriptions found so far, as map entries.
    pub arguments: Seq<(Seq<char>, Seq<char>)>,
    /// The scan is inside `# Examples`, `# Panics`, `# Errors` or `# Safety`.
    pub in_ignored_section: bool,
    /// The scan is inside the `Parameters:` section.
    pub in_parameters: bool,
    /// The scan is inside a code block (between two lines starting with
    /// three backticks) of an ignored section.
    pub in_code_fence: bool,
}

/// The state before the first line: nothing found, no section open.
pub open spec fn initial_scan() -> DocScan {
    DocScan {
        description_lines: seq![],
        arguments: seq![],
        in_ignored_section: false,
        in_parameters: false,
        in_code_fence: false,
    }
}

/// The number of `'#'` characters at the start of `t`.
pub open spec fn leading_hashes(t: Seq<char>) -> nat
    decreases t.len(),
{
    if t.len() > 0 && t[0] == '#' {
        1 + leading_hashes(t.drop_first())
    } else {
        0
    }
}

/// A trimmed line that is a Markdown heading: one or more `'#'`, then a
/// space.
pub open spec fn is_heading(t: Seq<char>) -> bool {
    let n = leading_hashes(t);
    n > 0 && n < t.len() && t[n as int] == ' '
}

/// A trimmed line that opens a section left out of the description.
pub open spec fn is_ignorable_header(t: Seq<char>) -> bool {
    ||| has_prefix(t, "# Examples"@)
    ||| has_prefix(t, "# Panics"@)
    ||| has_prefix(t, "# Errors"@)
    ||| has_prefix(t, "# Safety"@)
}

/// The entry that a trimmed line `- name: text` of the `Parameters:` section
/// contributes: the trimmed name before the first `':'` and the trimmed text
/// after it.
pub open spec fn parameter_entry(t: Seq<char>) -> Option<(Seq<char>, Seq<char>)> {
    if has_prefix(t, "- "@) {
        let rest = t.skip(2);
        match index_of(rest, ':') {
            Some(k) => Some((trim(rest.take(k)), trim(rest.skip(k + 1)))),
            None => None,
        }
    } else {
        None
    }
}

/// One line of the scan. An ignored section lasts until `Parameters:` or
/// the next Markdown heading outside a code block; a heading that ends it is
/// read as a description line.
pub open spec fn scan_line(st: DocScan, line: Seq<char>) -> DocScan {
    let t = trim(line);
    if is_ignorable_header(t) {
        DocScan { in_ignored_section: true, in_parameters: false, in_code_fence: false, ..st }
    } else if has_prefix(t, "Parameters:"@) {
        DocScan { in_ignored_section: false, in_parameters: true, ..st }
    } else if st.in_ignored_section {
        if has_prefix(t, "```"@) {
            DocScan { in_code_fence: !st.in_code_fence, ..st }
        } else if !st.in_code_fence && is_heading(t) {
            DocScan {
                description_lines: st.description_lines.push(t),
                in_ignored_section: false,
                ..st
            }
        } else {
            st
        }
    } else if st.in_parameters {
        match parameter_entry(t) {
            Some(e) => DocScan { arguments: inserted(st.arguments, e.0, e.1), ..st },
            None => st,
        }
    } else if t.len() > 0 {
        DocScan { description_lines: st.description_lines.push(t), ..st }
    } else {
        st
    }
}

/// The scan over the lines `ls`, in order.
pub open spec fn scan_lines(ls: Seq<Seq<char>>) -> DocScan
    decreases ls.len(),
{
    if ls.len() == 0 {
        initial_scan()
    } else {
        scan_line(scan_lines(ls.drop_last()), ls.last())
    }
}

/// The documentation comment: each `doc` attribute value followed by `'\n'`.
pub open spec fn doc_text(values: Seq<Seq<char>>) -> Seq<char>
    decreases values.len(),
{
    if values.len() == 0 {
        seq![]
    } else {
        doc_text(values.drop_last()) + values.last() + seq!['\n']
    }
}

/// The description of the function: its description lines joined with
/// spaces, or the formatted function name where there are none.
pub open spec fn doc_description(values: Seq<Seq<char>>, fn_name: Seq<char>) -> Seq<char> {
    let d = join_with_space(scan_lines(lines(doc_text(values))).description_lines);
    if d.len() == 0 {
        formatted_name(fn_name)
    } else {
        d
    }
}

/// The argument descriptions of the `Parameters:` section; a name listed
/// twice keeps the later text.
pub open spec fn doc_arguments(values: Seq<Seq<char>>) -> Seq<(Seq<char>, Seq<char>)> {
    scan_lines(lines(doc_text(values))).arguments
}

/// The views of a sequence of strings.
pub open spec fn string_views(v: Seq<String>) -> Seq<Seq<char>> {
    v.map_values(|s: String| s@)
}

/// The entries of a map of strings, with the values viewed as well.
pub open spec fn text_entries(s: Seq<(Seq<char>, String)>) -> Seq<(Seq<char>, Seq<char>)> {
    s.map_values(|e: (Seq<char>, String)| (e.0, e.1@))
}

proof fn lemma_text_entries_inserted(s: Seq<(Seq<char>, String)>, k: Seq<char>, v: String)
    requires
        keys_distinct(s),
    ensures
        text_entries(inserted(s, k, v)) == inserted(text_entries(s), k, v@),
{
    let t = text_entries(s);
    assert forall|i: int| 0 <= i < s.len() implies #[trigger] t[i].0 == s[i].0 by {}
    if has_key(s, k) {
        let p = key_position(s, k);
        assert(t[p].0 == k);
        assert(has_key(t, k));
        let q = key_position(t, k);
        assert(s[q].0 == k);
        assert(p == q);
        assert(text_entries(inserted(s, k, v)) =~= inserted(t, k, v@));
    } else {
        assert(!has_key(t, k)) by {
            if has_key(t, k) {
                let q = key_position(t, k);
                assert(s[q].0 == k);
            }
        }
        assert(text_entries(inserted(s, k, v)) =~= inserted(t, k, v@));
    }
}

fn append_chars(out: &mut Vec<char>, more: &Vec<char>)
    ensures
        final(out)@ == old(out)@ + more@,
{
    let ghost base = out@;
    let mut k: usize = 0;
    while k < more.len()
        invariant
            k <= more@.len(),
            out@ == base + more@.take(k as int),
        decreases more@.len() - k,
    {
        out.push(more[k]);
        assert(base + more@.take(k as int).push(more@[k as int]) =~= base + more@.take(k + 1));
        k = k + 1;
    }
    assert(more@.take(more@.len() as int) =~= more@);
}

/// The line is a Markdown heading.
fn heading(t: &Vec<char>) -> (r: bool)
    ensures
        r == is_heading(t@),
{
    let mut i: usize = 0;
    assert(t@.skip(0) =~= t@);
    while i < t.len() && t[i] == '#'
        invariant
            i <= t@.len(),
            leading_hashes(t@) == i + leading_hashes(t@.skip(i as int)),
        decreases t@.len() - i,
    {
        assert(t@.skip(i as int).drop_first() =~= t@.skip(i + 1));
        i = i + 1;
    }
    assert(leading_hashes(t@.skip(i as int)) == 0) by {
        if i < t@.len() {
            assert(t@.skip(i as int)[0] == t@[i as int]);
        }
    }
    i > 0 && i < t.len() && t[i] == ' '
}

/// Reads the description of a function and the descriptions of its
/// arguments from the values of its `doc` attributes. Lines in the sections
/// `# Examples`, `# Panics`, `# Errors` and `# Safety` are left out, each up
/// to `Parameters:` or the next heading outside a code block; lines
/// `- name: text` after `Parameters:` describe arguments; the other
/// non-empty lines, trimmed and joined with spaces, describe the function,
/// which otherwise gets its formatted name as description.
pub fn parse_function_docs(doc_values: &Vec<String>, fn_name: &str) -> (r: (
    String,
    StringMap<String>,
))
    ensures
        r.0@ == doc_description(string_views(doc_values@), fn_name@),
        text_entries(r.1@) == doc_arguments(string_views(doc_values@)),
{
    let ghost values = string_views(doc_values@);
    let mut text: Vec<char> = Vec::new();
    let mut v: usize = 0;
    while v < doc_values.len()
        invariant
            v <= doc_values@.len(),
            values == string_views(doc_values@),
            text@ == doc_text(values.take(v as int)),
        decreases doc_values@.len() - v,
    {
        let part = chars_of(doc_values[v].as_str());
        append_chars(&mut text, &part);
        text.push('\n');
        assert(values.take(v + 1).drop_last() =~= values.take(v as int));
        v = v + 1;
    }
    assert(values.take(doc_values@.len() as int) =~= values);

    let ls = split_lines(&text);
    let examples = chars_of("# Examples");
    let panics = chars_of("# Panics");
    let errors = chars_of("# Errors");
    let safety = chars_of("# Safety");
    let parameters = chars_of("Parameters:");
    let dash = chars_of("- ");
    let fence = chars_of("```");

    let mut description_lines: Vec<Vec<char>> = Vec::new();
    let mut arguments: StringMap<String> = StringMap::new();
    let mut in_ignored_section = false;
    let mut in_parameters = false;
    let mut in_code_fence = false;
    let ghost all = views_of(ls@);
    let mut i: usize = 0;
    assert(text_entries(arguments@) =~= Seq::<(Seq<char>, Seq<char>)>::empty());
    assert(views_of(description_lines@) =~= Seq::<Seq<char>>::empty());
    while i < ls.len()
        invariant
            i <= ls@.len(),
            all == views_of(ls@),
            all == lines(doc_text(values)),
            examples@ == "# Examples"@,
            panics@ == "# Panics"@,
            errors@ == "# Errors"@,
            safety@ == "# Safety"@,
            parameters@ == "Parameters:"@,
            dash@ == "- "@,
            fence@ == "```"@,
            scan_lines(all.take(i as int)) == (DocScan {
                description_lines: views_of(description_lines@),
                arguments: text_entries(arguments@),
                in_ignored_section,
                in_parameters,
                in_code_fence,
            }),
        decreases ls@.len() - i,
    {
        assert(all.take(i + 1).drop_last() =~= all.take(i as int));
        assert(all.take(i + 1).last() == ls@[i as int]@);
        let t = trim_chars(&ls[i]);
        if starts_with_chars(&t, &examples) || starts_with_chars(&t, &panics) || starts_with_chars(
            &t,
            &errors,
        ) || starts_with_chars(&t, &safety) {
            in_ignored_section = true;
            in_parameters = false;
            in_code_fence = false;
        } else if starts_with_chars(&t, &parameters) {
            in_parameters = true;
            in_ignored_section = false;
        } else if in_ignored_section {
            if starts_with_chars(&t, &fence) {
                in_code_fence = !in_code_fence;
            } else if !in_code_fence && heading(&t) {
                let ghost before = description_lines@;
                let ghost tv = t@;
                description_lines.push(t);
                assert(views_of(description_lines@) =~= views_of(before).push(tv));
                in_ignored_section = false;
            }
        } else if in_parameters {
            if starts_with_chars(&t, &dash) {
                proof {
                    reveal_strlit("- ");
                }
                let n = t.len();
                let rest = slice_chars(&t, 2, n);
                assert(rest@ =~= t@.skip(2));
                match find_char(&rest, ':') {
                    Some(k) => {
                        let m = rest.len();
                        let name_part = slice_chars(&rest, 0, k);
                        let text_part = slice_chars(&rest, k + 1, m);
                        assert(name_part@ =~= rest@.take(k as int));
                        assert(text_part@ =~= rest@.skip(k + 1));
                        let name = string_of(&trim_chars(&name_part));
                        let desc = string_of(&trim_chars(&text_part));
                        proof {
                            use_type_invariant(&arguments);
                            lemma_text_entries_inserted(arguments@, name@, desc);
                        }
                        arguments.insert(name, desc);
                    },
                    None => {},
                }
            }
        } else if t.len() > 0 {
            let ghost before = description_lines@;
            let ghost tv = t@;
            description_lines.push(t);
            assert(views_of(description_lines@) =~= views_of(before).push(tv));
        }
        i = i + 1;
    }
    assert(all.take(ls@.len() as int) =~= all);
    let joined = join_lines_with_space(&description_lines);
    let description = if joined.len() == 0 {
        format_name_for_description(fn_name)
    } else {
        string_of(&joined)
    };
    (description, arguments)
}

/// Once a `Parameters:` line is read, no later line adds to the description
/// (blank or not, entry or not) until an ignorable header: the scan stays
/// in the parameters section.
pub proof fn lemma_parameters_section_adds_no_description(ls: Seq<Seq<char>>, i: int, j: int)
    requires
        0 <= i < j <= ls.len(),
        has_prefix(trim(ls[i]), "Parameters:"@),
        forall|k: int| i < k < j ==> !is_ignorable_header(trim(#[trigger] ls[k])),
    ensures
        scan_lines(ls.take(j)).description_lines == scan_lines(ls.take(i)).description_lines,
        scan_lines(ls.take(j)).in_parameters,
        !scan_lines(ls.take(j)).in_ignored_section,
    decreases j - i,
{
    let t = trim(ls[i]);
    reveal_strlit("Parameters:");
    reveal_strlit("# Examples");
    reveal_strlit("# Panics");
    reveal_strlit("# Errors");
    reveal_strlit("# Safety");
    assert(t[0] == 'P') by {
        assert(t.take(11)[0] == t[0]);
    }
    assert(!is_ignorable_header(t)) by {
        assert(t.take(10)[0] == t[0]);
        assert(t.take(8)[0] == t[0]);
    }
    assert(ls.take(j).drop_last() =~= ls.take(j - 1));
    assert(ls.take(j).last() == ls[j - 1]);
    if j > i + 1 {
        lemma_parameters_section_adds_no_description(ls, i, j - 1);
    }
}

} // verus!
