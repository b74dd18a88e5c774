use vstd::prelude::*;
use joinery::JoinableIterator;

use crate::model::FieldDef;
use crate::GENERATOR_VERSION;

verus! {

/// The character sequences that a list of strings holds.
pub open spec fn strs(v: Seq<String>) -> Seq<Seq<char>> {
    v.map_values(|s: String| s@)
}

/// `parts` with `sep` between each two neighbours.
pub open spec fn joined(parts: Seq<Seq<char>>, sep: Seq<char>) -> Seq<char>
    decreases parts.len(),
{
    if parts.len() == 0 {
        Seq::empty()
    } else if parts.len() == 1 {
        parts[0]
    } else {
        joined(parts.drop_last(), sep) + sep + parts.last()
    }
}

/// A generic parameter list between `open` and `close`, or nothing when there is none.
pub open spec fn param_list(params: Seq<Seq<char>>, open: Seq<char>, close: Seq<char>) -> Seq<char> {
    if params.len() == 0 {
        Seq::empty()
    } else {
        open + joined(params, ", "@) + close
    }
}

pub open spec fn escaped_char(c: char) -> Seq<char> {
    if c == '"' {
        "\\\""@
    } else if c == '\\' {
        "\\\\"@
    } else if c == '\n' {
        "\\n"@
    } else if c == '\t' {
        "\\t"@
    } else if c == '\r' {
        "\\r"@
    } else if is_control(c) {
        "\\u00"@ + seq![hex_digit((c as u32) / 16), hex_digit((c as u32) % 16)]
    } else {
        seq![c]
    }
}

/// A control character: below a space, or delete.
pub open spec fn is_control(c: char) -> bool {
    (c as u32) < 32 || (c as u32) == 127
}

/// The lowercase hexadecimal digit for `n`, where `n < 16`.
pub open spec fn hex_digit(n: u32) -> char {
    if n < 10 {
        ((n + 48) as u8) as char
    } else {
        ((n + 87) as u8) as char
    }
}

fn hex_char(n: u32) -> (r: char)
    requires
        n < 16,
    ensures
        r == hex_digit(n),
{
    if n < 10 {
        ((n + 48) as u8) as char
    } else {
        ((n + 87) as u8) as char
    }
}

pub open spec fn escaped(s: Seq<char>) -> Seq<char>
    decreases s.len(),
{
    if s.len() == 0 {
        Seq::empty()
    } else {
        escaped(s.drop_last()) + escaped_char(s.last())
    }
}

/// `s` as a double-quoted string literal.
pub open spec fn quoted(s: Seq<char>) -> Seq<char> {
    "\""@ + escaped(s) + "\""@
}

/// `s` with every dash replaced by an underscore.
pub open spec fn sanitized(s: Seq<char>) -> Seq<char>
    decreases s.len(),
{
    if s.len() == 0 {
        Seq::empty()
    } else {
        sanitized(s.drop_last()) + if s.last() == '-' {
            "_"@
        } else {
            seq![s.last()]
        }
    }
}

pub open spec fn has_dash(s: Seq<char>) -> bool {
    exists|i: int| 0 <= i < s.len() && s[i] == '-'
}

pub open spec fn tabs(n: nat) -> Seq<char>
    decreases n,
{
    if n == 0 {
        Seq::empty()
    } else {
        tabs((n - 1) as nat) + "\t"@
    }
}

/// Each comment on a line of its own, after `indent` tabs and `marker`.
pub open spec fn comment_lines(indent: nat, marker: Seq<char>, comments: Seq<Seq<char>>) -> Seq<char>
    decreases comments.len(),
{
    if comments.len() == 0 {
        Seq::empty()
    } else {
        comment_lines(indent, marker, comments.drop_last()) + tabs(indent) + marker
            + comments.last() + "\n"@
    }
}

/// Relies on String::push: the character is appended.
#[verifier::external_body]
pub(crate) fn push_char(s: &mut String, c: char)
    ensures
        final(s)@ == old(s)@.push(c),
{
    s.push(c)
}

pub fn join_strings(parts: &Vec<String>, sep: &str) -> (r: String)
    ensures
        r@ == joined(strs(parts@), sep@),
{
    let mut out = String::new();
    let mut i: usize = 0;
    while i < parts.len()
        invariant
            i <= parts@.len(),
            out@ == joined(strs(parts@).take(i as int), sep@),
        decreases parts@.len() - i,
    {
        proof {
            let next = strs(parts@).take(i + 1);
            assert(next.drop_last() =~= strs(parts@).take(i as int));
        }
        if i > 0 {
            out.append(sep);
        } else {
            proof {
                assert(out@ =~= Seq::<char>::empty());
            }
        }
        out.append(parts[i].as_str());
        proof {
            let next = strs(parts@).take(i + 1);
            if i == 0 {
                assert(out@ =~= next[0]);
            }
        }
        i = i + 1;
    }
    proof {
        assert(strs(parts@).take(parts@.len() as int) =~= strs(parts@));
    }
    out
}

/// The parameter list `open p1, p2 close`, or an empty string when `params` is empty.
pub fn format_param_list(params: &Vec<String>, open: &str, close: &str) -> (r: String)
    ensures
        r@ == param_list(strs(params@), open@, close@),
{
    if params.len() == 0 {
        String::new()
    } else {
        let mut out = String::from_str(open);
        let inner = join_strings(params, ", ");
        out.append(inner.as_str());
        out.append(close);
        out
    }
}

pub fn quote(s: &String) -> (r: String)
    ensures
        r@ == quoted(s@),
{
    let t = s.as_str();
    let n = t.unicode_len();
    let mut out = String::from_str("\"");
    let mut i: usize = 0;
    while i < n
        invariant
            n == s@.len(),
            t@ == s@,
            i <= n,
            out@ == "\""@ + escaped(s@.take(i as int)),
        decreases n - i,
    {
        let c = t.get_char(i);
        if c == '"' {
            out.append("\\\"");
        } else if c == '\\' {
            out.append("\\\\");
        } else if c == '\n' {
            out.append("\\n");
        } else if c == '\t' {
            out.append("\\t");
        } else if c == '\r' {
            out.append("\\r");
        } else if (c as u32) < 32 || (c as u32) == 127 {
            let n = c as u32;
            out.append("\\u00");
            push_char(&mut out, hex_char(n / 16));
            push_char(&mut out, hex_char(n % 16));
        } else {
            push_char(&mut out, c);
        }
        proof {
            assert(s@.take(i + 1).drop_last() =~= s@.take(i as int));
            assert(out@ =~= "\""@ + escaped(s@.take(i + 1)));
        }
        i = i + 1;
    }
    proof {
        assert(s@.take(n as int) =~= s@);
    }
    out.append("\"");
    out
}

pub fn contains_dash(s: &String) -> (r: bool)
    ensures
        r == has_dash(s@),
{
    let t = s.as_str();
    let n = t.unicode_len();
    let mut i: usize = 0;
    while i < n
        invariant
            n == s@.len(),
            t@ == s@,
            i <= n,
            forall|j: int| 0 <= j < i ==> s@[j] != '-',
        decreases n - i,
    {
        if t.get_char(i) == '-' {
            return true;
        }
        i = i + 1;
    }
    false
}

/// Dashes are not legal in identifiers of the target languages: each becomes an underscore.
pub fn remove_dash_from_identifier(s: &String) -> (r: String)
    ensures
        r@ == sanitized(s@),
{
    let t = s.as_str();
    let n = t.unicode_len();
    let mut out = String::new();
    let mut i: usize = 0;
    while i < n
        invariant
            n == s@.len(),
            t@ == s@,
            i <= n,
            out@ == sanitized(s@.take(i as int)),
        decreases n - i,
    {
        let c = t.get_char(i);
        if c == '-' {
            out.append("_");
        } else {
            push_char(&mut out, c);
        }
        proof {
            assert(s@.take(i + 1).drop_last() =~= s@.take(i as int));
            assert(out@ =~= sanitized(s@.take(i + 1)));
        }
        i = i + 1;
    }
    proof {
        assert(s@.take(n as int) =~= s@);
    }
    out
}

pub fn tab_string(n: usize) -> (r: String)
    ensures
        r@ == tabs(n as nat),
{
    let mut out = String::new();
    let mut i: usize = 0;
    while i < n
        invariant
            i <= n,
            out@ == tabs(i as nat),
        decreases n - i,
    {
        out.append("\t");
        i = i + 1;
    }
    out
}

/// Appends each comment as a line of its own.
pub fn append_comments(out: &mut String, indent: usize, marker: &str, comments: &Vec<String>)
    ensures
        final(out)@ == old(out)@ + comment_lines(indent as nat, marker@, strs(comments@)),
{
    let prefix = tab_string(indent);
    let mut i: usize = 0;
    while i < comments.len()
        invariant
            i <= comments@.len(),
            prefix@ == tabs(indent as nat),
            out@ == old(out)@ + comment_lines(indent as nat, marker@, strs(comments@).take(i as int)),
        decreases comments@.len() - i,
    {
        proof {
            assert(strs(comments@).take(i + 1).drop_last() =~= strs(comments@).take(i as int));
        }
        out.append(prefix.as_str());
        out.append(marker);
        out.append(comments[i].as_str());
        out.append("\n");
        proof {
            let ghost c = comment_lines(indent as nat, marker@, strs(comments@).take(i as int));
            assert(out@ =~= old(out)@ + comment_lines(indent as nat, marker@, strs(comments@).take(i + 1)));
        }
        i = i + 1;
    }
    proof {
        assert(strs(comments@).take(comments@.len() as int) =~= strs(comments@));
    }
}

pub open spec fn concat_all(parts: Seq<Seq<char>>) -> Seq<char>
    decreases parts.len(),
{
    if parts.len() == 0 {
        Seq::empty()
    } else {
        concat_all(parts.drop_last()) + parts.last()
    }
}

pub open spec fn is_digit(c: char) -> bool {
    '0' <= c <= '9'
}

/// An identifier that starts with a digit gets a leading underscore.
pub open spec fn digit_guarded(s: Seq<char>) -> Seq<char> {
    if s.len() > 0 && is_digit(s[0]) {
        "_"@ + s
    } else {
        s
    }
}

pub open spec fn upper(c: char) -> char {
    if 'a' <= c <= 'z' {
        ((c as u32 - 32) as u8) as char
    } else {
        c
    }
}

pub open spec fn lower(c: char) -> char {
    if 'A' <= c <= 'Z' {
        ((c as u32 + 32) as u8) as char
    } else {
        c
    }
}

/// No ASCII lowercase letter occurs in `s` (as in `URL` or `TOTP`).
pub open spec fn all_upper(s: Seq<char>) -> bool {
    forall|i: int| 0 <= i < s.len() ==> !('a' <= #[trigger] s[i] <= 'z')
}

/// Pascal case of `s` from a given state: underscores are dropped, the letter
/// after one is capitalized, and the others are lowered when `low` holds.
pub open spec fn pascal_from(s: Seq<char>, cap: bool, low: bool) -> Seq<char>
    decreases s.len(),
{
    if s.len() == 0 {
        Seq::empty()
    } else if s[0] == '_' {
        pascal_from(s.drop_first(), true, low)
    } else if cap {
        seq![upper(s[0])] + pascal_from(s.drop_first(), false, low)
    } else {
        seq![if low { lower(s[0]) } else { s[0] }] + pascal_from(s.drop_first(), false, low)
    }
}

pub open spec fn pascal(s: Seq<char>) -> Seq<char> {
    pascal_from(s, true, all_upper(s))
}

pub fn to_pascal_case(s: &String) -> (r: String)
    ensures
        r@ == pascal(s@),
{
    let t = s.as_str();
    let n = t.unicode_len();
    let mut low = true;
    let mut k: usize = 0;
    while k < n
        invariant
            n == s@.len(),
            t@ == s@,
            k <= n,
            low == forall|j: int| 0 <= j < k ==> !('a' <= #[trigger] s@[j] <= 'z'),
        decreases n - k,
    {
        let c = t.get_char(k);
        if 'a' <= c && c <= 'z' {
            low = false;
        }
        k = k + 1;
    }
    let mut out = String::new();
    let mut cap = true;
    let mut i: usize = 0;
    proof {
        assert(s@.subrange(0, n as int) =~= s@);
    }
    while i < n
        invariant
            n == s@.len(),
            t@ == s@,
            i <= n,
            low == all_upper(s@),
            out@ + pascal_from(s@.subrange(i as int, n as int), cap, low) == pascal(s@),
        decreases n - i,
    {
        let c = t.get_char(i);
        let ghost rest = s@.subrange(i as int, n as int);
        proof {
            assert(rest.drop_first() =~= s@.subrange(i + 1, n as int));
            assert(rest[0] == c);
        }
        if c == '_' {
            cap = true;
        } else if cap {
            let u = if 'a' <= c && c <= 'z' { ((c as u32 - 32) as u8) as char } else { c };
            push_char(&mut out, u);
            cap = false;
            proof {
                assert(out@ + pascal_from(s@.subrange(i + 1, n as int), cap, low) =~= pascal(s@));
            }
        } else {
            let l = if low && 'A' <= c && c <= 'Z' { ((c as u32 + 32) as u8) as char } else { c };
            push_char(&mut out, l);
            proof {
                assert(out@ + pascal_from(s@.subrange(i + 1, n as int), cap, low) =~= pascal(s@));
            }
        }
        i = i + 1;
    }
    proof {
        assert(out@ + Seq::<char>::empty() =~= out@);
    }
    out
}

pub fn guard_leading_digit(s: String) -> (r: String)
    ensures
        r@ == digit_guarded(s@),
{
    let t = s.as_str();
    let n = t.unicode_len();
    if n > 0 {
        let c = t.get_char(0);
        if '0' <= c && c <= '9' {
            let mut out = String::from_str("_");
            out.append(t);
            return out;
        }
    }
    s
}

/// Whether `s` is one of `v`.
pub fn contains_string(v: &Vec<String>, s: &String) -> (r: bool)
    ensures
        r == strs(v@).contains(s@),
{
    let mut i: usize = 0;
    while i < v.len()
        invariant
            i <= v@.len(),
            forall|j: int| 0 <= j < i ==> v@[j]@ != s@,
        decreases v@.len() - i,
    {
        if v[i] == *s {
            proof {
                assert(strs(v@)[i as int] == s@);
            }
            return true;
        }
        i = i + 1;
    }
    proof {
        if strs(v@).contains(s@) {
            let j = choose|j: int| 0 <= j < strs(v@).len() && strs(v@)[j] == s@;
            assert(v@[j]@ == s@);
        }
    }
    false
}

/// Relies on joinery::JoinableIterator::join_with: the elements with `, ` between neighbours.
#[verifier::external_body]
pub(crate) fn join_with_comma(v: &Vec<String>) -> (r: String)
    ensures
        r@ == joined(strs(v@), ", "@),
{
    v.iter().join_with(", ").to_string()
}


pub open spec fn serial_name_line(renamed: Seq<char>) -> Seq<char> {
    "\t@SerialName("@ + quoted(renamed) + ")\n"@
}

pub open spec fn serial_part(renamed: Seq<char>, serial: bool) -> Seq<char> {
    if serial {
        serial_name_line(renamed)
    } else {
        Seq::empty()
    }
}

/// Some field of `fields` has a dash in its wire name.
pub open spec fn needs_serial_name(fields: Seq<FieldDef>) -> bool {
    exists|i: int| 0 <= i < fields.len() && has_dash(#[trigger] fields[i].id.renamed@)
}

pub open spec fn version_header(suppressed: bool) -> Seq<char> {
    if suppressed {
        Seq::empty()
    } else {
        "/**\n"@ + " * Generated by jvm_typegen "@ + GENERATOR_VERSION@ + "\n"@ + " */\n"@
    }
}

/// The line that names a wire key.
pub fn serial_name(renamed: &String) -> (r: String)
    ensures
        r@ == serial_name_line(renamed@),
{
    let mut out = String::from_str("\t@SerialName(");
    let q = quote(renamed);
    out.append(q.as_str());
    out.append(")\n");
    out
}

/// `open`, then `s`, then `close`.
pub fn surround(open: &str, s: String, close: &str) -> (r: String)
    ensures
        r@ == open@ + s@ + close@,
{
    let mut out = String::from_str(open);
    out.append(s.as_str());
    out.append(close);
    out
}

/// Whether some field of `fields` has a dash in its wire name.
pub fn needs_serial(fields: &Vec<FieldDef>) -> (r: bool)
    ensures
        r == needs_serial_name(fields@),
{
    let mut i: usize = 0;
    while i < fields.len()
        invariant
            i <= fields@.len(),
            forall|j: int| 0 <= j < i ==> !has_dash(#[trigger] fields@[j].id.renamed@),
        decreases fields@.len() - i,
    {
        if contains_dash(&fields[i].id.renamed) {
            return true;
        }
        i = i + 1;
    }
    false
}

pub fn write_version_header(suppressed: bool) -> (r: String)
    ensures
        r@ == version_header(suppressed),
{
    if suppressed {
        String::new()
    } else {
        let mut out = String::from_str("/**\n");
        out.append(" * Generated by jvm_typegen ");
        out.append(GENERATOR_VERSION);
        out.append("\n");
        out.append(" */\n");
        out
    }
}

} // verus!
