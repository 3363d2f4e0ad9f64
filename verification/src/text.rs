//! Character-level text transforms used by the formatter: field-separator
//! escaping, command quoting, markdown unescaping, template prefix
//! extraction, padding, and decimal rendering.

use vstd::prelude::*;

verus! {

/// What one character contributes to a bar-escaped string: a field separator
/// `|` gains a preceding backslash, every other character is kept.
pub open spec fn esc_bar_char(c: char) -> Seq<char> {
    if c == '|' {
        seq!['\\', '|']
    } else {
        seq![c]
    }
}

/// A string with every field separator `|` escaped as `\|`.
pub open spec fn spec_escape_bar(s: Seq<char>) -> Seq<char>
    decreases s.len(),
{
    if s.len() == 0 {
        Seq::empty()
    } else {
        esc_bar_char(s[0]) + spec_escape_bar(s.drop_first())
    }
}

fn escape_bar_from(s: &str, i: usize) -> (r: String)
    requires
        i as nat <= s@.len(),
    ensures
        r@ == spec_escape_bar(s@.skip(i as int)),
    decreases s@.len() - i as nat,
{
    let n = s.unicode_len();
    if i == n {
        let r = String::new();
        assert(s@.skip(i as int) =~= Seq::<char>::empty());
        r
    } else {
        let c = s.get_char(i);
        let head = if c == '|' {
            let h = String::from_str("\\|");
            proof {
                reveal_strlit("\\|");
            }
            assert(h@ =~= esc_bar_char(c));
            h
        } else {
            let h = String::from_str(s.substring_char(i, i + 1));
            assert(h@ =~= esc_bar_char(c));
            h
        };
        let rest = escape_bar_from(s, i + 1);
        let r = head.concat(rest.as_str());
        proof {
            let t = s@.skip(i as int);
            assert(t[0] == s@[i as int]);
            assert(t.drop_first() =~= s@.skip(i + 1));
        }
        r
    }
}

/// Escapes every `|` in the string as `\|`, so that the field can stand
/// between unescaped `|` separators.
pub fn escape_bar(s: &str) -> (r: String)
    ensures
        r@ == spec_escape_bar(s@),
{
    let r = escape_bar_from(s, 0);
    assert(s@.skip(0) =~= s@);
    r
}

/// What one character contributes to a quoted body: a quote is doubled,
/// every other character is kept.
pub open spec fn quote_char(c: char) -> Seq<char> {
    if c == '\'' {
        seq!['\'', '\'']
    } else {
        seq![c]
    }
}

/// The body of a quoted string: every `'` doubled.
pub open spec fn spec_quote_body(s: Seq<char>) -> Seq<char>
    decreases s.len(),
{
    if s.len() == 0 {
        Seq::empty()
    } else {
        quote_char(s[0]) + spec_quote_body(s.drop_first())
    }
}

/// A string quoted for interpolation into an editor command: wrapped in
/// single quotes, with every inner quote doubled.
pub open spec fn spec_editor_quote(s: Seq<char>) -> Seq<char> {
    seq!['\''] + spec_quote_body(s) + seq!['\'']
}

fn quote_body_from(s: &str, i: usize) -> (r: String)
    requires
        i as nat <= s@.len(),
    ensures
        r@ == spec_quote_body(s@.skip(i as int)),
    decreases s@.len() - i as nat,
{
    let n = s.unicode_len();
    if i == n {
        let r = String::new();
        assert(s@.skip(i as int) =~= Seq::<char>::empty());
        r
    } else {
        let c = s.get_char(i);
        let head = if c == '\'' {
            let h = String::from_str("''");
            proof {
                reveal_strlit("''");
            }
            assert(h@ =~= quote_char(c));
            h
        } else {
            let h = String::from_str(s.substring_char(i, i + 1));
            assert(h@ =~= quote_char(c));
            h
        };
        let rest = quote_body_from(s, i + 1);
        let r = head.concat(rest.as_str());
        proof {
            let t = s@.skip(i as int);
            assert(t[0] == s@[i as int]);
            assert(t.drop_first() =~= s@.skip(i + 1));
        }
        r
    }
}

/// Quotes a string for interpolation into an editor command; the same
/// discipline applies to every interpolated string, to prevent premature
/// termination of the command argument.
pub fn editor_quote(s: &str) -> (r: String)
    ensures
        r@ == spec_editor_quote(s@),
{
    let body = quote_body_from(s, 0);
    proof {
        reveal_strlit("'");
    }
    let r = String::from_str("'").concat(body.as_str()).concat("'");
    assert(s@.skip(0) =~= s@);
    assert(r@ =~= spec_editor_quote(s@));
    r
}

/// Reverses the quoting discipline's doubling: `''` becomes `'`; any other
/// character is kept.
pub open spec fn spec_undouble_quotes(s: Seq<char>) -> Seq<char>
    decreases s.len(),
{
    if s.len() == 0 {
        Seq::empty()
    } else if s[0] == '\'' && s.len() >= 2 && s[1] == '\'' {
        seq!['\''] + spec_undouble_quotes(s.skip(2))
    } else {
        seq![s[0]] + spec_undouble_quotes(s.skip(1))
    }
}

/// Undoubling undoes quote doubling on every string: the quoted body is
/// reversible.
pub proof fn lemma_undouble_quote_body(s: Seq<char>)
    ensures
        spec_undouble_quotes(spec_quote_body(s)) == s,
    decreases s.len(),
{
    if s.len() == 0 {
        assert(spec_undouble_quotes(spec_quote_body(s)) =~= s);
    } else {
        let tail = s.drop_first();
        let e = spec_quote_body(s);
        lemma_undouble_quote_body(tail);
        assert(e == quote_char(s[0]) + spec_quote_body(tail));
        if s[0] == '\'' {
            assert(e.skip(2) =~= spec_quote_body(tail));
            assert(spec_undouble_quotes(e) =~= s);
        } else {
            assert(e.skip(1) =~= spec_quote_body(tail));
            assert(spec_undouble_quotes(e) =~= s);
        }
    }
}

/// Markdown unescaping: a backslash followed by any character other than a
/// newline is stripped, keeping the following character; everything else is
/// kept. Some services escape markdown even when plain text was requested,
/// and the target UI does not render markdown, so the backslashes are noise.
pub open spec fn spec_unescape_markdown(s: Seq<char>) -> Seq<char>
    decreases s.len(),
{
    if s.len() == 0 {
        Seq::empty()
    } else if s[0] == '\\' && s.len() >= 2 && s[1] != '\n' {
        seq![s[1]] + spec_unescape_markdown(s.skip(2))
    } else {
        seq![s[0]] + spec_unescape_markdown(s.skip(1))
    }
}

fn unescape_markdown_from(s: &str, i: usize) -> (r: String)
    requires
        i as nat <= s@.len(),
    ensures
        r@ == spec_unescape_markdown(s@.skip(i as int)),
    decreases s@.len() - i as nat,
{
    let n = s.unicode_len();
    if i == n {
        let r = String::new();
        assert(s@.skip(i as int) =~= Seq::<char>::empty());
        r
    } else {
        let c = s.get_char(i);
        if c == '\\' && i + 1 < n && s.get_char(i + 1) != '\n' {
            let head = String::from_str(s.substring_char(i + 1, i + 2));
            let rest = unescape_markdown_from(s, i + 2);
            let r = head.concat(rest.as_str());
            proof {
                let t = s@.skip(i as int);
                assert(t[0] == s@[i as int]);
                assert(t[1] == s@[i + 1]);
                assert(head@ =~= seq![t[1]]);
                assert(t.skip(2) =~= s@.skip(i + 2));
            }
            r
        } else {
            let head = String::from_str(s.substring_char(i, i + 1));
            let rest = unescape_markdown_from(s, i + 1);
            let r = head.concat(rest.as_str());
            proof {
                let t = s@.skip(i as int);
                assert(t[0] == s@[i as int]);
                assert(head@ =~= seq![t[0]]);
                assert(t.skip(1) =~= s@.skip(i + 1));
            }
            r
        }
    }
}

/// Strips backslash-escaping of any single following character, except that
/// a backslash before a newline is kept.
pub fn unescape_markdown(s: &str) -> (r: String)
    ensures
        r@ == spec_unescape_markdown(s@),
{
    let r = unescape_markdown_from(s, 0);
    assert(s@.skip(0) =~= s@);
    r
}

/// A character that ends the literal prefix of a template: an opening
/// bracket, parenthesis or angle bracket, a newline, or a template-variable
/// marker.
pub open spec fn is_template_stop(c: char) -> bool {
    c == '[' || c == '(' || c == '<' || c == '\n' || c == '$'
}

/// The length of the longest leading prefix free of template stops.
pub open spec fn spec_prefix_len(s: Seq<char>) -> nat
    decreases s.len(),
{
    if s.len() == 0 || is_template_stop(s[0]) {
        0
    } else {
        1 + spec_prefix_len(s.drop_first())
    }
}

/// The literal insertion text of a template: the longest leading prefix free
/// of template stops, or the whole string when that prefix is empty.
pub open spec fn spec_snippet_prefix(s: Seq<char>) -> Seq<char> {
    if spec_prefix_len(s) == 0 {
        s
    } else {
        s.subrange(0, spec_prefix_len(s) as int)
    }
}

fn prefix_len_from(s: &str, i: usize) -> (r: usize)
    requires
        i as nat <= s@.len(),
    ensures
        r as nat == spec_prefix_len(s@.skip(i as int)),
        i + r <= s@.len(),
    decreases s@.len() - i as nat,
{
    let n = s.unicode_len();
    if i == n {
        assert(s@.skip(i as int) =~= Seq::<char>::empty());
        0
    } else {
        let c = s.get_char(i);
        proof {
            assert(s@.skip(i as int)[0] == s@[i as int]);
        }
        if c == '[' || c == '(' || c == '<' || c == '\n' || c == '$' {
            0
        } else {
            let rest = prefix_len_from(s, i + 1);
            proof {
                assert(s@.skip(i as int).drop_first() =~= s@.skip(i + 1));
            }
            1 + rest
        }
    }
}

/// The literal prefix a user sees before template expansion: the longest
/// leading run free of template stops, falling back to the whole text when
/// that run is empty.
pub fn snippet_prefix(s: &str) -> (r: String)
    ensures
        r@ == spec_snippet_prefix(s@),
{
    let n = prefix_len_from(s, 0);
    assert(s@.skip(0) =~= s@);
    if n == 0 {
        String::from_str(s)
    } else {
        let r = String::from_str(s.substring_char(0, n));
        r
    }
}

/// A run of `n` spaces.
pub open spec fn spec_spaces(n: nat) -> Seq<char>
    decreases n,
{
    if n == 0 {
        Seq::empty()
    } else {
        spec_spaces((n - 1) as nat) + seq![' ']
    }
}

/// A run of spaces is exactly as long as asked for.
pub proof fn lemma_spaces_len(n: nat)
    ensures
        spec_spaces(n).len() == n,
    decreases n,
{
    if n > 0 {
        lemma_spaces_len((n - 1) as nat);
    }
}

/// Builds a run of `n` spaces, used to pad labels to a common width.
pub fn spaces(n: usize) -> (r: String)
    ensures
        r@ == spec_spaces(n as nat),
    decreases n,
{
    if n == 0 {
        let r = String::new();
        assert(r@ =~= spec_spaces(0));
        r
    } else {
        let r = spaces(n - 1).concat(" ");
        proof {
            reveal_strlit(" ");
            assert(r@ =~= spec_spaces(n as nat));
        }
        r
    }
}

/// The decimal digit character for a value below ten.
pub open spec fn digit_char(d: nat) -> char {
    if d == 0 {
        '0'
    } else if d == 1 {
        '1'
    } else if d == 2 {
        '2'
    } else if d == 3 {
        '3'
    } else if d == 4 {
        '4'
    } else if d == 5 {
        '5'
    } else if d == 6 {
        '6'
    } else if d == 7 {
        '7'
    } else if d == 8 {
        '8'
    } else {
        '9'
    }
}

/// The decimal rendering of a natural number, most significant digit first,
/// with no leading zeros except for zero itself.
pub open spec fn spec_decimal(n: nat) -> Seq<char>
    decreases n,
{
    if n < 10 {
        seq![digit_char(n)]
    } else {
        spec_decimal(n / 10) + seq![digit_char(n % 10)]
    }
}

fn digit_string(d: u64) -> (r: String)
    requires
        d < 10,
    ensures
        r@ == seq![digit_char(d as nat)],
{
    proof {
        reveal_strlit("0");
        reveal_strlit("1");
        reveal_strlit("2");
        reveal_strlit("3");
        reveal_strlit("4");
        reveal_strlit("5");
        reveal_strlit("6");
        reveal_strlit("7");
        reveal_strlit("8");
        reveal_strlit("9");
    }
    let r = if d == 0 {
        String::from_str("0")
    } else if d == 1 {
        String::from_str("1")
    } else if d == 2 {
        String::from_str("2")
    } else if d == 3 {
        String::from_str("3")
    } else if d == 4 {
        String::from_str("4")
    } else if d == 5 {
        String::from_str("5")
    } else if d == 6 {
        String::from_str("6")
    } else if d == 7 {
        String::from_str("7")
    } else if d == 8 {
        String::from_str("8")
    } else {
        String::from_str("9")
    };
    assert(r@ =~= seq![digit_char(d as nat)]);
    r
}

/// Renders an unsigned value in decimal, as the emitted command writes the
/// cursor line, the request offset and the version stamp.
pub fn decimal(n: u64) -> (r: String)
    ensures
        r@ == spec_decimal(n as nat),
    decreases n,
{
    if n < 10 {
        digit_string(n)
    } else {
        let q = decimal(n / 10);
        let d = digit_string(n % 10);
        let r = q.concat(d.as_str());
        assert(r@ =~= spec_decimal(n as nat));
        r
    }
}

} // verus!
