//! The editor's field-splitting rule for a formatted entry, and the proof
//! that bar-escaping round-trips through it: splitting the joined triple on
//! unescaped separators yields exactly the three escaped fields, and
//! unescaping each recovers the original.

use vstd::prelude::*;

use crate::text::{esc_bar_char, spec_escape_bar};

verus! {

/// Removes the escaping of field separators: `\|` becomes `|`; any other
/// character, a lone backslash included, is kept.
pub open spec fn spec_unescape_bar(s: Seq<char>) -> Seq<char>
    decreases s.len(),
{
    if s.len() == 0 {
        Seq::empty()
    } else if s[0] == '\\' && s.len() >= 2 && s[1] == '|' {
        seq!['|'] + spec_unescape_bar(s.skip(2))
    } else {
        seq![s[0]] + spec_unescape_bar(s.skip(1))
    }
}

/// Prepends text to the first field of a split result.
pub open spec fn cons_first(pre: Seq<char>, r: Seq<Seq<char>>) -> Seq<Seq<char>> {
    if r.len() == 0 {
        seq![pre]
    } else {
        seq![pre + r[0]] + r.drop_first()
    }
}

/// The editor's field-splitting rule: an unescaped `|` separates fields,
/// while `\|` stands for a literal `|` inside a field and a backslash before
/// anything else is an ordinary character.
pub open spec fn spec_split_fields(s: Seq<char>) -> Seq<Seq<char>>
    decreases s.len(),
{
    if s.len() == 0 {
        seq![Seq::<char>::empty()]
    } else if s[0] == '\\' && s.len() >= 2 && s[1] == '|' {
        cons_first(seq!['\\', '|'], spec_split_fields(s.skip(2)))
    } else if s[0] == '|' {
        seq![Seq::<char>::empty()] + spec_split_fields(s.skip(1))
    } else {
        cons_first(seq![s[0]], spec_split_fields(s.skip(1)))
    }
}

/// An escaped field never starts with a bare separator: its first character
/// is a backslash when the field starts with `|`, else the field's own first
/// character.
proof fn lemma_escape_first(s: Seq<char>)
    requires
        s.len() > 0,
    ensures
        spec_escape_bar(s).len() > 0,
        spec_escape_bar(s)[0] == if s[0] == '|' {
            '\\'
        } else {
            s[0]
        },
        spec_escape_bar(s)[0] != '|',
{
    assert(spec_escape_bar(s) == esc_bar_char(s[0]) + spec_escape_bar(s.drop_first()));
}

/// Unescaping undoes escaping on every string.
pub proof fn lemma_unescape_escape(s: Seq<char>)
    ensures
        spec_unescape_bar(spec_escape_bar(s)) == s,
    decreases s.len(),
{
    if s.len() == 0 {
        assert(spec_unescape_bar(spec_escape_bar(s)) =~= s);
    } else {
        let tail = s.drop_first();
        let e = spec_escape_bar(s);
        lemma_unescape_escape(tail);
        if s[0] == '|' {
            assert(e == seq!['\\', '|'] + spec_escape_bar(tail));
            assert(e.skip(2) =~= spec_escape_bar(tail));
            assert(spec_unescape_bar(e) =~= s);
        } else {
            assert(e == seq![s[0]] + spec_escape_bar(tail));
            assert(e.skip(1) =~= spec_escape_bar(tail));
            if s[0] == '\\' && e.len() >= 2 && e[1] == '|' {
                // The character after the backslash comes from the escaped
                // tail, which never starts with a bare separator.
                assert(tail.len() > 0);
                lemma_escape_first(tail);
                assert(false);
            }
            assert(spec_unescape_bar(e) =~= s);
        }
    }
}

/// Splitting consumes an escaped field up to the separator that follows it,
/// provided the field does not end with a backslash (one that does would
/// absorb the separator).
proof fn lemma_split_escaped_prefix(a: Seq<char>, t: Seq<char>)
    requires
        a.len() == 0 || a.last() != '\\',
    ensures
        spec_split_fields(spec_escape_bar(a) + seq!['|'] + t) == seq![spec_escape_bar(a)]
            + spec_split_fields(t),
    decreases a.len(),
{
    let s = spec_escape_bar(a) + seq!['|'] + t;
    if a.len() == 0 {
        assert(s =~= seq!['|'] + t);
        assert(s.skip(1) =~= t);
        assert(spec_split_fields(s) =~= seq![spec_escape_bar(a)] + spec_split_fields(t));
    } else {
        let tail = a.drop_first();
        assert(tail.len() == 0 || tail.last() != '\\');
        lemma_split_escaped_prefix(tail, t);
        let rest = spec_escape_bar(tail) + seq!['|'] + t;
        assert(spec_escape_bar(a) == esc_bar_char(a[0]) + spec_escape_bar(tail));
        if a[0] == '|' {
            assert(s =~= seq!['\\', '|'] + rest);
            assert(s.skip(2) =~= rest);
            assert(spec_split_fields(s) == cons_first(seq!['\\', '|'], spec_split_fields(rest)));
            assert(cons_first(seq!['\\', '|'], seq![spec_escape_bar(tail)] + spec_split_fields(t))
                =~= seq![spec_escape_bar(a)] + spec_split_fields(t));
        } else {
            assert(s =~= seq![a[0]] + rest);
            assert(s.skip(1) =~= rest);
            if a[0] == '\\' {
                // `a` does not end with a backslash, so the tail is not
                // empty, and its escaped form never starts with a bare
                // separator: the backslash is read as an ordinary character.
                assert(tail.len() > 0);
                lemma_escape_first(tail);
                assert(s[1] == rest[0]);
                assert(s[1] != '|');
            }
            assert(spec_split_fields(s) == cons_first(seq![a[0]], spec_split_fields(rest)));
            assert(cons_first(seq![a[0]], seq![spec_escape_bar(tail)] + spec_split_fields(t))
                =~= seq![spec_escape_bar(a)] + spec_split_fields(t));
        }
    }
}

/// An escaped field with nothing after it splits into itself alone.
proof fn lemma_split_escaped_last(c: Seq<char>)
    ensures
        spec_split_fields(spec_escape_bar(c)) == seq![spec_escape_bar(c)],
    decreases c.len(),
{
    let e = spec_escape_bar(c);
    if c.len() == 0 {
        assert(e =~= Seq::<char>::empty());
        assert(spec_split_fields(e) =~= seq![e]);
    } else {
        let tail = c.drop_first();
        lemma_split_escaped_last(tail);
        assert(e == esc_bar_char(c[0]) + spec_escape_bar(tail));
        if c[0] == '|' {
            assert(e.skip(2) =~= spec_escape_bar(tail));
            assert(spec_split_fields(e) == cons_first(seq!['\\', '|'], seq![spec_escape_bar(tail)]));
            assert(spec_split_fields(e) =~= seq![e]);
        } else {
            assert(e.skip(1) =~= spec_escape_bar(tail));
            if c[0] == '\\' && e.len() >= 2 && e[1] == '|' {
                assert(tail.len() > 0);
                lemma_escape_first(tail);
                assert(false);
            }
            assert(spec_split_fields(e) == cons_first(seq![c[0]], seq![spec_escape_bar(tail)]));
            assert(spec_split_fields(e) =~= seq![e]);
        }
    }
}

/// Round-trip of a formatted triple through the editor's field-splitting
/// rule: the joined entry splits into exactly the three escaped fields, and
/// unescaping each recovers the original field. The first two fields may not
/// end with a backslash: one that did would absorb the separator after it.
pub proof fn lemma_round_trip(a: Seq<char>, b: Seq<char>, c: Seq<char>)
    requires
        a.len() == 0 || a.last() != '\\',
        b.len() == 0 || b.last() != '\\',
    ensures
        spec_split_fields(
            spec_escape_bar(a) + seq!['|'] + spec_escape_bar(b) + seq!['|'] + spec_escape_bar(c),
        ) == seq![spec_escape_bar(a), spec_escape_bar(b), spec_escape_bar(c)],
        spec_unescape_bar(spec_escape_bar(a)) == a,
        spec_unescape_bar(spec_escape_bar(b)) == b,
        spec_unescape_bar(spec_escape_bar(c)) == c,
{
    let ea = spec_escape_bar(a);
    let eb = spec_escape_bar(b);
    let ec = spec_escape_bar(c);
    lemma_split_escaped_prefix(a, eb + seq!['|'] + ec);
    lemma_split_escaped_prefix(b, ec);
    lemma_split_escaped_last(c);
    assert(ea + seq!['|'] + eb + seq!['|'] + ec =~= ea + seq!['|'] + (eb + seq!['|'] + ec));
    assert(seq![ea] + (seq![eb] + seq![ec]) =~= seq![ea, eb, ec]);
    lemma_unescape_escape(a);
    lemma_unescape_escape(b);
    lemma_unescape_escape(c);
}

} // verus!
