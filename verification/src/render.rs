//! Rendering one visible tuple version as a compact JSON object.
//!
//! The object's keys are the non-dropped column names in scan order; every
//! value is a JSON string: the column's canonical text, or the literal
//! text `NULL` for a SQL null (a plain string, deliberately never a typed
//! JSON null, and therefore ambiguous with a genuine text value `NULL`).

use vstd::prelude::*;
use crate::table::{AttributeDescriptor, RowRecord};
use crate::text::chars_to_string;
use vstd::string::StrSliceExecFns;

verus! {

/// The text a SQL null renders as.
pub open spec fn null_text() -> Seq<char> {
    seq!['N', 'U', 'L', 'L']
}

/// Hexadecimal digit for a value below 16.
pub open spec fn hex_digit(n: u32) -> char {
    if n == 0 { '0' }
    else if n == 1 { '1' }
    else if n == 2 { '2' }
    else if n == 3 { '3' }
    else if n == 4 { '4' }
    else if n == 5 { '5' }
    else if n == 6 { '6' }
    else if n == 7 { '7' }
    else if n == 8 { '8' }
    else if n == 9 { '9' }
    else if n == 10 { 'a' }
    else if n == 11 { 'b' }
    else if n == 12 { 'c' }
    else if n == 13 { 'd' }
    else if n == 14 { 'e' }
    else { 'f' }
}

/// How one character appears inside a JSON string: the named escapes for
/// the quote, the backslash and the common control characters, a
/// `\u00..` escape for the remaining control characters, and the
/// character itself otherwise.
pub open spec fn escape_char(c: char) -> Seq<char> {
    if c == '"' { seq!['\\', '"'] }
    else if c == '\\' { seq!['\\', '\\'] }
    else if c == '\u{0008}' { seq!['\\', 'b'] }
    else if c == '\u{000c}' { seq!['\\', 'f'] }
    else if c == '\n' { seq!['\\', 'n'] }
    else if c == '\r' { seq!['\\', 'r'] }
    else if c == '\t' { seq!['\\', 't'] }
    else if (c as u32) < 32 {
        seq!['\\', 'u', '0', '0', hex_digit((c as u32) / 16), hex_digit((c as u32) % 16)]
    } else {
        seq![c]
    }
}

/// A whole text with every character escaped.
pub open spec fn escaped(s: Seq<char>) -> Seq<char>
    decreases s.len(),
{
    if s.len() == 0 {
        Seq::empty()
    } else {
        escaped(s.drop_last()) + escape_char(s.last())
    }
}

/// A JSON string literal: the escaped text between double quotes.
pub open spec fn quoted(s: Seq<char>) -> Seq<char> {
    seq!['"'] + escaped(s) + seq!['"']
}

/// The text a value cell renders as: its canonical text, or `NULL`.
pub open spec fn cell_text(v: Option<String>) -> Seq<char> {
    match v {
        Option::None => null_text(),
        Option::Some(s) => s@,
    }
}

/// One `"key":"value"` member of the object.
pub open spec fn pair_text(k: Seq<char>, v: Seq<char>) -> Seq<char> {
    quoted(k) + seq![':'] + quoted(v)
}

/// The members of the object joined by commas.
pub open spec fn pairs_text(ps: Seq<(Seq<char>, Seq<char>)>) -> Seq<char>
    decreases ps.len(),
{
    if ps.len() == 0 {
        Seq::empty()
    } else if ps.len() == 1 {
        pair_text(ps[0].0, ps[0].1)
    } else {
        pairs_text(ps.drop_last()) + seq![','] + pair_text(ps.last().0, ps.last().1)
    }
}

/// The key/value pairs a row renders to: one pair per non-dropped
/// attribute, in scan order, keyed by the column name.
pub open spec fn row_pairs(
    attrs: Seq<AttributeDescriptor>,
    vals: Seq<Option<String>>,
) -> Seq<(Seq<char>, Seq<char>)>
    decreases attrs.len(),
{
    if attrs.len() == 0 {
        Seq::empty()
    } else {
        let rest = row_pairs(attrs.drop_last(), vals.drop_last());
        if attrs.last().dropped {
            rest
        } else {
            rest.push((attrs.last().name@, cell_text(vals[attrs.len() - 1])))
        }
    }
}

/// The complete JSON object text for a row.
pub open spec fn row_json(attrs: Seq<AttributeDescriptor>, vals: Seq<Option<String>>) -> Seq<char> {
    seq!['{'] + pairs_text(row_pairs(attrs, vals)) + seq!['}']
}

/// Every non-dropped attribute belongs to the scanned relation.
pub open spec fn attrs_consistent(relid: u32, attrs: Seq<AttributeDescriptor>) -> bool {
    forall|i: int|
        0 <= i < attrs.len() && !(#[trigger] attrs[i]).dropped ==> attrs[i].owning_relid == relid
}

/// Attribute `i` is non-dropped yet claims a different owning relation.
pub open spec fn offender_at(relid: u32, attrs: Seq<AttributeDescriptor>, i: int) -> bool {
    0 <= i < attrs.len() && !attrs[i].dropped && attrs[i].owning_relid != relid
}

/// Attribute `i` is the earliest offender.
pub open spec fn first_offender_at(relid: u32, attrs: Seq<AttributeDescriptor>, i: int) -> bool {
    offender_at(relid, attrs, i) && forall|j: int| 0 <= j < i ==> !offender_at(relid, attrs, j)
}

/// A non-dropped attribute's owning relation disagreed with the scanned
/// relation: the storage metadata is corrupt and the whole operation
/// aborts.
#[derive(Clone, Copy, PartialEq, Eq, Structural, Debug)]
pub struct ConsistencyError {
    /// The relation being scanned.
    pub relation: u32,
    /// The owning relation the offending attribute claims.
    pub attribute_relation: u32,
}

/// Hexadecimal digit for a value below 16.
fn hex_digit_char(n: u32) -> (c: char)
    requires
        n < 16,
    ensures
        c == hex_digit(n),
{
    if n == 0 { '0' }
    else if n == 1 { '1' }
    else if n == 2 { '2' }
    else if n == 3 { '3' }
    else if n == 4 { '4' }
    else if n == 5 { '5' }
    else if n == 6 { '6' }
    else if n == 7 { '7' }
    else if n == 8 { '8' }
    else if n == 9 { '9' }
    else if n == 10 { 'a' }
    else if n == 11 { 'b' }
    else if n == 12 { 'c' }
    else if n == 13 { 'd' }
    else if n == 14 { 'e' }
    else { 'f' }
}

/// Append the escaped form of one character.
fn push_escaped_char(out: &mut Vec<char>, c: char)
    ensures
        final(out)@ == old(out)@ + escape_char(c),
{
    if c == '"' {
        out.push('\\');
        out.push('"');
    } else if c == '\\' {
        out.push('\\');
        out.push('\\');
    } else if c == '\u{0008}' {
        out.push('\\');
        out.push('b');
    } else if c == '\u{000c}' {
        out.push('\\');
        out.push('f');
    } else if c == '\n' {
        out.push('\\');
        out.push('n');
    } else if c == '\r' {
        out.push('\\');
        out.push('r');
    } else if c == '\t' {
        out.push('\\');
        out.push('t');
    } else if (c as u32) < 32 {
        let n = c as u32;
        out.push('\\');
        out.push('u');
        out.push('0');
        out.push('0');
        out.push(hex_digit_char(n / 16));
        out.push(hex_digit_char(n % 16));
    } else {
        out.push(c);
    }
    assert(out@ =~= old(out)@ + escape_char(c));
}

/// Append a whole text in escaped form.
fn push_escaped(out: &mut Vec<char>, s: &str)
    ensures
        final(out)@ == old(out)@ + escaped(s@),
{
    let n = s.unicode_len();
    let mut i: usize = 0;
    while i < n
        invariant
            n == s@.len(),
            i <= n,
            out@ == old(out)@ + escaped(s@.subrange(0, i as int)),
        decreases n - i,
    {
        let c = s.get_char(i);
        push_escaped_char(out, c);
        proof {
            let pre = s@.subrange(0, i as int);
            let post = s@.subrange(0, i + 1 as int);
            assert(post.drop_last() =~= pre);
            assert(post.last() == s@[i as int]);
            assert(escaped(post) == escaped(pre) + escape_char(s@[i as int]));
        }
        i = i + 1;
    }
    assert(s@.subrange(0, n as int) =~= s@);
}

/// Append a JSON string literal.
fn push_quoted(out: &mut Vec<char>, s: &str)
    ensures
        final(out)@ == old(out)@ + quoted(s@),
{
    out.push('"');
    push_escaped(out, s);
    out.push('"');
    assert(out@ =~= old(out)@ + quoted(s@));
}

/// Render one row as a compact JSON object: the non-dropped columns in
/// scan order, each value a JSON string, SQL nulls as the text `NULL`.
/// Fails, without producing any text, exactly when some non-dropped
/// attribute does not belong to relation `relid`; the error reports the
/// scanned relation and the owning relation the earliest such attribute
/// claims.
pub fn render_row(
    relid: u32,
    attributes: &Vec<AttributeDescriptor>,
    record: &RowRecord,
) -> (r: Result<String, ConsistencyError>)
    requires
        record.values@.len() == attributes@.len(),
    ensures
        match r {
            Ok(s) => attrs_consistent(relid, attributes@) && s@ == row_json(
                attributes@,
                record.values@,
            ),
            Err(e) => !attrs_consistent(relid, attributes@) && exists|i: int|
                #[trigger] first_offender_at(relid, attributes@, i) && e == (ConsistencyError {
                    relation: relid,
                    attribute_relation: attributes@[i].owning_relid,
                }),
        },
{
    let ghost attrs = attributes@;
    let ghost vals = record.values@;
    let mut out: Vec<char> = Vec::new();
    out.push('{');
    let mut emitted: usize = 0;
    let mut i: usize = 0;
    while i < attributes.len()
        invariant
            attrs == attributes@,
            vals == record.values@,
            vals.len() == attrs.len(),
            i <= attrs.len(),
            emitted <= i,
            forall|j: int| 0 <= j < i ==> !offender_at(relid, attrs, j),
            emitted == row_pairs(attrs.subrange(0, i as int), vals.subrange(0, i as int)).len(),
            out@ == seq!['{'] + pairs_text(
                row_pairs(attrs.subrange(0, i as int), vals.subrange(0, i as int)),
            ),
        decreases attrs.len() - i,
    {
        let ghost pre_pairs = row_pairs(attrs.subrange(0, i as int), vals.subrange(0, i as int));
        proof {
            let a_post = attrs.subrange(0, i + 1 as int);
            let v_post = vals.subrange(0, i + 1 as int);
            assert(a_post.drop_last() =~= attrs.subrange(0, i as int));
            assert(v_post.drop_last() =~= vals.subrange(0, i as int));
            assert(a_post.last() == attrs[i as int]);
            assert(v_post[a_post.len() - 1] == vals[i as int]);
        }
        let attr = &attributes[i];
        if !attr.dropped {
            if attr.owning_relid != relid {
                proof {
                    assert(first_offender_at(relid, attrs, i as int));
                }
                return Err(ConsistencyError {
                    relation: relid,
                    attribute_relation: attr.owning_relid,
                });
            }
            if emitted > 0 {
                out.push(',');
            }
            push_quoted(&mut out, attr.name.as_str());
            out.push(':');
            match &record.values[i] {
                Option::Some(v) => push_quoted(&mut out, v.as_str()),
                Option::None => {
                    push_quoted(&mut out, "NULL");
                    proof {
                        reveal_strlit("NULL");
                        assert(("NULL")@ =~= null_text());
                    }
                },
            }
            proof {
                let pair = (attrs[i as int].name@, cell_text(vals[i as int]));
                let post_pairs = row_pairs(
                    attrs.subrange(0, i + 1 as int),
                    vals.subrange(0, i + 1 as int),
                );
                assert(post_pairs == pre_pairs.push(pair));
                assert(post_pairs.drop_last() =~= pre_pairs);
                assert(post_pairs.last() == pair);
                if pre_pairs.len() == 0 {
                    assert(pairs_text(post_pairs) == pair_text(pair.0, pair.1));
                } else {
                    assert(pairs_text(post_pairs) == pairs_text(pre_pairs) + seq![','] + pair_text(
                        pair.0,
                        pair.1,
                    ));
                }
                assert(out@ =~= seq!['{'] + pairs_text(post_pairs));
            }
            emitted = emitted + 1;
        } else {
            proof {
                assert(row_pairs(attrs.subrange(0, i + 1 as int), vals.subrange(0, i + 1 as int))
                    == pre_pairs);
            }
        }
        i = i + 1;
    }
    out.push('}');
    proof {
        assert(attrs.subrange(0, attrs.len() as int) =~= attrs);
        assert(vals.subrange(0, vals.len() as int) =~= vals);
        assert(out@ =~= row_json(attrs, vals));
        assert forall|j: int|
            0 <= j < attrs.len() && !(#[trigger] attrs[j]).dropped implies attrs[j].owning_relid
            == relid by {
            assert(!offender_at(relid, attrs, j));
        }
    }
    Ok(chars_to_string(&out))
}

/// How many of the first `i` attributes are not dropped; the rendered
/// position of column `i` among the object's members.
pub open spec fn undropped_before(attrs: Seq<AttributeDescriptor>, i: int) -> int
    decreases i,
{
    if i <= 0 {
        0
    } else {
        undropped_before(attrs, i - 1) + (if attrs[i - 1].dropped {
            0int
        } else {
            1int
        })
    }
}

/// [`undropped_before`] reads only the attributes before `i`.
proof fn lemma_undropped_prefix(a: Seq<AttributeDescriptor>, b: Seq<AttributeDescriptor>, i: int)
    requires
        0 <= i,
        i <= a.len(),
        i <= b.len(),
        forall|j: int| 0 <= j < i ==> a[j] == b[j],
    ensures
        undropped_before(a, i) == undropped_before(b, i),
    decreases i,
{
    if i > 0 {
        lemma_undropped_prefix(a, b, i - 1);
    }
}

/// A row renders exactly one pair per non-dropped attribute.
pub proof fn lemma_row_pairs_len(attrs: Seq<AttributeDescriptor>, vals: Seq<Option<String>>)
    requires
        vals.len() == attrs.len(),
    ensures
        row_pairs(attrs, vals).len() == undropped_before(attrs, attrs.len() as int),
    decreases attrs.len(),
{
    if attrs.len() > 0 {
        lemma_row_pairs_len(attrs.drop_last(), vals.drop_last());
        lemma_undropped_prefix(attrs, attrs.drop_last(), attrs.len() - 1);
    }
}

/// Dropped columns are never rendered: a name that no non-dropped
/// attribute carries — in particular the name of a column marked dropped,
/// when no live column shares it — appears as no key of the rendered
/// object.
pub proof fn lemma_dropped_not_rendered(
    attrs: Seq<AttributeDescriptor>,
    vals: Seq<Option<String>>,
    name: Seq<char>,
)
    requires
        vals.len() == attrs.len(),
        forall|j: int|
            0 <= j < attrs.len() && !(#[trigger] attrs[j]).dropped ==> attrs[j].name@ != name,
    ensures
        forall|k: int|
            0 <= k < row_pairs(attrs, vals).len() ==> (#[trigger] row_pairs(attrs, vals)[k]).0
                != name,
    decreases attrs.len(),
{
    if attrs.len() > 0 {
        lemma_dropped_not_rendered(attrs.drop_last(), vals.drop_last(), name);
        let rest = row_pairs(attrs.drop_last(), vals.drop_last());
        let ps = row_pairs(attrs, vals);
        assert forall|k: int| 0 <= k < ps.len() implies (#[trigger] ps[k]).0 != name by {
            if !attrs.last().dropped {
                assert(ps == rest.push((attrs.last().name@, cell_text(vals[attrs.len() - 1]))));
                if k < rest.len() {
                    assert(ps[k] == rest[k]);
                } else {
                    assert(ps[k].0 == attrs[attrs.len() - 1].name@);
                }
            } else {
                assert(ps == rest);
            }
        }
    }
}

/// Each non-dropped column `i` is rendered at its position among the
/// non-dropped columns, keyed by its name, with the text of its value.
pub proof fn lemma_column_rendering(
    attrs: Seq<AttributeDescriptor>,
    vals: Seq<Option<String>>,
    i: int,
)
    requires
        vals.len() == attrs.len(),
        0 <= i < attrs.len(),
        !attrs[i].dropped,
    ensures
        ({
            let k = undropped_before(attrs, i);
            &&& 0 <= k < row_pairs(attrs, vals).len()
            &&& row_pairs(attrs, vals)[k] == (attrs[i].name@, cell_text(vals[i]))
        }),
    decreases attrs.len(),
{
    lemma_undropped_prefix(attrs, attrs.drop_last(), i);
    if i == attrs.len() - 1 {
        lemma_row_pairs_len(attrs.drop_last(), vals.drop_last());
    } else {
        lemma_column_rendering(attrs.drop_last(), vals.drop_last(), i);
    }
}

/// A SQL null column renders as the four-character text `NULL`, sitting
/// as an ordinary quoted JSON string at the column's position — never as
/// a JSON null, which no rendered value can be, every value being
/// emitted between quotes.
pub proof fn lemma_null_renders_as_text(
    attrs: Seq<AttributeDescriptor>,
    vals: Seq<Option<String>>,
    i: int,
)
    requires
        vals.len() == attrs.len(),
        0 <= i < attrs.len(),
        !attrs[i].dropped,
        vals[i] is None,
    ensures
        ({
            let k = undropped_before(attrs, i);
            &&& 0 <= k < row_pairs(attrs, vals).len()
            &&& row_pairs(attrs, vals)[k] == (attrs[i].name@, null_text())
        }),
{
    lemma_column_rendering(attrs, vals, i);
}

/// Rendering is deterministic: any two texts rendered for the same
/// attributes and values are identical.
pub proof fn lemma_render_deterministic(
    a: Seq<char>,
    b: Seq<char>,
    attrs: Seq<AttributeDescriptor>,
    vals: Seq<Option<String>>,
)
    requires
        a == row_json(attrs, vals),
        b == row_json(attrs, vals),
    ensures
        a == b,
{
}

} // verus!
