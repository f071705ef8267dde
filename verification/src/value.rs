//! The semi-structured record model, the value typer, and the canonical
//! text forms that the facet engine counts.

use vstd::prelude::*;
use vstd::string::StrSliceExecFns;
use vstd::string::StringExecFns;

use crate::text::dec_rep;
use crate::text::u64_to_string;

verus! {

/// One semi-structured value: a JSON-like tagged union. A whole record is
/// itself a `BiblioRecord` (normally an `Object`). Numbers carry their
/// decimal text form, which is what every analysis pass reads of them; the
/// loader renders a number to text once, when it builds the collection.
pub enum BiblioRecord {
    Null,
    Bool(bool),
    Number(String),
    Text(String),
    Array(Vec<BiblioRecord>),
    Object(Vec<(String, BiblioRecord)>),
}

/// Well-formedness: every object holds pairwise-distinct keys, at every
/// nesting level. A collection parsed from JSON satisfies this, since a JSON
/// object cannot bind the same key twice.
pub open spec fn record_wf(v: BiblioRecord) -> bool
    decreases v,
{
    match v {
        BiblioRecord::Array(elems) => forall|i: int|
            0 <= i < elems@.len() ==> record_wf(#[trigger] elems@[i]),
        BiblioRecord::Object(entries) => {
            &&& forall|i: int, j: int|
                0 <= i < j < entries@.len() ==> (#[trigger] entries@[i].0)@ != (#[trigger] entries@[j].0)@
            &&& forall|i: int| 0 <= i < entries@.len() ==> record_wf((#[trigger] entries@[i]).1)
        },
        _ => true,
    }
}

/// The value bound to key `f` among `entries`: the first binding, though a
/// well-formed object has at most one.
pub open spec fn entries_lookup(entries: Seq<(String, BiblioRecord)>, f: Seq<char>) -> Option<
    BiblioRecord,
>
    decreases entries.len(),
{
    if entries.len() == 0 {
        Option::None
    } else if entries[0].0@ == f {
        Option::Some(entries[0].1)
    } else {
        entries_lookup(entries.skip(1), f)
    }
}

/// The entries of an object value; any other value has none.
pub open spec fn obj_entries(r: BiblioRecord) -> Seq<(String, BiblioRecord)> {
    match r {
        BiblioRecord::Object(entries) => entries@,
        _ => Seq::empty(),
    }
}

/// The value bound to key `f` in record `r`, if `r` is an object that has
/// it.
pub open spec fn rec_lookup(r: BiblioRecord, f: Seq<char>) -> Option<BiblioRecord> {
    entries_lookup(obj_entries(r), f)
}

/// Finds the value bound to a key among an object's entries.
pub fn lookup_field<'a>(entries: &'a Vec<(String, BiblioRecord)>, field_name: &str) -> (res: Option<
    &'a BiblioRecord,
>)
    ensures
        match res {
            Option::Some(v) => entries_lookup(entries@, field_name@) == Option::Some(*v),
            Option::None => entries_lookup(entries@, field_name@) is None,
        },
{
    let n = entries.len();
    let mut i: usize = 0;
    proof {
        assert(entries@.skip(0) =~= entries@);
    }
    while i < n
        invariant
            n == entries@.len(),
            i <= n,
            entries_lookup(entries@, field_name@) == entries_lookup(
                entries@.skip(i as int),
                field_name@,
            ),
        decreases n - i,
    {
        proof {
            assert(entries@.skip(i as int)[0] == entries@[i as int]);
        }
        if crate::text::str_eq(entries[i].0.as_str(), field_name) {
            return Option::Some(&entries[i].1);
        }
        proof {
            assert(entries@.skip(i as int).skip(1) =~= entries@.skip(i + 1));
        }
        i = i + 1;
    }
    Option::None
}

/// The coarse type label of a value. An array is labelled after its first
/// element only; that is a deliberate simplification, not a majority vote.
pub open spec fn type_label(v: BiblioRecord) -> Seq<char>
    decreases v,
{
    match v {
        BiblioRecord::Null => "null"@,
        BiblioRecord::Bool(_) => "boolean"@,
        BiblioRecord::Number(_) => "number"@,
        BiblioRecord::Text(_) => "string"@,
        BiblioRecord::Object(_) => "object"@,
        BiblioRecord::Array(elems) => if elems@.len() == 0 {
            "array (empty)"@
        } else {
            "array of "@ + type_label(elems@[0])
        },
    }
}

/// Classifies a single value into its coarse type label. Total: no input is
/// rejected.
pub fn get_value_type(value: &BiblioRecord) -> (res: String)
    ensures
        res@ == type_label(*value),
    decreases *value,
{
    match value {
        BiblioRecord::Null => String::from_str("null"),
        BiblioRecord::Bool(_) => String::from_str("boolean"),
        BiblioRecord::Number(_) => String::from_str("number"),
        BiblioRecord::Text(_) => String::from_str("string"),
        BiblioRecord::Object(_) => String::from_str("object"),
        BiblioRecord::Array(elems) => {
            if elems.len() == 0 {
                String::from_str("array (empty)")
            } else {
                let mut res = String::from_str("array of ");
                let inner = get_value_type(&elems[0]);
                res.append(inner.as_str());
                res
            }
        },
    }
}

/// The flattened text of a value: strings, numbers and booleans as
/// themselves, arrays and objects as their parts joined by single spaces,
/// nulls as nothing.
pub open spec fn searchable_text(v: BiblioRecord) -> Seq<char>
    decreases v, 0int,
{
    match v {
        BiblioRecord::Null => Seq::empty(),
        BiblioRecord::Bool(b) => if b {
            "true"@
        } else {
            "false"@
        },
        BiblioRecord::Number(n) => n@,
        BiblioRecord::Text(s) => s@,
        BiblioRecord::Array(elems) => join_texts_upto(elems@, elems@.len() as int, " "@),
        BiblioRecord::Object(entries) => join_vals_upto(entries@, entries@.len() as int, " "@),
    }
}

/// The searchable texts of the first `i` elements, joined by `sep`.
pub open spec fn join_texts_upto(elems: Seq<BiblioRecord>, i: int, sep: Seq<char>) -> Seq<char>
    decreases elems, i, 1int,
{
    if i <= 0 || i > elems.len() {
        Seq::empty()
    } else if i == 1 {
        searchable_text(elems[0])
    } else {
        join_texts_upto(elems, i - 1, sep) + sep + searchable_text(elems[i - 1])
    }
}

/// The searchable texts of the first `i` entry values, joined by `sep`.
pub open spec fn join_vals_upto(
    entries: Seq<(String, BiblioRecord)>,
    i: int,
    sep: Seq<char>,
) -> Seq<char>
    decreases entries, i, 1int,
{
    if i <= 0 || i > entries.len() {
        Seq::empty()
    } else if i == 1 {
        searchable_text(entries[0].1)
    } else {
        join_vals_upto(entries, i - 1, sep) + sep + searchable_text(entries[i - 1].1)
    }
}

/// Flattens a value to its searchable text.
#[verifier::loop_isolation(false)]
pub fn extract_searchable_text(value: &BiblioRecord) -> (res: String)
    ensures
        res@ == searchable_text(*value),
    decreases *value,
{
    match value {
        BiblioRecord::Null => String::new(),
        BiblioRecord::Bool(b) => if *b {
            String::from_str("true")
        } else {
            String::from_str("false")
        },
        BiblioRecord::Number(n) => n.clone(),
        BiblioRecord::Text(s) => s.clone(),
        BiblioRecord::Array(elems) => {
            let n = elems.len();
            let mut res = String::new();
            let mut i: usize = 0;
            while i < n
                invariant
                    *value == BiblioRecord::Array(*elems),
                    n == elems@.len(),
                    i <= n,
                    res@ == join_texts_upto(elems@, i as int, " "@),
                decreases n - i,
            {
                if i > 0 {
                    res.append(" ");
                }
                let part = extract_searchable_text(&elems[i]);
                res.append(part.as_str());
                i = i + 1;
            }
            res
        },
        BiblioRecord::Object(entries) => {
            let n = entries.len();
            let mut res = String::new();
            let mut i: usize = 0;
            while i < n
                invariant
                    *value == BiblioRecord::Object(*entries),
                    n == entries@.len(),
                    i <= n,
                    res@ == join_vals_upto(entries@, i as int, " "@),
                decreases n - i,
            {
                if i > 0 {
                    res.append(" ");
                }
                let part = extract_searchable_text(&entries[i].1);
                res.append(part.as_str());
                i = i + 1;
            }
            res
        },
    }
}

/// The canonical text form under which the facet engine groups a value.
/// Scalars are their own text; an array shows up to its first three
/// elements, with a count suffix when longer; an object is never expanded.
pub open spec fn canon_text(v: BiblioRecord) -> Seq<char> {
    match v {
        BiblioRecord::Null => "(null)"@,
        BiblioRecord::Bool(b) => if b {
            "true"@
        } else {
            "false"@
        },
        BiblioRecord::Number(n) => n@,
        BiblioRecord::Text(s) => s@,
        BiblioRecord::Object(_) => "(object)"@,
        BiblioRecord::Array(elems) => if elems@.len() == 0 {
            "(empty array)"@
        } else if elems@.len() <= 3 {
            join_texts_upto(elems@, elems@.len() as int, ", "@)
        } else {
            join_texts_upto(elems@, 3, ", "@) + " ... ("@ + dec_rep(elems@.len()) + " items)"@
        },
    }
}

/// Renders a value's canonical text form.
#[verifier::loop_isolation(false)]
pub fn extract_field_text(value: &BiblioRecord) -> (res: String)
    ensures
        res@ == canon_text(*value),
{
    match value {
        BiblioRecord::Null => String::from_str("(null)"),
        BiblioRecord::Bool(b) => if *b {
            String::from_str("true")
        } else {
            String::from_str("false")
        },
        BiblioRecord::Number(n) => n.clone(),
        BiblioRecord::Text(s) => s.clone(),
        BiblioRecord::Object(_) => String::from_str("(object)"),
        BiblioRecord::Array(elems) => {
            let n = elems.len();
            if n == 0 {
                String::from_str("(empty array)")
            } else {
                let k: usize = if n > 3 {
                    3
                } else {
                    n
                };
                let mut res = String::new();
                let mut i: usize = 0;
                while i < k
                    invariant
                        n == elems@.len(),
                        k <= n,
                        i <= k,
                        res@ == join_texts_upto(elems@, i as int, ", "@),
                    decreases k - i,
                {
                    if i > 0 {
                        res.append(", ");
                    }
                    let part = extract_searchable_text(&elems[i]);
                    res.append(part.as_str());
                    i = i + 1;
                }
                if n > 3 {
                    res.append(" ... (");
                    let count = u64_to_string(n as u64);
                    res.append(count.as_str());
                    res.append(" items)");
                }
                res
            }
        },
    }
}

/// The short display form of a value, before truncation.
pub open spec fn display_text(v: BiblioRecord) -> Seq<char> {
    match v {
        BiblioRecord::Null => "null"@,
        BiblioRecord::Bool(b) => if b {
            "true"@
        } else {
            "false"@
        },
        BiblioRecord::Number(n) => n@,
        BiblioRecord::Text(s) => s@,
        BiblioRecord::Object(_) => "{...}"@,
        BiblioRecord::Array(elems) => if elems@.len() == 0 {
            "[]"@
        } else {
            "["@ + dec_rep(elems@.len()) + " items]"@
        },
    }
}

/// `s` cut to `max_len` characters, with an ellipsis when anything was cut.
pub open spec fn truncated_text(s: Seq<char>, max_len: int) -> Seq<char> {
    if s.len() > max_len {
        s.take(max_len) + "..."@
    } else {
        s
    }
}

/// Cuts a string to at most `max_len` characters, marking the cut.
pub fn truncate_string(s: &str, max_len: usize) -> (res: String)
    ensures
        res@ == truncated_text(s@, max_len as int),
{
    let n = s.unicode_len();
    if n > max_len {
        let head = s.substring_char(0, max_len);
        let mut res = String::from_str(head);
        res.append("...");
        proof {
            assert(s@.subrange(0, max_len as int) =~= s@.take(max_len as int));
        }
        res
    } else {
        String::from_str(s)
    }
}

/// Renders a value for a single-line display, cut to `max_len` characters.
pub fn get_display_value(value: &BiblioRecord, max_len: usize) -> (res: String)
    ensures
        res@ == truncated_text(display_text(*value), max_len as int),
{
    let display = match value {
        BiblioRecord::Null => String::from_str("null"),
        BiblioRecord::Bool(b) => if *b {
            String::from_str("true")
        } else {
            String::from_str("false")
        },
        BiblioRecord::Number(n) => n.clone(),
        BiblioRecord::Text(s) => s.clone(),
        BiblioRecord::Object(_) => String::from_str("{...}"),
        BiblioRecord::Array(elems) => {
            if elems.len() == 0 {
                String::from_str("[]")
            } else {
                let mut res = String::from_str("[");
                let count = u64_to_string(elems.len() as u64);
                res.append(count.as_str());
                res.append(" items]");
                res
            }
        },
    };
    truncate_string(display.as_str(), max_len)
}

} // verus!
