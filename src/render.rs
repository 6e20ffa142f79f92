use vstd::prelude::*;

use crate::json::{json_literal, json_string_of};
use crate::model::CssProperty;

verus! {

/// One record of the document, given its two JSON string literals.
pub open spec fn record_text(original: Seq<char>, pascal_case: Seq<char>) -> Seq<char> {
    "  {\n    \"name\": {\n      \"original\": "@ + original + ",\n      \"pascal_case\": "@
        + pascal_case + "\n    }\n  }"@
}

/// The records of the document, each on its own lines, separated by commas.
pub open spec fn items_text(quoted: Seq<(Seq<char>, Seq<char>)>) -> Seq<char>
    decreases quoted.len(),
{
    if quoted.len() == 0 {
        Seq::empty()
    } else {
        items_text(quoted.drop_last()) + (if quoted.len() == 1 {
            "\n"@
        } else {
            ",\n"@
        }) + record_text(quoted.last().0, quoted.last().1)
    }
}

/// The pretty-printed JSON array of the records, indented by two spaces.
pub open spec fn array_text(quoted: Seq<(Seq<char>, Seq<char>)>) -> Seq<char> {
    "["@ + items_text(quoted) + if quoted.len() == 0 {
        "]"@
    } else {
        "\n]"@
    }
}

pub open spec fn quoted_view(quoted: Seq<(String, String)>) -> Seq<(Seq<char>, Seq<char>)> {
    quoted.map_values(|p: (String, String)| (p.0@, p.1@))
}

/// The two JSON string literals of a record.
pub open spec fn quoted_record(p: CssProperty) -> (Seq<char>, Seq<char>) {
    (json_string_of(p.name.original@), json_string_of(p.name.pascal_case@))
}

/// The document published for a collection.
pub open spec fn document_text(records: Seq<CssProperty>) -> Seq<char> {
    array_text(records.map_values(|p: CssProperty| quoted_record(p)))
}

/// Lays out the document from the JSON string literals of each record
/// (`original`, then `pascal_case`).
pub fn render_quoted_css_properties(quoted: &Vec<(String, String)>) -> (r: String)
    ensures
        r@ == array_text(quoted_view(quoted@)),
{
    let ghost q = quoted_view(quoted@);
    let mut out = String::from_str("[");
    let mut i: usize = 0;
    while i < quoted.len()
        invariant
            q == quoted_view(quoted@),
            i <= quoted@.len(),
            out@ == "["@ + items_text(q.take(i as int)),
        decreases quoted@.len() - i,
    {
        proof {
            assert(q.take(i + 1).drop_last() =~= q.take(i as int));
        }
        if i == 0 {
            out.append("\n");
        } else {
            out.append(",\n");
        }
        out.append("  {\n    \"name\": {\n      \"original\": ");
        out.append(quoted[i].0.as_str());
        out.append(",\n      \"pascal_case\": ");
        out.append(quoted[i].1.as_str());
        out.append("\n    }\n  }");
        i = i + 1;
        proof {
            assert(out@ =~= "["@ + items_text(q.take(i as int)));
        }
    }
    proof {
        assert(q.take(i as int) =~= q);
    }
    if i == 0 {
        out.append("]");
    } else {
        out.append("\n]");
    }
    proof {
        assert(out@ =~= array_text(q));
    }
    out
}

/// Writes the collection as a pretty-printed JSON array of
/// `{"name": {"original": .., "pascal_case": ..}}` objects, in its order.
/// The text depends on the collection alone.
pub fn serialize_css_properties(css_properties: &Vec<CssProperty>) -> (r: String)
    ensures
        r@ == document_text(css_properties@),
{
    let mut quoted: Vec<(String, String)> = Vec::new();
    let mut i: usize = 0;
    while i < css_properties.len()
        invariant
            i <= css_properties@.len(),
            quoted_view(quoted@) =~= css_properties@.take(i as int).map_values(
                |p: CssProperty| quoted_record(p),
            ),
        decreases css_properties@.len() - i,
    {
        let original = json_literal(css_properties[i].name.original.as_str());
        let pascal_case = json_literal(css_properties[i].name.pascal_case.as_str());
        let ghost before = quoted@;
        let ghost p = css_properties@[i as int];
        assert(quoted_record(p) == (original@, pascal_case@));
        quoted.push((original, pascal_case));
        i = i + 1;
        proof {
            assert(quoted_view(quoted@) =~= quoted_view(before).push(quoted_record(p)));
            assert(css_properties@.take(i as int) =~= css_properties@.take(i - 1).push(p));
            assert(quoted_view(quoted@) =~= css_properties@.take(i as int).map_values(
                |p: CssProperty| quoted_record(p),
            ));
        }
    }
    proof {
        assert(css_properties@.take(i as int) =~= css_properties@);
    }
    render_quoted_css_properties(&quoted)
}

} // verus!
