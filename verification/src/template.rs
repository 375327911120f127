//! The template renderer: literal first-match substitution of the three
//! fixed markers in a unit template by the unit's aggregates. This is not
//! a template language; markers absent from the template are left alone,
//! and every occurrence of a present marker is replaced with the same
//! aggregate.
use vstd::prelude::*;
use crate::textops::{replace_all, replace_all_spec};

verus! {

/// The content marker; it consumes its own trailing newline.
pub open spec fn content_marker() -> Seq<char> {
    "#[modmod:content]\n"@
}

/// The objectives marker.
pub open spec fn objectives_marker() -> Seq<char> {
    "#[modmod:objectives]"@
}

/// The summary marker.
pub open spec fn summary_marker() -> Seq<char> {
    "#[modmod:summary]"@
}

/// The rendered unit document: the template with the content marker (and
/// its newline) replaced by the aggregated content, then the objectives
/// marker by the objectives list, then the summary marker by the summary
/// list.
pub open spec fn render_template_spec(
    template: Seq<char>,
    content: Seq<char>,
    objectives: Seq<char>,
    summary: Seq<char>,
) -> Seq<char> {
    replace_all_spec(
        replace_all_spec(
            replace_all_spec(template, content_marker(), content),
            objectives_marker(),
            objectives,
        ),
        summary_marker(),
        summary,
    )
}

/// Substitutes the three markers in `template` by the three aggregates.
pub fn render_template(template: &str, content: &str, objectives: &str, summary: &str) -> (r:
    String)
    ensures
        r@ == render_template_spec(template@, content@, objectives@, summary@),
{
    proof {
        reveal_strlit("#[modmod:content]\n");
        reveal_strlit("#[modmod:objectives]");
        reveal_strlit("#[modmod:summary]");
    }
    let s1 = replace_all(template, "#[modmod:content]\n", content);
    let s2 = replace_all(s1.as_str(), "#[modmod:objectives]", objectives);
    replace_all(s2.as_str(), "#[modmod:summary]", summary)
}

} // verus!
