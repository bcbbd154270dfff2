//! Paint values of SVG shapes.
use vstd::prelude::*;

verus! {

/// The paint that an absent color gives.
pub open spec fn spec_css_paint(css_color: Option<Seq<char>>) -> Seq<char> {
    match css_color {
        Some(c) => c,
        None => "none"@,
    }
}

/// The CSS paint of a stroke or fill: the given color, or `none` where there is none.
pub fn css_paint(css_color: Option<String>) -> (paint: String)
    ensures
        paint@ == spec_css_paint(
            match css_color {
                Some(c) => Some(c@),
                None => None,
            },
        ),
        css_color matches Some(c) ==> paint@ == c@,
        css_color is None ==> paint@ == "none"@,
{
    match css_color {
        Some(c) => c,
        None => "none".to_owned(),
    }
}

/// A given color is the paint exactly as it is, whatever it holds; only an
/// absent color gives `none`.
pub proof fn lemma_css_paint_keeps_color(color: Seq<char>)
    ensures
        spec_css_paint(Some(color)) == color,
        spec_css_paint(None) == "none"@,
{
}

} // verus!
