use vstd::prelude::*;
use crate::context::Context;
use crate::style::{empty_style, merge, Colour, StyleBuilder};
use crate::stylesheet::{resolve_spec, Stylesheet};

verus! {

/// The styles of the parts of the output that are not source text: line
/// endings, line numbers, version-control markers and the margin.
pub struct MetaStylesheet {
    pub line_ending: StyleBuilder,
    pub line_number: StyleBuilder,
    pub vcs_addition: StyleBuilder,
    pub vcs_modification: StyleBuilder,
    pub vcs_deletion_above: StyleBuilder,
    pub vcs_deletion_below: StyleBuilder,
    pub margin: StyleBuilder,
}

/// `style` sets the foreground `fg` (or none) and the content `text`, and
/// nothing else.
pub open spec fn is_marker(style: StyleBuilder, fg: Option<Colour>, text: Seq<char>) -> bool {
    &&& style.foreground == fg
    &&& style.background is None
    &&& style.content matches Some(c) && c@ == text
    &&& style.bold is None
    &&& style.italic is None
    &&& style.underline is None
}

/// The built-in meta styles.
pub open spec fn is_default_meta(m: MetaStylesheet) -> bool {
    &&& is_marker(m.line_ending, None, "$"@)
    &&& m.line_number == empty_style()
    &&& is_marker(m.vcs_addition, Some(Colour::Green), "+"@)
    &&& is_marker(m.vcs_modification, Some(Colour::Yellow), "~"@)
    &&& is_marker(m.vcs_deletion_above, Some(Colour::Red), "-"@)
    &&& is_marker(m.vcs_deletion_below, Some(Colour::Red), "_"@)
    &&& is_marker(m.margin, None, " | "@)
}

/// What `sheet` gives the top-level name `name`, with no trace and no token.
pub open spec fn named_style(sheet: Stylesheet, name: &str) -> StyleBuilder {
    resolve_spec(sheet, Seq::empty(), seq![(name, 0usize)], None)
}

fn marker(fg: Option<Colour>, text: &str) -> (r: StyleBuilder)
    ensures
        is_marker(r, fg, text@),
{
    StyleBuilder {
        foreground: fg,
        background: None,
        content: Some(text.to_owned()),
        bold: None,
        italic: None,
        underline: None,
    }
}

fn resolve_named(sheet: &Stylesheet, name: &str) -> (r: StyleBuilder)
    ensures
        r == named_style(*sheet, name),
{
    let context = Context::new();
    let mut scopes: Vec<(&str, usize)> = Vec::new();
    scopes.push((name, 0));
    assert(scopes@ =~= seq![(name, 0usize)]);
    sheet.resolve(&context, scopes.as_slice(), None)
}

fn content_or<'a>(style: &'a StyleBuilder, fallback: &'a str) -> (r: &'a str)
    ensures
        style.content matches Some(c) ==> r@ == c@,
        style.content is None ==> r@ == fallback@,
{
    match style.content() {
        Some(c) => c,
        None => fallback,
    }
}

impl Default for MetaStylesheet {
    fn default() -> (r: MetaStylesheet)
        ensures
            is_default_meta(r),
    {
        MetaStylesheet {
            line_ending: marker(None, "$"),
            line_number: StyleBuilder::empty(),
            vcs_addition: marker(Some(Colour::Green), "+"),
            vcs_modification: marker(Some(Colour::Yellow), "~"),
            vcs_deletion_above: marker(Some(Colour::Red), "-"),
            vcs_deletion_below: marker(Some(Colour::Red), "_"),
            margin: marker(None, " | "),
        }
    }
}

impl MetaStylesheet {
    /// The built-in meta styles, each overridden by what `stylesheet` gives
    /// its top-level name.
    pub fn from_stylesheet(stylesheet: &Stylesheet) -> (r: MetaStylesheet)
        ensures
            exists|d: MetaStylesheet|
                {
                    &&& #[trigger] is_default_meta(d)
                    &&& r.line_ending == merge(d.line_ending, named_style(*stylesheet, "line_ending"))
                    &&& r.line_number == merge(d.line_number, named_style(*stylesheet, "line_number"))
                    &&& r.vcs_addition == merge(d.vcs_addition, named_style(*stylesheet, "vcs_addition"))
                    &&& r.vcs_modification == merge(
                        d.vcs_modification,
                        named_style(*stylesheet, "vcs_modification"),
                    )
                    &&& r.vcs_deletion_above == merge(
                        d.vcs_deletion_above,
                        named_style(*stylesheet, "vcs_deletion_above"),
                    )
                    &&& r.vcs_deletion_below == merge(
                        d.vcs_deletion_below,
                        named_style(*stylesheet, "vcs_deletion_below"),
                    )
                    &&& r.margin == merge(d.margin, named_style(*stylesheet, "margin"))
                },
    {
        let d = MetaStylesheet::default();
        let r = MetaStylesheet {
            line_ending: d.line_ending.merge_with(&resolve_named(stylesheet, "line_ending")),
            line_number: d.line_number.merge_with(&resolve_named(stylesheet, "line_number")),
            vcs_addition: d.vcs_addition.merge_with(&resolve_named(stylesheet, "vcs_addition")),
            vcs_modification: d.vcs_modification.merge_with(
                &resolve_named(stylesheet, "vcs_modification"),
            ),
            vcs_deletion_above: d.vcs_deletion_above.merge_with(
                &resolve_named(stylesheet, "vcs_deletion_above"),
            ),
            vcs_deletion_below: d.vcs_deletion_below.merge_with(
                &resolve_named(stylesheet, "vcs_deletion_below"),
            ),
            margin: d.margin.merge_with(&resolve_named(stylesheet, "margin")),
        };
        assert(is_default_meta(d));
        r
    }

    /// The text of the margin: its content override, else " | ".
    pub fn margin_text(&self) -> (r: &str)
        ensures
            self.margin.content matches Some(c) ==> r@ == c@,
            self.margin.content is None ==> r@ == " | "@,
    {
        content_or(&self.margin, " | ")
    }

    /// The marker of an added line: its content override, else "+".
    pub fn added_text(&self) -> (r: &str)
        ensures
            self.vcs_addition.content matches Some(c) ==> r@ == c@,
            self.vcs_addition.content is None ==> r@ == "+"@,
    {
        content_or(&self.vcs_addition, "+")
    }

    /// The marker of a modified line: its content override, else "~".
    pub fn modified_text(&self) -> (r: &str)
        ensures
            self.vcs_modification.content matches Some(c) ==> r@ == c@,
            self.vcs_modification.content is None ==> r@ == "~"@,
    {
        content_or(&self.vcs_modification, "~")
    }

    /// The marker of lines removed above: its content override, else "-".
    pub fn removed_above_text(&self) -> (r: &str)
        ensures
            self.vcs_deletion_above.content matches Some(c) ==> r@ == c@,
            self.vcs_deletion_above.content is None ==> r@ == "-"@,
    {
        content_or(&self.vcs_deletion_above, "-")
    }

    /// The marker of lines removed below: its content override, else "_".
    pub fn removed_below_text(&self) -> (r: &str)
        ensures
            self.vcs_deletion_below.content matches Some(c) ==> r@ == c@,
            self.vcs_deletion_below.content is None ==> r@ == "_"@,
    {
        content_or(&self.vcs_deletion_below, "_")
    }

    /// The line-ending marker: its content override, else "$".
    pub fn line_ending_text(&self) -> (r: &str)
        ensures
            self.line_ending.content matches Some(c) ==> r@ == c@,
            self.line_ending.content is None ==> r@ == "$"@,
    {
        content_or(&self.line_ending, "$")
    }
}

} // verus!
