use vstd::prelude::*;

verus! {

/// A terminal colour.
#[derive(Clone, Copy, Debug, PartialEq, Eq, Structural)]
pub enum Colour {
    Black,
    Red,
    Green,
    Yellow,
    Blue,
    Purple,
    Cyan,
    White,
    Fixed(u8),
    RGB(u8, u8, u8),
}

/// An overridable bag of style attributes: an absent attribute (`None`)
/// falls back to whatever a less specific style said.
#[derive(Clone, Debug)]
pub struct StyleBuilder {
    pub foreground: Option<Colour>,
    pub background: Option<Colour>,
    pub content: Option<String>,
    pub bold: Option<bool>,
    pub italic: Option<bool>,
    pub underline: Option<bool>,
}

/// The attribute of `more` where it is present, else that of `less`.
pub open spec fn pick<T>(less: Option<T>, more: Option<T>) -> Option<T> {
    if more is Some {
        more
    } else {
        less
    }
}

/// The style in which every attribute of `b` overrides that of `a`.
pub open spec fn merge(a: StyleBuilder, b: StyleBuilder) -> StyleBuilder {
    StyleBuilder {
        foreground: pick(a.foreground, b.foreground),
        background: pick(a.background, b.background),
        content: pick(a.content, b.content),
        bold: pick(a.bold, b.bold),
        italic: pick(a.italic, b.italic),
        underline: pick(a.underline, b.underline),
    }
}

/// The style that sets no attribute.
pub open spec fn empty_style() -> StyleBuilder {
    StyleBuilder {
        foreground: None,
        background: None,
        content: None,
        bold: None,
        italic: None,
        underline: None,
    }
}

fn copy_content(c: &Option<String>) -> (r: Option<String>)
    ensures
        r == *c,
{
    match c {
        Some(s) => Some(s.clone()),
        None => None,
    }
}

fn pick_content(less: &Option<String>, more: &Option<String>) -> (r: Option<String>)
    ensures
        r == pick(*less, *more),
{
    if more.is_some() {
        copy_content(more)
    } else {
        copy_content(less)
    }
}

impl Default for StyleBuilder {
    fn default() -> (r: StyleBuilder)
        ensures
            r == empty_style(),
    {
        StyleBuilder::empty()
    }
}

impl StyleBuilder {
    /// The style that sets no attribute.
    pub fn empty() -> (r: StyleBuilder)
        ensures
            r == empty_style(),
    {
        StyleBuilder {
            foreground: None,
            background: None,
            content: None,
            bold: None,
            italic: None,
            underline: None,
        }
    }

    /// A copy of this style, attribute for attribute.
    pub fn duplicate(&self) -> (r: StyleBuilder)
        ensures
            r == *self,
    {
        StyleBuilder {
            foreground: self.foreground,
            background: self.background,
            content: copy_content(&self.content),
            bold: self.bold,
            italic: self.italic,
            underline: self.underline,
        }
    }

    /// This style with every attribute that `other` sets taken from `other`.
    pub fn merge_with(&self, other: &StyleBuilder) -> (r: StyleBuilder)
        ensures
            r == merge(*self, *other),
    {
        StyleBuilder {
            foreground: if other.foreground.is_some() {
                other.foreground
            } else {
                self.foreground
            },
            background: if other.background.is_some() {
                other.background
            } else {
                self.background
            },
            content: pick_content(&self.content, &other.content),
            bold: if other.bold.is_some() {
                other.bold
            } else {
                self.bold
            },
            italic: if other.italic.is_some() {
                other.italic
            } else {
                self.italic
            },
            underline: if other.underline.is_some() {
                other.underline
            } else {
                self.underline
            },
        }
    }

    /// The content override, if this style sets one.
    pub fn content(&self) -> (r: Option<&str>)
        ensures
            r is Some <==> self.content is Some,
            r is Some ==> r->0@ == self.content->0@,
    {
        match &self.content {
            Some(s) => Some(s.as_str()),
            None => None,
        }
    }
}

/// Merging is associative: the attributes set by `a`, then `b`, then `c`
/// come out the same however the three merges are grouped.
pub proof fn lemma_merge_associative(a: StyleBuilder, b: StyleBuilder, c: StyleBuilder)
    ensures
        merge(merge(a, b), c) == merge(a, merge(b, c)),
{
}

/// After merging `a`, then `b`, then `c`, each attribute holds the value of
/// the last of the three that sets it, and is absent when none does.
pub proof fn lemma_merge_last_setter_wins(a: StyleBuilder, b: StyleBuilder, c: StyleBuilder)
    ensures
        merge(merge(a, b), c).foreground == (if c.foreground is Some {
            c.foreground
        } else if b.foreground is Some {
            b.foreground
        } else {
            a.foreground
        }),
        merge(merge(a, b), c).background == (if c.background is Some {
            c.background
        } else if b.background is Some {
            b.background
        } else {
            a.background
        }),
        merge(merge(a, b), c).content == (if c.content is Some {
            c.content
        } else if b.content is Some {
            b.content
        } else {
            a.content
        }),
        merge(merge(a, b), c).bold == (if c.bold is Some {
            c.bold
        } else if b.bold is Some {
            b.bold
        } else {
            a.bold
        }),
        merge(merge(a, b), c).italic == (if c.italic is Some {
            c.italic
        } else if b.italic is Some {
            b.italic
        } else {
            a.italic
        }),
        merge(merge(a, b), c).underline == (if c.underline is Some {
            c.underline
        } else if b.underline is Some {
            b.underline
        } else {
            a.underline
        }),
{
}

/// The empty style is an identity of merging, on either side.
pub proof fn lemma_merge_empty(x: StyleBuilder)
    ensures
        merge(empty_style(), x) == x,
        merge(x, empty_style()) == x,
{
}

} // verus!
