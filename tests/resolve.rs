use syncat::{
    check_segment, Colour, Context, Import, MetaStylesheet, RegexCache, SelectorError,
    SelectorSegment, StyleBuilder, Stylesheet,
};

fn fg(c: Colour) -> StyleBuilder {
    StyleBuilder { foreground: Some(c), ..StyleBuilder::default() }
}

fn kind(name: &str) -> SelectorSegment {
    SelectorSegment::Kind(name.to_string())
}

fn token(text: &str) -> SelectorSegment {
    SelectorSegment::Token(text.to_string())
}

fn pattern(p: &str) -> SelectorSegment {
    SelectorSegment::TokenPattern(p.to_string())
}

fn direct(s: SelectorSegment) -> SelectorSegment {
    SelectorSegment::DirectChild(Box::new(s))
}

fn no_children(s: SelectorSegment) -> SelectorSegment {
    SelectorSegment::NoChildren(Box::new(s))
}

fn sheet(style: StyleBuilder, rules: Vec<(SelectorSegment, Stylesheet)>) -> Stylesheet {
    let mut s = Stylesheet::new(style);
    for (seg, child) in rules {
        s.add_rule(seg, child).unwrap();
    }
    s
}

fn leaf(style: StyleBuilder) -> Stylesheet {
    Stylesheet::new(style)
}

#[test]
fn merge_last_setter_wins() {
    let a = StyleBuilder {
        foreground: Some(Colour::Red),
        bold: Some(true),
        content: Some("a".to_string()),
        ..StyleBuilder::default()
    };
    let b = StyleBuilder { foreground: Some(Colour::Green), ..StyleBuilder::default() };
    let c = StyleBuilder { content: Some("c".to_string()), ..StyleBuilder::default() };
    let r = a.merge_with(&b).merge_with(&c);
    assert_eq!(r.foreground, Some(Colour::Green));
    assert_eq!(r.bold, Some(true));
    assert_eq!(r.content.as_deref(), Some("c"));
    assert_eq!(r.italic, None);
    let grouped = a.merge_with(&b.merge_with(&c));
    assert_eq!(grouped.foreground, r.foreground);
    assert_eq!(grouped.content, r.content);
    assert_eq!(grouped.bold, r.bold);
}

#[test]
fn merge_with_empty_is_identity() {
    let x = StyleBuilder {
        background: Some(Colour::Fixed(3)),
        underline: Some(false),
        ..StyleBuilder::default()
    };
    let e = StyleBuilder::empty();
    let l = e.merge_with(&x);
    let r = x.merge_with(&e);
    assert_eq!(l.background, Some(Colour::Fixed(3)));
    assert_eq!(l.underline, Some(false));
    assert_eq!(r.background, Some(Colour::Fixed(3)));
    assert_eq!(r.foreground, None);
}

#[test]
fn descendant_kind_matches_any_depth() {
    let s = sheet(StyleBuilder::empty(), vec![(kind("A"), leaf(fg(Colour::Red)))]);
    let ctx = Context::new();
    let r = s.resolve(&ctx, &[("A", 0), ("B", 0), ("C", 0)], None);
    assert_eq!(r.foreground, Some(Colour::Red));
    let r = s.resolve(&ctx, &[("X", 0), ("Y", 0), ("A", 0)], None);
    assert_eq!(r.foreground, Some(Colour::Red));
    let r = s.resolve(&ctx, &[("X", 0), ("Y", 0)], None);
    assert_eq!(r.foreground, None);
}

#[test]
fn direct_child_matches_first_only() {
    let s = sheet(StyleBuilder::empty(), vec![(direct(kind("A")), leaf(fg(Colour::Red)))]);
    let ctx = Context::new();
    let r = s.resolve(&ctx, &[("A", 0), ("B", 0), ("C", 0)], None);
    assert_eq!(r.foreground, Some(Colour::Red));
    let r = s.resolve(&ctx, &[("B", 0), ("A", 0), ("C", 0)], None);
    assert_eq!(r.foreground, None);
}

#[test]
fn token_rules_fire_only_on_leaves() {
    let s = sheet(
        StyleBuilder::empty(),
        vec![
            (token("fn"), leaf(fg(Colour::Blue))),
            (pattern("^[0-9]+$"), leaf(StyleBuilder { bold: Some(true), ..StyleBuilder::default() })),
        ],
    );
    let ctx = Context::new();
    let r = s.resolve(&ctx, &[], Some("fn"));
    assert_eq!(r.foreground, Some(Colour::Blue));
    let r = s.resolve(&ctx, &[("function", 0)], Some("fn"));
    assert_eq!(r.foreground, None);
    let r = s.resolve(&ctx, &[], None);
    assert_eq!(r.foreground, None);
    let r = s.resolve(&ctx, &[], Some("123"));
    assert_eq!(r.bold, Some(true));
    let r = s.resolve(&ctx, &[("number", 0)], Some("123"));
    assert_eq!(r.bold, None);
    let r = s.resolve(&ctx, &[], Some("12a"));
    assert_eq!(r.bold, None);
}

#[test]
fn token_under_kind_fires_at_the_leaf() {
    let s = sheet(
        StyleBuilder::empty(),
        vec![(kind("string"), sheet(StyleBuilder::empty(), vec![(token("\""), leaf(fg(Colour::Green)))]))],
    );
    let ctx = Context::new();
    let r = s.resolve(&ctx, &[("call", 0), ("string", 1)], Some("\""));
    assert_eq!(r.foreground, Some(Colour::Green));
    let r = s.resolve(&ctx, &[("string", 1), ("escape", 0)], Some("\""));
    assert_eq!(r.foreground, None);
}

#[test]
fn no_children_only_innermost() {
    let s = sheet(StyleBuilder::empty(), vec![(no_children(kind("X")), leaf(fg(Colour::Purple)))]);
    let ctx = Context::new();
    let r = s.resolve(&ctx, &[("X", 0), ("Y", 0)], None);
    assert_eq!(r.foreground, None);
    let r = s.resolve(&ctx, &[("Y", 0), ("X", 0)], None);
    assert_eq!(r.foreground, Some(Colour::Purple));
}

#[test]
fn direct_no_children_single_element() {
    let s = sheet(StyleBuilder::empty(), vec![(direct(no_children(kind("X"))), leaf(fg(Colour::Cyan)))]);
    let ctx = Context::new();
    assert_eq!(s.resolve(&ctx, &[("X", 0)], None).foreground, Some(Colour::Cyan));
    assert_eq!(s.resolve(&ctx, &[("Y", 0), ("X", 0)], None).foreground, None);
}

#[test]
fn branch_check_uses_history_without_consuming() {
    let check = SelectorSegment::BranchCheck(vec![token("async")]);
    let s = sheet(
        StyleBuilder::empty(),
        vec![(check, sheet(StyleBuilder::empty(), vec![(direct(kind("call")), leaf(fg(Colour::Yellow)))]))],
    );
    let mut ctx = Context::new();
    assert_eq!(s.resolve(&ctx, &[("call", 0)], None).foreground, None);
    ctx.add_child(&[("function", 0), ("modifier", 0)], "async");
    assert_eq!(s.resolve(&ctx, &[("call", 0)], None).foreground, Some(Colour::Yellow));
    assert_eq!(s.resolve(&ctx, &[("other", 0)], None).foreground, None);
}

#[test]
fn comment_overrides_default() {
    let s = sheet(fg(Colour::White), vec![(kind("comment"), leaf(fg(Colour::Fixed(8))))]);
    let ctx = Context::new();
    let r = s.resolve(&ctx, &[("function", 0), ("comment", 2)], None);
    assert_eq!(r.foreground, Some(Colour::Fixed(8)));
    let r = s.resolve(&ctx, &[("function", 0)], None);
    assert_eq!(r.foreground, Some(Colour::White));
}

#[test]
fn parameter_direct_child_of_function() {
    let s = sheet(
        StyleBuilder::empty(),
        vec![(
            kind("function"),
            sheet(StyleBuilder::empty(), vec![(direct(kind("parameter")), leaf(fg(Colour::Cyan)))]),
        )],
    );
    let ctx = Context::new();
    let r = s.resolve(&ctx, &[("function", 0), ("block", 1), ("parameter", 0)], None);
    assert_eq!(r.foreground, None);
    let r = s.resolve(&ctx, &[("function", 0), ("parameter", 0)], None);
    assert_eq!(r.foreground, Some(Colour::Cyan));
}

#[test]
fn async_branch_check_colours_later_resolutions() {
    let s = sheet(
        fg(Colour::White),
        vec![
            (kind("identifier"), leaf(StyleBuilder { bold: Some(true), ..StyleBuilder::default() })),
            (SelectorSegment::BranchCheck(vec![token("async")]), leaf(fg(Colour::Purple))),
        ],
    );
    let mut ctx = Context::new();
    let before = s.resolve(&ctx, &[("function", 0), ("identifier", 1)], Some("main"));
    assert_eq!(before.foreground, Some(Colour::White));
    ctx.add_child(&[("function", 0)], "async");
    let after = s.resolve(&ctx, &[("function", 0), ("identifier", 1)], Some("main"));
    assert_eq!(after.foreground, Some(Colour::Purple));
    assert_eq!(after.bold, Some(true));
    let elsewhere = s.resolve(&ctx, &[("struct", 3)], None);
    assert_eq!(elsewhere.foreground, Some(Colour::Purple));
    ctx.add_child(&[("function", 0), ("block", 2)], "}");
    ctx.add_child(&[("struct", 1)], "S");
    let later = s.resolve(&ctx, &[("struct", 1)], Some("S"));
    assert_eq!(later.foreground, Some(Colour::Purple));
}

#[test]
fn nested_kind_rule_resolves_below_its_match() {
    let s = sheet(
        StyleBuilder::empty(),
        vec![(
            kind("block"),
            sheet(fg(Colour::Red), vec![(kind("block"), leaf(fg(Colour::Green)))]),
        )],
    );
    let ctx = Context::new();
    let r = s.resolve(&ctx, &[("block", 0), ("block", 0), ("x", 0)], None);
    assert_eq!(r.foreground, Some(Colour::Green));
}

#[test]
fn context_records_and_finds_descendants() {
    let mut ctx = Context::new();
    ctx.add_child(&[("function", 0), ("name", 0)], "main");
    ctx.add_child(&[("function", 0), ("body", 1)], "{");
    assert_eq!(ctx.len(), 1);
    let mut cache = RegexCache::new();
    assert!(ctx.satisfies(&[kind("function"), token("main")], &mut cache));
    assert!(ctx.satisfies(&[kind("body")], &mut cache));
    assert!(ctx.satisfies(&[direct(kind("function")), direct(kind("name"))], &mut cache));
    assert!(!ctx.satisfies(&[direct(kind("name"))], &mut cache));
    assert!(!ctx.satisfies(&[token("fn")], &mut cache));
    assert!(ctx.satisfies(&[pattern("^ma")], &mut cache));
    assert!(ctx.satisfies(&[], &mut cache));
    assert!(ctx.child(1).is_some());
    assert_eq!(ctx.child(1).unwrap().len(), 2);
    assert!(ctx.child(3).is_none());
}

#[test]
fn context_leaf_blocks_recording_under_it() {
    let mut ctx = Context::new();
    ctx.add_child(&[], "x");
    assert!(!ctx.can_add_child(&[("a", 0)]));
    assert!(ctx.can_add_child(&[("a", 1)]));
    assert!(ctx.can_add_child(&[]));
}

#[test]
fn branch_check_inside_branch_check() {
    let mut ctx = Context::new();
    ctx.add_child(&[("call", 0), ("name", 0)], "await");
    let mut cache = RegexCache::new();
    let nested = SelectorSegment::BranchCheck(vec![kind("name")]);
    assert!(ctx.satisfies(&[kind("call"), nested], &mut cache));
    let missing = SelectorSegment::BranchCheck(vec![kind("loop")]);
    assert!(!ctx.satisfies(&[kind("call"), missing], &mut cache));
}

#[test]
fn regex_cache_compiles_once() {
    let mut cache = RegexCache::new();
    assert_eq!(cache.is_match("a+b", "xaab").unwrap(), true);
    assert_eq!(cache.len(), 1);
    assert!(cache.contains("a+b"));
    assert_eq!(cache.is_match("a+b", "xyz").unwrap(), false);
    assert_eq!(cache.is_match("a+b", "ab").unwrap(), true);
    assert_eq!(cache.len(), 1);
    assert!(cache.matches("^x", "xy"));
    assert_eq!(cache.len(), 2);
}

#[test]
fn regex_cache_reports_bad_pattern() {
    let mut cache = RegexCache::new();
    let err = cache.is_match("(unclosed", "x").unwrap_err();
    assert_eq!(err.pattern, "(unclosed");
    assert_eq!(cache.len(), 0);
    assert!(!cache.matches("(unclosed", "(unclosed"));
    let s = sheet(StyleBuilder::empty(), vec![(pattern("(unclosed"), leaf(fg(Colour::Red)))]);
    assert_eq!(s.resolve(&Context::new(), &[], Some("(unclosed")).foreground, None);
}

#[test]
fn malformed_selectors_are_refused() {
    assert_eq!(check_segment(&no_children(token("x"))), Err(SelectorError::NoChildrenOperand));
    assert_eq!(
        check_segment(&direct(SelectorSegment::BranchCheck(vec![kind("a")]))),
        Err(SelectorError::DirectChildOperand)
    );
    assert_eq!(
        check_segment(&SelectorSegment::BranchCheck(vec![kind("a"), no_children(kind("b"))])),
        Err(SelectorError::NoChildrenInBranchCheck)
    );
    assert_eq!(check_segment(&direct(direct(kind("a")))), Err(SelectorError::DirectChildOperand));
    assert_eq!(check_segment(&direct(no_children(kind("a")))), Ok(()));
    let mut s = Stylesheet::new(StyleBuilder::empty());
    assert!(s.add_rule(no_children(pattern("x")), Stylesheet::new(StyleBuilder::empty())).is_err());
    assert_eq!(s.len(), 0);
    assert!(s.add_rule(kind("a"), Stylesheet::new(StyleBuilder::empty())).is_ok());
    assert_eq!(s.len(), 1);
}

#[test]
fn meta_defaults() {
    let m = MetaStylesheet::default();
    assert_eq!(m.margin_text(), " | ");
    assert_eq!(m.added_text(), "+");
    assert_eq!(m.modified_text(), "~");
    assert_eq!(m.removed_above_text(), "-");
    assert_eq!(m.removed_below_text(), "_");
    assert_eq!(m.line_ending_text(), "$");
    assert_eq!(m.vcs_addition.foreground, Some(Colour::Green));
    assert_eq!(m.vcs_deletion_below.foreground, Some(Colour::Red));
}

#[test]
fn meta_overridden_by_stylesheet() {
    let s = sheet(
        StyleBuilder::empty(),
        vec![
            (kind("line_ending"), leaf(StyleBuilder { content: Some("¬".to_string()), ..StyleBuilder::default() })),
            (kind("vcs_addition"), leaf(fg(Colour::Blue))),
        ],
    );
    let m = MetaStylesheet::from_stylesheet(&s);
    assert_eq!(m.line_ending_text(), "¬");
    assert_eq!(m.vcs_addition.foreground, Some(Colour::Blue));
    assert_eq!(m.added_text(), "+");
    assert_eq!(m.margin_text(), " | ");
}

#[test]
fn import_unquotes_path() {
    let i = Import::from_literal("\"dir/a.syncat\"").unwrap();
    assert_eq!(i.as_path(), "dir/a.syncat");
    let i = Import::from_literal("'x\\'y'").unwrap();
    assert_eq!(i.as_path(), "x'y");
    assert!(Import::from_literal("x").is_err());
    assert!(Import::from_literal("\"abc'").is_err());
    assert_eq!(Import::from_literal("abc").unwrap_err().literal, "abc");
}
