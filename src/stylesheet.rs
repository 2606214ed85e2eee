use vstd::prelude::*;
use vstd::slice::slice_subrange;
use crate::context::{
    kids_satisfy, lemma_recorded_token_is_found, recorded, same_text, trace_below, Context,
    ContextNode,
};
use crate::pattern::{pattern_matches, RegexCache};
use crate::selector::{check_segment, segment_error, segment_wf, SelectorError, SelectorSegment};
use crate::style::{merge, StyleBuilder};

verus! {

/// A compiled stylesheet: a base style and, in order, the rules that refine
/// it, each a selector segment with the stylesheet that applies under it.
#[derive(Debug)]
pub struct Stylesheet {
    style: StyleBuilder,
    scopes: Vec<(SelectorSegment, Stylesheet)>,
}

impl Stylesheet {
    /// The base style.
    pub closed spec fn base(&self) -> StyleBuilder {
        self.style
    }

    /// The rules, in the order they are applied.
    pub closed spec fn rules(&self) -> Seq<(SelectorSegment, Stylesheet)> {
        self.scopes@
    }

    /// Every rule, at every depth, has a well-formed segment.
    pub closed spec fn valid(&self) -> bool
        decreases self,
    {
        forall|i: int|
            0 <= i < self.scopes@.len() ==> {
                &&& segment_wf(#[trigger] self.scopes@[i].0)
                &&& decreases_to!(self => self.scopes@[i].1)
                &&& self.scopes@[i].1.valid()
            }
    }
}

/// The trace `depth` levels down the latest branch, or the empty trace where
/// nothing was recorded there.
pub open spec fn trace_or_empty(trace: Seq<ContextNode>, depth: nat) -> Seq<ContextNode> {
    match trace_below(trace, depth) {
        Some(t) => t,
        None => Seq::empty(),
    }
}

/// Whether the leaf text `token` is present and equals `name`.
pub open spec fn token_is(token: Option<&str>, name: Seq<char>) -> bool {
    token matches Some(t) && t@ == name
}

/// Whether the leaf text `token` is present and matches the pattern `p`.
pub open spec fn token_matches(token: Option<&str>, p: Seq<char>) -> bool {
    token matches Some(t) && pattern_matches(p, t@)
}

/// The style that `sheet` gives a position whose remaining ancestors are
/// `path` and whose leaf text, if it is a leaf, is `token`.
pub open spec fn resolve_spec(
    sheet: Stylesheet,
    trace: Seq<ContextNode>,
    path: Seq<(&str, usize)>,
    token: Option<&str>,
) -> StyleBuilder
    decreases sheet, 1int, 0int,
{
    fold_rules(sheet, sheet.rules().len(), trace, path, token)
}

/// The base style of `sheet` with its first `n` rules merged in.
pub open spec fn fold_rules(
    sheet: Stylesheet,
    n: nat,
    trace: Seq<ContextNode>,
    path: Seq<(&str, usize)>,
    token: Option<&str>,
) -> StyleBuilder
    decreases sheet, 0int, n,
{
    if n == 0 || n > sheet.rules().len() {
        sheet.base()
    } else {
        let rule = sheet.rules()[n - 1];
        apply_rule(fold_rules(sheet, (n - 1) as nat, trace, path, token), rule.0, rule.1, trace, path, token)
    }
}

/// `style` with the contribution of the rule `seg { child }` merged in.
pub open spec fn apply_rule(
    style: StyleBuilder,
    seg: SelectorSegment,
    child: Stylesheet,
    trace: Seq<ContextNode>,
    path: Seq<(&str, usize)>,
    token: Option<&str>,
) -> StyleBuilder
    decreases child, 3int, 0int,
{
    match seg {
        SelectorSegment::Kind(name) => kind_scan(
            style,
            name@,
            child,
            trace,
            path,
            token,
            path.len(),
        ),
        SelectorSegment::Token(name) => if path.len() == 0 && token_is(token, name@) {
            merge(style, child.base())
        } else {
            style
        },
        SelectorSegment::TokenPattern(p) => if path.len() == 0 && token_matches(token, p@) {
            merge(style, child.base())
        } else {
            style
        },
        SelectorSegment::NoChildren(inner) => match *inner {
            SelectorSegment::Kind(name) => if path.len() > 0 && path.last().0@ == name@ {
                merge(style, child.base())
            } else {
                style
            },
            _ => style,
        },
        SelectorSegment::DirectChild(inner) => match *inner {
            SelectorSegment::Kind(name) => if path.len() > 0 && path[0].0@ == name@ {
                merge(
                    style,
                    resolve_spec(
                        child,
                        trace_or_empty(trace, 1),
                        path.subrange(1, path.len() as int),
                        token,
                    ),
                )
            } else {
                style
            },
            SelectorSegment::Token(name) => if path.len() == 0 && token_is(token, name@) {
                merge(style, child.base())
            } else {
                style
            },
            SelectorSegment::TokenPattern(p) => if path.len() == 0 && token_matches(token, p@) {
                merge(style, child.base())
            } else {
                style
            },
            SelectorSegment::NoChildren(k) => match *k {
                SelectorSegment::Kind(name) => if path.len() == 1 && path[0].0@ == name@ {
                    merge(style, child.base())
                } else {
                    style
                },
                _ => style,
            },
            _ => style,
        },
        SelectorSegment::BranchCheck(sub) => if kids_satisfy(trace, sub@) {
            merge(style, resolve_spec(child, trace, path, token))
        } else {
            style
        },
    }
}

/// `style` with the contributions of the rule `name { child }` merged in for
/// the last `j` ancestors of `path`, the deepest first: each ancestor of
/// kind `name` contributes `child` resolved against the ancestors below it.
pub open spec fn kind_scan(
    style: StyleBuilder,
    name: Seq<char>,
    child: Stylesheet,
    trace: Seq<ContextNode>,
    path: Seq<(&str, usize)>,
    token: Option<&str>,
    j: nat,
) -> StyleBuilder
    decreases child, 2int, j,
{
    if j == 0 || j > path.len() {
        style
    } else {
        let i = path.len() - j;
        let s = kind_scan(style, name, child, trace, path, token, (j - 1) as nat);
        if path[i].0@ == name {
            merge(
                s,
                resolve_spec(
                    child,
                    trace_or_empty(trace, (i + 1) as nat),
                    path.subrange(i + 1, path.len() as int),
                    token,
                ),
            )
        } else {
            s
        }
    }
}

fn token_is_exec(token: Option<&str>, name: &str) -> (r: bool)
    ensures
        r == token_is(token, name@),
{
    match token {
        Some(t) => same_text(t, name),
        None => false,
    }
}

fn token_matches_exec(token: Option<&str>, pattern: &str, cache: &mut RegexCache) -> (r: bool)
    requires
        old(cache).wf(),
    ensures
        final(cache).wf(),
        r == token_matches(token, pattern@),
{
    match token {
        Some(t) => cache.matches(pattern, t),
        None => false,
    }
}

impl Stylesheet {
    /// A stylesheet with base style `style` and no rules.
    pub fn new(style: StyleBuilder) -> (r: Stylesheet)
        ensures
            r.base() == style,
            r.rules() == Seq::<(SelectorSegment, Stylesheet)>::empty(),
            r.valid(),
    {
        Stylesheet { style, scopes: Vec::new() }
    }

    /// The base style.
    pub fn style(&self) -> (r: &StyleBuilder)
        ensures
            *r == self.base(),
    {
        &self.style
    }

    /// The number of rules.
    pub fn len(&self) -> (r: usize)
        ensures
            r == self.rules().len(),
    {
        self.scopes.len()
    }

    /// Adds the rule `segment { child }` after the rules already held, once
    /// `segment` is found well formed; a malformed one is refused with its
    /// first fault, and the stylesheet is left as it was.
    pub fn add_rule(&mut self, segment: SelectorSegment, child: Stylesheet) -> (r: Result<
        (),
        SelectorError,
    >)
        ensures
            r is Ok <==> segment_wf(segment),
            r is Ok ==> final(self).base() == old(self).base() && final(self).rules() == old(
                self,
            ).rules().push((segment, child)),
            r is Err ==> segment_error(segment) == Some(r->Err_0) && *final(self) == *old(self),
            old(self).valid() && child.valid() ==> final(self).valid(),
    {
        match check_segment(&segment) {
            Ok(()) => {
                let ghost before = *self;
                self.scopes.push((segment, child));
                proof {
                    if before.valid() && self.scopes@.last().1.valid() {
                        assert forall|i: int| 0 <= i < self.scopes@.len() implies {
                            &&& segment_wf(#[trigger] self.scopes@[i].0)
                            &&& decreases_to!(*self => self.scopes@[i].1)
                            &&& self.scopes@[i].1.valid()
                        } by {
                            if i < before.scopes@.len() {
                                assert(self.scopes@[i] == before.scopes@[i]);
                            }
                        }
                    }
                }
                Ok(())
            },
            Err(e) => Err(e),
        }
    }

    /// The style that this stylesheet gives a position whose ancestors, from
    /// the root down, are `scopes`, and whose text is `token` where it is a
    /// leaf; `context` is the trace of what was visited before it.
    pub fn resolve(&self, context: &Context, scopes: &[(&str, usize)], token: Option<&str>) -> (r:
        StyleBuilder)
        ensures
            r == resolve_spec(*self, context@, scopes@, token),
    {
        let mut cache = RegexCache::new();
        self.resolve_cached(context, scopes, token, &mut cache)
    }

    /// As `resolve`, compiling the token patterns it meets through `cache`.
    pub fn resolve_cached(
        &self,
        context: &Context,
        scopes: &[(&str, usize)],
        token: Option<&str>,
        cache: &mut RegexCache,
    ) -> (r: StyleBuilder)
        requires
            old(cache).wf(),
        ensures
            final(cache).wf(),
            r == resolve_spec(*self, context@, scopes@, token),
        decreases *self, 1int, 0int,
    {
        let mut style = self.style.duplicate();
        let mut k: usize = 0;
        while k < self.scopes.len()
            invariant
                k <= self.scopes@.len(),
                cache.wf(),
                style == fold_rules(*self, k as nat, context@, scopes@, token),
            decreases self.scopes@.len() - k,
        {
            let rule = &self.scopes[k];
            proof {
                assert(decreases_to!(*self => self.scopes@[k as int].1));
            }
            style = apply_rule_exec(style, &rule.0, &rule.1, context, scopes, token, cache);
            k = k + 1;
        }
        style
    }
}

/// Resolves `child` against the trace one level below `depth` ancestors.
fn resolve_below(
    child: &Stylesheet,
    context: &Context,
    depth: usize,
    scopes: &[(&str, usize)],
    token: Option<&str>,
    cache: &mut RegexCache,
) -> (r: StyleBuilder)
    requires
        old(cache).wf(),
    ensures
        final(cache).wf(),
        r == resolve_spec(*child, trace_or_empty(context@, depth as nat), scopes@, token),
    decreases *child, 2int, 0int,
{
    match context.child(depth) {
        Some(c) => child.resolve_cached(c, scopes, token, cache),
        None => {
            let empty = Context::new();
            child.resolve_cached(&empty, scopes, token, cache)
        },
    }
}

fn apply_rule_exec(
    style: StyleBuilder,
    seg: &SelectorSegment,
    child: &Stylesheet,
    context: &Context,
    scopes: &[(&str, usize)],
    token: Option<&str>,
    cache: &mut RegexCache,
) -> (r: StyleBuilder)
    requires
        old(cache).wf(),
    ensures
        final(cache).wf(),
        r == apply_rule(style, *seg, *child, context@, scopes@, token),
    decreases *child, 3int, 0int,
{
    let n = scopes.len();
    match seg {
        SelectorSegment::Kind(name) => kind_scan_exec(style, name.as_str(), child, context, scopes, token, cache),
        SelectorSegment::Token(name) => if n == 0 && token_is_exec(token, name.as_str()) {
            style.merge_with(&child.style)
        } else {
            style
        },
        SelectorSegment::TokenPattern(p) => if n == 0 && token_matches_exec(token, p.as_str(), cache) {
            style.merge_with(&child.style)
        } else {
            style
        },
        SelectorSegment::NoChildren(inner) => match &**inner {
            SelectorSegment::Kind(name) => if n > 0 && same_text(scopes[n - 1].0, name.as_str()) {
                style.merge_with(&child.style)
            } else {
                style
            },
            _ => style,
        },
        SelectorSegment::DirectChild(inner) => match &**inner {
            SelectorSegment::Kind(name) => if n > 0 && same_text(scopes[0].0, name.as_str()) {
                let sub = resolve_below(child, context, 1, slice_subrange(scopes, 1, n), token, cache);
                style.merge_with(&sub)
            } else {
                style
            },
            SelectorSegment::Token(name) => if n == 0 && token_is_exec(token, name.as_str()) {
                style.merge_with(&child.style)
            } else {
                style
            },
            SelectorSegment::TokenPattern(p) => if n == 0 && token_matches_exec(token, p.as_str(), cache) {
                style.merge_with(&child.style)
            } else {
                style
            },
            SelectorSegment::NoChildren(k) => match &**k {
                SelectorSegment::Kind(name) => if n == 1 && same_text(scopes[0].0, name.as_str()) {
                    style.merge_with(&child.style)
                } else {
                    style
                },
                _ => style,
            },
            _ => style,
        },
        SelectorSegment::BranchCheck(sub) => if context.satisfies(sub.as_slice(), cache) {
            let r = child.resolve_cached(context, scopes, token, cache);
            style.merge_with(&r)
        } else {
            style
        },
    }
}

fn kind_scan_exec(
    style: StyleBuilder,
    name: &str,
    child: &Stylesheet,
    context: &Context,
    scopes: &[(&str, usize)],
    token: Option<&str>,
    cache: &mut RegexCache,
) -> (r: StyleBuilder)
    requires
        old(cache).wf(),
    ensures
        final(cache).wf(),
        r == kind_scan(style, name@, *child, context@, scopes@, token, scopes@.len()),
    decreases *child, 2int, 1int,
{
    let n = scopes.len();
    let ghost start = style;
    let mut style = style;
    let mut j: usize = 0;
    while j < n
        invariant
            j <= n,
            n == scopes@.len(),
            cache.wf(),
            style == kind_scan(start, name@, *child, context@, scopes@, token, j as nat),
        decreases n - j,
    {
        let i = n - 1 - j;
        if same_text(scopes[i].0, name) {
            let sub = resolve_below(child, context, i + 1, slice_subrange(scopes, i + 1, n), token, cache);
            style = style.merge_with(&sub);
        }
        j = j + 1;
    }
    style
}

/// A kind rule contributes at an ancestor of its kind whatever that
/// ancestor's depth: where exactly one ancestor `i` has kind `name`, the rule
/// merges in `child` resolved against the ancestors below `i`.
pub proof fn lemma_kind_matches_at_any_depth(
    style: StyleBuilder,
    name: String,
    child: Stylesheet,
    trace: Seq<ContextNode>,
    path: Seq<(&str, usize)>,
    token: Option<&str>,
    i: int,
)
    requires
        0 <= i < path.len(),
        path[i].0@ == name@,
        forall|k: int| 0 <= k < path.len() && k != i ==> path[k].0@ != name@,
    ensures
        apply_rule(style, SelectorSegment::Kind(name), child, trace, path, token) == merge(
            style,
            resolve_spec(
                child,
                trace_or_empty(trace, (i + 1) as nat),
                path.subrange(i + 1, path.len() as int),
                token,
            ),
        ),
{
    let n = path.len();
    assert forall|j: nat| j < n - i implies kind_scan(style, name@, child, trace, path, token, j)
        == style by {
        lemma_kind_scan_untouched(style, name@, child, trace, path, token, j, i);
    }
    assert(kind_scan(style, name@, child, trace, path, token, (n - i) as nat) == merge(
        style,
        resolve_spec(
            child,
            trace_or_empty(trace, (i + 1) as nat),
            path.subrange(i + 1, path.len() as int),
            token,
        ),
    )) by {
        if n - i > 0 {
            lemma_kind_scan_untouched(style, name@, child, trace, path, token, (n - i - 1) as nat, i);
        }
    }
    lemma_kind_scan_after(style, name@, child, trace, path, token, (n - i) as nat, n as nat, i);
}

proof fn lemma_kind_scan_untouched(
    style: StyleBuilder,
    name: Seq<char>,
    child: Stylesheet,
    trace: Seq<ContextNode>,
    path: Seq<(&str, usize)>,
    token: Option<&str>,
    j: nat,
    i: int,
)
    requires
        0 <= i < path.len(),
        j < path.len() - i,
        forall|k: int| 0 <= k < path.len() && k != i ==> path[k].0@ != name,
    ensures
        kind_scan(style, name, child, trace, path, token, j) == style,
    decreases j,
{
    if j > 0 {
        lemma_kind_scan_untouched(style, name, child, trace, path, token, (j - 1) as nat, i);
    }
}

proof fn lemma_kind_scan_after(
    style: StyleBuilder,
    name: Seq<char>,
    child: Stylesheet,
    trace: Seq<ContextNode>,
    path: Seq<(&str, usize)>,
    token: Option<&str>,
    from: nat,
    j: nat,
    i: int,
)
    requires
        0 <= i < path.len(),
        from == path.len() - i,
        from <= j <= path.len(),
        forall|k: int| 0 <= k < path.len() && k != i ==> path[k].0@ != name,
    ensures
        kind_scan(style, name, child, trace, path, token, j) == kind_scan(
            style,
            name,
            child,
            trace,
            path,
            token,
            from,
        ),
    decreases j,
{
    if j > from {
        lemma_kind_scan_after(style, name, child, trace, path, token, from, (j - 1) as nat, i);
    }
}

/// A kind rule whose kind no ancestor has contributes nothing.
pub proof fn lemma_kind_without_match(
    style: StyleBuilder,
    name: String,
    child: Stylesheet,
    trace: Seq<ContextNode>,
    path: Seq<(&str, usize)>,
    token: Option<&str>,
)
    requires
        forall|k: int| 0 <= k < path.len() ==> path[k].0@ != name@,
    ensures
        apply_rule(style, SelectorSegment::Kind(name), child, trace, path, token) == style,
{
    lemma_kind_scan_none(style, name@, child, trace, path, token, path.len());
}

proof fn lemma_kind_scan_none(
    style: StyleBuilder,
    name: Seq<char>,
    child: Stylesheet,
    trace: Seq<ContextNode>,
    path: Seq<(&str, usize)>,
    token: Option<&str>,
    j: nat,
)
    requires
        forall|k: int| 0 <= k < path.len() ==> path[k].0@ != name,
    ensures
        kind_scan(style, name, child, trace, path, token, j) == style,
    decreases j,
{
    if j > 0 {
        lemma_kind_scan_none(style, name, child, trace, path, token, (j - 1) as nat);
    }
}

/// A direct-child rule contributes only where its kind is the first of the
/// remaining ancestors, and then merges in `child` resolved against the
/// ancestors after it.
pub proof fn lemma_direct_child_first_only(
    style: StyleBuilder,
    name: String,
    child: Stylesheet,
    trace: Seq<ContextNode>,
    path: Seq<(&str, usize)>,
    token: Option<&str>,
)
    ensures
        apply_rule(
            style,
            SelectorSegment::DirectChild(Box::new(SelectorSegment::Kind(name))),
            child,
            trace,
            path,
            token,
        ) == if path.len() > 0 && path[0].0@ == name@ {
            merge(
                style,
                resolve_spec(
                    child,
                    trace_or_empty(trace, 1),
                    path.subrange(1, path.len() as int),
                    token,
                ),
            )
        } else {
            style
        },
{
}

/// Token and token-pattern rules, bare or as direct children, contribute
/// nothing while ancestors remain to be consumed or no leaf text is given.
pub proof fn lemma_token_rules_fire_on_leaves_only(
    style: StyleBuilder,
    text: String,
    child: Stylesheet,
    trace: Seq<ContextNode>,
    path: Seq<(&str, usize)>,
    token: Option<&str>,
)
    requires
        path.len() > 0 || token is None,
    ensures
        apply_rule(style, SelectorSegment::Token(text), child, trace, path, token) == style,
        apply_rule(style, SelectorSegment::TokenPattern(text), child, trace, path, token) == style,
        apply_rule(
            style,
            SelectorSegment::DirectChild(Box::new(SelectorSegment::Token(text))),
            child,
            trace,
            path,
            token,
        ) == style,
        apply_rule(
            style,
            SelectorSegment::DirectChild(Box::new(SelectorSegment::TokenPattern(text))),
            child,
            trace,
            path,
            token,
        ) == style,
{
}

/// Once the ancestors are consumed, a token rule merges in the base style of
/// `child` exactly when the leaf text equals its literal.
pub proof fn lemma_token_rule_on_leaf(
    style: StyleBuilder,
    text: String,
    child: Stylesheet,
    trace: Seq<ContextNode>,
    token: Option<&str>,
)
    ensures
        apply_rule(style, SelectorSegment::Token(text), child, trace, Seq::empty(), token) == if token_is(
            token,
            text@,
        ) {
            merge(style, child.base())
        } else {
            style
        },
{
}

/// A no-children rule contributes only where its kind is the innermost
/// element of the path; the same kind further out contributes nothing.
pub proof fn lemma_no_children_innermost_only(
    style: StyleBuilder,
    name: String,
    child: Stylesheet,
    trace: Seq<ContextNode>,
    path: Seq<(&str, usize)>,
    token: Option<&str>,
)
    ensures
        apply_rule(
            style,
            SelectorSegment::NoChildren(Box::new(SelectorSegment::Kind(name))),
            child,
            trace,
            path,
            token,
        ) == if path.len() > 0 && path.last().0@ == name@ {
            merge(style, child.base())
        } else {
            style
        },
{
}

/// A branch check consumes nothing: where the trace satisfies it, `child` is
/// resolved against the same trace, path and token.
pub proof fn lemma_branch_check_consumes_nothing(
    style: StyleBuilder,
    sub: Vec<SelectorSegment>,
    child: Stylesheet,
    trace: Seq<ContextNode>,
    path: Seq<(&str, usize)>,
    token: Option<&str>,
)
    ensures
        apply_rule(style, SelectorSegment::BranchCheck(sub), child, trace, path, token) == if kids_satisfy(
            trace,
            sub@,
        ) {
            merge(style, resolve_spec(child, trace, path, token))
        } else {
            style
        },
{
}

/// A branch check looks at history only: before anything is recorded, no
/// non-empty check is satisfied, whatever the path and token.
pub proof fn lemma_branch_check_without_history(
    style: StyleBuilder,
    sub: Vec<SelectorSegment>,
    child: Stylesheet,
    path: Seq<(&str, usize)>,
    token: Option<&str>,
)
    requires
        sub@.len() > 0,
    ensures
        !kids_satisfy(Seq::empty(), sub@),
        apply_rule(
            style,
            SelectorSegment::BranchCheck(sub),
            child,
            Seq::empty(),
            path,
            token,
        ) == style,
{
}

/// Once a leaf with text `name` is recorded, a branch check for that token
/// fires on every position, whatever its path and token: it merges in
/// `child` resolved against the same trace, path and token.
pub proof fn lemma_recorded_token_fires_branch_check(
    style: StyleBuilder,
    sub: Vec<SelectorSegment>,
    name: String,
    child: Stylesheet,
    old: Seq<ContextNode>,
    trace: Seq<ContextNode>,
    scope: Seq<(&str, usize)>,
    path: Seq<(&str, usize)>,
    token: Option<&str>,
)
    requires
        sub@ == seq![SelectorSegment::Token(name)],
        recorded(old, trace, scope, name@),
    ensures
        apply_rule(style, SelectorSegment::BranchCheck(sub), child, trace, path, token) == merge(
            style,
            resolve_spec(child, trace, path, token),
        ),
{
    lemma_recorded_token_is_found(old, trace, scope, name@, name);
}

} // verus!
