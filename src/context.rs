use vstd::prelude::*;
use vstd::slice::slice_subrange;
use crate::pattern::{pattern_matches, RegexCache};
use crate::selector::SelectorSegment;

verus! {

/// One recorded position of the trace: a node of a named kind with the trace
/// of its own children, or a leaf with its text.
#[derive(Debug)]
pub enum ContextNode {
    Node(String, Context),
    Leaf(String),
}

/// The trace of the positions visited so far, child by child.
#[derive(Debug)]
pub struct Context {
    children: Vec<ContextNode>,
}

impl View for Context {
    type V = Seq<ContextNode>;

    open spec fn view(&self) -> Seq<ContextNode> {
        self.children_view()
    }
}

impl Context {
    pub closed spec fn children_view(&self) -> Seq<ContextNode> {
        self.children@
    }
}

/// The recorded children of a trace node; a leaf has none.
pub open spec fn kids_of(n: ContextNode) -> Seq<ContextNode> {
    match n {
        ContextNode::Node(_, c) => c@,
        ContextNode::Leaf(_) => Seq::empty(),
    }
}

/// Whether the recorded position `n`, or some position below it, satisfies
/// the sequence `sel`, consumed from the front.
pub open spec fn node_satisfies(n: ContextNode, sel: Seq<SelectorSegment>) -> bool
    decreases sel, n,
{
    if sel.len() == 0 {
        true
    } else {
        let rest = sel.subrange(1, sel.len() as int);
        match sel[0] {
            SelectorSegment::Kind(name) => match n {
                ContextNode::Node(k, c) => (k@ == name@ && kids_satisfy(c@, rest)) || kids_satisfy(
                    c@,
                    sel,
                ),
                ContextNode::Leaf(_) => false,
            },
            SelectorSegment::Token(name) => match n {
                ContextNode::Node(_, c) => kids_satisfy(c@, sel),
                ContextNode::Leaf(t) => t@ == name@,
            },
            SelectorSegment::TokenPattern(p) => match n {
                ContextNode::Node(_, c) => kids_satisfy(c@, sel),
                ContextNode::Leaf(t) => pattern_matches(p@, t@),
            },
            SelectorSegment::NoChildren(_) => false,
            SelectorSegment::DirectChild(inner) => match *inner {
                SelectorSegment::Kind(name) => match n {
                    ContextNode::Node(k, c) => k@ == name@ && kids_satisfy(c@, rest),
                    ContextNode::Leaf(_) => false,
                },
                SelectorSegment::Token(name) => match n {
                    ContextNode::Node(_, _) => false,
                    ContextNode::Leaf(t) => t@ == name@,
                },
                SelectorSegment::TokenPattern(p) => match n {
                    ContextNode::Node(_, _) => false,
                    ContextNode::Leaf(t) => pattern_matches(p@, t@),
                },
                _ => false,
            },
            SelectorSegment::BranchCheck(sub) => node_satisfies(n, sub@) && node_satisfies(n, rest),
        }
    }
}

/// Whether the sequence `sel` is empty, or some position among `kids` (or
/// below them) satisfies it.
pub open spec fn kids_satisfy(kids: Seq<ContextNode>, sel: Seq<SelectorSegment>) -> bool
    decreases sel, kids,
{
    if sel.len() == 0 {
        true
    } else if kids.len() == 0 {
        false
    } else {
        node_satisfies(kids[0], sel) || kids_satisfy(kids.subrange(1, kids.len() as int), sel)
    }
}

/// The trace `depth` levels down the most recently recorded branch of
/// `kids`, or `None` where that branch is shorter.
pub open spec fn trace_below(kids: Seq<ContextNode>, depth: nat) -> Option<Seq<ContextNode>>
    decreases depth,
{
    if depth == 0 {
        Some(kids)
    } else if kids.len() > 0 && kids.last() is Node {
        trace_below(kids_of(kids.last()), (depth - 1) as nat)
    } else {
        None
    }
}

/// `n` is the chain of fresh nodes that `scope` names, ending in a leaf
/// that holds `token`.
pub open spec fn is_chain(n: ContextNode, scope: Seq<(&str, usize)>, token: Seq<char>) -> bool
    decreases scope.len(),
{
    if scope.len() == 0 {
        n matches ContextNode::Leaf(t) && t@ == token
    } else {
        &&& n matches ContextNode::Node(k, c) && k@ == scope[0].0@
        &&& kids_of(n).len() == 1
        &&& is_chain(kids_of(n)[0], scope.subrange(1, scope.len() as int), token)
    }
}

/// Whether a leaf can be recorded at `scope`: the path never runs into a
/// position recorded as a leaf.
pub open spec fn can_record(kids: Seq<ContextNode>, scope: Seq<(&str, usize)>) -> bool
    decreases scope.len(),
{
    if scope.len() == 0 {
        true
    } else if (scope[0].1 as int) < kids.len() {
        &&& kids[scope[0].1 as int] is Node
        &&& can_record(kids_of(kids[scope[0].1 as int]), scope.subrange(1, scope.len() as int))
    } else {
        true
    }
}

/// `new` is `old` with `token` recorded at `scope`: an index that is
/// recorded already is descended into, a new one starts a fresh chain
/// appended after the recorded children, and an empty scope appends a leaf.
pub open spec fn recorded(
    old: Seq<ContextNode>,
    new: Seq<ContextNode>,
    scope: Seq<(&str, usize)>,
    token: Seq<char>,
) -> bool
    decreases scope.len(),
{
    if scope.len() == 0 {
        &&& new.len() == old.len() + 1
        &&& new.subrange(0, old.len() as int) == old
        &&& new.last() matches ContextNode::Leaf(t) && t@ == token
    } else if (scope[0].1 as int) < old.len() {
        let i = scope[0].1 as int;
        &&& new.len() == old.len()
        &&& forall|j: int| 0 <= j < old.len() && j != i ==> new[j] == old[j]
        &&& old[i] matches ContextNode::Node(k, _)
        &&& new[i] matches ContextNode::Node(k2, _)
        &&& k2 == k
        &&& recorded(
            kids_of(old[i]),
            kids_of(new[i]),
            scope.subrange(1, scope.len() as int),
            token,
        )
    } else {
        &&& new.len() == old.len() + 1
        &&& new.subrange(0, old.len() as int) == old
        &&& is_chain(new.last(), scope, token)
    }
}

pub(crate) fn same_text(a: &str, b: &str) -> (r: bool)
    ensures
        r == (a@ == b@),
{
    a.to_owned() == b.to_owned()
}

impl ContextNode {
    fn satisfies_selector(&self, selector: &[SelectorSegment], cache: &mut RegexCache) -> (r:
        bool)
        requires
            old(cache).wf(),
        ensures
            final(cache).wf(),
            r == node_satisfies(*self, selector@),
        decreases selector@, *self,
    {
        if selector.len() == 0 {
            return true;
        }
        let rest = slice_subrange(selector, 1, selector.len());
        match &selector[0] {
            SelectorSegment::Kind(name) => match self {
                ContextNode::Node(kind, context) => {
                    if same_text(kind.as_str(), name.as_str()) && context.satisfies_selector(
                        rest,
                        cache,
                    ) {
                        true
                    } else {
                        context.satisfies_selector(selector, cache)
                    }
                },
                ContextNode::Leaf(_) => false,
            },
            SelectorSegment::Token(name) => match self {
                ContextNode::Node(_, context) => context.satisfies_selector(selector, cache),
                ContextNode::Leaf(token) => same_text(token.as_str(), name.as_str()),
            },
            SelectorSegment::TokenPattern(pattern) => match self {
                ContextNode::Node(_, context) => context.satisfies_selector(selector, cache),
                ContextNode::Leaf(token) => cache.matches(pattern.as_str(), token.as_str()),
            },
            SelectorSegment::NoChildren(_) => false,
            SelectorSegment::DirectChild(inner) => match &**inner {
                SelectorSegment::Kind(name) => match self {
                    ContextNode::Node(kind, context) => same_text(kind.as_str(), name.as_str())
                        && context.satisfies_selector(rest, cache),
                    ContextNode::Leaf(_) => false,
                },
                SelectorSegment::Token(name) => match self {
                    ContextNode::Node(_, _) => false,
                    ContextNode::Leaf(token) => same_text(token.as_str(), name.as_str()),
                },
                SelectorSegment::TokenPattern(pattern) => match self {
                    ContextNode::Node(_, _) => false,
                    ContextNode::Leaf(token) => cache.matches(pattern.as_str(), token.as_str()),
                },
                _ => false,
            },
            SelectorSegment::BranchCheck(sub) => self.satisfies_selector(sub.as_slice(), cache)
                && self.satisfies_selector(rest, cache),
        }
    }

    fn add_child(&mut self, scope: &[(&str, usize)], token: &str)
        requires
            *old(self) is Node,
            can_record(kids_of(*old(self)), scope@),
        ensures
            *final(self) matches ContextNode::Node(k2, _) && *old(self) matches ContextNode::Node(
                k,
                _,
            ) && k2 == k,
            recorded(kids_of(*old(self)), kids_of(*final(self)), scope@, token@),
        decreases scope@.len(), 1int,
    {
        match self {
            ContextNode::Node(_, child_context) => child_context.add_child(scope, token),
            ContextNode::Leaf(_) => {},
        }
    }

    fn from_scope(scope: &[(&str, usize)], token: &str) -> (r: ContextNode)
        ensures
            is_chain(r, scope@, token@),
        decreases scope@.len(),
    {
        if scope.len() == 0 {
            ContextNode::Leaf(token.to_owned())
        } else {
            let rest = slice_subrange(scope, 1, scope.len());
            let child = ContextNode::from_scope(rest, token);
            ContextNode::Node(scope[0].0.to_owned(), Context::with_child(child))
        }
    }
}

impl Context {
    /// The empty trace.
    pub fn new() -> (r: Context)
        ensures
            r@ == Seq::<ContextNode>::empty(),
    {
        Context { children: Vec::new() }
    }

    fn with_child(child: ContextNode) -> (r: Context)
        ensures
            r@ == seq![child],
    {
        let mut children = Vec::new();
        children.push(child);
        Context { children }
    }

    /// The number of positions recorded directly in this trace.
    pub fn len(&self) -> (r: usize)
        ensures
            r == self@.len(),
    {
        self.children.len()
    }

    /// Whether a leaf can be recorded at `scope` without running into a
    /// position already recorded as a leaf.
    pub fn can_add_child(&self, scope: &[(&str, usize)]) -> (r: bool)
        ensures
            r == can_record(self@, scope@),
        decreases scope@.len(),
    {
        if scope.len() == 0 {
            return true;
        }
        let index = scope[0].1;
        if index < self.children.len() {
            match &self.children[index] {
                ContextNode::Node(_, c) => c.can_add_child(slice_subrange(scope, 1, scope.len())),
                ContextNode::Leaf(_) => false,
            }
        } else {
            true
        }
    }

    /// Records the leaf `token` at the position that `scope` names, creating
    /// the nodes along it that are not recorded yet.
    pub fn add_child(&mut self, scope: &[(&str, usize)], token: &str)
        requires
            can_record(old(self)@, scope@),
        ensures
            recorded(old(self)@, final(self)@, scope@, token@),
        decreases scope@.len(), 0int,
    {
        let ghost before = self@;
        if scope.len() == 0 {
            self.children.push(ContextNode::Leaf(token.to_owned()));
            assert(self@.subrange(0, before.len() as int) =~= before);
            return;
        }
        let index = scope[0].1;
        if index < self.children.len() {
            let mut node = ContextNode::Leaf(String::new());
            self.children.set_and_swap(index, &mut node);
            assert(node == before[index as int]);
            node.add_child(slice_subrange(scope, 1, scope.len()), token);
            self.children.set_and_swap(index, &mut node);
            assert(self@ == before.update(index as int, self@[index as int]));
        } else {
            self.children.push(ContextNode::from_scope(scope, token));
            assert(self@.subrange(0, before.len() as int) =~= before);
        }
    }

    fn satisfies_selector(&self, selector: &[SelectorSegment], cache: &mut RegexCache) -> (r:
        bool)
        requires
            old(cache).wf(),
        ensures
            final(cache).wf(),
            r == kids_satisfy(self@, selector@),
        decreases selector@, self@,
    {
        if selector.len() == 0 {
            return true;
        }
        let mut i: usize = 0;
        assert(self@.subrange(0, self@.len() as int) =~= self@);
        while i < self.children.len()
            invariant
                i <= self@.len(),
                cache.wf(),
                selector@.len() > 0,
                kids_satisfy(self@, selector@) == kids_satisfy(
                    self@.subrange(i as int, self@.len() as int),
                    selector@,
                ),
            decreases self@.len() - i,
        {
            let ghost tail = self@.subrange(i as int, self@.len() as int);
            assert(tail.subrange(1, tail.len() as int) =~= self@.subrange(
                i + 1,
                self@.len() as int,
            ));
            if self.children[i].satisfies_selector(selector, cache) {
                return true;
            }
            i = i + 1;
        }
        false
    }

    /// Whether some recorded position satisfies `selector`; an empty
    /// selector is satisfied by any trace.
    pub fn satisfies(&self, selector: &[SelectorSegment], cache: &mut RegexCache) -> (r: bool)
        requires
            old(cache).wf(),
        ensures
            final(cache).wf(),
            r == kids_satisfy(self@, selector@),
    {
        self.satisfies_selector(selector, cache)
    }

    /// The trace `depth` levels down the most recently recorded branch.
    pub fn child(&self, depth: usize) -> (r: Option<&Context>)
        ensures
            r is Some <==> trace_below(self@, depth as nat) is Some,
            r is Some ==> r->0@ == trace_below(self@, depth as nat)->0,
        decreases depth,
    {
        if depth == 0 {
            Some(self)
        } else {
            let n = self.children.len();
            if n == 0 {
                return None;
            }
            match &self.children[n - 1] {
                ContextNode::Node(_, context) => context.child(depth - 1),
                ContextNode::Leaf(_) => None,
            }
        }
    }
}

proof fn lemma_some_kid_satisfies(kids: Seq<ContextNode>, sel: Seq<SelectorSegment>, j: int)
    requires
        0 <= j < kids.len(),
        node_satisfies(kids[j], sel),
    ensures
        kids_satisfy(kids, sel),
    decreases j,
{
    if sel.len() > 0 && j > 0 {
        let tail = kids.subrange(1, kids.len() as int);
        assert(tail[j - 1] == kids[j]);
        lemma_some_kid_satisfies(tail, sel, j - 1);
    }
}

proof fn lemma_chain_holds_token(n: ContextNode, scope: Seq<(&str, usize)>, token: Seq<char>, name: String)
    requires
        is_chain(n, scope, token),
        name@ == token,
    ensures
        node_satisfies(n, seq![SelectorSegment::Token(name)]),
    decreases scope.len(),
{
    if scope.len() > 0 {
        lemma_chain_holds_token(kids_of(n)[0], scope.subrange(1, scope.len() as int), token, name);
        lemma_some_kid_satisfies(kids_of(n), seq![SelectorSegment::Token(name)], 0);
    }
}

/// A leaf, once recorded, is found by a check for its text: after `token`
/// is recorded at any scope, the trace satisfies the sequence that holds the
/// one segment `Token(token)`.
pub proof fn lemma_recorded_token_is_found(
    old: Seq<ContextNode>,
    new: Seq<ContextNode>,
    scope: Seq<(&str, usize)>,
    token: Seq<char>,
    name: String,
)
    requires
        recorded(old, new, scope, token),
        name@ == token,
    ensures
        kids_satisfy(new, seq![SelectorSegment::Token(name)]),
    decreases scope.len(),
{
    let sel = seq![SelectorSegment::Token(name)];
    if scope.len() == 0 {
        lemma_some_kid_satisfies(new, sel, new.len() - 1);
    } else if (scope[0].1 as int) < old.len() {
        let i = scope[0].1 as int;
        lemma_recorded_token_is_found(
            kids_of(old[i]),
            kids_of(new[i]),
            scope.subrange(1, scope.len() as int),
            token,
            name,
        );
        lemma_some_kid_satisfies(new, sel, i);
    } else {
        lemma_chain_holds_token(new.last(), scope, token, name);
        lemma_some_kid_satisfies(new, sel, new.len() - 1);
    }
}

proof fn lemma_satisfying_kid(kids: Seq<ContextNode>, sel: Seq<SelectorSegment>) -> (j: int)
    requires
        sel.len() > 0,
        kids_satisfy(kids, sel),
    ensures
        0 <= j < kids.len(),
        node_satisfies(kids[j], sel),
    decreases kids.len(),
{
    if node_satisfies(kids[0], sel) {
        0
    } else {
        let tail = kids.subrange(1, kids.len() as int);
        let k = lemma_satisfying_kid(tail, sel);
        assert(tail[k] == kids[k + 1]);
        k + 1
    }
}

/// Recording more never undoes a match: a sequence that the trace
/// satisfies is still satisfied after a leaf is recorded.
pub proof fn lemma_recording_keeps_matches(
    old: Seq<ContextNode>,
    new: Seq<ContextNode>,
    scope: Seq<(&str, usize)>,
    token: Seq<char>,
    sel: Seq<SelectorSegment>,
)
    requires
        recorded(old, new, scope, token),
        kids_satisfy(old, sel),
    ensures
        kids_satisfy(new, sel),
    decreases scope.len(), 0int, sel,
{
    if sel.len() > 0 {
        let j = lemma_satisfying_kid(old, sel);
        if scope.len() > 0 && (scope[0].1 as int) < old.len() && j == scope[0].1 as int {
            lemma_grown_node_keeps_matches(
                old[j],
                new[j],
                scope.subrange(1, scope.len() as int),
                token,
                sel,
            );
        } else if scope.len() == 0 || (scope[0].1 as int) >= old.len() {
            assert(new.subrange(0, old.len() as int)[j] == new[j]);
        }
        lemma_some_kid_satisfies(new, sel, j);
    }
}

proof fn lemma_grown_node_keeps_matches(
    n: ContextNode,
    m: ContextNode,
    scope: Seq<(&str, usize)>,
    token: Seq<char>,
    sel: Seq<SelectorSegment>,
)
    requires
        n matches ContextNode::Node(k, _),
        m matches ContextNode::Node(k2, _),
        n->Node_0 == m->Node_0,
        recorded(kids_of(n), kids_of(m), scope, token),
        node_satisfies(n, sel),
    ensures
        node_satisfies(m, sel),
    decreases scope.len(), 1int, sel,
{
    if sel.len() > 0 {
        let rest = sel.subrange(1, sel.len() as int);
        let (c, d) = (kids_of(n), kids_of(m));
        match sel[0] {
            SelectorSegment::Kind(name) => {
                if kids_satisfy(c, rest) {
                    lemma_recording_keeps_matches(c, d, scope, token, rest);
                }
                if kids_satisfy(c, sel) {
                    lemma_recording_keeps_matches(c, d, scope, token, sel);
                }
            },
            SelectorSegment::Token(_) => {
                lemma_recording_keeps_matches(c, d, scope, token, sel);
            },
            SelectorSegment::TokenPattern(_) => {
                lemma_recording_keeps_matches(c, d, scope, token, sel);
            },
            SelectorSegment::NoChildren(_) => {},
            SelectorSegment::DirectChild(inner) => {
                if *inner is Kind {
                    lemma_recording_keeps_matches(c, d, scope, token, rest);
                }
            },
            SelectorSegment::BranchCheck(sub) => {
                lemma_grown_node_keeps_matches(n, m, scope, token, sub@);
                lemma_grown_node_keeps_matches(n, m, scope, token, rest);
            },
        }
    }
}

} // verus!
