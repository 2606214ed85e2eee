use vstd::prelude::*;

verus! {

/// One atom or combinator of a stylesheet rule's match condition.
#[derive(Debug)]
pub enum SelectorSegment {
    /// A node of this grammar kind, anywhere among the remaining ancestors.
    Kind(String),
    /// A leaf whose text is exactly this.
    Token(String),
    /// A leaf whose text matches this regular expression.
    TokenPattern(String),
    /// The wrapped kind, as the innermost element of the path.
    NoChildren(Box<SelectorSegment>),
    /// The wrapped atom, against the nearest unconsumed path element only.
    DirectChild(Box<SelectorSegment>),
    /// Some already recorded position of the trace satisfies this sequence.
    BranchCheck(Vec<SelectorSegment>),
}

/// Why a selector was refused.
#[derive(Debug, Clone, Copy, PartialEq, Eq, Structural)]
pub enum SelectorError {
    /// `NoChildren` wraps something other than a kind.
    NoChildrenOperand,
    /// `DirectChild` wraps a branch check, another `DirectChild`, or a
    /// `NoChildren` that does not wrap a kind.
    DirectChildOperand,
    /// `NoChildren` stands inside a branch check.
    NoChildrenInBranchCheck,
}

/// A kind, a token or a token pattern.
pub open spec fn is_atom(s: SelectorSegment) -> bool {
    s is Kind || s is Token || s is TokenPattern
}

/// The shapes allowed as the operand of `DirectChild`, outside a branch check.
pub open spec fn direct_operand_ok(s: SelectorSegment) -> bool {
    is_atom(s) || (s matches SelectorSegment::NoChildren(k) && *k is Kind)
}

/// The first fault of a segment that is to stand in a stylesheet rule, if any.
pub open spec fn segment_error(s: SelectorSegment) -> Option<SelectorError> {
    match s {
        SelectorSegment::NoChildren(inner) => if *inner is Kind {
            None
        } else {
            Some(SelectorError::NoChildrenOperand)
        },
        SelectorSegment::DirectChild(inner) => if direct_operand_ok(*inner) {
            None
        } else {
            Some(SelectorError::DirectChildOperand)
        },
        SelectorSegment::BranchCheck(sub) => branch_error(sub@),
        _ => None,
    }
}

/// The first fault of a segment that stands inside a branch check, if any.
pub open spec fn branch_segment_error(s: SelectorSegment) -> Option<SelectorError>
    decreases s,
{
    match s {
        SelectorSegment::NoChildren(_) => Some(SelectorError::NoChildrenInBranchCheck),
        SelectorSegment::DirectChild(inner) => if is_atom(*inner) {
            None
        } else {
            Some(SelectorError::DirectChildOperand)
        },
        SelectorSegment::BranchCheck(sub) => branch_error(sub@),
        _ => None,
    }
}

/// The first fault among the segments of a branch check's sequence, if any.
pub open spec fn branch_error(sel: Seq<SelectorSegment>) -> Option<SelectorError>
    decreases sel,
{
    if sel.len() == 0 {
        None
    } else {
        match branch_segment_error(sel[0]) {
            Some(e) => Some(e),
            None => branch_error(sel.subrange(1, sel.len() as int)),
        }
    }
}

/// A segment that may stand in a stylesheet rule.
pub open spec fn segment_wf(s: SelectorSegment) -> bool {
    segment_error(s) is None
}

fn check_branch_segment(s: &SelectorSegment) -> (r: Result<(), SelectorError>)
    ensures
        r is Ok <==> branch_segment_error(*s) is None,
        r is Err ==> branch_segment_error(*s) == Some(r->Err_0),
    decreases *s,
{
    match s {
        SelectorSegment::NoChildren(_) => Err(SelectorError::NoChildrenInBranchCheck),
        SelectorSegment::DirectChild(inner) => match &**inner {
            SelectorSegment::Kind(_) => Ok(()),
            SelectorSegment::Token(_) => Ok(()),
            SelectorSegment::TokenPattern(_) => Ok(()),
            _ => Err(SelectorError::DirectChildOperand),
        },
        SelectorSegment::BranchCheck(sub) => check_branch(sub.as_slice()),
        _ => Ok(()),
    }
}

fn check_branch(sel: &[SelectorSegment]) -> (r: Result<(), SelectorError>)
    ensures
        r is Ok <==> branch_error(sel@) is None,
        r is Err ==> branch_error(sel@) == Some(r->Err_0),
    decreases sel@,
{
    let mut i: usize = 0;
    assert(sel@.subrange(0, sel@.len() as int) =~= sel@);
    while i < sel.len()
        invariant
            i <= sel@.len(),
            branch_error(sel@) == branch_error(sel@.subrange(i as int, sel@.len() as int)),
        decreases sel@.len() - i,
    {
        let ghost tail = sel@.subrange(i as int, sel@.len() as int);
        assert(tail.subrange(1, tail.len() as int) =~= sel@.subrange(i + 1, sel@.len() as int));
        assert(tail[0] == sel@[i as int]);
        match check_branch_segment(&sel[i]) {
            Ok(()) => {},
            Err(e) => {
                return Err(e);
            },
        }
        i = i + 1;
    }
    Ok(())
}

/// Checks that `s` may stand in a stylesheet rule, and names its first
/// fault where it may not.
pub fn check_segment(s: &SelectorSegment) -> (r: Result<(), SelectorError>)
    ensures
        r is Ok <==> segment_wf(*s),
        r is Err ==> segment_error(*s) == Some(r->Err_0),
{
    match s {
        SelectorSegment::NoChildren(inner) => match &**inner {
            SelectorSegment::Kind(_) => Ok(()),
            _ => Err(SelectorError::NoChildrenOperand),
        },
        SelectorSegment::DirectChild(inner) => match &**inner {
            SelectorSegment::Kind(_) => Ok(()),
            SelectorSegment::Token(_) => Ok(()),
            SelectorSegment::TokenPattern(_) => Ok(()),
            SelectorSegment::NoChildren(k) => match &**k {
                SelectorSegment::Kind(_) => Ok(()),
                _ => Err(SelectorError::DirectChildOperand),
            },
            _ => Err(SelectorError::DirectChildOperand),
        },
        SelectorSegment::BranchCheck(sub) => check_branch(sub.as_slice()),
        _ => Ok(()),
    }
}

} // verus!
