//! The context a directive or statement is parsed in: which kind of block
//! encloses it, and, inside loops, switches and labeled statements, where
//! `break` and `continue` may go.

use vstd::prelude::*;
use crate::keywords::str_eq;

verus! {

/// Whether `break` and `continue` may target a statement.
#[derive(Clone, Copy, Debug, PartialEq, Eq, Structural)]
pub struct ControlContext {
    pub breakable: bool,
    pub iteration: bool,
}

/// The control context outside of any loop, switch or labeled statement.
pub open spec fn no_control() -> ControlContext {
    ControlContext { breakable: false, iteration: false }
}

/// The context of a directive.
#[derive(Clone, Debug)]
pub enum DirectiveContext {
    Default,
    TopLevel,
    PackageBlock,
    ClassBlock {
        name: String,
    },
    InterfaceBlock,
    EnumBlock,
    ConstructorBlock {
        super_statement_found: bool,
    },
    WithControl {
        to_be_labeled: Option<String>,
        control_context: ControlContext,
        labels: Vec<(String, ControlContext)>,
    },
}

/// The labels in scope, from a list of entries in which a later entry for a
/// label stands over an earlier one.
pub open spec fn label_map(s: Seq<(String, ControlContext)>) -> Map<Seq<char>, ControlContext>
    decreases s.len(),
{
    if s.len() == 0 {
        Map::empty()
    } else {
        label_map(s.drop_last()).insert(s.last().0@, s.last().1)
    }
}

/// The entries of `s` whose label is not `l`, in order.
pub open spec fn without_label(s: Seq<(String, ControlContext)>, l: Seq<char>) -> Seq<(String, ControlContext)>
    decreases s.len(),
{
    if s.len() == 0 {
        s
    } else if s.last().0@ == l {
        without_label(s.drop_last(), l)
    } else {
        without_label(s.drop_last(), l).push(s.last())
    }
}

/// Dropping the entries of a label removes that label and keeps the others.
pub proof fn lemma_without_label(s: Seq<(String, ControlContext)>, l: Seq<char>)
    ensures
        label_map(without_label(s, l)) == label_map(s).remove(l),
    decreases s.len(),
{
    if s.len() == 0 {
        assert(label_map(s).remove(l) =~= Map::empty());
    } else {
        lemma_without_label(s.drop_last(), l);
        if s.last().0@ == l {
            assert(label_map(s).remove(l) =~= label_map(s.drop_last()).remove(l));
        } else {
            let w = without_label(s.drop_last(), l);
            assert(w.push(s.last()).drop_last() =~= w);
            assert(label_map(s).remove(l) =~= label_map(s.drop_last()).remove(l).insert(s.last().0@, s.last().1));
        }
    }
}

impl DirectiveContext {
    /// The labels in scope, each with the control context of the statement
    /// it labels.
    pub open spec fn labels(&self) -> Map<Seq<char>, ControlContext> {
        match self {
            DirectiveContext::WithControl { labels, .. } => label_map(labels@),
            _ => Map::empty(),
        }
    }

    /// The control context of the innermost loop, switch or labeled
    /// statement.
    pub open spec fn control(&self) -> Option<ControlContext> {
        match self {
            DirectiveContext::WithControl { control_context, .. } => Some(*control_context),
            _ => None,
        }
    }

    /// The label waiting for the statement that it labels.
    pub open spec fn pending_label(&self) -> Option<Seq<char>> {
        match self {
            DirectiveContext::WithControl { to_be_labeled: Some(l), .. } => Some(l@),
            _ => None,
        }
    }

    /// The control context that a label resolves to.
    pub open spec fn resolved(&self, label: Seq<char>) -> Option<ControlContext> {
        if self.labels().dom().contains(label) {
            Some(self.labels()[label])
        } else {
            None
        }
    }

    /// Whether `r` is what entering a statement with control context
    /// `context` gives: a pending label now labels that statement, and
    /// unless only the label is at stake, the statement's context becomes
    /// the innermost one.
    pub open spec fn overridden(&self, label_only: bool, context: ControlContext, r: DirectiveContext) -> bool {
        &&& r is WithControl
        &&& r.pending_label() is None
        &&& r.labels() == match self.pending_label() {
            Some(l) => self.labels().insert(l, context),
            None => self.labels(),
        }
        &&& r.control() == Some(if label_only {
            match self.control() {
                Some(c) => c,
                None => no_control(),
            }
        } else {
            context
        })
    }

    /// Whether `r` is what reading the label `label` gives: the label waits
    /// for its statement, the rest is kept.
    pub open spec fn labeled(&self, label: Seq<char>, r: DirectiveContext) -> bool {
        &&& r is WithControl
        &&& r.pending_label() == Some(label)
        &&& r.labels() == self.labels()
        &&& r.control() == Some(match self.control() {
            Some(c) => c,
            None => no_control(),
        })
    }

    /// Whether `break`, to `label` or to the innermost statement, is
    /// allowed.
    pub open spec fn break_allowed(&self, label: Option<Seq<char>>) -> bool {
        match label {
            Some(l) => self.resolved(l) matches Some(c) && c.breakable,
            None => self.control() matches Some(c) && c.breakable,
        }
    }

    /// Whether `continue`, to `label` or to the innermost statement, is
    /// allowed.
    pub open spec fn continue_allowed(&self, label: Option<Seq<char>>) -> bool {
        match label {
            Some(l) => self.resolved(l) matches Some(c) && c.iteration,
            None => self.control() matches Some(c) && c.iteration,
        }
    }

    /// Whether this is the block of a class, an interface or an enum.
    pub fn is_type_block(&self) -> (r: bool)
        ensures
            r == (self is ClassBlock || self is InterfaceBlock || self is EnumBlock),
    {
        match self {
            Self::ClassBlock { .. } | Self::InterfaceBlock | Self::EnumBlock => true,
            _ => false,
        }
    }
}

/// A copy of the label entries, each label's text kept.
fn copy_labels(labels: &Vec<(String, ControlContext)>) -> (r: Vec<(String, ControlContext)>)
    ensures
        label_map(r@) == label_map(labels@),
{
    let mut out: Vec<(String, ControlContext)> = Vec::new();
    let mut i: usize = 0;
    while i < labels.len()
        invariant
            i <= labels.len(),
            out@.len() == i,
            forall|j: int| 0 <= j < i ==> (#[trigger] out@[j]).0@ == labels@[j].0@ && out@[j].1 == labels@[j].1,
        decreases labels.len() - i,
    {
        let name = labels[i].0.clone();
        out.push((name, labels[i].1));
        i = i + 1;
    }
    proof { lemma_same_label_map(out@, labels@); }
    out
}

/// Two entry lists with the same labels and contexts, in order, give the same
/// labels in scope.
proof fn lemma_same_label_map(a: Seq<(String, ControlContext)>, b: Seq<(String, ControlContext)>)
    requires
        a.len() == b.len(),
        forall|j: int| 0 <= j < a.len() ==> (#[trigger] a[j]).0@ == b[j].0@ && a[j].1 == b[j].1,
    ensures
        label_map(a) == label_map(b),
    decreases a.len(),
{
    if a.len() > 0 {
        lemma_same_label_map(a.drop_last(), b.drop_last());
        assert(a.last() == a[a.len() - 1]);
    }
}

/// The label entries with `label` set to `context`: earlier entries of that
/// label are dropped and one is added at the end.
fn set_label(labels: &Vec<(String, ControlContext)>, label: &String, context: ControlContext) -> (r: Vec<(String, ControlContext)>)
    ensures
        label_map(r@) == label_map(labels@).insert(label@, context),
{
    let mut out: Vec<(String, ControlContext)> = Vec::new();
    let mut i: usize = 0;
    while i < labels.len()
        invariant
            i <= labels.len(),
            label_map(out@) == label_map(without_label(labels@.take(i as int), label@)),
        decreases labels.len() - i,
    {
        let ghost prefix = labels@.take(i as int);
        proof { assert(labels@.take(i + 1).drop_last() =~= prefix); }
        if !str_eq(labels[i].0.as_str(), label.as_str()) {
            let name = labels[i].0.clone();
            let ghost before = out@;
            out.push((name, labels[i].1));
            proof {
                let w = without_label(prefix, label@);
                assert(without_label(labels@.take(i + 1), label@) == w.push(labels@[i as int]));
                assert(out@.drop_last() =~= before);
                assert(w.push(labels@[i as int]).drop_last() =~= w);
            }
        }
        i = i + 1;
    }
    proof {
        assert(labels@.take(labels@.len() as int) =~= labels@);
        lemma_without_label(labels@, label@);
    }
    let ghost before = out@;
    out.push((label.clone(), context));
    proof {
        assert(out@.drop_last() =~= before);
        assert(label_map(labels@).remove(label@).insert(label@, context) =~= label_map(labels@).insert(label@, context));
    }
    out
}

impl DirectiveContext {
    /// The context that a nested directive starts from: the control part
    /// where there is one, else the default context.
    pub fn clone_control(&self) -> (r: Self)
        ensures
            self is WithControl ==> r is WithControl && r.labels() == self.labels() && r.control() == self.control()
                && r.pending_label() == self.pending_label(),
            !(self is WithControl) ==> r is Default,
    {
        match self {
            Self::WithControl { to_be_labeled, control_context, labels } => {
                let to_be_labeled = match to_be_labeled {
                    Some(l) => Some(l.clone()),
                    None => None,
                };
                Self::WithControl { to_be_labeled, control_context: *control_context, labels: copy_labels(labels) }
            },
            _ => Self::Default,
        }
    }

    /// The context inside a statement whose control context is `context`:
    /// a pending label now labels that statement. With `label_only`, the
    /// statement only carries the label, and the innermost control context
    /// stays as it was.
    pub fn override_control_context(&self, label_only: bool, context: ControlContext) -> (r: Self)
        ensures
            self.overridden(label_only, context, r),
    {
        let (prev_context, labels) = match self {
            Self::WithControl { control_context, labels, to_be_labeled } => {
                let labels = match to_be_labeled {
                    Some(label) => set_label(labels, label, context),
                    None => copy_labels(labels),
                };
                (Some(*control_context), labels)
            },
            _ => (None, Vec::new()),
        };
        proof {
            if !(self is WithControl) {
                assert(label_map(labels@) =~= Map::<Seq<char>, ControlContext>::empty());
            }
        }
        let control_context = if label_only {
            match prev_context {
                Some(c) => c,
                None => ControlContext { breakable: false, iteration: false },
            }
        } else {
            context
        };
        Self::WithControl { control_context, labels, to_be_labeled: None }
    }

    /// The context after reading `label:`: the label waits for the
    /// statement that follows.
    pub fn put_label(&self, label: String) -> (r: Self)
        ensures
            self.labeled(label@, r),
    {
        match self {
            Self::WithControl { control_context, labels, .. } => Self::WithControl {
                to_be_labeled: Some(label),
                control_context: *control_context,
                labels: copy_labels(labels),
            },
            _ => {
                let labels: Vec<(String, ControlContext)> = Vec::new();
                proof { assert(label_map(labels@) =~= Map::<Seq<char>, ControlContext>::empty()); }
                Self::WithControl {
                    to_be_labeled: Some(label),
                    control_context: ControlContext { breakable: false, iteration: false },
                    labels,
                }
            },
        }
    }

    /// The control context that `label` resolves to.
    pub fn resolve_label(&self, label: String) -> (r: Option<ControlContext>)
        ensures
            r == self.resolved(label@),
    {
        match self {
            Self::WithControl { labels, .. } => {
                let mut i = labels.len();
                while i > 0
                    invariant
                        i <= labels.len(),
                        self.labels() == label_map(labels@),
                        forall|j: int| i <= j < labels@.len() ==> (#[trigger] labels@[j]).0@ != label@,
                    decreases i,
                {
                    if str_eq(labels[i - 1].0.as_str(), label.as_str()) {
                        let c = labels[i - 1].1;
                        proof {
                            lemma_last_entry_wins(labels@, (i - 1) as int, label@);
                            assert(c == labels@[i - 1].1);
                        }
                        return Some(c);
                    }
                    i = i - 1;
                }
                proof { lemma_last_entry_wins(labels@, -1, label@); }
                None
            },
            _ => None,
        }
    }

    /// Whether `label` labels an enclosing statement.
    pub fn is_label_defined(&self, label: String) -> (r: bool)
        ensures
            r == self.labels().dom().contains(label@),
    {
        self.resolve_label(label).is_some()
    }

    /// Whether `break`, to `label` or to the innermost statement, is
    /// allowed here.
    pub fn is_break_allowed(&self, label: Option<String>) -> (r: bool)
        ensures
            r == self.break_allowed(match label { Some(l) => Some(l@), None => None }),
    {
        match label {
            Some(label) => match self.resolve_label(label) {
                Some(context) => context.breakable,
                None => false,
            },
            None => match self {
                Self::WithControl { control_context, .. } => control_context.breakable,
                _ => false,
            },
        }
    }

    /// Whether `continue`, to `label` or to the innermost statement, is
    /// allowed here.
    pub fn is_continue_allowed(&self, label: Option<String>) -> (r: bool)
        ensures
            r == self.continue_allowed(match label { Some(l) => Some(l@), None => None }),
    {
        match label {
            Some(label) => match self.resolve_label(label) {
                Some(context) => context.iteration,
                None => false,
            },
            None => match self {
                Self::WithControl { control_context, .. } => control_context.iteration,
                _ => false,
            },
        }
    }
}

/// The last entry for a label gives its context, and a label with no entry
/// is not in scope.
proof fn lemma_last_entry_wins(s: Seq<(String, ControlContext)>, k: int, l: Seq<char>)
    requires
        -1 <= k < s.len(),
        k >= 0 ==> s[k].0@ == l,
        forall|j: int| k < j < s.len() ==> (#[trigger] s[j]).0@ != l,
    ensures
        k >= 0 ==> label_map(s).dom().contains(l) && label_map(s)[l] == s[k].1,
        k < 0 ==> !label_map(s).dom().contains(l),
    decreases s.len(),
{
    if s.len() > 0 {
        if k == s.len() - 1 {
        } else {
            lemma_last_entry_wins(s.drop_last(), k, l);
            assert(s.last() == s[s.len() - 1]);
        }
    }
}

/// A labeled statement: the label, once its statement is entered, resolves
/// to that statement's control context, whether the statement is a loop
/// or a switch or carries only the label.
pub proof fn lemma_label_resolves_to_its_statement(
    d: DirectiveContext,
    label: Seq<char>,
    label_only: bool,
    context: ControlContext,
    labeled: DirectiveContext,
    inside: DirectiveContext,
)
    requires
        d.labeled(label, labeled),
        labeled.overridden(label_only, context, inside),
    ensures
        inside.resolved(label) == Some(context),
        inside.break_allowed(Some(label)) == context.breakable,
        inside.continue_allowed(Some(label)) == context.iteration,
{
}

/// Entering a statement keeps every other label in scope with its context.
pub proof fn lemma_outer_labels_kept(d: DirectiveContext, label_only: bool, context: ControlContext, inside: DirectiveContext, l: Seq<char>)
    requires
        d.overridden(label_only, context, inside),
        d.pending_label() != Some(l),
    ensures
        inside.resolved(l) == d.resolved(l),
{
}

/// Inside a loop or a switch, `break` and `continue` without a label are
/// allowed as that statement allows them.
pub proof fn lemma_unlabeled_jumps_follow_innermost(d: DirectiveContext, context: ControlContext, inside: DirectiveContext)
    requires
        d.overridden(false, context, inside),
    ensures
        inside.break_allowed(None) == context.breakable,
        inside.continue_allowed(None) == context.iteration,
{
}

/// Outside of any loop, switch or labeled statement, no jump is allowed.
pub proof fn lemma_no_jumps_without_control(d: DirectiveContext, label: Option<Seq<char>>)
    requires
        !(d is WithControl),
    ensures
        !d.break_allowed(label),
        !d.continue_allowed(label),
{
}

} // verus!
