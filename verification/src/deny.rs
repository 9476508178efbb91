//! The deny policy evaluator: turns a computed diff plus a rule selection
//! into a pass/fail verdict for continuous integration.
//!
//! Evaluation fails exactly when at least one selected rule's bucket of the
//! diff is non-empty; a failure names each offending bucket together with a
//! literal, ordered listing of the violating items' rendered signatures.

use vstd::prelude::*;

use crate::diff::ChangedPublicItem;
use crate::diff::DiffView;
use crate::diff::PublicItemsDiff;
use crate::item::PublicItem;
use crate::item::rendered;

verus! {

/// One deny rule of a CI gate. `All` selects every bucket at once.
#[derive(Debug, Clone, Copy, PartialEq, Eq, Structural)]
pub enum DenyRule {
    All,
    Added,
    Changed,
    Removed,
}

/// Whether the selection denies additions.
pub open spec fn denies_added(rules: Seq<DenyRule>) -> bool {
    rules.contains(DenyRule::All) || rules.contains(DenyRule::Added)
}

/// Whether the selection denies changes.
pub open spec fn denies_changed(rules: Seq<DenyRule>) -> bool {
    rules.contains(DenyRule::All) || rules.contains(DenyRule::Changed)
}

/// Whether the selection denies removals.
pub open spec fn denies_removed(rules: Seq<DenyRule>) -> bool {
    rules.contains(DenyRule::All) || rules.contains(DenyRule::Removed)
}

/// One violated bucket: which rule it falls under and the rendered
/// signatures of the violating items, in the diff's order.
#[derive(Debug, Clone, PartialEq, Eq)]
pub struct DenyViolation {
    pub rule: DenyRule,
    pub items: Vec<String>,
}

/// Mathematical model of a [`DenyViolation`].
#[verifier::ext_equal]
pub ghost struct DenyViolationView {
    pub rule: DenyRule,
    pub items: Seq<Seq<char>>,
}

impl View for DenyViolation {
    type V = DenyViolationView;

    open spec fn view(&self) -> DenyViolationView {
        DenyViolationView { rule: self.rule, items: self.items.deep_view() }
    }
}

impl DeepView for DenyViolation {
    type V = DenyViolationView;

    open spec fn deep_view(&self) -> DenyViolationView {
        self.view()
    }
}

/// The rendered signatures of a sequence of items.
pub open spec fn signatures(items: Seq<crate::item::PublicItemView>) -> Seq<Seq<char>> {
    items.map_values(|v: crate::item::PublicItemView| rendered(v))
}

/// The rendered signatures of the new sides of a sequence of changed pairs:
/// a changed pair is listed by its new form.
pub open spec fn changed_signatures(items: Seq<crate::diff::ChangedPublicItemView>) -> Seq<
    Seq<char>,
> {
    items.map_values(|c: crate::diff::ChangedPublicItemView| rendered(c.new))
}

/// Every violation that the selected rules raise against the diff, in the
/// diff's presentation order: removed, then changed, then added.
pub open spec fn violations_spec(d: DiffView, rules: Seq<DenyRule>) -> Seq<DenyViolationView> {
    (if denies_removed(rules) && d.removed.len() > 0 {
        seq![DenyViolationView { rule: DenyRule::Removed, items: signatures(d.removed) }]
    } else {
        Seq::empty()
    }) + (if denies_changed(rules) && d.changed.len() > 0 {
        seq![DenyViolationView { rule: DenyRule::Changed, items: changed_signatures(d.changed) }]
    } else {
        Seq::empty()
    }) + (if denies_added(rules) && d.added.len() > 0 {
        seq![DenyViolationView { rule: DenyRule::Added, items: signatures(d.added) }]
    } else {
        Seq::empty()
    })
}

/// Evaluating a selection containing `All` fails exactly when some bucket
/// of the diff is non-empty, and every non-empty bucket is then named in
/// the violations together with the rendered signatures of its items; an
/// empty diff passes.
pub proof fn lemma_deny_all_exact(d: DiffView, rules: Seq<DenyRule>)
    requires
        rules.contains(DenyRule::All),
    ensures
        (violations_spec(d, rules).len() == 0) <==> (d.removed.len() == 0 && d.changed.len() == 0
            && d.added.len() == 0),
        d.removed.len() > 0 ==> violations_spec(d, rules).contains(
            DenyViolationView { rule: DenyRule::Removed, items: signatures(d.removed) },
        ),
        d.changed.len() > 0 ==> violations_spec(d, rules).contains(
            DenyViolationView { rule: DenyRule::Changed, items: changed_signatures(d.changed) },
        ),
        d.added.len() > 0 ==> violations_spec(d, rules).contains(
            DenyViolationView { rule: DenyRule::Added, items: signatures(d.added) },
        ),
{
    let vs = violations_spec(d, rules);
    if d.removed.len() > 0 {
        assert(vs[0] == (DenyViolationView {
            rule: DenyRule::Removed,
            items: signatures(d.removed),
        }));
    }
    if d.changed.len() > 0 {
        let i: int = if d.removed.len() > 0 {
            1int
        } else {
            0int
        };
        assert(vs[i] == (DenyViolationView {
            rule: DenyRule::Changed,
            items: changed_signatures(d.changed),
        }));
    }
    if d.added.len() > 0 {
        assert(vs.last() == (DenyViolationView {
            rule: DenyRule::Added,
            items: signatures(d.added),
        }));
    }
}

/// Whether the selection contains the given rule.
fn has_rule(rules: &Vec<DenyRule>, target: DenyRule) -> (found: bool)
    ensures
        found == rules@.contains(target),
{
    let mut i: usize = 0;
    while i < rules.len()
        invariant
            i <= rules.len(),
            forall|k: int| 0 <= k < i ==> rules@[k] != target,
        decreases rules.len() - i,
    {
        if rules[i] == target {
            proof {
                assert(rules@[i as int] == target);
            }
            return true;
        }
        i = i + 1;
    }
    false
}

/// The rendered signatures of the given items.
fn render_items(items: &Vec<PublicItem>) -> (out: Vec<String>)
    ensures
        out.deep_view() == signatures(items.deep_view()),
{
    let mut out: Vec<String> = Vec::new();
    let mut i: usize = 0;
    while i < items.len()
        invariant
            i <= items.len(),
            out.deep_view() =~= signatures(items.deep_view().take(i as int)),
        decreases items.len() - i,
    {
        let line = items[i].rendered_text();
        let ghost prev = out.deep_view();
        out.push(line);
        proof {
            assert(out.deep_view() =~= prev.push(line@));
            assert(prev.push(line@) =~= signatures(items.deep_view().take(i + 1)));
        }
        i = i + 1;
    }
    proof {
        assert(items.deep_view().take(items.len() as int) =~= items.deep_view());
    }
    out
}

/// The rendered new-side signatures of the given changed pairs.
fn render_changed(items: &Vec<ChangedPublicItem>) -> (out: Vec<String>)
    ensures
        out.deep_view() == changed_signatures(items.deep_view()),
{
    let mut out: Vec<String> = Vec::new();
    let mut i: usize = 0;
    while i < items.len()
        invariant
            i <= items.len(),
            out.deep_view() =~= changed_signatures(items.deep_view().take(i as int)),
        decreases items.len() - i,
    {
        let line = items[i].new.rendered_text();
        let ghost prev = out.deep_view();
        out.push(line);
        proof {
            assert(out.deep_view() =~= prev.push(line@));
            assert(prev.push(line@) =~= changed_signatures(items.deep_view().take(i + 1)));
        }
        i = i + 1;
    }
    proof {
        assert(items.deep_view().take(items.len() as int) =~= items.deep_view());
    }
    out
}

/// Evaluates the selected deny rules against a computed diff. Returns
/// `Ok` exactly when no selected rule's bucket is non-empty; otherwise
/// returns every violation, each naming its bucket and listing the
/// violating items in order.
pub fn evaluate(diff: &PublicItemsDiff, rules: &Vec<DenyRule>) -> (r: Result<
    (),
    Vec<DenyViolation>,
>)
    ensures
        match r {
            Ok(_) => violations_spec(diff@, rules@).len() == 0,
            Err(v) => v.deep_view() == violations_spec(diff@, rules@) && v.len() > 0,
        },
{
    let mut violations: Vec<DenyViolation> = Vec::new();
    if has_rule(rules, DenyRule::All) || has_rule(rules, DenyRule::Removed) {
        if diff.removed.len() > 0 {
            violations.push(
                DenyViolation { rule: DenyRule::Removed, items: render_items(&diff.removed) },
            );
        }
    }
    if has_rule(rules, DenyRule::All) || has_rule(rules, DenyRule::Changed) {
        if diff.changed.len() > 0 {
            violations.push(
                DenyViolation { rule: DenyRule::Changed, items: render_changed(&diff.changed) },
            );
        }
    }
    if has_rule(rules, DenyRule::All) || has_rule(rules, DenyRule::Added) {
        if diff.added.len() > 0 {
            violations.push(
                DenyViolation { rule: DenyRule::Added, items: render_items(&diff.added) },
            );
        }
    }
    proof {
        assert(violations.deep_view() =~= violations_spec(diff@, rules@));
    }
    if violations.len() == 0 {
        Ok(())
    } else {
        Err(violations)
    }
}

/// The message prefix naming the bucket of a violation.
pub open spec fn violation_label(rule: DenyRule) -> Seq<char> {
    match rule {
        DenyRule::Removed => "Removed items not allowed: "@,
        DenyRule::Changed => "Changed items not allowed: "@,
        DenyRule::Added => "Added items not allowed: "@,
        DenyRule::All => "Items not allowed: "@,
    }
}

/// The items of a listing joined with `, `.
pub open spec fn joined(items: Seq<Seq<char>>) -> Seq<char>
    decreases items.len(),
{
    if items.len() == 0 {
        Seq::empty()
    } else if items.len() == 1 {
        items[0]
    } else {
        joined(items.drop_last()) + ", "@ + items.last()
    }
}

/// The message of one violation: its bucket label, then the bracketed,
/// comma-separated listing of the violating items.
pub open spec fn violation_message_spec(v: DenyViolationView) -> Seq<char> {
    violation_label(v.rule) + "["@ + joined(v.items) + "]"@
}

/// Renders the message of one violation.
pub fn violation_message(v: &DenyViolation) -> (s: String)
    ensures
        s@ == violation_message_spec(v@),
{
    let mut s = String::new();
    match v.rule {
        DenyRule::Removed => s.append("Removed items not allowed: "),
        DenyRule::Changed => s.append("Changed items not allowed: "),
        DenyRule::Added => s.append("Added items not allowed: "),
        DenyRule::All => s.append("Items not allowed: "),
    }
    s.append("[");
    let ghost opened = s@;
    let mut i: usize = 0;
    while i < v.items.len()
        invariant
            i <= v.items.len(),
            s@ == opened + joined(v@.items.take(i as int)),
        decreases v.items.len() - i,
    {
        if i > 0 {
            s.append(", ");
        }
        s.append(v.items[i].as_str());
        proof {
            assert(v@.items.take(i + 1).drop_last() =~= v@.items.take(i as int));
            assert(v@.items.take(i + 1).last() == v@.items[i as int]);
            if i == 0 {
                assert(joined(v@.items.take(0)) =~= Seq::<char>::empty());
                assert(s@ =~= opened + joined(v@.items.take(1)));
            } else {
                assert(s@ =~= opened + joined(v@.items.take(i + 1)));
            }
        }
        i = i + 1;
    }
    proof {
        assert(v@.items.take(v.items.len() as int) =~= v@.items);
    }
    s.append("]");
    proof {
        assert(s@ =~= violation_message_spec(v@));
    }
    s
}

/// The full message of a failed evaluation, naming every violation.
pub open spec fn deny_message_spec(vs: Seq<DenyViolationView>) -> Seq<char>
    decreases vs.len(),
{
    if vs.len() == 0 {
        "The API diff is not allowed as per --deny: "@
    } else if vs.len() == 1 {
        "The API diff is not allowed as per --deny: "@ + violation_message_spec(vs[0])
    } else {
        deny_message_spec(vs.drop_last()) + "; "@ + violation_message_spec(vs.last())
    }
}

/// Renders the full message of a failed evaluation.
pub fn deny_message(vs: &Vec<DenyViolation>) -> (s: String)
    ensures
        s@ == deny_message_spec(vs.deep_view()),
{
    let mut s = String::new();
    s.append("The API diff is not allowed as per --deny: ");
    let ghost opened = s@;
    let mut i: usize = 0;
    while i < vs.len()
        invariant
            i <= vs.len(),
            s@ == deny_message_spec(vs.deep_view().take(i as int)),
        decreases vs.len() - i,
    {
        if i > 0 {
            s.append("; ");
        }
        let m = violation_message(&vs[i]);
        s.append(m.as_str());
        proof {
            assert(vs.deep_view().take(i + 1).drop_last() =~= vs.deep_view().take(i as int));
            assert(vs.deep_view().take(i + 1).last() == vs.deep_view()[i as int]);
            if i == 0 {
                assert(s@ =~= deny_message_spec(vs.deep_view().take(1)));
            } else {
                assert(s@ =~= deny_message_spec(vs.deep_view().take(i + 1)));
            }
        }
        i = i + 1;
    }
    proof {
        assert(vs.deep_view().take(vs.len() as int) =~= vs.deep_view());
    }
    s
}

/// Parses one deny rule value. Exactly `all`, `added`, `changed` and
/// `removed` are valid values; anything else is rejected.
pub fn parse_deny_rule(s: &str) -> (r: Option<DenyRule>)
    ensures
        (r == Some(DenyRule::All)) <==> s@ == "all"@,
        (r == Some(DenyRule::Added)) <==> s@ == "added"@,
        (r == Some(DenyRule::Changed)) <==> s@ == "changed"@,
        (r == Some(DenyRule::Removed)) <==> s@ == "removed"@,
        (r is None) <==> (s@ != "all"@ && s@ != "added"@ && s@ != "changed"@ && s@
            != "removed"@),
{
    proof {
        reveal_strlit("all");
        reveal_strlit("added");
        reveal_strlit("changed");
        reveal_strlit("removed");
        crate::item::lemma_lex_cmp_eq(s@, "all"@);
        crate::item::lemma_lex_cmp_eq(s@, "added"@);
        crate::item::lemma_lex_cmp_eq(s@, "changed"@);
        crate::item::lemma_lex_cmp_eq(s@, "removed"@);
    }
    if matches!(crate::item::str_cmp(s, "all"), core::cmp::Ordering::Equal) {
        Some(DenyRule::All)
    } else if matches!(crate::item::str_cmp(s, "added"), core::cmp::Ordering::Equal) {
        Some(DenyRule::Added)
    } else if matches!(crate::item::str_cmp(s, "changed"), core::cmp::Ordering::Equal) {
        Some(DenyRule::Changed)
    } else if matches!(crate::item::str_cmp(s, "removed"), core::cmp::Ordering::Equal) {
        Some(DenyRule::Removed)
    } else {
        None
    }
}

/// Checks the usage rule that deny rules may only accompany a diff. Returns
/// the usage error message when they do not.
pub fn deny_usage_error(is_diffing: bool, has_deny_rules: bool) -> (r: Option<String>)
    ensures
        r is Some <==> (!is_diffing && has_deny_rules),
        match r {
            Some(m) => m@ == "`--deny` can only be used when diffing"@,
            None => true,
        },
{
    if !is_diffing && has_deny_rules {
        Some("`--deny` can only be used when diffing".to_owned())
    } else {
        None
    }
}

} // verus!
