//! Custom rules: `#[rule(function(0, 1))]` on a struct binds a predicate of
//! the user to the fields at the given positions.
//!
//! A rule claims the fields it names. No field is claimed twice, neither
//! by two rules nor by one: the indices claimed so far are handed from
//! each rule to the next.

use vstd::prelude::*;
use crate::diagnostic::{
    diagnostic_views,
    Diagnostic,
    DiagnosticKind,
    DiagnosticKindView,
    DiagnosticView,
};
use crate::syntax::{
    lemma_meta_list_view,
    Attribute,
    AttributeView,
    LitValue,
    LitValueView,
    Meta,
    MetaList,
    MetaListView,
    MetaView,
    NestedMeta,
    NestedMetaView,
    Path,
    PathView,
};
use crate::validator::single;

verus! {

/// The positions that a vector of indices holds.
pub open spec fn positions(indices: Seq<usize>) -> Seq<nat> {
    Seq::new(indices.len(), |i: int| indices[i] as nat)
}

/// A custom rule: the function to call, and the fields whose values it is
/// called with, in this order.
#[derive(Debug, PartialEq, Eq)]
pub struct Rule {
    pub function: Path,
    pub args: Vec<usize>,
}

pub ghost struct RuleView {
    pub function: PathView,
    pub args: Seq<nat>,
}

impl View for Rule {
    type V = RuleView;

    open spec fn view(&self) -> RuleView {
        RuleView { function: self.function@, args: positions(self.args@) }
    }
}

/// The views of a vector of rules.
pub open spec fn rule_views(rules: Seq<Rule>) -> Seq<RuleView> {
    Seq::new(rules.len(), |i: int| rules[i]@)
}

/// The rules of a struct, and every field that one of them claims.
#[derive(Debug, PartialEq, Eq)]
pub struct Rules {
    /// The claimed fields, in the order in which the rules name them.
    pub fields: Vec<usize>,
    pub rules: Vec<Rule>,
}

pub ghost struct RulesView {
    pub fields: Seq<nat>,
    pub rules: Seq<RuleView>,
}

impl View for Rules {
    type V = RulesView;

    open spec fn view(&self) -> RulesView {
        RulesView { fields: positions(self.fields@), rules: rule_views(self.rules@) }
    }
}

/// The field that one argument of a rule's function names: an integer
/// literal that is the position of a field of the struct and that no rule
/// has claimed yet.
pub open spec fn rule_arg(item: NestedMetaView, field_count: nat, claimed: Seq<nat>) -> Result<
    nat,
    DiagnosticView,
> {
    match item {
        NestedMetaView::Lit(lit) => match lit.value {
            LitValueView::Int(index) => if index < 0 || index >= field_count {
                Err(
                    DiagnosticView {
                        kind: DiagnosticKindView::RuleIndexOutOfRange(index),
                        span: lit.span,
                    },
                )
            } else if claimed.contains(index as nat) {
                Err(
                    DiagnosticView {
                        kind: DiagnosticKindView::RuleFieldClaimedTwice(index as nat),
                        span: lit.span,
                    },
                )
            } else {
                Ok(index as nat)
            },
            _ => Err(
                DiagnosticView { kind: DiagnosticKindView::RuleAllowIndexArguments, span: lit.span },
            ),
        },
        NestedMetaView::Meta(meta) => Err(
            DiagnosticView { kind: DiagnosticKindView::RuleAllowIndexArguments, span: meta.span() },
        ),
    }
}

/// The arguments read so far, and what was wrong with the others.
pub ghost struct Arguments {
    pub args: Seq<nat>,
    pub errors: Seq<DiagnosticView>,
}

/// What the first `count` arguments of a rule's function give. An argument
/// is held against the fields claimed before the rule and by the arguments
/// before it.
pub open spec fn rule_args(
    nested: Seq<NestedMetaView>,
    count: nat,
    field_count: nat,
    claimed: Seq<nat>,
) -> Arguments
    decreases count,
{
    if count == 0 || count > nested.len() {
        Arguments { args: Seq::empty(), errors: Seq::empty() }
    } else {
        let before = rule_args(nested, (count - 1) as nat, field_count, claimed);
        match rule_arg(nested[count - 1], field_count, claimed + before.args) {
            Ok(index) => Arguments { args: before.args.push(index), ..before },
            Err(diagnostic) => Arguments { errors: before.errors.push(diagnostic), ..before },
        }
    }
}

/// The rule that the call `function(0, 1)` declares, or everything that is
/// wrong with it: that it has no argument, and each argument that names no
/// free field.
pub open spec fn rule_from_meta_list(list: MetaListView, field_count: nat, claimed: Seq<nat>) -> Result<
    RuleView,
    Seq<DiagnosticView>,
> {
    let read = rule_args(list.nested, list.nested.len(), field_count, claimed);
    let errors = (if list.nested.len() == 0 {
        seq![DiagnosticView { kind: DiagnosticKindView::RuleNeedArguments, span: list.path.span }]
    } else {
        Seq::empty()
    }) + read.errors;
    if errors.len() > 0 {
        Err(errors)
    } else {
        Ok(RuleView { function: list.path, args: read.args })
    }
}

/// One diagnostic for each item after the first among the first `count` items.
pub open spec fn second_functions(nested: Seq<NestedMetaView>, count: nat) -> Seq<DiagnosticView>
    decreases count,
{
    if count <= 1 || count > nested.len() {
        Seq::empty()
    } else {
        second_functions(nested, (count - 1) as nat).push(
            DiagnosticView {
                kind: DiagnosticKindView::RuleAllowSingleFunction,
                span: nested[count - 1].span(),
            },
        )
    }
}

/// What the first item of `rule(..)` gives: a function call gives a rule.
pub open spec fn rule_call(item: NestedMetaView, field_count: nat, claimed: Seq<nat>) -> Result<
    RuleView,
    Seq<DiagnosticView>,
> {
    match item {
        NestedMetaView::Meta(MetaView::List(list)) => rule_from_meta_list(
            list,
            field_count,
            claimed,
        ),
        NestedMetaView::Meta(MetaView::NameValue(name_value)) => Err(
            seq![
                DiagnosticView {
                    kind: DiagnosticKindView::MetaNameValueNotSupport,
                    span: name_value.span,
                },
            ],
        ),
        NestedMetaView::Meta(MetaView::Path(path)) => Err(
            seq![DiagnosticView { kind: DiagnosticKindView::MetaPathNotSupport, span: path.span }],
        ),
        NestedMetaView::Lit(lit) => Err(
            seq![DiagnosticView { kind: DiagnosticKindView::LiteralNotSupport, span: lit.span }],
        ),
    }
}

/// The rule that `rule(..)` declares: it holds exactly one function call.
/// Everything that is wrong is reported: first each item after the first,
/// then what is wrong with the first.
pub open spec fn rule_of(list: MetaListView, field_count: nat, claimed: Seq<nat>) -> Result<
    RuleView,
    Seq<DiagnosticView>,
> {
    if list.nested.len() == 0 {
        Err(seq![DiagnosticView { kind: DiagnosticKindView::RuleNeedFunction, span: list.path.span }])
    } else {
        let errors = second_functions(list.nested, list.nested.len());
        match rule_call(list.nested[0], field_count, claimed) {
            Ok(rule) => if errors.len() == 0 {
                Ok(rule)
            } else {
                Err(errors)
            },
            Err(rule_errors) => Err(errors + rule_errors),
        }
    }
}

/// What has been collected from the attributes read so far.
pub ghost struct Collected {
    pub fields: Seq<nat>,
    pub rules: Seq<RuleView>,
    pub errors: Seq<DiagnosticView>,
}

/// What one attribute of a struct adds: a `rule` attribute its rule and the
/// fields it claims, or what is wrong with it; a `validate` attribute
/// nothing; any other attribute an error.
pub open spec fn collect_step(so_far: Collected, attribute: AttributeView, field_count: nat) -> Collected {
    if attribute.path.is_ident("rule"@) {
        match attribute.meta {
            Ok(MetaView::List(list)) => match rule_of(list, field_count, so_far.fields) {
                Ok(rule) => Collected {
                    fields: so_far.fields + rule.args,
                    rules: so_far.rules.push(rule),
                    ..so_far
                },
                Err(rule_errors) => Collected { errors: so_far.errors + rule_errors, ..so_far },
            },
            Ok(_) => Collected {
                errors: so_far.errors.push(
                    DiagnosticView {
                        kind: DiagnosticKindView::RuleNeedFunction,
                        span: attribute.path.span,
                    },
                ),
                ..so_far
            },
            Err(complaint) => Collected {
                errors: so_far.errors.push(
                    DiagnosticView {
                        kind: DiagnosticKindView::AttributeParse(complaint),
                        span: attribute.span,
                    },
                ),
                ..so_far
            },
        }
    } else if attribute.path.is_ident("validate"@) {
        so_far
    } else {
        Collected {
            errors: so_far.errors.push(
                DiagnosticView {
                    kind: DiagnosticKindView::ExpectedConstraintOrRule,
                    span: attribute.span,
                },
            ),
            ..so_far
        }
    }
}

/// What the first `count` attributes of a struct give.
pub open spec fn collect(attributes: Seq<AttributeView>, count: nat, field_count: nat) -> Collected
    decreases count,
{
    if count == 0 || count > attributes.len() {
        Collected { fields: Seq::empty(), rules: Seq::empty(), errors: Seq::empty() }
    } else {
        collect_step(
            collect(attributes, (count - 1) as nat, field_count),
            attributes[count - 1],
            field_count,
        )
    }
}

/// The rules of a struct with `field_count` fields, or everything that is
/// wrong with its attributes.
pub open spec fn rules_of(attributes: Seq<AttributeView>, field_count: nat) -> Result<
    RulesView,
    Seq<DiagnosticView>,
> {
    let all = collect(attributes, attributes.len(), field_count);
    if all.errors.len() == 0 {
        Ok(RulesView { fields: all.fields, rules: all.rules })
    } else {
        Err(all.errors)
    }
}

/// The views of a vector of attributes.
pub open spec fn attribute_views(attributes: Seq<Attribute>) -> Seq<AttributeView> {
    Seq::new(attributes.len(), |i: int| attributes[i]@)
}

/// Whether the result of a rule extractor is the one that a specification names.
pub open spec fn same_rule(
    found: Result<Rule, Vec<Diagnostic>>,
    expected: Result<RuleView, Seq<DiagnosticView>>,
) -> bool {
    match found {
        Ok(rule) => expected == Ok::<RuleView, Seq<DiagnosticView>>(rule@),
        Err(diagnostics) => expected == Err::<RuleView, Seq<DiagnosticView>>(
            diagnostic_views(diagnostics@),
        ),
    }
}

fn holds(indices: &Vec<usize>, index: usize) -> (found: bool)
    ensures
        found == positions(indices@).contains(index as nat),
{
    let mut i: usize = 0;
    while i < indices.len()
        invariant
            i <= indices.len(),
            forall|j: int| 0 <= j < i ==> positions(indices@)[j] != index as nat,
        decreases indices.len() - i,
    {
        if indices[i] == index {
            assert(positions(indices@)[i as int] == index as nat);
            return true;
        }
        i = i + 1;
    }
    false
}

fn claim(fields: &mut Vec<usize>, args: &Vec<usize>)
    ensures
        positions(final(fields)@) == positions(old(fields)@) + positions(args@),
{
    let ghost before = positions(fields@);
    let mut k: usize = 0;
    assert(positions(args@).take(0) =~= Seq::<nat>::empty());
    assert(before + Seq::<nat>::empty() =~= before);
    while k < args.len()
        invariant
            k <= args.len(),
            positions(fields@) == before + positions(args@).take(k as int),
        decreases args.len() - k,
    {
        let ghost so_far = positions(fields@);
        fields.push(args[k]);
        proof {
            assert(positions(fields@) =~= so_far.push(args@[k as int] as nat));
            assert(positions(args@).take(k + 1) =~= positions(args@).take(k as int).push(
                args@[k as int] as nat,
            ));
            assert(positions(fields@) =~= before + positions(args@).take(k + 1));
        }
        k = k + 1;
    }
    proof {
        assert(positions(args@).take(args.len() as int) =~= positions(args@));
    }
}

fn extract_rule_from_meta_list(list: &MetaList, field_count: usize, claimed: &Vec<usize>) -> (rule:
    Result<Rule, Vec<Diagnostic>>)
    ensures
        same_rule(rule, rule_from_meta_list(list@, field_count as nat, positions(claimed@))),
{
    broadcast use lemma_meta_list_view;

    let mut errors: Vec<Diagnostic> = Vec::new();
    if list.nested.len() == 0 {
        errors.push(Diagnostic { kind: DiagnosticKind::RuleNeedArguments, span: list.path.span });
    }
    let ghost head = diagnostic_views(errors@);
    let ghost taken = positions(claimed@);
    let mut args: Vec<usize> = Vec::new();
    let mut i: usize = 0;
    while i < list.nested.len()
        invariant
            i <= list.nested.len(),
            list@.nested.len() == list.nested.len(),
            taken == positions(claimed@),
            positions(args@) == rule_args(list@.nested, i as nat, field_count as nat, taken).args,
            diagnostic_views(errors@) == head + rule_args(
                list@.nested,
                i as nat,
                field_count as nat,
                taken,
            ).errors,
        decreases list.nested.len() - i,
    {
        proof {
            assert(list@.nested[i as int] == list.nested@[i as int]@);
        }
        let ghost args_before = positions(args@);
        let ghost errors_before = diagnostic_views(errors@);
        let ghost step = rule_arg(list@.nested[i as int], field_count as nat, taken + args_before);
        let arg: Result<usize, Diagnostic> = match &list.nested[i] {
            NestedMeta::Lit(lit) => match &lit.value {
                LitValue::Int(value) => {
                    if *value < 0 || *value >= field_count as i128 {
                        Err(
                            Diagnostic {
                                kind: DiagnosticKind::RuleIndexOutOfRange(*value),
                                span: lit.span,
                            },
                        )
                    } else {
                        let index = *value as usize;
                        proof {
                            assert((taken + args_before).contains(index as nat) <==> (
                            taken.contains(index as nat) || args_before.contains(index as nat))) by {
                                if taken.contains(index as nat) {
                                    let k = choose|k: int|
                                        0 <= k < taken.len() && taken[k] == index as nat;
                                    assert((taken + args_before)[k] == index as nat);
                                }
                                if args_before.contains(index as nat) {
                                    let k = choose|k: int|
                                        0 <= k < args_before.len() && args_before[k]
                                            == index as nat;
                                    assert((taken + args_before)[taken.len() + k] == index as nat);
                                }
                            }
                        }
                        if holds(claimed, index) || holds(&args, index) {
                            Err(
                                Diagnostic {
                                    kind: DiagnosticKind::RuleFieldClaimedTwice(index),
                                    span: lit.span,
                                },
                            )
                        } else {
                            Ok(index)
                        }
                    }
                },
                _ => Err(
                    Diagnostic { kind: DiagnosticKind::RuleAllowIndexArguments, span: lit.span },
                ),
            },
            NestedMeta::Meta(meta) => Err(
                Diagnostic { kind: DiagnosticKind::RuleAllowIndexArguments, span: meta.span() },
            ),
        };
        match arg {
            Ok(index) => {
                assert(step == Ok::<nat, DiagnosticView>(index as nat));
                args.push(index);
                proof {
                    assert(positions(args@) =~= args_before.push(index as nat));
                }
            },
            Err(diagnostic) => {
                assert(step == Err::<nat, DiagnosticView>(diagnostic@));
                errors.push(diagnostic);
                proof {
                    assert(diagnostic_views(errors@) =~= errors_before.push(diagnostic@));
                    assert(diagnostic_views(errors@) =~= head + rule_args(
                        list@.nested,
                        (i + 1) as nat,
                        field_count as nat,
                        taken,
                    ).errors);
                }
            },
        }
        i = i + 1;
    }
    proof {
        assert(head =~= if list@.nested.len() == 0 {
            seq![
                DiagnosticView {
                    kind: DiagnosticKindView::RuleNeedArguments,
                    span: list@.path.span,
                },
            ]
        } else {
            Seq::empty()
        });
    }
    if errors.len() > 0 {
        return Err(errors);
    }
    Ok(Rule { function: list.path.clone(), args })
}

fn collect_rule(list: &MetaList, field_count: usize, claimed: &Vec<usize>) -> (rule: Result<
    Rule,
    Vec<Diagnostic>,
>)
    ensures
        same_rule(rule, rule_of(list@, field_count as nat, positions(claimed@))),
{
    broadcast use lemma_meta_list_view;

    if list.nested.len() == 0 {
        return Err(
            single(Diagnostic { kind: DiagnosticKind::RuleNeedFunction, span: list.path.span }),
        );
    }
    let mut errors: Vec<Diagnostic> = Vec::new();
    let mut i: usize = 1;
    assert(diagnostic_views(errors@) =~= second_functions(list@.nested, 1));
    while i < list.nested.len()
        invariant
            1 <= i <= list.nested.len(),
            list@.nested.len() == list.nested.len(),
            diagnostic_views(errors@) == second_functions(list@.nested, i as nat),
        decreases list.nested.len() - i,
    {
        let ghost before = diagnostic_views(errors@);
        proof {
            assert(list@.nested[i as int] == list.nested@[i as int]@);
        }
        errors.push(
            Diagnostic { kind: DiagnosticKind::RuleAllowSingleFunction, span: list.nested[i].span() },
        );
        proof {
            assert(diagnostic_views(errors@) =~= before.push(
                DiagnosticView {
                    kind: DiagnosticKindView::RuleAllowSingleFunction,
                    span: list@.nested[i as int].span(),
                },
            ));
        }
        i = i + 1;
    }
    proof {
        assert(list@.nested[0] == list.nested@[0]@);
    }
    let rule = match &list.nested[0] {
        NestedMeta::Meta(meta) => match meta {
            Meta::List(call) => extract_rule_from_meta_list(call, field_count, claimed),
            Meta::NameValue(name_value) => Err(
                single(
                    Diagnostic {
                        kind: DiagnosticKind::MetaNameValueNotSupport,
                        span: name_value.span,
                    },
                ),
            ),
            Meta::Path(path) => Err(
                single(Diagnostic { kind: DiagnosticKind::MetaPathNotSupport, span: path.span }),
            ),
        },
        NestedMeta::Lit(lit) => Err(
            single(Diagnostic { kind: DiagnosticKind::LiteralNotSupport, span: lit.span }),
        ),
    };
    match rule {
        Ok(rule) => {
            if errors.len() == 0 {
                Ok(rule)
            } else {
                Err(errors)
            }
        },
        Err(mut rule_errors) => {
            let ghost head = diagnostic_views(errors@);
            let ghost tail = diagnostic_views(rule_errors@);
            errors.append(&mut rule_errors);
            proof {
                assert(diagnostic_views(errors@) =~= head + tail);
            }
            Err(errors)
        },
    }
}

/// Collects the rules of a struct with `field_count` fields from its attributes.
///
/// Succeeds exactly when nothing is wrong with any attribute; the
/// diagnostics are otherwise those of every attribute, in order.
pub fn collect_rules_from_unnamed_struct(attributes: &Vec<Attribute>, field_count: usize) -> (rules:
    Result<Rules, Vec<Diagnostic>>)
    ensures
        match rules {
            Ok(found) => rules_of(attribute_views(attributes@), field_count as nat) == Ok::<
                RulesView,
                Seq<DiagnosticView>,
            >(found@),
            Err(diagnostics) => rules_of(attribute_views(attributes@), field_count as nat) == Err::<
                RulesView,
                Seq<DiagnosticView>,
            >(diagnostic_views(diagnostics@)),
        },
{
    broadcast use lemma_meta_list_view;

    let ghost all = attribute_views(attributes@);
    let mut errors: Vec<Diagnostic> = Vec::new();
    let mut rule_fields: Vec<usize> = Vec::new();
    let mut rules: Vec<Rule> = Vec::new();
    let mut i: usize = 0;
    assert(positions(rule_fields@) =~= Seq::<nat>::empty());
    assert(rule_views(rules@) =~= Seq::<RuleView>::empty());
    assert(diagnostic_views(errors@) =~= Seq::<DiagnosticView>::empty());
    while i < attributes.len()
        invariant
            i <= attributes.len(),
            all == attribute_views(attributes@),
            collect(all, i as nat, field_count as nat) == (Collected {
                fields: positions(rule_fields@),
                rules: rule_views(rules@),
                errors: diagnostic_views(errors@),
            }),
        decreases attributes.len() - i,
    {
        let attribute = &attributes[i];
        let ghost fields_before = positions(rule_fields@);
        let ghost rules_before = rule_views(rules@);
        let ghost errors_before = diagnostic_views(errors@);
        proof {
            assert(all[i as int] == attribute@);
        }
        if attribute.path.is_ident("rule") {
            match &attribute.meta {
                Ok(Meta::List(list)) => match collect_rule(list, field_count, &rule_fields) {
                    Ok(rule) => {
                        claim(&mut rule_fields, &rule.args);
                        let ghost rule_view = rule@;
                        rules.push(rule);
                        proof {
                            assert(rule_views(rules@) =~= rules_before.push(rule_view));
                        }
                    },
                    Err(mut rule_errors) => {
                        let ghost tail = diagnostic_views(rule_errors@);
                        proof {
                            lemma_meta_list_view(*list);
                        }
                        errors.append(&mut rule_errors);
                        proof {
                            assert(diagnostic_views(errors@) =~= errors_before + tail);
                        }
                    },
                },
                Ok(_) => {
                    errors.push(
                        Diagnostic {
                            kind: DiagnosticKind::RuleNeedFunction,
                            span: attribute.path.span,
                        },
                    );
                    proof {
                        assert(diagnostic_views(errors@) =~= errors_before.push(
                            DiagnosticView {
                                kind: DiagnosticKindView::RuleNeedFunction,
                                span: attribute.path.span,
                            },
                        ));
                    }
                },
                Err(error) => {
                    errors.push(
                        Diagnostic {
                            kind: DiagnosticKind::AttributeParse(error.clone()),
                            span: attribute.span,
                        },
                    );
                    proof {
                        assert(diagnostic_views(errors@) =~= errors_before.push(
                            DiagnosticView {
                                kind: DiagnosticKindView::AttributeParse(error@),
                                span: attribute.span,
                            },
                        ));
                    }
                },
            }
        } else if attribute.path.is_ident("validate") {
        } else {
            errors.push(
                Diagnostic { kind: DiagnosticKind::ExpectedConstraintOrRule, span: attribute.span },
            );
            proof {
                assert(diagnostic_views(errors@) =~= errors_before.push(
                    DiagnosticView {
                        kind: DiagnosticKindView::ExpectedConstraintOrRule,
                        span: attribute.span,
                    },
                ));
            }
        }
        i = i + 1;
    }
    if errors.len() == 0 {
        Ok(Rules { fields: rule_fields, rules })
    } else {
        Err(errors)
    }
}

/// The fields that the rules claim, in the order in which they name them.
pub open spec fn claims(rules: Seq<RuleView>) -> Seq<nat>
    decreases rules.len(),
{
    if rules.len() == 0 {
        Seq::empty()
    } else {
        claims(rules.drop_last()) + rules.last().args
    }
}

proof fn lemma_args_claim_once(
    nested: Seq<NestedMetaView>,
    count: nat,
    field_count: nat,
    claimed: Seq<nat>,
)
    requires
        claimed.no_duplicates(),
    ensures
        (claimed + rule_args(nested, count, field_count, claimed).args).no_duplicates(),
    decreases count,
{
    if count == 0 || count > nested.len() {
        assert(claimed + Seq::<nat>::empty() =~= claimed);
    } else {
        lemma_args_claim_once(nested, (count - 1) as nat, field_count, claimed);
        let before = rule_args(nested, (count - 1) as nat, field_count, claimed);
        match rule_arg(nested[count - 1], field_count, claimed + before.args) {
            Ok(index) => {
                let all = claimed + before.args;
                assert(claimed + before.args.push(index) =~= all.push(index));
                assert forall|i: int, j: int|
                    0 <= i < all.push(index).len() && 0 <= j < all.push(index).len() && i
                        != j implies all.push(index)[i] != all.push(index)[j] by {
                    if i < all.len() && j < all.len() {
                    } else if i < all.len() {
                        assert(all[i] != index);
                    } else if j < all.len() {
                        assert(all[j] != index);
                    }
                }
            },
            Err(_) => {},
        }
    }
}

proof fn lemma_collect_claims_once(attributes: Seq<AttributeView>, count: nat, field_count: nat)
    ensures
        collect(attributes, count, field_count).fields.no_duplicates(),
        collect(attributes, count, field_count).fields == claims(
            collect(attributes, count, field_count).rules,
        ),
    decreases count,
{
    if count == 0 || count > attributes.len() {
    } else {
        lemma_collect_claims_once(attributes, (count - 1) as nat, field_count);
        let so_far = collect(attributes, (count - 1) as nat, field_count);
        let attribute = attributes[count - 1];
        if attribute.path.is_ident("rule"@) {
            match attribute.meta {
                Ok(MetaView::List(list)) => {
                    match rule_of(list, field_count, so_far.fields) {
                        Ok(rule) => {
                            match list.nested[0] {
                                NestedMetaView::Meta(MetaView::List(call)) => {
                                    lemma_args_claim_once(
                                        call.nested,
                                        call.nested.len(),
                                        field_count,
                                        so_far.fields,
                                    );
                                },
                                _ => {},
                            }
                            assert(so_far.rules.push(rule).drop_last() =~= so_far.rules);
                        },
                        Err(_) => {},
                    }
                },
                _ => {},
            }
        }
    }
}

/// Where the rules of a struct compile, no field is claimed twice: the
/// claimed fields are the arguments of the rules, in order, and no index
/// occurs twice among them. So two rule declarations that claim one field
/// never compile together.
pub proof fn lemma_rules_claim_once(attributes: Seq<AttributeView>, field_count: nat)
    ensures
        rules_of(attributes, field_count) matches Ok(rules) ==> rules.fields.no_duplicates()
            && rules.fields == claims(rules.rules),
{
    lemma_collect_claims_once(attributes, attributes.len(), field_count);
}

/// A field that a rule names is among the claims of the rules.
proof fn lemma_claims_hold(rules: Seq<RuleView>, which: int, index: nat)
    requires
        0 <= which < rules.len(),
        rules[which].args.contains(index),
    ensures
        claims(rules).contains(index),
    decreases rules.len(),
{
    let before = claims(rules.drop_last());
    if which == rules.len() - 1 {
        let at = choose|at: int| 0 <= at < rules[which].args.len() && rules[which].args[at] == index;
        assert(claims(rules)[before.len() + at] == index);
    } else {
        assert(rules.drop_last()[which] == rules[which]);
        lemma_claims_hold(rules.drop_last(), which, index);
        let at = choose|at: int| 0 <= at < before.len() && before[at] == index;
        assert(claims(rules)[at] == index);
    }
}

/// Where two rules name one field, a field stands twice among the claims.
proof fn lemma_shared_claim_repeats(rules: Seq<RuleView>, first: int, second: int, index: nat)
    requires
        0 <= first < second < rules.len(),
        rules[first].args.contains(index),
        rules[second].args.contains(index),
    ensures
        !claims(rules).no_duplicates(),
    decreases rules.len(),
{
    let earlier = rules.drop_last();
    let before = claims(earlier);
    if second == rules.len() - 1 {
        assert(earlier[first] == rules[first]);
        lemma_claims_hold(earlier, first, index);
        let i = choose|i: int| 0 <= i < before.len() && before[i] == index;
        let j = choose|j: int|
            0 <= j < rules[second].args.len() && rules[second].args[j] == index;
        assert(claims(rules)[i] == index);
        assert(claims(rules)[before.len() + j] == index);
    } else {
        assert(earlier[first] == rules[first]);
        assert(earlier[second] == rules[second]);
        lemma_shared_claim_repeats(earlier, first, second, index);
        let i = choose|i: int, j: int|
            0 <= i < before.len() && 0 <= j < before.len() && i != j && before[i] == before[j];
        assert(claims(rules)[i.0] == before[i.0]);
        assert(claims(rules)[i.1] == before[i.1]);
    }
}

/// Two rule declarations on one struct never claim the same field: where
/// the rules compile, a field that one rule names is named by no other.
pub proof fn lemma_no_shared_claim(
    attributes: Seq<AttributeView>,
    field_count: nat,
    first: int,
    second: int,
    index: nat,
)
    requires
        rules_of(attributes, field_count) is Ok,
        0 <= first < second < rules_of(attributes, field_count)->Ok_0.rules.len(),
        rules_of(attributes, field_count)->Ok_0.rules[first].args.contains(index),
    ensures
        !rules_of(attributes, field_count)->Ok_0.rules[second].args.contains(index),
{
    let rules = rules_of(attributes, field_count)->Ok_0;
    lemma_rules_claim_once(attributes, field_count);
    if rules.rules[second].args.contains(index) {
        lemma_shared_claim_repeats(rules.rules, first, second, index);
    }
}

} // verus!
