//! The registry of rules: the groups in the order of their identifiers, and
//! in each group the rules in the order of their names, no identifier and
//! no name twice.

use crate::group::{is_known_group, known_group};
use crate::lint::Diagnostic;
use crate::order::{
    lemma_lex_irreflexive, lemma_lex_total, lemma_lex_transitive, lex_less, str_less,
};
use crate::page::RuleMetadata;
use crate::text::str_eq;
use vstd::prelude::*;

verus! {

/// A rule as it is handed in: what the registry knows of it and, for each
/// example of its documentation that is analyzed, in their order, the
/// diagnostics that the snippet gave.
#[derive(Debug, PartialEq, Eq)]
pub struct RuleEntry {
    pub meta: RuleMetadata,
    pub outcomes: Vec<Vec<Diagnostic>>,
}

/// A group of rules: its identifier and its rules.
#[derive(Debug, PartialEq, Eq)]
pub struct RuleGroup {
    pub name: String,
    pub rules: Vec<RuleEntry>,
}

/// A group of rules, as contracts speak of it.
pub struct RuleGroupView {
    pub name: Seq<char>,
    pub rules: Seq<RuleEntry>,
}

impl View for RuleGroup {
    type V = RuleGroupView;

    open spec fn view(&self) -> RuleGroupView {
        RuleGroupView { name: self.name@, rules: self.rules@ }
    }
}

/// Whether some rules stand in the order of their names, none twice.
pub open spec fn rules_sorted(rules: Seq<RuleEntry>) -> bool {
    forall|i: int, j: int|
        0 <= i < j < rules.len() ==> lex_less(
            (#[trigger] rules[i]).meta.name@,
            (#[trigger] rules[j]).meta.name@,
        )
}

/// Whether some groups stand in the order of their identifiers, none
/// twice, the rules of each in the order of their names.
pub open spec fn groups_sorted(groups: Seq<RuleGroupView>) -> bool {
    &&& forall|i: int, j: int|
        0 <= i < j < groups.len() ==> lex_less(
            (#[trigger] groups[i]).name,
            (#[trigger] groups[j]).name,
        )
    &&& forall|i: int| 0 <= i < groups.len() ==> rules_sorted((#[trigger] groups[i]).rules)
}

/// The place of a name among rules in order: the number of rules whose
/// names come before it.
pub open spec fn rule_slot(rules: Seq<RuleEntry>, name: Seq<char>) -> int
    decreases rules.len(),
{
    if rules.len() == 0 || !lex_less(rules[0].meta.name@, name) {
        0
    } else {
        1 + rule_slot(rules.skip(1), name)
    }
}

/// The place of an identifier among groups in order: the number of groups
/// whose identifiers come before it.
pub open spec fn group_slot(groups: Seq<RuleGroupView>, name: Seq<char>) -> int
    decreases groups.len(),
{
    if groups.len() == 0 || !lex_less(groups[0].name, name) {
        0
    } else {
        1 + group_slot(groups.skip(1), name)
    }
}

/// Some rules with one more recorded: it takes the place of the rule of its
/// name, or stands at the place of its name where there is none.
pub open spec fn with_rule(rules: Seq<RuleEntry>, entry: RuleEntry) -> Seq<RuleEntry> {
    let slot = rule_slot(rules, entry.meta.name@);
    if slot < rules.len() && rules[slot].meta.name@ == entry.meta.name@ {
        rules.update(slot, entry)
    } else {
        rules.insert(slot, entry)
    }
}

/// Some groups with one more rule recorded in a group: in the group of that
/// identifier, or in a new group at the place of the identifier where
/// there is none.
pub open spec fn with_group_rule(
    groups: Seq<RuleGroupView>,
    group: Seq<char>,
    entry: RuleEntry,
) -> Seq<RuleGroupView> {
    let slot = group_slot(groups, group);
    if slot < groups.len() && groups[slot].name == group {
        groups.update(
            slot,
            RuleGroupView { name: group, rules: with_rule(groups[slot].rules, entry) },
        )
    } else {
        groups.insert(slot, RuleGroupView { name: group, rules: seq![entry] })
    }
}

/// The place of a name lies among the rules; every rule before it has a
/// name that comes before the name, and the rule at it, if there is one,
/// has not.
pub proof fn lemma_rule_slot(rules: Seq<RuleEntry>, name: Seq<char>)
    ensures
        0 <= rule_slot(rules, name) <= rules.len(),
        forall|i: int|
            0 <= i < rule_slot(rules, name) ==> lex_less((#[trigger] rules[i]).meta.name@, name),
        rule_slot(rules, name) < rules.len() ==> !lex_less(
            rules[rule_slot(rules, name)].meta.name@,
            name,
        ),
    decreases rules.len(),
{
    if rules.len() > 0 && lex_less(rules[0].meta.name@, name) {
        let rest = rules.skip(1);
        lemma_rule_slot(rest, name);
        assert forall|i: int| 0 <= i < rule_slot(rules, name) implies lex_less(
            (#[trigger] rules[i]).meta.name@,
            name,
        ) by {
            if i > 0 {
                assert(rules[i] == rest[i - 1]);
            }
        }
        if rule_slot(rules, name) < rules.len() {
            assert(rules[rule_slot(rules, name)] == rest[rule_slot(rest, name)]);
        }
    }
}

/// The place of an identifier lies among the groups; every group before it
/// has an identifier that comes before the identifier, and the group at
/// it, if there is one, has not.
pub proof fn lemma_group_slot(groups: Seq<RuleGroupView>, name: Seq<char>)
    ensures
        0 <= group_slot(groups, name) <= groups.len(),
        forall|i: int|
            0 <= i < group_slot(groups, name) ==> lex_less((#[trigger] groups[i]).name, name),
        group_slot(groups, name) < groups.len() ==> !lex_less(
            groups[group_slot(groups, name)].name,
            name,
        ),
    decreases groups.len(),
{
    if groups.len() > 0 && lex_less(groups[0].name, name) {
        let rest = groups.skip(1);
        lemma_group_slot(rest, name);
        assert forall|i: int| 0 <= i < group_slot(groups, name) implies lex_less(
            (#[trigger] groups[i]).name,
            name,
        ) by {
            if i > 0 {
                assert(groups[i] == rest[i - 1]);
            }
        }
        if group_slot(groups, name) < groups.len() {
            assert(groups[group_slot(groups, name)] == rest[group_slot(rest, name)]);
        }
    }
}

/// Recording a rule keeps the rules in order.
pub proof fn lemma_with_rule_sorted(rules: Seq<RuleEntry>, entry: RuleEntry)
    requires
        rules_sorted(rules),
    ensures
        rules_sorted(with_rule(rules, entry)),
{
    let name = entry.meta.name@;
    let slot = rule_slot(rules, name);
    let after = with_rule(rules, entry);
    lemma_rule_slot(rules, name);
    if slot < rules.len() && rules[slot].meta.name@ == name {
        assert forall|i: int, j: int| 0 <= i < j < after.len() implies lex_less(
            (#[trigger] after[i]).meta.name@,
            (#[trigger] after[j]).meta.name@,
        ) by {
            assert(after[i].meta.name@ == rules[i].meta.name@);
            assert(after[j].meta.name@ == rules[j].meta.name@);
        }
    } else {
        assert forall|i: int, j: int| 0 <= i < j < after.len() implies lex_less(
            (#[trigger] after[i]).meta.name@,
            (#[trigger] after[j]).meta.name@,
        ) by {
            if j < slot {
                assert(after[i] == rules[i] && after[j] == rules[j]);
            } else if j == slot {
                assert(after[i] == rules[i]);
            } else if i == slot {
                assert(after[j] == rules[j - 1]);
                let first = rules[slot].meta.name@;
                lemma_lex_total(name, first);
                if j - 1 > slot {
                    lemma_lex_transitive(name, first, rules[j - 1].meta.name@);
                }
            } else if i < slot {
                assert(after[i] == rules[i] && after[j] == rules[j - 1]);
            } else {
                assert(after[i] == rules[i - 1] && after[j] == rules[j - 1]);
            }
        }
    }
}

/// Recording a rule keeps the groups, and the rules of each, in order.
pub proof fn lemma_with_group_rule_sorted(
    groups: Seq<RuleGroupView>,
    group: Seq<char>,
    entry: RuleEntry,
)
    requires
        groups_sorted(groups),
    ensures
        groups_sorted(with_group_rule(groups, group, entry)),
{
    let slot = group_slot(groups, group);
    let after = with_group_rule(groups, group, entry);
    lemma_group_slot(groups, group);
    if slot < groups.len() && groups[slot].name == group {
        lemma_with_rule_sorted(groups[slot].rules, entry);
        assert forall|i: int, j: int| 0 <= i < j < after.len() implies lex_less(
            (#[trigger] after[i]).name,
            (#[trigger] after[j]).name,
        ) by {
            assert(after[i].name == groups[i].name);
            assert(after[j].name == groups[j].name);
        }
        assert forall|i: int| 0 <= i < after.len() implies rules_sorted(
            (#[trigger] after[i]).rules,
        ) by {
            if i != slot {
                assert(after[i] == groups[i]);
            }
        }
    } else {
        assert forall|i: int, j: int| 0 <= i < j < after.len() implies lex_less(
            (#[trigger] after[i]).name,
            (#[trigger] after[j]).name,
        ) by {
            if j < slot {
                assert(after[i] == groups[i] && after[j] == groups[j]);
            } else if j == slot {
                assert(after[i] == groups[i]);
            } else if i == slot {
                assert(after[j] == groups[j - 1]);
                let first = groups[slot].name;
                lemma_lex_total(group, first);
                if j - 1 > slot {
                    lemma_lex_transitive(group, first, groups[j - 1].name);
                }
            } else if i < slot {
                assert(after[i] == groups[i] && after[j] == groups[j - 1]);
            } else {
                assert(after[i] == groups[i - 1] && after[j] == groups[j - 1]);
            }
        }
        assert forall|i: int| 0 <= i < after.len() implies rules_sorted(
            (#[trigger] after[i]).rules,
        ) by {
            if i < slot {
                assert(after[i] == groups[i]);
            } else if i > slot {
                assert(after[i] == groups[i - 1]);
            }
        }
    }
}

/// Whether some groups hold a rule in the group of an identifier.
pub open spec fn holds(groups: Seq<RuleGroupView>, group: Seq<char>, entry: RuleEntry) -> bool {
    exists|i: int|
        0 <= i < groups.len() && (#[trigger] groups[i]).name == group && groups[i].rules.contains(
            entry,
        )
}

/// Rules in order have names that differ from one another.
proof fn lemma_sorted_names_differ(rules: Seq<RuleEntry>, i: int, j: int)
    requires
        rules_sorted(rules),
        0 <= i < rules.len(),
        0 <= j < rules.len(),
        i != j,
    ensures
        rules[i].meta.name@ != rules[j].meta.name@,
{
    lemma_lex_irreflexive(rules[i].meta.name@);
    if i < j {
        assert(lex_less(rules[i].meta.name@, rules[j].meta.name@));
    } else {
        assert(lex_less(rules[j].meta.name@, rules[i].meta.name@));
    }
}

/// Where no rule has a name, the name has its place before every rule from
/// that place on.
proof fn lemma_free_slot(rules: Seq<RuleEntry>, name: Seq<char>, j: int)
    requires
        rules_sorted(rules),
        0 <= j < rules.len(),
        !(rule_slot(rules, name) < rules.len() && rules[rule_slot(rules, name)].meta.name@ == name),
    ensures
        rules[j].meta.name@ != name,
{
    let slot = rule_slot(rules, name);
    lemma_rule_slot(rules, name);
    lemma_lex_irreflexive(name);
    if j < slot {
        assert(lex_less(rules[j].meta.name@, name));
    } else {
        let first = rules[slot].meta.name@;
        lemma_lex_total(name, first);
        if j > slot {
            assert(lex_less(rules[slot].meta.name@, rules[j].meta.name@));
            lemma_lex_transitive(name, first, rules[j].meta.name@);
        }
    }
}

/// Recording a rule among rules in order puts it there, drops the rule of
/// its name if there was one, and keeps every other rule.
pub proof fn lemma_with_rule_holds(rules: Seq<RuleEntry>, entry: RuleEntry, other: RuleEntry)
    requires
        rules_sorted(rules),
    ensures
        with_rule(rules, entry).contains(other) <==> (other == entry || (rules.contains(other)
            && other.meta.name@ != entry.meta.name@)),
{
    let name = entry.meta.name@;
    let slot = rule_slot(rules, name);
    let after = with_rule(rules, entry);
    lemma_rule_slot(rules, name);
    if slot < rules.len() && rules[slot].meta.name@ == name {
        assert(after[slot] == entry);
        if after.contains(other) && other != entry {
            let j = choose|j: int| 0 <= j < after.len() && after[j] == other;
            assert(j != slot);
            assert(rules[j] == other);
            lemma_sorted_names_differ(rules, j, slot);
        }
        if rules.contains(other) && other.meta.name@ != name {
            let j = choose|j: int| 0 <= j < rules.len() && rules[j] == other;
            assert(j != slot);
            assert(after[j] == other);
        }
    } else {
        assert(after[slot] == entry);
        if after.contains(other) && other != entry {
            let j = choose|j: int| 0 <= j < after.len() && after[j] == other;
            if j < slot {
                assert(rules[j] == other);
                lemma_free_slot(rules, name, j);
            } else {
                assert(j > slot);
                assert(rules[j - 1] == other);
                lemma_free_slot(rules, name, j - 1);
            }
        }
        if rules.contains(other) {
            let j = choose|j: int| 0 <= j < rules.len() && rules[j] == other;
            if j < slot {
                assert(after[j] == other);
            } else {
                assert(after[j + 1] == other);
            }
        }
    }
}

/// Groups in order have identifiers that differ from one another.
proof fn lemma_sorted_groups_differ(groups: Seq<RuleGroupView>, i: int, j: int)
    requires
        groups_sorted(groups),
        0 <= i < groups.len(),
        0 <= j < groups.len(),
        i != j,
    ensures
        groups[i].name != groups[j].name,
{
    lemma_lex_irreflexive(groups[i].name);
    if i < j {
        assert(lex_less(groups[i].name, groups[j].name));
    } else {
        assert(lex_less(groups[j].name, groups[i].name));
    }
}

/// Where no group has an identifier, no group has it.
proof fn lemma_free_group_slot(groups: Seq<RuleGroupView>, name: Seq<char>, j: int)
    requires
        groups_sorted(groups),
        0 <= j < groups.len(),
        !(group_slot(groups, name) < groups.len() && groups[group_slot(groups, name)].name == name),
    ensures
        groups[j].name != name,
{
    let slot = group_slot(groups, name);
    lemma_group_slot(groups, name);
    lemma_lex_irreflexive(name);
    if j < slot {
        assert(lex_less(groups[j].name, name));
    } else {
        let first = groups[slot].name;
        lemma_lex_total(name, first);
        if j > slot {
            assert(lex_less(groups[slot].name, groups[j].name));
            lemma_lex_transitive(name, first, groups[j].name);
        }
    }
}

/// Recording a rule in a registry in order is what putting a value under a
/// key is in a map: the registry then holds the rule in its group, no longer
/// holds the rule that had its name in that group, and holds every other
/// rule as before.
pub proof fn law_record_is_an_insertion(
    groups: Seq<RuleGroupView>,
    group: Seq<char>,
    entry: RuleEntry,
    other_group: Seq<char>,
    other: RuleEntry,
)
    requires
        groups_sorted(groups),
    ensures
        holds(with_group_rule(groups, group, entry), other_group, other) <==> ((other_group
            == group && other == entry) || (holds(groups, other_group, other) && !(other_group
            == group && other.meta.name@ == entry.meta.name@))),
{
    let slot = group_slot(groups, group);
    let after = with_group_rule(groups, group, entry);
    lemma_group_slot(groups, group);
    if slot < groups.len() && groups[slot].name == group {
        lemma_with_rule_holds(groups[slot].rules, entry, other);
        assert(after[slot].name == group);
        assert(after[slot].rules == with_rule(groups[slot].rules, entry));
        if holds(after, other_group, other) {
            let i = choose|i: int|
                0 <= i < after.len() && (#[trigger] after[i]).name == other_group
                    && after[i].rules.contains(other);
            if i != slot {
                assert(after[i] == groups[i]);
                lemma_sorted_groups_differ(groups, i, slot);
            } else {
                if other != entry {
                    assert(groups[slot].rules.contains(other));
                }
            }
        }
        if other_group == group && other == entry {
            assert(after[slot].rules.contains(other));
        }
        if holds(groups, other_group, other) && !(other_group == group && other.meta.name@
            == entry.meta.name@) {
            let i = choose|i: int|
                0 <= i < groups.len() && (#[trigger] groups[i]).name == other_group
                    && groups[i].rules.contains(other);
            if i != slot {
                assert(after[i] == groups[i]);
            } else {
                assert(after[slot].rules.contains(other));
            }
        }
    } else {
        assert(after[slot].name == group);
        assert(after[slot].rules =~= seq![entry]);
        assert(after[slot].rules[0] == entry);
        if holds(after, other_group, other) {
            let i = choose|i: int|
                0 <= i < after.len() && (#[trigger] after[i]).name == other_group
                    && after[i].rules.contains(other);
            if i < slot {
                assert(after[i] == groups[i]);
                lemma_free_group_slot(groups, group, i);
            } else if i > slot {
                assert(after[i] == groups[i - 1]);
                lemma_free_group_slot(groups, group, i - 1);
            } else {
                let j = choose|j: int| 0 <= j < after[i].rules.len() && after[i].rules[j] == other;
                assert(j == 0);
            }
        }
        if other_group == group && other == entry {
            assert(after[slot].rules.contains(other));
        }
        if holds(groups, other_group, other) {
            let i = choose|i: int|
                0 <= i < groups.len() && (#[trigger] groups[i]).name == other_group
                    && groups[i].rules.contains(other);
            lemma_free_group_slot(groups, group, i);
            if i < slot {
                assert(after[i] == groups[i]);
            } else {
                assert(after[i + 1] == groups[i]);
            }
        }
    }
}

/// Records a rule among the rules of a group.
fn record_in_rules(rules: &mut Vec<RuleEntry>, entry: RuleEntry)
    ensures
        final(rules)@ == with_rule(old(rules)@, entry),
{
    let mut i: usize = 0;
    proof {
        assert(rules@.skip(0) =~= rules@);
    }
    while i < rules.len() && str_less(rules[i].meta.name.as_str(), entry.meta.name.as_str())
        invariant
            i <= rules.len(),
            rules@ == old(rules)@,
            rule_slot(rules@, entry.meta.name@) == i + rule_slot(
                rules@.skip(i as int),
                entry.meta.name@,
            ),
        decreases rules.len() - i,
    {
        proof {
            assert(rules@.skip(i as int).skip(1) =~= rules@.skip(i + 1));
        }
        i = i + 1;
    }
    if i < rules.len() && str_eq(rules[i].meta.name.as_str(), entry.meta.name.as_str()) {
        rules.set(i, entry);
    } else {
        rules.insert(i, entry);
    }
}

/// The registry of rules.
pub struct Registry {
    groups: Vec<RuleGroup>,
    number_of_rules: u16,
}

impl Registry {
    /// The groups of the registry, in their order.
    pub closed spec fn groups(&self) -> Seq<RuleGroupView> {
        self.groups@.map_values(|group: RuleGroup| group@)
    }

    /// How many rules have been recorded.
    pub closed spec fn number_of_rules(&self) -> u16 {
        self.number_of_rules
    }

    /// Whether the registry is in order.
    pub open spec fn wf(&self) -> bool {
        groups_sorted(self.groups())
    }

    /// Whether every group of the registry has a known identifier.
    pub open spec fn all_known(&self) -> bool {
        forall|i: int|
            0 <= i < self.groups().len() ==> is_known_group((#[trigger] self.groups()[i]).name)
    }

    /// Whether the registry holds the nursery.
    pub open spec fn has_nursery(&self) -> bool {
        exists|i: int|
            0 <= i < self.groups().len() && (#[trigger] self.groups()[i]).name == "nursery"@
    }

    /// A registry without rules.
    pub fn new() -> (registry: Registry)
        ensures
            registry.wf(),
            registry.groups() == Seq::<RuleGroupView>::empty(),
            registry.number_of_rules() == 0,
    {
        let registry = Registry { groups: Vec::new(), number_of_rules: 0 };
        proof {
            assert(registry.groups() =~= Seq::<RuleGroupView>::empty());
        }
        registry
    }

    /// Records a rule of a group and counts it. A rule recorded under a
    /// name that the group has already takes the place of the earlier one.
    pub fn record_rule(&mut self, group: &str, entry: RuleEntry)
        requires
            old(self).wf(),
            old(self).number_of_rules() < u16::MAX,
        ensures
            final(self).wf(),
            final(self).groups() == with_group_rule(old(self).groups(), group@, entry),
            final(self).number_of_rules() == old(self).number_of_rules() + 1,
    {
        self.number_of_rules = self.number_of_rules + 1;
        let ghost before = self.groups();
        let mut i: usize = 0;
        proof {
            assert(before.skip(0) =~= before);
        }
        while i < self.groups.len() && str_less(self.groups[i].name.as_str(), group)
            invariant
                i <= self.groups.len(),
                self.groups() == before,
                self.groups@.len() == before.len(),
                group_slot(before, group@) == i + group_slot(before.skip(i as int), group@),
            decreases self.groups.len() - i,
        {
            proof {
                assert(before[i as int] == self.groups@[i as int]@);
                assert(before.skip(i as int).skip(1) =~= before.skip(i + 1));
            }
            i = i + 1;
        }
        proof {
            if i < self.groups.len() {
                assert(before[i as int] == self.groups@[i as int]@);
            }
        }
        if i < self.groups.len() && str_eq(self.groups[i].name.as_str(), group) {
            let mut found = self.groups.remove(i);
            proof {
                assert(found@ == before[i as int]);
            }
            record_in_rules(&mut found.rules, entry);
            self.groups.insert(i, found);
            proof {
                assert(self.groups() =~= with_group_rule(before, group@, entry));
            }
        } else {
            let mut rules: Vec<RuleEntry> = Vec::new();
            rules.push(entry);
            let added = RuleGroup { name: String::from_str(group), rules };
            proof {
                assert(added@.rules =~= seq![entry]);
            }
            self.groups.insert(i, added);
            proof {
                assert(self.groups() =~= with_group_rule(before, group@, entry));
            }
        }
        proof {
            lemma_with_group_rule_sorted(before, group@, entry);
        }
    }

    /// The groups of the registry, in their order.
    pub fn rule_groups(&self) -> (groups: &Vec<RuleGroup>)
        ensures
            groups@.map_values(|group: RuleGroup| group@) == self.groups(),
    {
        &self.groups
    }

    /// The number of rules recorded.
    pub fn rule_count(&self) -> (count: u16)
        ensures
            count == self.number_of_rules(),
    {
        self.number_of_rules
    }

    /// Tells whether every group of the registry has a known identifier.
    pub fn groups_known(&self) -> (known: bool)
        ensures
            known == self.all_known(),
    {
        let mut i: usize = 0;
        while i < self.groups.len()
            invariant
                i <= self.groups.len(),
                forall|k: int| 0 <= k < i ==> is_known_group((#[trigger] self.groups()[k]).name),
            decreases self.groups.len() - i,
        {
            if !known_group(self.groups[i].name.as_str()) {
                proof {
                    assert(self.groups()[i as int].name == self.groups@[i as int].name@);
                }
                return false;
            }
            proof {
                assert(self.groups()[i as int].name == self.groups@[i as int].name@);
            }
            i = i + 1;
        }
        true
    }

    /// Tells whether the registry holds the nursery.
    pub fn holds_nursery(&self) -> (held: bool)
        ensures
            held == self.has_nursery(),
    {
        let mut i: usize = 0;
        while i < self.groups.len()
            invariant
                i <= self.groups.len(),
                forall|k: int| 0 <= k < i ==> (#[trigger] self.groups()[k]).name != "nursery"@,
            decreases self.groups.len() - i,
        {
            proof {
                assert(self.groups()[i as int].name == self.groups@[i as int].name@);
            }
            if str_eq(self.groups[i].name.as_str(), "nursery") {
                return true;
            }
            i = i + 1;
        }
        false
    }
}

} // verus!
