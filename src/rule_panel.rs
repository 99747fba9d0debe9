//! Editing a rule script: an ordered list of rules and a cursor on one.

use vstd::prelude::*;
use crate::rule_data::RuleData;

verus! {

/// A rule script being edited, with the position of the selected rule.
#[derive(Debug)]
pub struct UiRulePanel {
    cursor: usize,
    rules: Vec<RuleData>,
}

impl UiRulePanel {
    pub closed spec fn selected_index(&self) -> nat {
        self.cursor as nat
    }

    pub closed spec fn entries(&self) -> Seq<RuleData> {
        self.rules@
    }

    /// An empty script.
    pub fn new() -> (r: UiRulePanel)
        ensures
            r.selected_index() == 0,
            r.entries() == Seq::<RuleData>::empty(),
    {
        UiRulePanel { cursor: 0, rules: Vec::new() }
    }

    /// The rules, in script order.
    pub fn rules(&self) -> (r: &Vec<RuleData>)
        ensures
            r@ == self.entries(),
    {
        &self.rules
    }

    /// The position of the selected rule.
    pub fn cursor(&self) -> (r: usize)
        ensures
            r == self.selected_index(),
    {
        self.cursor
    }

    /// Moves the selection one rule up, staying at the first.
    pub fn shift_cursor_up(&mut self)
        ensures
            final(self).entries() == old(self).entries(),
            final(self).selected_index() == if old(self).selected_index() == 0 {
                0
            } else {
                old(self).selected_index() - 1
            },
    {
        if self.cursor > 0 {
            self.cursor = self.cursor - 1;
        }
    }

    /// Moves the selection one rule down, staying at the last.
    pub fn shift_cursor_down(&mut self)
        ensures
            final(self).entries() == old(self).entries(),
            final(self).selected_index() == if old(self).entries().len() == 0 {
                0
            } else if old(self).selected_index() + 1 < old(self).entries().len() {
                old(self).selected_index() + 1
            } else {
                (old(self).entries().len() - 1) as nat
            },
    {
        let last = if self.rules.len() == 0 {
            0
        } else {
            self.rules.len() - 1
        };
        let next = if self.cursor < usize::MAX {
            self.cursor + 1
        } else {
            self.cursor
        };
        self.cursor = if next < last {
            next
        } else {
            last
        };
    }

    /// Adds a rule at the end and selects it.
    pub fn add_last(&mut self, rule: RuleData)
        ensures
            final(self).entries() == old(self).entries().push(rule),
            final(self).selected_index() == old(self).entries().len(),
    {
        self.rules.push(rule);
        self.cursor = self.rules.len() - 1;
    }

    /// Adds a rule after the selected one and selects it; nothing when the
    /// selection is past the end.
    pub fn add_after(&mut self, rule: RuleData)
        ensures
            old(self).selected_index() < old(self).entries().len() ==> {
                &&& final(self).entries() == old(self).entries().insert(
                    old(self).selected_index() + 1 as int,
                    rule,
                )
                &&& final(self).selected_index() == old(self).selected_index() + 1
            },
            old(self).selected_index() >= old(self).entries().len() ==> *final(self) == *old(self),
    {
        if self.cursor < self.rules.len() {
            self.cursor = self.cursor + 1;
            self.rules.insert(self.cursor, rule);
        }
    }

    /// Adds a rule before the selected one and selects it; nothing when
    /// the selection is past the end.
    pub fn add_before(&mut self, rule: RuleData)
        ensures
            old(self).selected_index() < old(self).entries().len() ==> {
                &&& final(self).entries() == old(self).entries().insert(
                    old(self).selected_index() as int,
                    rule,
                )
                &&& final(self).selected_index() == old(self).selected_index()
            },
            old(self).selected_index() >= old(self).entries().len() ==> *final(self) == *old(self),
    {
        if self.cursor < self.rules.len() {
            self.rules.insert(self.cursor, rule);
        }
    }

    /// Removes the selected rule and selects the one above it.
    pub fn remove_selected(&mut self)
        ensures
            old(self).selected_index() < old(self).entries().len() ==> {
                &&& final(self).entries() == old(self).entries().remove(
                    old(self).selected_index() as int,
                )
                &&& final(self).selected_index() == if old(self).selected_index() == 0 {
                    0
                } else {
                    old(self).selected_index() - 1
                }
            },
            old(self).selected_index() >= old(self).entries().len() ==> *final(self) == *old(self),
    {
        if self.cursor < self.rules.len() {
            self.rules.remove(self.cursor);
            self.shift_cursor_up();
        }
    }

    /// Swaps the selected rule with the one above it, keeping it selected.
    pub fn move_up(&mut self)
        ensures
            0 < old(self).selected_index() < old(self).entries().len() ==> {
                let c = old(self).selected_index() as int;
                &&& final(self).entries() == old(self).entries().update(
                    c - 1,
                    old(self).entries()[c],
                ).update(c, old(self).entries()[c - 1])
                &&& final(self).selected_index() == c - 1
            },
            !(0 < old(self).selected_index() < old(self).entries().len()) ==> *final(self)
                == *old(self),
    {
        if 0 < self.cursor && self.cursor < self.rules.len() {
            let c = self.cursor;
            let moved = self.rules.remove(c);
            self.rules.insert(c - 1, moved);
            self.cursor = c - 1;
            assert(self.rules@ =~= old(self).rules@.update(c - 1, old(self).rules@[c as int]).update(
                c as int,
                old(self).rules@[c - 1],
            ));
        }
    }

    /// Swaps the selected rule with the one below it, keeping it selected.
    pub fn move_down(&mut self)
        ensures
            old(self).selected_index() + 1 < old(self).entries().len() ==> {
                let c = old(self).selected_index() as int;
                &&& final(self).entries() == old(self).entries().update(
                    c + 1,
                    old(self).entries()[c],
                ).update(c, old(self).entries()[c + 1])
                &&& final(self).selected_index() == c + 1
            },
            !(old(self).selected_index() + 1 < old(self).entries().len()) ==> *final(self)
                == *old(self),
    {
        if self.cursor < self.rules.len() && self.cursor + 1 < self.rules.len() {
            let c = self.cursor;
            let moved = self.rules.remove(c);
            self.rules.insert(c + 1, moved);
            self.cursor = c + 1;
            assert(self.rules@ =~= old(self).rules@.update(c + 1, old(self).rules@[c as int]).update(
                c as int,
                old(self).rules@[c + 1],
            ));
        }
    }

    /// Puts `rule` in place of the selected one; nothing when the
    /// selection is past the end.
    pub fn replace_selected(&mut self, rule: RuleData)
        ensures
            final(self).selected_index() == old(self).selected_index(),
            old(self).selected_index() < old(self).entries().len() ==> final(self).entries()
                == old(self).entries().update(old(self).selected_index() as int, rule),
            old(self).selected_index() >= old(self).entries().len() ==> final(self).entries()
                == old(self).entries(),
    {
        if self.cursor < self.rules.len() {
            self.rules.remove(self.cursor);
            self.rules.insert(self.cursor, rule);
            assert(self.rules@ =~= old(self).rules@.update(old(self).cursor as int, rule));
        }
    }
}

} // verus!
