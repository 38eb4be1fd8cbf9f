//! The firewall's state as `ufw` reports it, and the requests that change it.
use vstd::prelude::*;
use crate::text::{same_text, char_seqs, chars_of, contains, contains_text, lines, lines_of, string_of, string_seqs, words, words_of};

verus! {

/// The line `ufw status` prints while the firewall is on.
pub const UFW_ACTIVE_MARK: &'static str = "Status: active";

/// Numbered rules are the lines that hold this.
pub const RULE_MARK: &'static str = "[";

pub const ENABLE_ACTION: &'static str = "enable";

#[derive(Clone, Debug, PartialEq, Eq)]
pub struct FirewallStatus {
    pub active: bool,
    pub rules: Vec<String>,
    pub installed: bool,
}

#[derive(Clone, Debug, PartialEq, Eq)]
pub struct FirewallAction {
    pub action: String,
}

#[derive(Clone, Debug, PartialEq, Eq)]
pub struct FirewallRuleData {
    pub rule: String,
}

/// The lines among `ls` that list a numbered rule, in order.
pub open spec fn rule_lines(ls: Seq<Seq<char>>) -> Seq<Seq<char>>
    decreases ls.len(),
{
    if ls.len() == 0 {
        seq![]
    } else if contains(ls.last(), RULE_MARK@) {
        rule_lines(ls.drop_last()).push(ls.last())
    } else {
        rule_lines(ls.drop_last())
    }
}

impl FirewallStatus {
    /// The status of a host without `ufw`.
    pub fn not_installed() -> (r: FirewallStatus)
        ensures
            !r.active && r.rules@.len() == 0 && !r.installed,
    {
        FirewallStatus { active: false, rules: Vec::new(), installed: false }
    }

    /// Reads the output of `ufw status numbered`.
    pub fn from_ufw_output(stdout: &str) -> (r: FirewallStatus)
        ensures
            r.installed,
            r.active == contains(stdout@, UFW_ACTIVE_MARK@),
            string_seqs(r.rules@) == rule_lines(lines(stdout@)),
    {
        let cs = chars_of(stdout);
        let active = contains_text(&cs, &chars_of(UFW_ACTIVE_MARK));
        let mark = chars_of(RULE_MARK);
        let ls = lines_of(&cs);
        let ghost all = char_seqs(ls@);
        let mut rules: Vec<String> = Vec::new();
        let mut i: usize = 0;
        assert(all.take(0) =~= Seq::<Seq<char>>::empty());
        while i < ls.len()
            invariant
                i <= ls@.len(),
                all == char_seqs(ls@),
                all == lines(stdout@),
                mark@ == RULE_MARK@,
                string_seqs(rules@) == rule_lines(all.take(i as int)),
            decreases ls@.len() - i,
        {
            let ghost t = all.take(i + 1);
            assert(t.drop_last() =~= all.take(i as int));
            assert(t.last() == ls@[i as int]@);
            let ghost before = string_seqs(rules@);
            if contains_text(&ls[i], &mark) {
                rules.push(string_of(&ls[i]));
                assert(string_seqs(rules@) =~= before.push(ls@[i as int]@));
            }
            i = i + 1;
        }
        assert(all.take(i as int) =~= all);
        FirewallStatus { active, rules, installed: true }
    }
}

impl FirewallAction {
    /// Whether the request turns the firewall on; anything but `enable`
    /// turns it off.
    pub fn enables(&self) -> (r: bool)
        ensures
            r == (self.action@ == ENABLE_ACTION@),
    {
        same_text(self.action.as_str(), ENABLE_ACTION)
    }
}

impl FirewallRuleData {
    /// The words of the rule, handed to `ufw` as its arguments; `None` for a
    /// rule with no words, which is refused.
    pub fn rule_words(&self) -> (r: Option<Vec<String>>)
        ensures
            r is None <==> words(self.rule@).len() == 0,
            r is Some ==> string_seqs(r.unwrap()@) == words(self.rule@),
    {
        let w = words_of(&chars_of(self.rule.as_str()));
        let ghost ws = char_seqs(w@);
        if w.len() == 0 {
            return None;
        }
        let mut out: Vec<String> = Vec::new();
        let mut i: usize = 0;
        while i < w.len()
            invariant
                i <= w@.len(),
                ws == char_seqs(w@),
                string_seqs(out@) == ws.take(i as int),
            decreases w@.len() - i,
        {
            let ghost before = string_seqs(out@);
            out.push(string_of(&w[i]));
            assert(ws[i as int] == w@[i as int]@);
            assert(string_seqs(out@) =~= before.push(ws[i as int]));
            assert(string_seqs(out@) =~= ws.take(i + 1));
            i = i + 1;
        }
        assert(ws.take(i as int) =~= ws);
        Some(out)
    }
}

} // verus!
