//! The limiter's part of the configuration.

use vstd::prelude::*;
use crate::config::{ConfigError, flag_in, invalid, number_in, read_flag, read_u32};
use crate::ratelimit::Rule;
use crate::yaml::{Node, field};

verus! {

/// Whether the limiter is on, and the budgets it enforces.
pub struct Config {
    pub rules: Vec<Rule>,
    pub enabled: bool,
}

/// A rule as plain values: its topic and its budget.
pub open spec fn rule_view(rule: Rule) -> (Seq<char>, u32) {
    (rule.topic_name@, rule.max_requests_per_minute)
}

/// The rules of a list as plain values.
pub open spec fn rule_views(rules: Seq<Rule>) -> Seq<(Seq<char>, u32)> {
    rules.map_values(|r: Rule| rule_view(r))
}

/// The rule that one item of the list states: its `topic`, which must be
/// there and be a string, and its `max_requests_per_minute`, zero where it is
/// left out.
pub open spec fn rule_in(item: Node) -> Result<(Seq<char>, u32), Seq<char>> {
    match field(item, "topic"@) {
        Some(Node::Text(topic)) => match number_in(
            item,
            "max_requests_per_minute"@,
            0,
            0,
            u32::MAX as int,
        ) {
            Ok(max) => Ok((topic@, max as u32)),
            Err(key) => Err(key),
        },
        _ => Err("topic"@),
    }
}

/// The rules that a list of items states, or the key at fault in the first
/// item that states none.
pub open spec fn rules_of(items: Seq<Node>) -> Result<Seq<(Seq<char>, u32)>, Seq<char>>
    decreases items.len(),
{
    if items.len() == 0 {
        Ok(Seq::empty())
    } else {
        match rules_of(items.drop_last()) {
            Err(key) => Err(key),
            Ok(rules) => match rule_in(items.last()) {
                Err(key) => Err(key),
                Ok(rule) => Ok(rules.push(rule)),
            },
        }
    }
}

/// The rules under `rules`: none where the key is absent, an error where the
/// value is no list of rules.
pub open spec fn rules_in(section: Node) -> Result<Seq<(Seq<char>, u32)>, Seq<char>> {
    match field(section, "rules"@) {
        None => Ok(Seq::empty()),
        Some(Node::Array(items)) => rules_of(items@),
        Some(_) => Err("rules"@),
    }
}

/// What `section` says of the limiter: `enabled`, off where it is left out,
/// and the rules; or the first key at fault.
pub open spec fn limits_in(section: Node) -> Result<(bool, Seq<(Seq<char>, u32)>), Seq<char>> {
    match flag_in(section, "enabled"@, false) {
        Err(key) => Err(key),
        Ok(enabled) => match rules_in(section) {
            Err(key) => Err(key),
            Ok(rules) => Ok((enabled, rules)),
        },
    }
}

impl View for Config {
    type V = (bool, Seq<(Seq<char>, u32)>);

    open spec fn view(&self) -> (bool, Seq<(Seq<char>, u32)>) {
        (self.enabled, rule_views(self.rules@))
    }
}

/// The answer of a reader as plain values.
pub open spec fn limits_of(res: Result<Config, ConfigError>) -> Result<
    (bool, Seq<(Seq<char>, u32)>),
    Seq<char>,
> {
    match res {
        Ok(config) => Ok(config@),
        Err(ConfigError::Invalid(key)) => Err(key@),
        Err(ConfigError::Syntax(complaint)) => Err(complaint@),
    }
}

proof fn lemma_rules_of_fails_on(items: Seq<Node>, n: int)
    requires
        0 <= n <= items.len(),
        rules_of(items.take(n)) is Err,
    ensures
        rules_of(items) == rules_of(items.take(n)),
    decreases items.len(),
{
    if n < items.len() {
        assert(items.drop_last().take(n) =~= items.take(n));
        lemma_rules_of_fails_on(items.drop_last(), n);
    } else {
        assert(items.take(n) =~= items);
    }
}

fn read_rule(item: &Node) -> (res: Result<Rule, ConfigError>)
    ensures
        match rule_in(*item) {
            Ok(rule) => res is Ok && rule_view(res->Ok_0) == rule,
            Err(k) => res matches Err(ConfigError::Invalid(e)) && e@ == k,
        },
{
    let topic_name = match item.get("topic") {
        Some(node) => match node.as_str() {
            Some(topic) => topic.clone(),
            None => {
                return invalid("topic");
            },
        },
        None => {
            return invalid("topic");
        },
    };
    let max_requests_per_minute = read_u32(item, "max_requests_per_minute", 0)?;
    Ok(Rule { topic_name, max_requests_per_minute })
}

fn read_rules(section: &Node) -> (res: Result<Vec<Rule>, ConfigError>)
    ensures
        match rules_in(*section) {
            Ok(rules) => res is Ok && rule_views(res->Ok_0@) == rules,
            Err(k) => res matches Err(ConfigError::Invalid(e)) && e@ == k,
        },
{
    let mut rules: Vec<Rule> = Vec::new();
    let items = match section.get("rules") {
        None => {
            assert(rule_views(rules@) =~= Seq::empty());
            return Ok(rules);
        },
        Some(node) => match node.as_vec() {
            Some(items) => items,
            None => {
                return invalid("rules");
            },
        },
    };
    let mut i: usize = 0;
    assert(items@.take(0) =~= Seq::empty());
    assert(rule_views(rules@) =~= Seq::empty());
    while i < items.len()
        invariant
            i <= items@.len(),
            field(*section, "rules"@) == Some(Node::Array(*items)),
            rules_of(items@.take(i as int)) == Ok::<Seq<(Seq<char>, u32)>, Seq<char>>(
                rule_views(rules@),
            ),
        decreases items@.len() - i,
    {
        proof {
            assert(items@.take(i + 1).drop_last() =~= items@.take(i as int));
            assert(items@.take(i + 1).last() == items@[i as int]);
        }
        match read_rule(&items[i]) {
            Ok(rule) => {
                let ghost before = rule_views(rules@);
                rules.push(rule);
                assert(rule_views(rules@) =~= before.push(rule_view(rule)));
            },
            Err(e) => {
                proof {
                    lemma_rules_of_fails_on(items@, i + 1);
                }
                return Err(e);
            },
        }
        i = i + 1;
    }
    proof {
        assert(items@.take(i as int) =~= items@);
    }
    Ok(rules)
}

impl Config {
    /// Reads the limiter's settings from the mapping `section`.
    pub fn from_yaml(section: &Node) -> (res: Result<Config, ConfigError>)
        ensures
            limits_of(res) == limits_in(*section),
            res is Err ==> res->Err_0 is Invalid,
    {
        let enabled = read_flag(section, "enabled", false)?;
        let rules = read_rules(section)?;
        Ok(Config { rules, enabled })
    }

    /// The limiter switched off, with no rules.
    pub fn default_config() -> (config: Config)
        ensures
            config.rules@.len() == 0,
            !config.enabled,
    {
        Config { rules: Vec::new(), enabled: false }
    }

    pub fn get_rules(&self) -> (rules: &Vec<Rule>)
        ensures
            rules == &self.rules,
    {
        &self.rules
    }

    pub fn enabled(&self) -> (on: bool)
        ensures
            on == self.enabled,
    {
        self.enabled
    }
}

impl Clone for Config {
    fn clone(&self) -> (config: Config)
        ensures
            config.rules@ == self.rules@,
            config.enabled == self.enabled,
    {
        let mut rules: Vec<Rule> = Vec::new();
        let mut i: usize = 0;
        while i < self.rules.len()
            invariant
                i <= self.rules@.len(),
                rules@ == self.rules@.take(i as int),
            decreases self.rules@.len() - i,
        {
            rules.push(self.rules[i].clone());
            assert(rules@ =~= self.rules@.take(i + 1));
            i = i + 1;
        }
        assert(self.rules@.take(i as int) =~= self.rules@);
        Config { rules, enabled: self.enabled }
    }
}

impl Default for Config {
    fn default() -> (config: Config)
        ensures
            config.rules@.len() == 0,
            !config.enabled,
    {
        Config::default_config()
    }
}

} // verus!
