//! Engine registry: name, shortcut and category lookups, with the effective
//! timeout and weight of each engine.

use vstd::prelude::*;
use vstd::string::*;
use crate::query::{strs, opt_str};
use crate::text::str_eq;

verus! {

/// Per-engine configuration overrides.
#[derive(Debug, Clone)]
pub struct EngineConfig {
    pub name: String,
    pub engine: String,
    pub categories: Vec<String>,
    pub shortcut: String,
    pub disabled: bool,
    /// Timeout override in milliseconds.
    pub timeout: Option<u64>,
    /// Weight in thousandths (1000 is 1.0).
    pub weight: u32,
    pub display_name: Option<String>,
    pub api_key: Option<String>,
}

impl Default for EngineConfig {
    fn default() -> (r: EngineConfig)
        ensures
            r.name@.len() == 0,
            r.engine@.len() == 0,
            strs(r.categories@) == seq!["general"@],
            r.shortcut@.len() == 0,
            !r.disabled,
            r.timeout is None,
            r.weight == 1000,
            r.display_name is None,
            r.api_key is None,
    {
        let mut categories: Vec<String> = Vec::new();
        categories.push(String::from_str("general"));
        assert(strs(categories@) =~= seq!["general"@]);
        EngineConfig {
            name: String::new(),
            engine: String::new(),
            categories,
            shortcut: String::new(),
            disabled: false,
            timeout: None,
            weight: 1000,
            display_name: None,
            api_key: None,
        }
    }
}

/// What the registry knows of an engine itself.
#[derive(Debug, Clone)]
pub struct EngineInfo {
    pub name: String,
    pub categories: Vec<String>,
    /// Default timeout in milliseconds.
    pub timeout: u64,
    /// Default weight in thousandths.
    pub weight: u32,
}

impl EngineInfo {
    /// An engine with the default timeout (5 s) and weight (1.0).
    pub fn new(name: &str, categories: Vec<String>) -> (r: EngineInfo)
        ensures
            r.name@ == name@,
            r.categories@ == categories@,
            r.timeout == 5000,
            r.weight == 1000,
    {
        EngineInfo { name: String::from_str(name), categories, timeout: 5000, weight: 1000 }
    }
}

/// Registered engines with their configuration, in registration order.
pub struct EngineRegistry {
    pub entries: Vec<(EngineInfo, EngineConfig)>,
}

/// Index of the entry named `name`.
pub open spec fn entry_of(es: Seq<(EngineInfo, EngineConfig)>, name: Seq<char>) -> Option<int>
    decreases es.len(),
{
    if es.len() == 0 {
        None
    } else if es.last().0.name@ == name {
        Some(es.len() - 1)
    } else {
        entry_of(es.drop_last(), name)
    }
}

/// Index of the last entry whose configured shortcut is `s` (never for an empty `s`).
pub open spec fn shortcut_entry(es: Seq<(EngineInfo, EngineConfig)>, s: Seq<char>) -> Option<int>
    decreases es.len(),
{
    if es.len() == 0 || s.len() == 0 {
        None
    } else if es.last().1.shortcut@ == s {
        Some(es.len() - 1)
    } else {
        shortcut_entry(es.drop_last(), s)
    }
}

/// Names of the entries that satisfy `keep`, in order.
pub open spec fn names_where(
    es: Seq<(EngineInfo, EngineConfig)>,
    keep: spec_fn((EngineInfo, EngineConfig)) -> bool,
) -> Seq<Seq<char>>
    decreases es.len(),
{
    if es.len() == 0 {
        seq![]
    } else if keep(es.last()) {
        names_where(es.drop_last(), keep).push(es.last().0.name@)
    } else {
        names_where(es.drop_last(), keep)
    }
}

pub open spec fn in_category(c: Seq<char>) -> spec_fn((EngineInfo, EngineConfig)) -> bool {
    |e: (EngineInfo, EngineConfig)| strs(e.0.categories@).contains(c)
}

pub open spec fn is_enabled() -> spec_fn((EngineInfo, EngineConfig)) -> bool {
    |e: (EngineInfo, EngineConfig)| !e.1.disabled
}

pub open spec fn any_entry() -> spec_fn((EngineInfo, EngineConfig)) -> bool {
    |e: (EngineInfo, EngineConfig)| true
}

/// Two different entries never share a name.
pub open spec fn names_unique(es: Seq<(EngineInfo, EngineConfig)>) -> bool {
    forall|i: int, j: int| 0 <= i < j < es.len() ==> es[i].0.name@ != es[j].0.name@
}

proof fn lemma_entry_of_index(es: Seq<(EngineInfo, EngineConfig)>, name: Seq<char>)
    requires
        entry_of(es, name) is Some,
    ensures
        0 <= entry_of(es, name).unwrap() < es.len(),
        es[entry_of(es, name).unwrap()].0.name@ == name,
    decreases es.len(),
{
    if es.last().0.name@ != name {
        lemma_entry_of_index(es.drop_last(), name);
    }
}

proof fn lemma_entry_of_none(es: Seq<(EngineInfo, EngineConfig)>, name: Seq<char>)
    requires
        forall|j: int| 0 <= j < es.len() ==> es[j].0.name@ != name,
    ensures
        entry_of(es, name) is None,
    decreases es.len(),
{
    if es.len() > 0 {
        lemma_entry_of_none(es.drop_last(), name);
    }
}

proof fn lemma_entry_of_at(es: Seq<(EngineInfo, EngineConfig)>, name: Seq<char>, i: int)
    requires
        names_unique(es),
        0 <= i < es.len(),
        es[i].0.name@ == name,
    ensures
        entry_of(es, name) == Some(i),
    decreases es.len(),
{
    if i < es.len() - 1 {
        lemma_entry_of_at(es.drop_last(), name, i);
    }
}

impl EngineRegistry {
    pub open spec fn wf(&self) -> bool {
        names_unique(self.entries@)
    }

    pub fn new() -> (r: EngineRegistry)
        ensures
            r.wf(),
            r.entries@.len() == 0,
    {
        EngineRegistry { entries: Vec::new() }
    }

    /// Finds the entry named `name`.
    fn find(&self, name: &str) -> (r: Option<usize>)
        requires
            self.wf(),
        ensures
            r matches Some(i) ==> entry_of(self.entries@, name@) == Some(i as int) && i < self.entries@.len(),
            r is None ==> entry_of(self.entries@, name@) is None,
    {
        let mut i: usize = 0;
        while i < self.entries.len()
            invariant
                self.wf(),
                i <= self.entries@.len(),
                forall|j: int| 0 <= j < i ==> self.entries@[j].0.name@ != name@,
            decreases self.entries@.len() - i,
        {
            if str_eq(self.entries[i].0.name.as_str(), name) {
                proof {
                    lemma_entry_of_at(self.entries@, name@, i as int);
                }
                return Some(i);
            }
            i = i + 1;
        }
        proof {
            lemma_entry_of_none(self.entries@, name@);
        }
        None
    }

    /// Registers an engine; one already registered under its name is replaced.
    pub fn register(&mut self, engine: EngineInfo, config: EngineConfig)
        requires
            old(self).wf(),
        ensures
            final(self).wf(),
            final(self).entries@ == match entry_of(old(self).entries@, engine.name@) {
                Some(i) => old(self).entries@.update(i, (engine, config)),
                None => old(self).entries@.push((engine, config)),
            },
    {
        match self.find(engine.name.as_str()) {
            Some(i) => {
                let ghost pre = self.entries@;
                self.entries.set(i, (engine, config));
                proof {
                    assert forall|a: int, b: int| 0 <= a < b < self.entries@.len() implies self.entries@[a].0.name@ != self.entries@[b].0.name@ by {
                        if a == i {
                            assert(pre[i as int].0.name@ == engine.name@) by {
                                lemma_entry_of_index(pre, engine.name@);
                            }
                        }
                        if b == i {
                            assert(pre[i as int].0.name@ == engine.name@) by {
                                lemma_entry_of_index(pre, engine.name@);
                            }
                        }
                    }
                }
            },
            None => {
                proof {
                    assert forall|j: int| 0 <= j < self.entries@.len() implies self.entries@[j].0.name@ != engine.name@ by {
                        if self.entries@[j].0.name@ == engine.name@ {
                            lemma_entry_of_at(self.entries@, engine.name@, j);
                        }
                    }
                }
                self.entries.push((engine, config));
            },
        }
    }

    pub fn get(&self, name: &str) -> (r: Option<&EngineInfo>)
        requires
            self.wf(),
        ensures
            match entry_of(self.entries@, name@) {
                Some(i) => r == Some(&self.entries@[i].0),
                None => r is None,
            },
    {
        match self.find(name) {
            Some(i) => Some(&self.entries[i].0),
            None => None,
        }
    }

    pub fn get_config(&self, name: &str) -> (r: Option<&EngineConfig>)
        requires
            self.wf(),
        ensures
            match entry_of(self.entries@, name@) {
                Some(i) => r == Some(&self.entries@[i].1),
                None => r is None,
            },
    {
        match self.find(name) {
            Some(i) => Some(&self.entries[i].1),
            None => None,
        }
    }

    /// The engine whose configured shortcut is `shortcut`.
    pub fn get_by_shortcut(&self, shortcut: &str) -> (r: Option<&EngineInfo>)
        ensures
            match shortcut_entry(self.entries@, shortcut@) {
                Some(i) => r == Some(&self.entries@[i].0),
                None => r is None,
            },
    {
        if shortcut.unicode_len() == 0 {
            return None;
        }
        let mut i: usize = self.entries.len();
        assert(self.entries@.take(i as int) =~= self.entries@);
        while i > 0
            invariant
                i <= self.entries@.len(),
                shortcut@.len() > 0,
                shortcut_entry(self.entries@, shortcut@) == shortcut_entry(self.entries@.take(i as int), shortcut@),
            decreases i,
        {
            assert(self.entries@.take(i as int).drop_last() =~= self.entries@.take(i - 1));
            if str_eq(self.entries[i - 1].1.shortcut.as_str(), shortcut) {
                return Some(&self.entries[i - 1].0);
            }
            i = i - 1;
        }
        None
    }

    fn names_matching(&self, which: u8, category: &str) -> (r: Vec<String>)
        ensures
            strs(r@) == names_where(
                self.entries@,
                if which == 0 { in_category(category@) } else if which == 1 { is_enabled() } else { any_entry() },
            ),
    {
        let ghost keep = if which == 0 { in_category(category@) } else if which == 1 { is_enabled() } else { any_entry() };
        let mut r: Vec<String> = Vec::new();
        let mut i: usize = 0;
        while i < self.entries.len()
            invariant
                i <= self.entries@.len(),
                keep == (if which == 0 { in_category(category@) } else if which == 1 { is_enabled() } else { any_entry() }),
                strs(r@) == names_where(self.entries@.take(i as int), keep),
            decreases self.entries@.len() - i,
        {
            let e = &self.entries[i];
            assert(self.entries@.take(i + 1).drop_last() =~= self.entries@.take(i as int));
            assert(self.entries@.take(i + 1).last() == *e);
            let hit = if which == 0 {
                contains_str(&e.0.categories, category)
            } else if which == 1 {
                !e.1.disabled
            } else {
                true
            };
            if hit {
                let ghost pre = strs(r@);
                r.push(e.0.name.clone());
                assert(strs(r@) =~= pre.push(e.0.name@));
            }
            i = i + 1;
        }
        assert(self.entries@.take(self.entries@.len() as int) =~= self.entries@);
        r
    }

    /// Names of the engines in `category`, in registration order (empty when unknown).
    pub fn get_by_category(&self, category: &str) -> (r: Vec<String>)
        ensures
            strs(r@) == names_where(self.entries@, in_category(category@)),
    {
        self.names_matching(0, category)
    }

    /// Names of the engines that are not disabled.
    pub fn enabled(&self) -> (r: Vec<String>)
        ensures
            strs(r@) == names_where(self.entries@, is_enabled()),
    {
        self.names_matching(1, "")
    }

    /// Names of every registered engine.
    pub fn names(&self) -> (r: Vec<String>)
        ensures
            strs(r@) == names_where(self.entries@, any_entry()),
    {
        self.names_matching(2, "")
    }

    pub fn contains(&self, name: &str) -> (r: bool)
        requires
            self.wf(),
        ensures
            r == entry_of(self.entries@, name@).is_some(),
    {
        self.find(name).is_some()
    }

    pub fn len(&self) -> (r: usize)
        ensures
            r == self.entries@.len(),
    {
        self.entries.len()
    }

    pub fn is_empty(&self) -> (r: bool)
        ensures
            r == (self.entries@.len() == 0),
    {
        self.entries.len() == 0
    }

    /// The engine name that a name or a shortcut stands for.
    pub fn resolve_name(&self, name_or_shortcut: &str) -> (r: Option<String>)
        requires
            self.wf(),
        ensures
            opt_str(r) == if entry_of(self.entries@, name_or_shortcut@).is_some() {
                Some(name_or_shortcut@)
            } else {
                match shortcut_entry(self.entries@, name_or_shortcut@) {
                    Some(i) => Some(self.entries@[i].0.name@),
                    None => None,
                }
            },
    {
        if self.find(name_or_shortcut).is_some() {
            return Some(String::from_str(name_or_shortcut));
        }
        match self.get_by_shortcut(name_or_shortcut) {
            Some(e) => Some(e.name.clone()),
            None => None,
        }
    }

    /// Configured timeout, else the engine's own, else `default` (milliseconds).
    pub fn get_timeout(&self, name: &str, default: u64) -> (r: u64)
        requires
            self.wf(),
        ensures
            r == match entry_of(self.entries@, name@) {
                Some(i) => match self.entries@[i].1.timeout {
                    Some(t) => t,
                    None => self.entries@[i].0.timeout,
                },
                None => default,
            },
    {
        match self.find(name) {
            Some(i) => match self.entries[i].1.timeout {
                Some(t) => t,
                None => self.entries[i].0.timeout,
            },
            None => default,
        }
    }

    /// Configured weight of a registered engine, else 1.0 (thousandths).
    pub fn get_weight(&self, name: &str) -> (r: u32)
        requires
            self.wf(),
        ensures
            r == match entry_of(self.entries@, name@) {
                Some(i) => self.entries@[i].1.weight,
                None => 1000,
            },
    {
        match self.find(name) {
            Some(i) => self.entries[i].1.weight,
            None => 1000,
        }
    }
}

/// `v` holds a string equal to `s`.
pub fn contains_str(v: &Vec<String>, s: &str) -> (r: bool)
    ensures
        r == strs(v@).contains(s@),
{
    let mut i: usize = 0;
    while i < v.len()
        invariant
            i <= v@.len(),
            forall|j: int| 0 <= j < i ==> v@[j]@ != s@,
        decreases v@.len() - i,
    {
        if str_eq(v[i].as_str(), s) {
            assert(strs(v@)[i as int] == s@);
            return true;
        }
        i = i + 1;
    }
    assert(!strs(v@).contains(s@)) by {
        if strs(v@).contains(s@) {
            let j = choose|j: int| 0 <= j < strs(v@).len() && strs(v@)[j] == s@;
            assert(v@[j]@ == s@);
        }
    }
    false
}

} // verus!
