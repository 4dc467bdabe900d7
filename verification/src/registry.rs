//! The two process-wide, read-only resources the extractors consult: the
//! team-name registry and the recognized-ask vocabulary. Both are loaded
//! once by the caller and passed by reference into every extraction.

use vstd::prelude::*;
use crate::text::str_eq;

verus! {

/// The registry of known team names.
#[derive(Debug, Clone)]
pub struct TeamRegistry {
    pub names: Vec<String>,
}

impl View for TeamRegistry {
    type V = Seq<Seq<char>>;

    open spec fn view(&self) -> Seq<Seq<char>> {
        self.names.deep_view()
    }
}

impl TeamRegistry {
    /// Whether `name` is a known team.
    pub fn has_team(&self, name: &str) -> (r: bool)
        ensures
            r == self@.contains(name@),
    {
        let mut i: usize = 0;
        while i < self.names.len()
            invariant
                0 <= i <= self.names.len(),
                forall|k: int| 0 <= k < i ==> self@[k] != name@,
            decreases self.names.len() - i,
        {
            proof {
                assert(self@[i as int] == self.names@[i as int]@);
            }
            if str_eq(self.names[i].as_str(), name) {
                return true;
            }
            i = i + 1;
        }
        proof {
            assert(self@.len() == self.names.len());
            if self@.contains(name@) {
                let k = choose|k: int| 0 <= k < self@.len() && self@[k] == name@;
                assert(false);
            }
        }
        false
    }
}

/// The mathematical content of one vocabulary entry.
pub ghost struct AskEntryView {
    pub ask: Seq<char>,
    pub about: Seq<char>,
}

/// One recognized team-ask phrase and what it asks the team to do.
#[derive(Debug, Clone)]
pub struct AskEntry {
    pub ask: String,
    pub about: String,
}

impl View for AskEntry {
    type V = AskEntryView;

    open spec fn view(&self) -> AskEntryView {
        AskEntryView { ask: self.ask@, about: self.about@ }
    }
}

impl DeepView for AskEntry {
    type V = AskEntryView;

    open spec fn deep_view(&self) -> AskEntryView {
        self.view()
    }
}

/// The externally-loaded configuration: the fixed vocabulary of
/// recognized team-ask phrases.
#[derive(Debug, Clone)]
pub struct Configuration {
    pub team_asks: Vec<AskEntry>,
}

impl View for Configuration {
    type V = Seq<AskEntryView>;

    open spec fn view(&self) -> Seq<AskEntryView> {
        self.team_asks.deep_view()
    }
}

/// Copy a vocabulary, entry for entry.
pub fn clone_entries(entries: &Vec<AskEntry>) -> (r: Vec<AskEntry>)
    ensures
        r.deep_view() == entries.deep_view(),
{
    let mut out: Vec<AskEntry> = Vec::new();
    let mut i: usize = 0;
    while i < entries.len()
        invariant
            0 <= i <= entries.len(),
            out.len() == i,
            out.deep_view() =~= entries.deep_view().take(i as int),
        decreases entries.len() - i,
    {
        proof {
            assert(entries.deep_view()[i as int] == entries@[i as int]@);
        }
        let ghost prev = out.deep_view();
        out.push(AskEntry {
            ask: entries[i].ask.clone(),
            about: entries[i].about.clone(),
        });
        proof {
            assert(out.deep_view().len() == i + 1);
            assert(forall|k: int| 0 <= k < i ==> out.deep_view()[k] == prev[k]);
            assert(out.deep_view()[i as int] == out@[i as int]@);
            assert(out.deep_view() =~= entries.deep_view().take(i as int + 1));
        }
        i = i + 1;
    }
    proof {
        assert(out.deep_view() =~= entries.deep_view());
    }
    out
}

/// Whether the vocabulary holds an entry for the phrase `text`.
pub open spec fn has_ask_spec(cfg: Seq<AskEntryView>, text: Seq<char>) -> bool {
    exists|k: int| 0 <= k < cfg.len() && cfg[k].ask == text
}

impl Configuration {
    /// Whether `text` is a recognized team-ask phrase.
    pub fn has_ask(&self, text: &str) -> (r: bool)
        ensures
            r == has_ask_spec(self@, text@),
    {
        let mut i: usize = 0;
        while i < self.team_asks.len()
            invariant
                0 <= i <= self.team_asks.len(),
                forall|k: int| 0 <= k < i ==> self@[k].ask != text@,
            decreases self.team_asks.len() - i,
        {
            proof {
                assert(self@[i as int] == self.team_asks@[i as int]@);
            }
            if str_eq(self.team_asks[i].ask.as_str(), text) {
                return true;
            }
            i = i + 1;
        }
        proof {
            assert(self@.len() == self.team_asks.len());
        }
        false
    }
}

} // verus!
