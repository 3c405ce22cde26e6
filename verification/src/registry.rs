//! The command registry: an ordered-by-name mapping from command name to its
//! structured-argument-parser capability and help text. Names are unique;
//! registering an existing name overwrites it and reports the collision so
//! the caller can log a warning.

use vstd::prelude::*;

use crate::text::{lemma_lex_lt_total, lemma_lex_lt_trans, lex_lt, str_eq, str_lt};

verus! {

/// What the registry stores per command: the parser capability that turns
/// argument tokens into a typed result, and the help text shown for the
/// command.
pub struct CommandSpec {
    /// The structured-argument parser for the command.
    pub parser: clap::Command,
    /// One-line help text.
    pub help: String,
}

/// Entries strictly sorted by name: the registry's order, under which no
/// name can appear twice.
pub open spec fn sorted_entries(entries: Seq<(String, CommandSpec)>) -> bool {
    forall|i: int, j: int| 0 <= i < j < entries.len() ==> lex_lt(entries[i].0@, entries[j].0@)
}

/// First-match lookup by name over a sequence of registry entries.
pub open spec fn lookup_in(entries: Seq<(String, CommandSpec)>, name: Seq<char>) -> Option<CommandSpec>
    decreases entries.len(),
{
    if entries.len() == 0 {
        None
    } else if entries[0].0@ == name {
        Some(entries[0].1)
    } else {
        lookup_in(entries.drop_first(), name)
    }
}

/// When no entry bears the name, lookup yields nothing.
proof fn lemma_lookup_absent(entries: Seq<(String, CommandSpec)>, name: Seq<char>)
    requires
        forall|i: int| 0 <= i < entries.len() ==> entries[i].0@ != name,
    ensures
        lookup_in(entries, name) is None,
    decreases entries.len(),
{
    if entries.len() > 0 {
        lemma_lookup_absent(entries.drop_first(), name);
    }
}

/// When exactly one entry bears the name, lookup yields its spec.
proof fn lemma_lookup_at(entries: Seq<(String, CommandSpec)>, k: int, name: Seq<char>)
    requires
        0 <= k < entries.len(),
        entries[k].0@ == name,
        forall|i: int| 0 <= i < entries.len() && i != k ==> entries[i].0@ != name,
    ensures
        lookup_in(entries, name) == Some(entries[k].1),
    decreases entries.len(),
{
    if k > 0 {
        lemma_lookup_at(entries.drop_first(), k - 1, name);
    }
}

/// Replacing an entry in place, without renaming its slot and under a name
/// other than the one looked up, leaves that lookup unchanged.
proof fn lemma_lookup_update_other(
    entries: Seq<(String, CommandSpec)>,
    pos: int,
    e: (String, CommandSpec),
    other: Seq<char>,
)
    requires
        0 <= pos < entries.len(),
        e.0@ != other,
        entries[pos].0@ != other,
    ensures
        lookup_in(entries.update(pos, e), other) == lookup_in(entries, other),
    decreases entries.len(),
{
    let updated = entries.update(pos, e);
    if pos == 0 {
        assert(updated.drop_first() =~= entries.drop_first());
    } else {
        assert(updated[0] == entries[0]);
        if entries[0].0@ != other {
            assert(updated.drop_first() =~= entries.drop_first().update(pos - 1, e));
            lemma_lookup_update_other(entries.drop_first(), pos - 1, e, other);
        }
    }
}

/// Inserting an entry under a name other than the one looked up leaves that
/// lookup unchanged.
proof fn lemma_lookup_insert_other(
    entries: Seq<(String, CommandSpec)>,
    pos: int,
    e: (String, CommandSpec),
    other: Seq<char>,
)
    requires
        0 <= pos <= entries.len(),
        e.0@ != other,
    ensures
        lookup_in(entries.insert(pos, e), other) == lookup_in(entries, other),
    decreases entries.len(),
{
    let inserted = entries.insert(pos, e);
    if pos == 0 {
        assert(inserted[0] == e);
        assert(inserted.drop_first() =~= entries);
    } else {
        assert(inserted[0] == entries[0]);
        if entries[0].0@ != other {
            assert(inserted.drop_first() =~= entries.drop_first().insert(pos - 1, e));
            lemma_lookup_insert_other(entries.drop_first(), pos - 1, e, other);
        }
    }
}

/// Inserting an entry that sorts above everything before the slot and below
/// everything from the slot on keeps the entries sorted.
proof fn lemma_sorted_insert(
    entries: Seq<(String, CommandSpec)>,
    pos: int,
    e: (String, CommandSpec),
)
    requires
        sorted_entries(entries),
        0 <= pos <= entries.len(),
        forall|j: int| 0 <= j < pos ==> lex_lt(entries[j].0@, e.0@),
        forall|j: int| pos <= j < entries.len() ==> lex_lt(e.0@, entries[j].0@),
    ensures
        sorted_entries(entries.insert(pos, e)),
{
    let inserted = entries.insert(pos, e);
    assert forall|i: int, j: int| 0 <= i < j < inserted.len() implies lex_lt(
        inserted[i].0@,
        inserted[j].0@,
    ) by {
        if i < pos {
            assert(inserted[i] == entries[i]);
        }
        if j < pos {
            assert(inserted[j] == entries[j]);
        }
        if i > pos {
            assert(inserted[i] == entries[i - 1]);
        }
        if j > pos {
            assert(inserted[j] == entries[j - 1]);
        }
    }
}

/// The console's registered commands, kept sorted by name with no name
/// appearing twice.
pub struct CommandRegistry {
    /// The entries, sorted by name.
    pub entries: Vec<(String, CommandSpec)>,
}

impl CommandRegistry {
    /// The entries, for contracts: each registered name paired with its
    /// spec, in registry order.
    pub open spec fn entries_view(&self) -> Seq<(String, CommandSpec)> {
        self.entries@
    }

    /// The registered names, in registry order.
    pub open spec fn names(&self) -> Seq<Seq<char>> {
        self.entries@.map_values(|e: (String, CommandSpec)| e.0@)
    }

    /// Well-formed: strictly sorted by name, so names are unique and
    /// `list_names` comes out sorted.
    pub open spec fn wf(&self) -> bool {
        sorted_entries(self.entries@)
    }

    /// What lookup by a name yields.
    pub open spec fn spec_lookup(&self, name: Seq<char>) -> Option<CommandSpec> {
        lookup_in(self.entries@, name)
    }

    /// Whether a name is registered.
    pub open spec fn contains_name(&self, name: Seq<char>) -> bool {
        self.spec_lookup(name) is Some
    }

    /// An empty registry.
    pub fn new() -> (r: Self)
        ensures
            r.wf(),
            r.entries_view().len() == 0,
            forall|name: Seq<char>| !r.contains_name(name),
    {
        CommandRegistry { entries: Vec::new() }
    }

    /// How many commands are registered.
    pub fn len(&self) -> (r: usize)
        ensures
            r == self.entries_view().len(),
    {
        self.entries.len()
    }

    /// Inserts a command under a name, or overwrites the command already
    /// registered under that name. Returns whether a previous registration
    /// was overwritten, so the caller can surface the non-fatal warning.
    pub fn register(&mut self, name: String, spec: CommandSpec) -> (overwrote: bool)
        requires
            old(self).wf(),
        ensures
            final(self).wf(),
            overwrote == old(self).contains_name(name@),
            final(self).spec_lookup(name@) == Some(spec),
            forall|other: Seq<char>|
                other != name@ ==> final(self).spec_lookup(other) == old(self).spec_lookup(other),
    {
        let ghost old_entries = self.entries@;
        let n = self.entries.len();
        let mut i: usize = 0;
        while i < n && str_lt(self.entries[i].0.as_str(), name.as_str())
            invariant
                0 <= i <= n,
                n == self.entries@.len(),
                self.entries@ == old_entries,
                forall|j: int| 0 <= j < i ==> lex_lt(old_entries[j].0@, name@),
            decreases n - i,
        {
            i += 1;
        }
        let ghost pos = i as int;
        proof {
            // Entries before the stop position sort strictly below the new
            // name, so none of them bears it; entries past it sort strictly
            // above whatever stands there, so at most the stop slot matches.
            assert forall|j: int| 0 <= j < pos implies old_entries[j].0@ != name@ by {
                lemma_lex_lt_total(old_entries[j].0@, name@);
            }
            assert forall|j: int| pos < j < old_entries.len() implies old_entries[j].0@ != name@ by {
                if old_entries[j].0@ == name@ {
                    assert(lex_lt(old_entries[pos].0@, old_entries[j].0@));
                }
            }
        }
        let matched = i < n && str_eq(self.entries[i].0.as_str(), name.as_str());
        if matched {
            proof {
                lemma_lookup_at(old_entries, pos, name@);
            }
            vstd::std_specs::core::index_set(&mut self.entries, i, (name, spec));
            proof {
                let updated = self.entries@;
                assert(updated == old_entries.update(pos, (name, spec)));
                // The slot keeps its name, so the sort order is undisturbed.
                assert forall|a: int, b: int| 0 <= a < b < updated.len() implies lex_lt(
                    updated[a].0@,
                    updated[b].0@,
                ) by {
                    assert(updated[a].0@ == old_entries[a].0@);
                    assert(updated[b].0@ == old_entries[b].0@);
                }
                lemma_lookup_at(updated, pos, name@);
                assert forall|other: Seq<char>| other != name@ implies lookup_in(updated, other)
                    == lookup_in(old_entries, other) by {
                    lemma_lookup_update_other(old_entries, pos, (name, spec), other);
                }
            }
        } else {
            proof {
                if pos < old_entries.len() {
                    lemma_lex_lt_total(old_entries[pos].0@, name@);
                }
                lemma_lookup_absent(old_entries, name@);
            }
            self.entries.insert(i, (name, spec));
            proof {
                let inserted = self.entries@;
                assert(inserted == old_entries.insert(pos, (name, spec)));
                assert forall|j: int| pos <= j < old_entries.len() implies lex_lt(
                    name@,
                    old_entries[j].0@,
                ) by {
                    if j > pos {
                        lemma_lex_lt_trans(name@, old_entries[pos].0@, old_entries[j].0@);
                    }
                }
                lemma_sorted_insert(old_entries, pos, (name, spec));
                assert forall|k: int| 0 <= k < inserted.len() && k != pos implies inserted[k].0@
                    != name@ by {
                    if k < pos {
                        assert(inserted[k] == old_entries[k]);
                    } else {
                        assert(inserted[k] == old_entries[k - 1]);
                    }
                }
                lemma_lookup_at(inserted, pos, name@);
                assert forall|other: Seq<char>| other != name@ implies lookup_in(inserted, other)
                    == lookup_in(old_entries, other) by {
                    lemma_lookup_insert_other(old_entries, pos, (name, spec), other);
                }
            }
        }
        matched
    }

    /// Exact, case-sensitive lookup of a command name.
    pub fn lookup(&self, name: &str) -> (r: Option<&CommandSpec>)
        ensures
            match r {
                Some(s) => self.spec_lookup(name@) == Some(*s),
                None => self.spec_lookup(name@) is None,
            },
    {
        let n = self.entries.len();
        let mut i: usize = 0;
        proof {
            assert(self.entries@.skip(0) =~= self.entries@);
        }
        while i < n
            invariant
                0 <= i <= n,
                n == self.entries@.len(),
                lookup_in(self.entries@, name@) == lookup_in(
                    self.entries@.skip(i as int),
                    name@,
                ),
            decreases n - i,
        {
            proof {
                assert(self.entries@.skip(i as int)[0] == self.entries@[i as int]);
            }
            if str_eq(self.entries[i].0.as_str(), name) {
                return Some(&self.entries[i].1);
            }
            proof {
                assert(self.entries@.skip(i as int).drop_first() =~= self.entries@.skip(i + 1));
            }
            i += 1;
        }
        proof {
            assert(self.entries@.skip(n as int).len() == 0);
        }
        None
    }

    /// Whether a name is registered.
    pub fn contains(&self, name: &str) -> (r: bool)
        ensures
            r == self.contains_name(name@),
    {
        self.lookup(name).is_some()
    }

    /// In a well-formed registry the name listing is sorted: what
    /// `list_names` yields is strictly increasing.
    pub proof fn lemma_names_sorted(&self)
        requires
            self.wf(),
        ensures
            forall|i: int, j: int|
                0 <= i < j < self.names().len() ==> lex_lt(self.names()[i], self.names()[j]),
    {
        assert forall|i: int, j: int| 0 <= i < j < self.names().len() implies lex_lt(
            self.names()[i],
            self.names()[j],
        ) by {
            assert(self.names()[i] == self.entries@[i].0@);
            assert(self.names()[j] == self.entries@[j].0@);
        }
    }

    /// All registered names, in registry order: sorted, for the built-in
    /// help listing and unknown-command diagnostics.
    pub fn list_names(&self) -> (r: Vec<String>)
        ensures
            r.deep_view() == self.names(),
    {
        let n = self.entries.len();
        let mut r: Vec<String> = Vec::new();
        let mut i: usize = 0;
        while i < n
            invariant
                0 <= i <= n,
                n == self.entries@.len(),
                r.deep_view() =~= self.names().take(i as int),
            decreases n - i,
        {
            let ghost prev = r.deep_view();
            let ghost prev_raw = r@;
            proof {
                assert(prev.len() == prev_raw.len());
                assert(prev.len() == i);
            }
            r.push(self.entries[i].0.clone());
            proof {
                assert(self.names().len() == n);
                assert(r@ == prev_raw.push(r@[i as int]));
                assert(r@.len() == i + 1);
                assert forall|k: int| 0 <= k < r@.len() implies r.deep_view()[k]
                    == self.names().take(i + 1)[k] by {
                    assert(r.deep_view()[k] == r@[k]@);
                    assert(self.names()[k] == self.entries@[k].0@);
                    if k < i {
                        assert(prev[k] == self.names().take(i as int)[k]);
                    }
                }
                assert(r.deep_view() =~= self.names().take(i + 1));
            }
            i += 1;
        }
        proof {
            assert(self.names().take(n as int) =~= self.names());
        }
        r
    }
}

} // verus!
