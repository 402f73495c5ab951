//! Settings flattened into a mapping from dotted keys to rendered values.

use crate::settings::{GramSettings, Options, ProtectedBranch, SettingsView, protected_names};
use vstd::prelude::*;

verus! {

/// The key of the description.
pub const DESCRIPTION_KEY: &'static str = "description";

/// The key of the toggle that allows squash merges.
pub const OPTIONS_ALLOW_SQUASH_MERGE_KEY: &'static str = "options.allow-squash-merge";

/// The key of the toggle that allows merge commits.
pub const OPTIONS_ALLOW_MERGE_COMMIT_KEY: &'static str = "options.allow-merge-commit";

/// The key of the toggle that allows rebase merges.
pub const OPTIONS_ALLOW_REBASE_MERGE_KEY: &'static str = "options.allow-rebase-merge";

/// The key of the toggle that deletes a branch once it is merged.
pub const OPTIONS_DELETE_BRANCH_ON_MERGE_KEY: &'static str = "options.delete-branch-on-merge";

/// The key of the protected branches.
pub const PROTECTED_KEY: &'static str = "protected";

/// A mapping from keys to values, both text, with each key held once.
#[derive(Debug)]
pub struct FlatSettings {
    entries: Vec<(String, String)>,
}

/// Whether `keys` and `values` list the entries of `mapping`, one position
/// for each key and no key twice.
pub open spec fn lists(
    keys: Seq<Seq<char>>,
    values: Seq<Seq<char>>,
    mapping: Map<Seq<char>, Seq<char>>,
) -> bool {
    &&& keys.len() == values.len()
    &&& keys.no_duplicates()
    &&& mapping.dom() =~= keys.to_set()
    &&& forall|i: int| 0 <= i < keys.len() ==> mapping[#[trigger] keys[i]] == values[i]
}

/// The keys of a list of entries, in order.
spec fn keys_of(entries: Seq<(String, String)>) -> Seq<Seq<char>> {
    Seq::new(entries.len(), |i: int| entries[i].0@)
}

/// The values of a list of entries, in order.
spec fn values_of(entries: Seq<(String, String)>) -> Seq<Seq<char>> {
    Seq::new(entries.len(), |i: int| entries[i].1@)
}

/// The mapping that distinct keys and their values stand for.
spec fn mapping_of(keys: Seq<Seq<char>>, values: Seq<Seq<char>>) -> Map<Seq<char>, Seq<char>> {
    Map::new(|k: Seq<char>| keys.contains(k), |k: Seq<char>| values[keys.index_of(k)])
}

/// Distinct keys and their values list the entries of the mapping they
/// stand for.
proof fn lemma_mapping_of(keys: Seq<Seq<char>>, values: Seq<Seq<char>>)
    requires
        keys.len() == values.len(),
        keys.no_duplicates(),
    ensures
        lists(keys, values, mapping_of(keys, values)),
{
    let mapping = mapping_of(keys, values);
    assert forall|i: int| 0 <= i < keys.len() implies mapping[#[trigger] keys[i]] == values[i] by {
        assert(keys.contains(keys[i]));
        keys.index_of_first_ensures(keys[i]);
    }
}

/// A mapping is the same as another with one entry put in when its keys and
/// values list what the other's list with that entry put in.
proof fn lemma_lists_insert(
    keys: Seq<Seq<char>>,
    values: Seq<Seq<char>>,
    mapping: Map<Seq<char>, Seq<char>>,
    new_keys: Seq<Seq<char>>,
    new_values: Seq<Seq<char>>,
    new_mapping: Map<Seq<char>, Seq<char>>,
    key: Seq<char>,
    value: Seq<char>,
)
    requires
        lists(keys, values, mapping),
        lists(new_keys, new_values, new_mapping),
        ({
            ||| exists|i: int|
                0 <= i < keys.len() && keys[i] == key && new_keys == keys && new_values
                    == values.update(i, value)
            ||| !keys.contains(key) && new_keys == keys.push(key) && new_values == values.push(
                value,
            )
        }),
    ensures
        new_mapping == mapping.insert(key, value),
{
    let target = mapping.insert(key, value);
    assert forall|k: Seq<char>| new_mapping.dom().contains(k) <==> target.dom().contains(k) by {
        if new_keys.contains(k) {
            let j = new_keys.index_of(k);
            if j < keys.len() {
                assert(keys.contains(keys[j]));
            }
        }
        if keys.contains(k) {
            let j = keys.index_of(k);
            assert(new_keys[j] == k);
        }
        if k == key {
            if !keys.contains(key) {
                assert(new_keys[keys.len() as int] == key);
            }
        }
    }
    assert forall|k: Seq<char>| new_mapping.dom().contains(k) implies new_mapping[k] == target[k] by {
        let j = new_keys.index_of(k);
        assert(new_keys[j] == k);
        if k != key {
            assert(keys[j] == k);
        }
    }
    assert(new_mapping =~= target);
}

impl FlatSettings {
    /// The keys, in the order in which they were first inserted.
    pub closed spec fn keys(&self) -> Seq<Seq<char>> {
        keys_of(self.entries@)
    }

    /// The values, each at the position of its key.
    pub closed spec fn values(&self) -> Seq<Seq<char>> {
        values_of(self.entries@)
    }

    #[verifier::type_invariant]
    spec fn keys_are_distinct(&self) -> bool {
        self.keys().no_duplicates()
    }

    /// The position of `key` among the keys, if it is one of them.
    fn position(&self, key: &String) -> (found: Option<usize>)
        ensures
            match found {
                Some(i) => i < self.keys().len() && self.keys()[i as int] == key@,
                None => !self.keys().contains(key@),
            },
    {
        let mut i: usize = 0;
        while i < self.entries.len()
            invariant
                i <= self.entries@.len(),
                forall|j: int| 0 <= j < i ==> self.keys()[j] != key@,
            decreases self.entries@.len() - i,
        {
            if self.entries[i].0 == *key {
                return Some(i);
            }
            i += 1;
        }
        None
    }

    /// With distinct keys, the keys and values list the mapping's entries.
    proof fn lemma_lists(&self)
        requires
            self.keys_are_distinct(),
        ensures
            lists(self.keys(), self.values(), self@),
    {
        lemma_mapping_of(self.keys(), self.values());
    }

    /// A mapping without entries.
    pub fn new() -> (flat: FlatSettings)
        ensures
            flat@ == Map::<Seq<char>, Seq<char>>::empty(),
            flat.keys() == Seq::<Seq<char>>::empty(),
            flat.values() == Seq::<Seq<char>>::empty(),
    {
        let flat = FlatSettings { entries: Vec::new() };
        assert(flat@ =~= Map::<Seq<char>, Seq<char>>::empty());
        assert(flat.keys() =~= Seq::<Seq<char>>::empty());
        assert(flat.values() =~= Seq::<Seq<char>>::empty());
        flat
    }

    /// The number of entries.
    pub fn len(&self) -> (n: usize)
        ensures
            self@.dom().finite(),
            n == self@.len(),
            n == self.keys().len(),
            lists(self.keys(), self.values(), self@),
    {
        proof {
            use_type_invariant(self);
            self.lemma_lists();
            self.keys().unique_seq_to_set();
        }
        self.entries.len()
    }

    /// The entry at position `i`, key and value, if there are more than
    /// `i` entries.
    pub fn entry(&self, i: usize) -> (found: Option<(&String, &String)>)
        ensures
            match found {
                Some((key, value)) => {
                    &&& i < self.keys().len()
                    &&& key@ == self.keys()[i as int]
                    &&& value@ == self.values()[i as int]
                },
                None => i >= self.keys().len(),
            },
    {
        if i < self.entries.len() {
            Some((&self.entries[i].0, &self.entries[i].1))
        } else {
            None
        }
    }

    /// The value under `key`, if the mapping has one.
    pub fn get(&self, key: &str) -> (value: Option<&String>)
        ensures
            match value {
                Some(v) => self@.contains_key(key@) && v@ == self@[key@],
                None => !self@.contains_key(key@),
            },
    {
        proof {
            use_type_invariant(self);
            self.lemma_lists();
        }
        let key = String::from_str(key);
        match self.position(&key) {
            Some(i) => Some(&self.entries[i].1),
            None => None,
        }
    }

    /// Whether the mapping has a value under `key`.
    pub fn contains_key(&self, key: &str) -> (found: bool)
        ensures
            found == self@.contains_key(key@),
    {
        self.get(key).is_some()
    }

    /// Puts `value` under `key` and returns the value that was there before.
    /// A key that is new takes the place after the last; one that was there
    /// keeps its place.
    pub fn insert(&mut self, key: String, value: String) -> (previous: Option<String>)
        ensures
            final(self)@ == old(self)@.insert(key@, value@),
            match previous {
                Some(p) => {
                    &&& old(self)@.contains_key(key@)
                    &&& p@ == old(self)@[key@]
                    &&& final(self).keys() == old(self).keys()
                    &&& final(self).values() == old(self).values().update(
                        old(self).keys().index_of(key@),
                        value@,
                    )
                },
                None => {
                    &&& !old(self)@.contains_key(key@)
                    &&& final(self).keys() == old(self).keys().push(key@)
                    &&& final(self).values() == old(self).values().push(value@)
                },
            },
    {
        proof {
            use_type_invariant(&*self);
            self.lemma_lists();
        }
        let found = self.position(&key);
        let ghost keys = self.keys();
        let ghost values = self.values();
        let mut entries: Vec<(String, String)> = Vec::new();
        std::mem::swap(&mut self.entries, &mut entries);
        let previous = match found {
            Some(i) => {
                let (_, previous) = entries.remove(i);
                entries.insert(i, (key, value));
                proof {
                    assert(keys_of(entries@) =~= keys);
                    assert(values_of(entries@) =~= values.update(i as int, value@));
                    keys.index_of_first_ensures(key@);
                    assert(keys.index_of(key@) == i);
                }
                Some(previous)
            },
            None => {
                entries.push((key, value));
                proof {
                    assert(keys_of(entries@) =~= keys.push(key@));
                    assert(values_of(entries@) =~= values.push(value@));
                }
                None
            },
        };
        std::mem::swap(&mut self.entries, &mut entries);
        proof {
            self.lemma_lists();
            lemma_lists_insert(
                keys,
                values,
                old(self)@,
                self.keys(),
                self.values(),
                self@,
                key@,
                value@,
            );
        }
        previous
    }
}

impl View for FlatSettings {
    type V = Map<Seq<char>, Seq<char>>;

    closed spec fn view(&self) -> Map<Seq<char>, Seq<char>> {
        mapping_of(self.keys(), self.values())
    }
}

/// How a toggle reads as a value.
pub open spec fn render_bool(b: bool) -> Seq<char> {
    if b {
        "true"@
    } else {
        "false"@
    }
}

/// How a toggle that may be unspecified reads, if it is specified.
pub open spec fn render_toggle(toggle: Option<bool>) -> Option<Seq<char>> {
    match toggle {
        Some(b) => Some(render_bool(b)),
        None => None,
    }
}

/// The names joined into one text, in their order, a single space between
/// each two.
pub open spec fn join_names(names: Seq<Seq<char>>) -> Seq<char>
    decreases names.len(),
{
    if names.len() == 0 {
        Seq::empty()
    } else if names.len() == 1 {
        names[0]
    } else {
        join_names(names.drop_last()) + " "@ + names.last()
    }
}

/// The value that flattened settings hold under `key`: that of the field
/// the key stands for, where the field is specified, and none under any
/// other key. Protected branches count as specified when there is at least
/// one, and read as their joined names.
pub open spec fn flat_value(settings: SettingsView, key: Seq<char>) -> Option<Seq<char>> {
    if key == DESCRIPTION_KEY@ {
        settings.description
    } else if key == OPTIONS_ALLOW_SQUASH_MERGE_KEY@ {
        match settings.options {
            Some(options) => render_toggle(options.allow_squash_merge),
            None => None,
        }
    } else if key == OPTIONS_ALLOW_MERGE_COMMIT_KEY@ {
        match settings.options {
            Some(options) => render_toggle(options.allow_merge_commit),
            None => None,
        }
    } else if key == OPTIONS_ALLOW_REBASE_MERGE_KEY@ {
        match settings.options {
            Some(options) => render_toggle(options.allow_rebase_merge),
            None => None,
        }
    } else if key == OPTIONS_DELETE_BRANCH_ON_MERGE_KEY@ {
        match settings.options {
            Some(options) => render_toggle(options.delete_branch_on_merge),
            None => None,
        }
    } else if key == PROTECTED_KEY@ {
        match settings.protected {
            Some(names) => if names.len() > 0 {
                Some(join_names(names))
            } else {
                None
            },
            None => None,
        }
    } else {
        None
    }
}

/// Settings as a flat mapping: an entry for each specified field, under the
/// field's key, and no other entry.
pub open spec fn flatten_spec(settings: SettingsView) -> Map<Seq<char>, Seq<char>> {
    Map::new(
        |key: Seq<char>| flat_value(settings, key) is Some,
        |key: Seq<char>| flat_value(settings, key).unwrap(),
    )
}

/// Whether `flat` has no entry for any field that `settings` does not
/// specify.
pub open spec fn absent_where_unspecified(
    settings: SettingsView,
    flat: Map<Seq<char>, Seq<char>>,
) -> bool {
    &&& settings.description is None ==> !flat.contains_key(DESCRIPTION_KEY@)
    &&& (settings.options matches Some(options) ==> options.allow_squash_merge is None)
        ==> !flat.contains_key(OPTIONS_ALLOW_SQUASH_MERGE_KEY@)
    &&& (settings.options matches Some(options) ==> options.allow_merge_commit is None)
        ==> !flat.contains_key(OPTIONS_ALLOW_MERGE_COMMIT_KEY@)
    &&& (settings.options matches Some(options) ==> options.allow_rebase_merge is None)
        ==> !flat.contains_key(OPTIONS_ALLOW_REBASE_MERGE_KEY@)
    &&& (settings.options matches Some(options) ==> options.delete_branch_on_merge is None)
        ==> !flat.contains_key(OPTIONS_DELETE_BRANCH_ON_MERGE_KEY@)
    &&& (settings.protected matches Some(names) ==> names.len() == 0) ==> !flat.contains_key(
        PROTECTED_KEY@,
    )
}

/// The six keys, as a set.
pub open spec fn known_keys() -> Set<Seq<char>> {
    set![
        DESCRIPTION_KEY@,
        OPTIONS_ALLOW_SQUASH_MERGE_KEY@,
        OPTIONS_ALLOW_MERGE_COMMIT_KEY@,
        OPTIONS_ALLOW_REBASE_MERGE_KEY@,
        OPTIONS_DELETE_BRANCH_ON_MERGE_KEY@,
        PROTECTED_KEY@,
    ]
}

/// Flattened settings have no entry for a field that is not specified, and
/// none under a key that stands for no field.
pub proof fn lemma_flatten_spec_absence(settings: SettingsView)
    ensures
        absent_where_unspecified(settings, flatten_spec(settings)),
        flatten_spec(settings).dom().subset_of(known_keys()),
        flatten_spec(settings).dom().finite(),
{
    lemma_keys_differ();
    assert(flatten_spec(settings).dom().subset_of(known_keys()));
    vstd::set_lib::lemma_len_subset(flatten_spec(settings).dom(), known_keys());
}

/// The six keys are six different texts.
pub proof fn lemma_keys_differ()
    ensures
        DESCRIPTION_KEY@ != OPTIONS_ALLOW_SQUASH_MERGE_KEY@,
        DESCRIPTION_KEY@ != OPTIONS_ALLOW_MERGE_COMMIT_KEY@,
        DESCRIPTION_KEY@ != OPTIONS_ALLOW_REBASE_MERGE_KEY@,
        DESCRIPTION_KEY@ != OPTIONS_DELETE_BRANCH_ON_MERGE_KEY@,
        DESCRIPTION_KEY@ != PROTECTED_KEY@,
        OPTIONS_ALLOW_SQUASH_MERGE_KEY@ != OPTIONS_ALLOW_MERGE_COMMIT_KEY@,
        OPTIONS_ALLOW_SQUASH_MERGE_KEY@ != OPTIONS_ALLOW_REBASE_MERGE_KEY@,
        OPTIONS_ALLOW_SQUASH_MERGE_KEY@ != OPTIONS_DELETE_BRANCH_ON_MERGE_KEY@,
        OPTIONS_ALLOW_SQUASH_MERGE_KEY@ != PROTECTED_KEY@,
        OPTIONS_ALLOW_MERGE_COMMIT_KEY@ != OPTIONS_ALLOW_REBASE_MERGE_KEY@,
        OPTIONS_ALLOW_MERGE_COMMIT_KEY@ != OPTIONS_DELETE_BRANCH_ON_MERGE_KEY@,
        OPTIONS_ALLOW_MERGE_COMMIT_KEY@ != PROTECTED_KEY@,
        OPTIONS_ALLOW_REBASE_MERGE_KEY@ != OPTIONS_DELETE_BRANCH_ON_MERGE_KEY@,
        OPTIONS_ALLOW_REBASE_MERGE_KEY@ != PROTECTED_KEY@,
        OPTIONS_DELETE_BRANCH_ON_MERGE_KEY@ != PROTECTED_KEY@,
{
    reveal_strlit("description");
    reveal_strlit("options.allow-squash-merge");
    reveal_strlit("options.allow-merge-commit");
    reveal_strlit("options.allow-rebase-merge");
    reveal_strlit("options.delete-branch-on-merge");
    reveal_strlit("protected");
    assert(DESCRIPTION_KEY@.len() == 11);
    assert(OPTIONS_ALLOW_SQUASH_MERGE_KEY@.len() == 26);
    assert(OPTIONS_ALLOW_MERGE_COMMIT_KEY@.len() == 26);
    assert(OPTIONS_ALLOW_REBASE_MERGE_KEY@.len() == 26);
    assert(OPTIONS_DELETE_BRANCH_ON_MERGE_KEY@.len() == 30);
    assert(PROTECTED_KEY@.len() == 9);
    assert(OPTIONS_ALLOW_SQUASH_MERGE_KEY@[14] == 's');
    assert(OPTIONS_ALLOW_MERGE_COMMIT_KEY@[14] == 'm');
    assert(OPTIONS_ALLOW_REBASE_MERGE_KEY@[14] == 'r');
}

/// How a toggle reads as a value: `true` or `false`.
pub fn render(toggle: bool) -> (text: String)
    ensures
        text@ == render_bool(toggle),
{
    if toggle {
        String::from_str("true")
    } else {
        String::from_str("false")
    }
}

/// The names of the branches joined into one text, in their order, a single
/// space between each two.
pub fn join_branch_names(branches: &Vec<ProtectedBranch>) -> (joined: String)
    ensures
        joined@ == join_names(protected_names(branches@)),
{
    let ghost names = protected_names(branches@);
    let mut joined = String::new();
    let mut i: usize = 0;
    proof {
        assert(names.take(0) =~= Seq::<Seq<char>>::empty());
    }
    while i < branches.len()
        invariant
            i <= branches@.len(),
            names == protected_names(branches@),
            joined@ == join_names(names.take(i as int)),
        decreases branches@.len() - i,
    {
        proof {
            let next = names.take(i + 1);
            assert(next.drop_last() =~= names.take(i as int));
            assert(next.last() == branches@[i as int].name@);
            if i == 0 {
                assert(join_names(names.take(0)) =~= Seq::<char>::empty());
                assert(Seq::<char>::empty() + names[0] =~= names[0]);
            }
        }
        if i > 0 {
            joined.append(" ");
        }
        joined.append(branches[i].name.as_str());
        i += 1;
    }
    proof {
        assert(names.take(i as int) =~= names);
    }
    joined
}

/// Puts the toggle under `key` if it is specified.
fn insert_toggle(flat: &mut FlatSettings, key: &str, toggle: Option<bool>)
    ensures
        final(flat)@ == match toggle {
            Some(b) => old(flat)@.insert(key@, render_bool(b)),
            None => old(flat)@,
        },
{
    if let Some(b) = toggle {
        flat.insert(String::from_str(key), render(b));
    }
}

/// Flattens settings into a mapping: one entry for each specified field,
/// under the field's key, and none for a field that is not specified. The
/// protected branches make one entry, their names joined by spaces, unless
/// the list is empty.
pub fn flatten(settings: &GramSettings) -> (flat: FlatSettings)
    ensures
        flat@ == flatten_spec(settings@),
        absent_where_unspecified(settings@, flat@),
{
    let mut flat = FlatSettings::new();
    if let Some(description) = &settings.description {
        flat.insert(String::from_str(DESCRIPTION_KEY), description.clone());
    }
    if let Some(options) = &settings.options {
        insert_toggle(&mut flat, OPTIONS_ALLOW_SQUASH_MERGE_KEY, options.allow_squash_merge);
        insert_toggle(&mut flat, OPTIONS_ALLOW_MERGE_COMMIT_KEY, options.allow_merge_commit);
        insert_toggle(&mut flat, OPTIONS_ALLOW_REBASE_MERGE_KEY, options.allow_rebase_merge);
        insert_toggle(
            &mut flat,
            OPTIONS_DELETE_BRANCH_ON_MERGE_KEY,
            options.delete_branch_on_merge,
        );
    }
    if let Some(branches) = &settings.protected {
        if branches.len() > 0 {
            flat.insert(String::from_str(PROTECTED_KEY), join_branch_names(branches));
        }
    }
    proof {
        lemma_keys_differ();
        assert(flat@ =~= flatten_spec(settings@));
        lemma_flatten_spec_absence(settings@);
    }
    flat
}

} // verus!
