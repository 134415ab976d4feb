//! Profiles, and the store that holds them by name.

use crate::pattern::accepts;
use crate::pattern::is_match;
use crate::pattern::valid_name;
use crate::text::lemma_less_irreflexive;
use crate::text::lemma_less_transitive;
use crate::text::text_less;
use vstd::prelude::*;

verus! {

/// What a `Configuration` holds.
pub struct ConfigurationModel {
    /// The name of the profile.
    pub name: Seq<char>,
    /// The name of its backing file within the directory of profiles.
    pub file: Seq<char>,
}

/// A named profile and the file that backs it.
#[derive(Debug)]
pub struct Configuration {
    name: String,
    file: String,
}

impl View for Configuration {
    type V = ConfigurationModel;

    closed spec fn view(&self) -> ConfigurationModel {
        ConfigurationModel { name: self.name@, file: self.file@ }
    }
}

impl Clone for Configuration {
    fn clone(&self) -> (copy: Self)
        ensures
            copy@ == self@,
    {
        Configuration { name: self.name.clone(), file: self.file.clone() }
    }
}

impl Configuration {
    /// The profile `name`, backed by `file`.
    pub(crate) fn new(name: String, file: String) -> (profile: Self)
        ensures
            profile@ == (ConfigurationModel { name: name@, file: file@ }),
    {
        Configuration { name, file }
    }

    /// The name of the profile.
    pub fn name(&self) -> (name: &str)
        ensures
            name@ == self@.name,
    {
        self.name.as_str()
    }

    /// The name of the backing file within the directory of profiles.
    pub fn file_name(&self) -> (file: &str)
        ensures
            file@ == self@.file,
    {
        self.file.as_str()
    }

    /// Whether `name` may name a profile.
    pub fn is_valid_name(name: &str) -> (valid: bool)
        ensures
            valid == valid_name(name@),
    {
        accepts(is_match("^[a-z][-a-z0-9]*$", name))
    }
}

/// What to do when an operation meets a profile of the destination's name.
#[derive(Copy, Clone, Debug, PartialEq, Eq, Structural)]
pub enum ConflictAction {
    /// Fail and change nothing.
    Abort,
    /// Replace the existing profile.
    Overwrite,
}

impl From<bool> for ConflictAction {
    fn from(value: bool) -> (action: Self)
    {
        if value {
            ConflictAction::Overwrite
        } else {
            ConflictAction::Abort
        }
    }
}

impl vstd::std_specs::convert::FromSpecImpl<bool> for ConflictAction {
    open spec fn obeys_from_spec() -> bool {
        true
    }

    open spec fn from_spec(value: bool) -> Self {
        if value {
            ConflictAction::Overwrite
        } else {
            ConflictAction::Abort
        }
    }
}

/// Whether the profiles of `list` stand in strictly ascending order of
/// their names; no name then occurs twice.
pub open spec fn ascending(list: Seq<ConfigurationModel>) -> bool {
    forall|i: int, j: int|
        0 <= i < j < list.len() ==> text_less(#[trigger] list[i].name, #[trigger] list[j].name)
}

/// Whether a profile of `list` has the name `name`.
pub open spec fn holds(list: Seq<ConfigurationModel>, name: Seq<char>) -> bool {
    exists|i: int| 0 <= i < list.len() && #[trigger] list[i].name == name
}

/// The profiles of `list` by name: each name with its backing file.
pub open spec fn entries(list: Seq<ConfigurationModel>) -> Map<Seq<char>, Seq<char>> {
    Map::new(
        |name: Seq<char>| holds(list, name),
        |name: Seq<char>|
            list[choose|i: int| 0 <= i < list.len() && #[trigger] list[i].name == name].file,
    )
}

/// What each profile of `list` holds.
pub open spec fn models(list: Seq<Configuration>) -> Seq<ConfigurationModel> {
    list.map_values(|c: Configuration| c@)
}

/// What each profile that `list` refers to holds.
pub open spec fn models_of(list: Seq<&Configuration>) -> Seq<ConfigurationModel> {
    list.map_values(|c: &Configuration| c@)
}

/// In an ascending list each profile is found under its name.
pub proof fn lemma_entry(list: Seq<ConfigurationModel>, k: int)
    requires
        ascending(list),
        0 <= k < list.len(),
    ensures
        entries(list).contains_key(list[k].name),
        entries(list)[list[k].name] == list[k].file,
{
    let name = list[k].name;
    let i = choose|i: int| 0 <= i < list.len() && #[trigger] list[i].name == name;
    lemma_less_irreflexive(name);
    if i < k {
        assert(text_less(list[i].name, list[k].name));
    } else if k < i {
        assert(text_less(list[k].name, list[i].name));
    }
}

/// Putting a profile with a new name at its place in an ascending list
/// keeps the list ascending and adds the profile under its name.
pub proof fn lemma_insert(list: Seq<ConfigurationModel>, k: int, profile: ConfigurationModel)
    requires
        ascending(list),
        0 <= k <= list.len(),
        forall|i: int| 0 <= i < k ==> text_less(#[trigger] list[i].name, profile.name),
        k < list.len() ==> text_less(profile.name, list[k].name),
    ensures
        ascending(list.insert(k, profile)),
        entries(list.insert(k, profile)) == entries(list).insert(profile.name, profile.file),
{
    let grown = list.insert(k, profile);
    assert forall|j: int| k <= j < list.len() implies text_less(
        profile.name,
        #[trigger] list[j].name,
    ) by {
        if k < j {
            assert(text_less(list[k].name, list[j].name));
            lemma_less_transitive(profile.name, list[k].name, list[j].name);
        }
    }
    assert forall|i: int, j: int| 0 <= i < j < grown.len() implies text_less(
        #[trigger] grown[i].name,
        #[trigger] grown[j].name,
    ) by {
        if i < k && j > k {
            assert(text_less(list[i].name, list[j - 1].name)) by {
                if i < j - 1 {
                } else {
                    lemma_less_transitive(list[i].name, profile.name, list[j - 1].name);
                }
            }
        } else if i < k && j == k {
        } else if i < k {
            assert(grown[i] == list[i] && grown[j] == list[j]);
        } else if i == k {
            assert(grown[j] == list[j - 1]);
        } else {
            assert(grown[i] == list[i - 1] && grown[j] == list[j - 1]);
            assert(text_less(list[i - 1].name, list[j - 1].name));
        }
    }
    let expected = entries(list).insert(profile.name, profile.file);
    assert forall|name: Seq<char>| entries(grown).contains_key(name) <==> expected.contains_key(
        name,
    ) by {
        if holds(grown, name) {
            let i = choose|i: int| 0 <= i < grown.len() && #[trigger] grown[i].name == name;
            if i < k {
                assert(list[i].name == name);
            } else if i > k {
                assert(list[i - 1].name == name);
            }
        }
        if holds(list, name) {
            let i = choose|i: int| 0 <= i < list.len() && #[trigger] list[i].name == name;
            if i < k {
                assert(grown[i].name == name);
            } else {
                assert(grown[i + 1].name == name);
            }
        }
        if name == profile.name {
            assert(grown[k].name == name);
        }
    }
    assert forall|name: Seq<char>| entries(grown).contains_key(name) implies entries(grown)[name]
        == expected[name] by {
        let i = choose|i: int| 0 <= i < grown.len() && #[trigger] grown[i].name == name;
        lemma_entry(grown, i);
        if i < k {
            assert(grown[i] == list[i]);
            lemma_entry(list, i);
            lemma_less_irreflexive(name);
        } else if i > k {
            assert(grown[i] == list[i - 1]);
            lemma_entry(list, i - 1);
            lemma_less_irreflexive(name);
        }
    }
    assert(entries(grown) =~= expected);
}

/// Putting a profile in the place of the one that has its name keeps an
/// ascending list ascending and replaces what stands under the name.
pub proof fn lemma_replace(list: Seq<ConfigurationModel>, k: int, profile: ConfigurationModel)
    requires
        ascending(list),
        0 <= k < list.len(),
        list[k].name == profile.name,
    ensures
        ascending(list.update(k, profile)),
        entries(list.update(k, profile)) == entries(list).insert(profile.name, profile.file),
{
    let changed = list.update(k, profile);
    assert forall|i: int, j: int| 0 <= i < j < changed.len() implies text_less(
        #[trigger] changed[i].name,
        #[trigger] changed[j].name,
    ) by {
        assert(changed[i].name == list[i].name && changed[j].name == list[j].name);
    }
    let expected = entries(list).insert(profile.name, profile.file);
    assert forall|name: Seq<char>| entries(changed).contains_key(name) <==> expected.contains_key(
        name,
    ) by {
        if holds(changed, name) {
            let i = choose|i: int| 0 <= i < changed.len() && #[trigger] changed[i].name == name;
            assert(list[i].name == name);
        }
        if holds(list, name) {
            let i = choose|i: int| 0 <= i < list.len() && #[trigger] list[i].name == name;
            assert(changed[i].name == name);
        }
        if name == profile.name {
            assert(changed[k].name == name);
        }
    }
    assert forall|name: Seq<char>| entries(changed).contains_key(name) implies entries(
        changed,
    )[name] == expected[name] by {
        let i = choose|i: int| 0 <= i < changed.len() && #[trigger] changed[i].name == name;
        lemma_entry(changed, i);
        if i != k {
            assert(changed[i] == list[i]);
            lemma_entry(list, i);
            lemma_entry(list, k);
            lemma_less_irreflexive(name);
            if i < k {
                assert(text_less(list[i].name, list[k].name));
            } else {
                assert(text_less(list[k].name, list[i].name));
            }
        }
    }
    assert(entries(changed) =~= expected);
}

/// Taking a profile out of an ascending list keeps the list ascending and
/// removes the profile's name.
pub proof fn lemma_remove(list: Seq<ConfigurationModel>, k: int)
    requires
        ascending(list),
        0 <= k < list.len(),
    ensures
        ascending(list.remove(k)),
        entries(list.remove(k)) == entries(list).remove(list[k].name),
{
    let shrunk = list.remove(k);
    assert forall|i: int, j: int| 0 <= i < j < shrunk.len() implies text_less(
        #[trigger] shrunk[i].name,
        #[trigger] shrunk[j].name,
    ) by {
        let a = if i < k { i } else { i + 1 };
        let b = if j < k { j } else { j + 1 };
        assert(shrunk[i] == list[a] && shrunk[j] == list[b]);
        assert(text_less(list[a].name, list[b].name));
    }
    let expected = entries(list).remove(list[k].name);
    assert forall|name: Seq<char>| entries(shrunk).contains_key(name) <==> expected.contains_key(
        name,
    ) by {
        lemma_less_irreflexive(name);
        if holds(shrunk, name) {
            let i = choose|i: int| 0 <= i < shrunk.len() && #[trigger] shrunk[i].name == name;
            let a = if i < k { i } else { i + 1 };
            assert(list[a].name == name);
            if a < k {
                assert(text_less(list[a].name, list[k].name));
            } else {
                assert(text_less(list[k].name, list[a].name));
            }
        }
        if holds(list, name) && name != list[k].name {
            let i = choose|i: int| 0 <= i < list.len() && #[trigger] list[i].name == name;
            if i < k {
                assert(shrunk[i].name == name);
            } else {
                assert(shrunk[i - 1].name == name);
            }
        }
    }
    assert forall|name: Seq<char>| entries(shrunk).contains_key(name) implies entries(
        shrunk,
    )[name] == expected[name] by {
        let i = choose|i: int| 0 <= i < shrunk.len() && #[trigger] shrunk[i].name == name;
        let a = if i < k { i } else { i + 1 };
        lemma_entry(shrunk, i);
        assert(shrunk[i] == list[a]);
        lemma_entry(list, a);
        lemma_less_irreflexive(name);
        if a < k {
            assert(text_less(list[a].name, list[k].name));
        } else {
            assert(text_less(list[k].name, list[a].name));
        }
    }
    assert(entries(shrunk) =~= expected);
}

/// A name that falls between two neighbours of an ascending list, or
/// before its first or after its last profile, is not in the list.
pub proof fn lemma_absent(list: Seq<ConfigurationModel>, k: int, name: Seq<char>)
    requires
        ascending(list),
        0 <= k <= list.len(),
        forall|i: int| 0 <= i < k ==> text_less(#[trigger] list[i].name, name),
        k < list.len() ==> text_less(name, list[k].name),
    ensures
        !entries(list).contains_key(name),
{
    if holds(list, name) {
        let i = choose|i: int| 0 <= i < list.len() && #[trigger] list[i].name == name;
        lemma_less_irreflexive(name);
        if i > k {
            assert(text_less(list[k].name, list[i].name));
            lemma_less_transitive(name, list[k].name, list[i].name);
        }
    }
}

/// The profiles of a store can be listed in ascending order in one way
/// only: two ascending lists that hold the same profiles by name are the
/// same list. So a listing is the same on every call, as long as the
/// profiles are.
pub proof fn lemma_listing_determined(first: Seq<ConfigurationModel>, second: Seq<ConfigurationModel>)
    requires
        ascending(first),
        ascending(second),
        entries(first) == entries(second),
    ensures
        first == second,
    decreases first.len(),
{
    if first.len() == 0 {
        if second.len() > 0 {
            lemma_entry(second, 0);
            assert(holds(first, second[0].name));
        }
        assert(first =~= second);
    } else {
        lemma_entry(first, 0);
        assert(holds(second, first[0].name));
        let j = choose|j: int| 0 <= j < second.len() && #[trigger] second[j].name == first[0].name;
        lemma_entry(second, 0);
        assert(holds(first, second[0].name));
        let i = choose|i: int| 0 <= i < first.len() && #[trigger] first[i].name == second[0].name;
        if j > 0 {
            assert(text_less(second[0].name, second[j].name));
            if i > 0 {
                assert(text_less(first[0].name, first[i].name));
                lemma_less_transitive(first[0].name, second[0].name, first[0].name);
            }
            lemma_less_irreflexive(first[0].name);
        }
        assert(first[0] == second[0]);
        lemma_remove(first, 0);
        lemma_remove(second, 0);
        lemma_listing_determined(first.remove(0), second.remove(0));
        assert(first =~= seq![first[0]] + first.remove(0));
        assert(second =~= seq![second[0]] + second.remove(0));
    }
}

} // verus!
