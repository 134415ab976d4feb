//! The store of profiles: which profiles there are, and which one is
//! active.

use crate::codec::encoded;
use crate::configuration::ascending;
use crate::configuration::entries;
use crate::configuration::lemma_absent;
use crate::configuration::lemma_entry;
use crate::configuration::lemma_insert;
use crate::configuration::lemma_remove;
use crate::configuration::lemma_replace;
use crate::configuration::models;
use crate::configuration::models_of;
use crate::configuration::Configuration;
use crate::configuration::ConfigurationModel;
use crate::configuration::ConflictAction;
use crate::error::Error;
use crate::error::ErrorModel;
use crate::operation::operation_models;
use crate::operation::FileOperation;
use crate::operation::FileOperationModel;
use crate::pattern::valid_name;
use crate::properties::Properties;
use crate::text::joined;
use crate::text::lemma_less_total;
use crate::text::less;
use crate::text::same_text;
use crate::text::strip_prefix;
use crate::text::without_prefix;
use crate::text::text_less;
use vstd::prelude::*;
use vstd::string::*;

verus! {

/// What a `ConfigurationStore` holds.
pub struct StoreModel {
    /// The root directory.
    pub location: Seq<char>,
    /// The directory of profiles under the root.
    pub configurations_path: Seq<char>,
    /// Each profile's name with its backing file.
    pub profiles: Map<Seq<char>, Seq<char>>,
    /// The name of the active profile.
    pub active: Seq<char>,
}

/// The profiles found under one root directory, by name, and the name of
/// the active one. The active name need not be the name of a profile.
#[derive(Debug)]
pub struct ConfigurationStore {
    location: String,
    configurations_path: String,
    configurations: Vec<Configuration>,
    active: String,
}

impl View for ConfigurationStore {
    type V = StoreModel;

    closed spec fn view(&self) -> StoreModel {
        StoreModel {
            location: self.location@,
            configurations_path: self.configurations_path@,
            profiles: entries(models(self.configurations@)),
            active: self.active@,
        }
    }
}

/// One entry of the directory of profiles, as a listing of the directory
/// gave it.
#[derive(Debug, Clone, PartialEq, Eq)]
pub enum ScannedEntry {
    /// The entry could not be read.
    Unreadable,
    /// The entry's file name is not valid UTF-8.
    NotUtf8,
    /// An entry with the file name given.
    Named(String),
}

/// What was found on disk when a store was looked for.
#[derive(Debug)]
pub struct DirectoryScan {
    /// The root directory.
    pub location: String,
    /// Whether the root directory exists and is a directory.
    pub location_is_dir: bool,
    /// The directory of profiles under the root.
    pub configurations_path: String,
    /// Whether the directory of profiles exists and is a directory.
    pub configurations_is_dir: bool,
    /// The entries of the directory of profiles, or the system's report of
    /// why it could not be listed.
    pub entries: Result<Vec<ScannedEntry>, String>,
    /// The whole contents of the active pointer, or the system's report of
    /// why it could not be read.
    pub active: Result<String, String>,
}

/// The profile that a directory entry stands for, if any: an entry with a
/// file name whose rest, after one leading `config_`, is a valid name.
pub open spec fn profile_of(entry: ScannedEntry) -> Option<ConfigurationModel> {
    match entry {
        ScannedEntry::Named(file) => {
            let name = strip_prefix(file@, "config_"@);
            if valid_name(name) {
                Some(ConfigurationModel { name, file: file@ })
            } else {
                None
            }
        },
        _ => None,
    }
}

/// The profiles that the entries of a directory stand for. Where two
/// entries give one name, the later one counts.
pub open spec fn scanned(entries: Seq<ScannedEntry>) -> Map<Seq<char>, Seq<char>>
    decreases entries.len(),
{
    if entries.len() == 0 {
        Map::empty()
    } else {
        let earlier = scanned(entries.drop_last());
        match profile_of(entries.last()) {
            Some(profile) => earlier.insert(profile.name, profile.file),
            None => earlier,
        }
    }
}

/// The store that a scan of the disk gives, or why there is none. The
/// checks are made in this order: the root is a directory; the directory of
/// profiles is one; it could be listed; it holds a profile; the active
/// pointer could be read. The active name is the pointer's whole contents.
pub open spec fn opened(scan: DirectoryScan) -> Result<StoreModel, ErrorModel> {
    if !scan.location_is_dir {
        Err(ErrorModel::ConfigurationStoreNotFound(scan.location@))
    } else if !scan.configurations_is_dir {
        Err(ErrorModel::ConfigurationStoreNotFound(scan.configurations_path@))
    } else {
        match scan.entries {
            Err(report) => Err(ErrorModel::Io(report@)),
            Ok(entries) => if scanned(entries@) == Map::<Seq<char>, Seq<char>>::empty() {
                Err(ErrorModel::NoConfigurationsFound(scan.configurations_path@))
            } else {
                match scan.active {
                    Err(report) => Err(ErrorModel::Io(report@)),
                    Ok(active) => Ok(
                        StoreModel {
                            location: scan.location@,
                            configurations_path: scan.configurations_path@,
                            profiles: scanned(entries@),
                            active: active@,
                        },
                    ),
                }
            },
        }
    }
}

/// The root directory to look in: the override where there is one, else the
/// default of the platform.
pub open spec fn resolved(environment: Option<String>, platform: Option<String>) -> Result<
    Seq<char>,
    ErrorModel,
> {
    match environment {
        Some(path) => Ok(path@),
        None => match platform {
            Some(path) => Ok(path@),
            None => Err(ErrorModel::ConfigurationDirectoryNotFound),
        },
    }
}

/// The name of the file that backs a profile created under `name`.
pub open spec fn backing_file(name: Seq<char>) -> Seq<char> {
    "config_"@ + name
}

/// Whether bringing in a profile called `name` must be refused: a profile
/// has the name and the caller asked to abort then.
pub open spec fn refused(store: StoreModel, name: Seq<char>, conflict: ConflictAction) -> bool {
    conflict == ConflictAction::Abort && store.profiles.contains_key(name)
}

/// What an operation that changes the store comes to: the store after it
/// with the operations on files that it asks for, or the failure.
pub type Outcome = Result<(StoreModel, Seq<FileOperationModel>), ErrorModel>;

/// Whether an operation that took the store from `before` to `after` and
/// returned `result` did what `expected` says: on success the new store and
/// the file operations are the expected ones; on failure the failure is the
/// expected one and the store is as it was.
pub open spec fn carried_out(
    result: Result<Vec<FileOperation>, Error>,
    before: StoreModel,
    after: StoreModel,
    expected: Outcome,
) -> bool {
    match (result, expected) {
        (Ok(operations), Ok(next)) => after == next.0 && operation_models(operations@) == next.1,
        (Err(failure), Err(reason)) => failure@ == reason && after == before,
        _ => false,
    }
}

/// Making the profile `name` the active one.
pub open spec fn activated(store: StoreModel, name: Seq<char>) -> Outcome {
    if !store.profiles.contains_key(name) {
        Err(ErrorModel::UnknownConfiguration(name))
    } else {
        Ok(
            (
                StoreModel { active: name, ..store },
                seq![FileOperationModel::WriteActive { name }],
            ),
        )
    }
}

/// Copying the profile `source` to a profile `destination`.
pub open spec fn copied(
    store: StoreModel,
    source: Seq<char>,
    destination: Seq<char>,
    conflict: ConflictAction,
) -> Outcome {
    if !store.profiles.contains_key(source) {
        Err(ErrorModel::UnknownConfiguration(source))
    } else if !valid_name(destination) {
        Err(ErrorModel::InvalidName(destination))
    } else if refused(store, destination, conflict) {
        Err(ErrorModel::ExistingConfiguration(destination))
    } else {
        Ok(
            (
                StoreModel {
                    profiles: store.profiles.insert(destination, backing_file(destination)),
                    ..store
                },
                seq![
                    FileOperationModel::CopyFile {
                        from: store.profiles[source],
                        to: backing_file(destination),
                    },
                ],
            ),
        )
    }
}

/// Creating the profile `name` with the file contents `contents`.
pub open spec fn created(
    store: StoreModel,
    name: Seq<char>,
    contents: Seq<char>,
    conflict: ConflictAction,
) -> Outcome {
    if !valid_name(name) {
        Err(ErrorModel::InvalidName(name))
    } else if refused(store, name, conflict) {
        Err(ErrorModel::ExistingConfiguration(name))
    } else {
        Ok(
            (
                StoreModel { profiles: store.profiles.insert(name, backing_file(name)), ..store },
                seq![FileOperationModel::WriteFile { file: backing_file(name), contents }],
            ),
        )
    }
}

/// Deleting the profile `name`.
pub open spec fn deleted(store: StoreModel, name: Seq<char>) -> Outcome {
    if !store.profiles.contains_key(name) {
        Err(ErrorModel::UnknownConfiguration(name))
    } else if name == store.active {
        Err(ErrorModel::DeleteActiveConfiguration)
    } else {
        Ok(
            (
                StoreModel { profiles: store.profiles.remove(name), ..store },
                seq![FileOperationModel::RemoveFile { file: store.profiles[name] }],
            ),
        )
    }
}

/// Renaming the profile `old_name` to `new_name`. Where the profile was the
/// active one, the new name is made active after the file is renamed.
pub open spec fn renamed(
    store: StoreModel,
    old_name: Seq<char>,
    new_name: Seq<char>,
    conflict: ConflictAction,
) -> Outcome {
    if !store.profiles.contains_key(old_name) {
        Err(ErrorModel::UnknownConfiguration(old_name))
    } else if !valid_name(new_name) {
        Err(ErrorModel::InvalidName(new_name))
    } else if refused(store, new_name, conflict) {
        Err(ErrorModel::ExistingConfiguration(new_name))
    } else {
        let moved = StoreModel {
            profiles: store.profiles.remove(old_name).insert(new_name, backing_file(new_name)),
            ..store
        };
        let rename = FileOperationModel::RenameFile {
            from: store.profiles[old_name],
            to: backing_file(new_name),
        };
        if old_name == store.active {
            Ok(
                (
                    StoreModel { active: new_name, ..moved },
                    seq![rename, FileOperationModel::WriteActive { name: new_name }],
                ),
            )
        } else {
            Ok((moved, seq![rename]))
        }
    }
}

/// The file to read for a description of the profile `name`.
pub open spec fn described(store: StoreModel, name: Seq<char>) -> Result<Seq<char>, ErrorModel> {
    if store.profiles.contains_key(name) {
        Ok(store.profiles[name])
    } else {
        Err(ErrorModel::UnknownConfiguration(name))
    }
}

/// Whether the active name of `store` is the name of one of its profiles.
pub open spec fn active_is_a_profile(store: StoreModel) -> bool {
    store.profiles.contains_key(store.active)
}

/// No operation makes the active name a dangling one: where it names a
/// profile before an operation that succeeds, it names one after it.
/// Making a profile active also puts a dangling name right.
pub proof fn lemma_active_stays_a_profile(
    store: StoreModel,
    name: Seq<char>,
    other: Seq<char>,
    contents: Seq<char>,
    conflict: ConflictAction,
)
    requires
        active_is_a_profile(store),
    ensures
        activated(store, name) matches Ok(next) ==> active_is_a_profile(next.0),
        copied(store, name, other, conflict) matches Ok(next) ==> active_is_a_profile(next.0),
        created(store, name, contents, conflict) matches Ok(next) ==> active_is_a_profile(next.0),
        deleted(store, name) matches Ok(next) ==> active_is_a_profile(next.0),
        renamed(store, name, other, conflict) matches Ok(next) ==> active_is_a_profile(next.0),
{
}

/// Making a profile active gives a store whose active name is a profile,
/// whatever the active name was.
pub proof fn lemma_activate_puts_the_pointer_right(store: StoreModel, name: Seq<char>)
    ensures
        activated(store, name) matches Ok(next) ==> active_is_a_profile(next.0),
{
}

/// A rename that succeeds leaves no profile under the old name, unless it
/// is the new name too, and one under the new name; it is active exactly
/// where the old one was.
pub proof fn lemma_rename_moves_the_name(
    store: StoreModel,
    old_name: Seq<char>,
    new_name: Seq<char>,
    conflict: ConflictAction,
)
    ensures
        renamed(store, old_name, new_name, conflict) matches Ok(next) ==> {
            &&& next.0.profiles.contains_key(new_name)
            &&& old_name != new_name ==> !next.0.profiles.contains_key(old_name)
            &&& (next.0.active == new_name) == (store.active == old_name || store.active
                == new_name)
        },
{
}

/// A profile that has just been created is described by the file that is
/// to be written for it.
pub proof fn lemma_created_is_described(
    store: StoreModel,
    name: Seq<char>,
    contents: Seq<char>,
    conflict: ConflictAction,
)
    ensures
        created(store, name, contents, conflict) matches Ok(next) ==> {
            &&& described(next.0, name) == Ok::<Seq<char>, ErrorModel>(backing_file(name))
            &&& next.1 == seq![FileOperationModel::WriteFile { file: backing_file(name), contents }]
        },
{
}

/// A copy is described by the file to which the file that described its
/// source is to be copied, and the source is described as before, unless
/// it is its own copy.
pub proof fn lemma_copied_is_described(
    store: StoreModel,
    source: Seq<char>,
    destination: Seq<char>,
    conflict: ConflictAction,
)
    ensures
        copied(store, source, destination, conflict) matches Ok(next) ==> {
            &&& described(store, source) matches Ok(from)
            &&& described(next.0, destination) matches Ok(to)
            &&& next.1 == seq![FileOperationModel::CopyFile { from, to }]
            &&& source != destination ==> described(next.0, source) == described(store, source)
        },
{
}

/// A list that holds the same profiles as `list`, in the same order.
fn copy_of(list: &Vec<Configuration>) -> (copy: Vec<Configuration>)
    ensures
        copy@.len() == list@.len(),
        models(copy@) == models(list@),
{
    let mut copy: Vec<Configuration> = Vec::new();
    let mut i: usize = 0;
    while i < list.len()
        invariant
            i <= list@.len(),
            copy@.len() == i,
            forall|j: int| 0 <= j < i ==> copy@[j]@ == list@[j]@,
        decreases list@.len() - i,
    {
        copy.push(list[i].clone());
        i += 1;
    }
    assert(models(copy@) =~= models(list@));
    copy
}

impl Clone for ConfigurationStore {
    fn clone(&self) -> (copy: Self)
        ensures
            copy@ == self@,
    {
        proof {
            use_type_invariant(self);
        }
        ConfigurationStore {
            location: self.location.clone(),
            configurations_path: self.configurations_path.clone(),
            configurations: copy_of(&self.configurations),
            active: self.active.clone(),
        }
    }
}

impl ConfigurationStore {
    /// The profiles stand in ascending order of their names, and every name
    /// is a valid one.
    #[verifier::type_invariant]
    spec fn well_formed(self) -> bool {
        &&& ascending(models(self.configurations@))
        &&& forall|i: int|
            0 <= i < self.configurations@.len() ==> valid_name(
                #[trigger] models(self.configurations@)[i].name,
            )
    }

    /// The profiles in ascending order of their names.
    pub closed spec fn listing(&self) -> Seq<ConfigurationModel> {
        models(self.configurations@)
    }

    /// The place of `name` among the profiles: the number of profiles whose
    /// names come before it, and whether a profile has the name.
    fn locate(&self, name: &str) -> (place: (usize, bool))
        ensures
            place.0 <= self.listing().len(),
            forall|i: int| 0 <= i < place.0 ==> text_less(#[trigger] self.listing()[i].name, name@),
            place.1 ==> place.0 < self.listing().len() && self.listing()[place.0 as int].name
                == name@,
            !place.1 && place.0 < self.listing().len() ==> text_less(
                name@,
                self.listing()[place.0 as int].name,
            ),
            place.1 == self@.profiles.contains_key(name@),
            place.1 ==> self@.profiles[name@] == self.listing()[place.0 as int].file,
    {
        proof {
            use_type_invariant(self);
        }
        let mut k: usize = 0;
        while k < self.configurations.len() && less(self.configurations[k].name(), name)
            invariant
                k <= self.configurations@.len(),
                forall|i: int|
                    0 <= i < k ==> text_less(#[trigger] models(self.configurations@)[i].name, name@),
            decreases self.configurations@.len() - k,
        {
            k += 1;
        }
        let found = k < self.configurations.len() && same_text(
            self.configurations[k].name(),
            name,
        );
        proof {
            let list = models(self.configurations@);
            if found {
                lemma_entry(list, k as int);
            } else {
                if k < list.len() {
                    lemma_less_total(name@, list[k as int].name);
                }
                lemma_absent(list, k as int, name@);
            }
        }
        (k, found)
    }

    /// Puts the profile `name`, backed by `file`, among the profiles, in
    /// the place of the one that has the name if there is one.
    fn put(&mut self, name: String, file: String)
        requires
            valid_name(name@),
        ensures
            final(self)@ == (StoreModel {
                profiles: old(self)@.profiles.insert(name@, file@),
                ..old(self)@
            }),
    {
        proof {
            use_type_invariant(&*self);
        }
        let place = self.locate(name.as_str());
        let profile = Configuration::new(name, file);
        let ghost list = models(self.configurations@);
        let mut profiles = copy_of(&self.configurations);
        if place.1 {
            proof {
                lemma_replace(list, place.0 as int, profile@);
                assert(models(profiles@.update(place.0 as int, profile)) =~= list.update(
                    place.0 as int,
                    profile@,
                ));
            }
            profiles.set(place.0, profile);
        } else {
            proof {
                lemma_insert(list, place.0 as int, profile@);
                assert(models(profiles@.insert(place.0 as int, profile)) =~= list.insert(
                    place.0 as int,
                    profile@,
                ));
            }
            profiles.insert(place.0, profile);
        }
        self.configurations = profiles;
    }

    /// Takes the profile at place `k` out of the profiles.
    fn take(&mut self, k: usize)
        requires
            k < old(self).listing().len(),
        ensures
            final(self)@ == (StoreModel {
                profiles: old(self)@.profiles.remove(old(self).listing()[k as int].name),
                ..old(self)@
            }),
    {
        proof {
            use_type_invariant(&*self);
        }
        let mut profiles = copy_of(&self.configurations);
        proof {
            let list = models(self.configurations@);
            lemma_remove(list, k as int);
            assert(models(profiles@.remove(k as int)) =~= list.remove(k as int));
        }
        profiles.remove(k);
        self.configurations = profiles;
    }

    /// The root directory of the store to open: `environment`, the value of
    /// the override, where there is one; else `platform`, the default place
    /// on this system. Fails with `ConfigurationDirectoryNotFound` where
    /// there is neither.
    pub fn default_location(environment: Option<String>, platform: Option<String>) -> (result:
        Result<String, Error>)
        ensures
            match (result, resolved(environment, platform)) {
                (Ok(path), Ok(expected)) => path@ == expected,
                (Err(failure), Err(reason)) => failure@ == reason,
                _ => false,
            },
    {
        match environment {
            Some(path) => Ok(path),
            None => match platform {
                Some(path) => Ok(path),
                None => Err(Error::ConfigurationDirectoryNotFound),
            },
        }
    }

    /// Opens the store that `scan` found on disk. Entries that could not be
    /// read, whose names are not UTF-8 or give no valid profile name are
    /// passed over.
    pub fn with_location(scan: DirectoryScan) -> (result: Result<Self, Error>)
        ensures
            match (result, opened(scan)) {
                (Ok(store), Ok(expected)) => store@ == expected,
                (Err(failure), Err(reason)) => failure@ == reason,
                _ => false,
            },
    {
        let DirectoryScan {
            location,
            location_is_dir,
            configurations_path,
            configurations_is_dir,
            entries,
            active,
        } = scan;
        if !location_is_dir {
            return Err(Error::ConfigurationStoreNotFound(location));
        }
        if !configurations_is_dir {
            return Err(Error::ConfigurationStoreNotFound(configurations_path));
        }
        let entries = match entries {
            Ok(entries) => entries,
            Err(report) => {
                return Err(Error::Io(report));
            },
        };
        let mut store = ConfigurationStore {
            location,
            configurations_path,
            configurations: Vec::new(),
            active: String::new(),
        };
        assert(store@.profiles =~= Map::<Seq<char>, Seq<char>>::empty());
        let mut i: usize = 0;
        while i < entries.len()
            invariant
                i <= entries@.len(),
                store@.location == scan.location@,
                store@.configurations_path == scan.configurations_path@,
                store@.profiles == scanned(entries@.take(i as int)),
            decreases entries@.len() - i,
        {
            assert(entries@.take(i + 1).drop_last() == entries@.take(i as int));
            match &entries[i] {
                ScannedEntry::Named(file) => {
                    let name = without_prefix(file.as_str(), "config_");
                    if Configuration::is_valid_name(name) {
                        store.put(name.to_owned(), file.clone());
                    }
                },
                _ => {},
            }
            i += 1;
        }
        assert(entries@.take(i as int) == entries@);
        proof {
            use_type_invariant(&store);
            if store.configurations@.len() > 0 {
                lemma_entry(models(store.configurations@), 0);
            } else {
                assert(store@.profiles =~= Map::<Seq<char>, Seq<char>>::empty());
            }
        }
        if store.configurations.len() == 0 {
            return Err(Error::NoConfigurationsFound(store.configurations_path));
        }
        match active {
            Ok(active) => {
                store.active = active;
                Ok(store)
            },
            Err(report) => Err(Error::Io(report)),
        }
    }

    /// Makes the profile `name` the active one. Fails with
    /// `UnknownConfiguration` where no profile has the name. On success the
    /// active pointer is to be overwritten with the name.
    pub fn activate(&mut self, name: &str) -> (result: Result<Vec<FileOperation>, Error>)
        ensures
            carried_out(result, old(self)@, final(self)@, activated(old(self)@, name@)),
    {
        proof {
            use_type_invariant(&*self);
        }
        let place = self.locate(name);
        if !place.1 {
            return Err(Error::UnknownConfiguration(name.to_owned()));
        }
        let mut operations: Vec<FileOperation> = Vec::new();
        operations.push(FileOperation::WriteActive { name: name.to_owned() });
        self.active = name.to_owned();
        assert(operation_models(operations@) =~= seq![
            FileOperationModel::WriteActive { name: name@ },
        ]);
        Ok(operations)
    }

    /// Copies the profile `src_name` to a profile `dest_name`. Fails with
    /// `UnknownConfiguration` where there is no source, else with
    /// `InvalidName` where the destination's name is not valid, else with
    /// `ExistingConfiguration` where the destination exists and `conflict`
    /// is `Abort`. On success the source's file is to be copied byte for
    /// byte, so that what the library does not interpret is kept.
    pub fn copy(&mut self, src_name: &str, dest_name: &str, conflict: ConflictAction) -> (result:
        Result<Vec<FileOperation>, Error>)
        ensures
            carried_out(
                result,
                old(self)@,
                final(self)@,
                copied(old(self)@, src_name@, dest_name@, conflict),
            ),
    {
        proof {
            use_type_invariant(&*self);
        }
        let source = self.locate(src_name);
        if !source.1 {
            return Err(Error::UnknownConfiguration(src_name.to_owned()));
        }
        if !Configuration::is_valid_name(dest_name) {
            return Err(Error::InvalidName(dest_name.to_owned()));
        }
        if conflict == ConflictAction::Abort && self.locate(dest_name).1 {
            return Err(Error::ExistingConfiguration(dest_name.to_owned()));
        }
        let file = joined("config_", dest_name);
        let mut operations: Vec<FileOperation> = Vec::new();
        operations.push(
            FileOperation::CopyFile {
                from: self.configurations[source.0].file_name().to_owned(),
                to: file.clone(),
            },
        );
        self.put(dest_name.to_owned(), file);
        assert(operation_models(operations@) =~= seq![
            FileOperationModel::CopyFile {
                from: old(self)@.profiles[src_name@],
                to: backing_file(dest_name@),
            },
        ]);
        Ok(operations)
    }

    /// Creates the profile `name` with the settings `properties`. Fails
    /// with `InvalidName` where the name is not valid, else with
    /// `ExistingConfiguration` where a profile has the name and `conflict`
    /// is `Abort`. On success the profile's file is to be written with the
    /// text of the properties.
    pub fn create(&mut self, name: &str, properties: &Properties, conflict: ConflictAction) -> (result:
        Result<Vec<FileOperation>, Error>)
        ensures
            carried_out(
                result,
                old(self)@,
                final(self)@,
                created(old(self)@, name@, encoded(properties@), conflict),
            ),
    {
        proof {
            use_type_invariant(&*self);
        }
        if !Configuration::is_valid_name(name) {
            return Err(Error::InvalidName(name.to_owned()));
        }
        if conflict == ConflictAction::Abort && self.locate(name).1 {
            return Err(Error::ExistingConfiguration(name.to_owned()));
        }
        let file = joined("config_", name);
        let mut operations: Vec<FileOperation> = Vec::new();
        operations.push(
            FileOperation::WriteFile { file: file.clone(), contents: properties.to_writer() },
        );
        self.put(name.to_owned(), file);
        assert(operation_models(operations@) =~= seq![
            FileOperationModel::WriteFile {
                file: backing_file(name@),
                contents: encoded(properties@),
            },
        ]);
        Ok(operations)
    }

    /// Deletes the profile `name`. Fails with `UnknownConfiguration` where
    /// no profile has the name, else with `DeleteActiveConfiguration` where
    /// the profile is the active one. On success its file is to be removed.
    pub fn delete(&mut self, name: &str) -> (result: Result<Vec<FileOperation>, Error>)
        ensures
            carried_out(result, old(self)@, final(self)@, deleted(old(self)@, name@)),
    {
        proof {
            use_type_invariant(&*self);
        }
        let place = self.locate(name);
        if !place.1 {
            return Err(Error::UnknownConfiguration(name.to_owned()));
        }
        if self.is_active(&self.configurations[place.0]) {
            return Err(Error::DeleteActiveConfiguration);
        }
        let mut operations: Vec<FileOperation> = Vec::new();
        operations.push(
            FileOperation::RemoveFile {
                file: self.configurations[place.0].file_name().to_owned(),
            },
        );
        self.take(place.0);
        assert(operation_models(operations@) =~= seq![
            FileOperationModel::RemoveFile { file: old(self)@.profiles[name@] },
        ]);
        Ok(operations)
    }

    /// The file to read for the properties of the profile `name`, its
    /// backing file. Fails with `UnknownConfiguration` where no profile has
    /// the name.
    pub fn describe(&self, name: &str) -> (result: Result<String, Error>)
        ensures
            match (result, described(self@, name@)) {
                (Ok(file), Ok(expected)) => file@ == expected,
                (Err(failure), Err(reason)) => failure@ == reason,
                _ => false,
            },
    {
        let place = self.locate(name);
        if !place.1 {
            return Err(Error::UnknownConfiguration(name.to_owned()));
        }
        Ok(self.configurations[place.0].file_name().to_owned())
    }

    /// Renames the profile `old_name` to `new_name`. Fails with
    /// `UnknownConfiguration` where there is no profile `old_name`, else
    /// with `InvalidName` where the new name is not valid, else with
    /// `ExistingConfiguration` where a profile has the new name and
    /// `conflict` is `Abort`. On success the file is to be renamed; where
    /// the profile was the active one, the new name is then made active, as
    /// an operation of its own.
    pub fn rename(&mut self, old_name: &str, new_name: &str, conflict: ConflictAction) -> (result:
        Result<Vec<FileOperation>, Error>)
        ensures
            carried_out(
                result,
                old(self)@,
                final(self)@,
                renamed(old(self)@, old_name@, new_name@, conflict),
            ),
    {
        proof {
            use_type_invariant(&*self);
        }
        let source = self.locate(old_name);
        if !source.1 {
            return Err(Error::UnknownConfiguration(old_name.to_owned()));
        }
        let active = self.is_active(&self.configurations[source.0]);
        if !Configuration::is_valid_name(new_name) {
            return Err(Error::InvalidName(new_name.to_owned()));
        }
        if conflict == ConflictAction::Abort && self.locate(new_name).1 {
            return Err(Error::ExistingConfiguration(new_name.to_owned()));
        }
        let file = joined("config_", new_name);
        let mut operations: Vec<FileOperation> = Vec::new();
        operations.push(
            FileOperation::RenameFile {
                from: self.configurations[source.0].file_name().to_owned(),
                to: file.clone(),
            },
        );
        self.take(source.0);
        self.put(new_name.to_owned(), file);
        if active {
            match self.activate(new_name) {
                Ok(mut more) => {
                    assert(operation_models(more@).len() == 1);
                    assert(operation_models(more@)[0] == more@[0]@);
                    let ghost first = operations@;
                    let ghost second = more@;
                    operations.append(&mut more);
                    assert(operations@ == first + second);
                    assert(operations@[0] == first[0] && operations@[1] == second[0]);
                },
                Err(failure) => {
                    return Err(failure);
                },
            }
        }
        assert(operation_models(operations@) =~= renamed(
            old(self)@,
            old_name@,
            new_name@,
            conflict,
        )->Ok_0.1);
        Ok(operations)
    }

    /// The name of the active profile.
    pub fn active(&self) -> (name: &str)
        ensures
            name@ == self@.active,
    {
        self.active.as_str()
    }

    /// The root directory.
    pub fn location(&self) -> (path: &str)
        ensures
            path@ == self@.location,
    {
        self.location.as_str()
    }

    /// The directory of profiles under the root.
    pub fn configurations_path(&self) -> (path: &str)
        ensures
            path@ == self@.configurations_path,
    {
        self.configurations_path.as_str()
    }

    /// All profiles, in ascending order of their names.
    pub fn configurations(&self) -> (list: Vec<&Configuration>)
        ensures
            models_of(list@) == self.listing(),
            ascending(self.listing()),
            entries(self.listing()) == self@.profiles,
            forall|i: int|
                0 <= i < self.listing().len() ==> valid_name(#[trigger] self.listing()[i].name),
    {
        proof {
            use_type_invariant(self);
        }
        let mut list: Vec<&Configuration> = Vec::new();
        let mut i: usize = 0;
        while i < self.configurations.len()
            invariant
                i <= self.configurations@.len(),
                list@.len() == i,
                models_of(list@) == models(self.configurations@).subrange(0, i as int),
            decreases self.configurations@.len() - i,
        {
            let ghost before = list@;
            list.push(&self.configurations[i]);
            assert(models_of(list@) =~= models(self.configurations@).subrange(0, i + 1)) by {
                assert forall|j: int| 0 <= j < list@.len() implies models_of(list@)[j] == models(
                    self.configurations@,
                ).subrange(0, i + 1)[j] by {
                    if j < i {
                        assert(list@[j] == before[j]);
                        assert(models_of(before)[j] == models(self.configurations@).subrange(
                            0,
                            i as int,
                        )[j]);
                    }
                }
            }
            i += 1;
        }
        assert(models(self.configurations@).subrange(0, i as int) =~= models(
            self.configurations@,
        ));
        list
    }

    /// Whether `configuration` is the active profile: whether its name is
    /// the active name.
    pub fn is_active(&self, configuration: &Configuration) -> (active: bool)
        ensures
            active == (configuration@.name == self@.active),
    {
        same_text(configuration.name(), self.active.as_str())
    }

    /// The profile called `name`, if there is one.
    pub fn find_by_name(&self, name: &str) -> (found: Option<&Configuration>)
        ensures
            match found {
                Some(profile) => self@.profiles.contains_key(name@) && valid_name(name@)
                    && profile@ == (ConfigurationModel {
                    name: name@,
                    file: self@.profiles[name@],
                }),
                None => !self@.profiles.contains_key(name@),
            },
    {
        proof {
            use_type_invariant(self);
        }
        let place = self.locate(name);
        if place.1 {
            Some(&self.configurations[place.0])
        } else {
            None
        }
    }
}

} // verus!
