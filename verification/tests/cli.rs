use gcloud_ctx::ConfigurationStore;
use gcloud_ctx::ConflictAction;
use gcloud_ctx::DirectoryScan;
use gcloud_ctx::Error;
use gcloud_ctx::FileOperation;
use gcloud_ctx::Properties;
use gcloud_ctx::PropertiesBuilder;
use gcloud_ctx::Region;
use gcloud_ctx::ScannedEntry;
use gcloud_ctx::Zone;

/// A store directory held in memory, set up as the command line's tests
/// set one up on disk, and a runner for the commands on it.
struct TempConfigurationStore {
    active: Option<String>,
    files: Vec<(String, String)>,
}

impl TempConfigurationStore {
    fn new() -> Self {
        Self { active: None, files: Vec::new() }
    }

    fn with_config_activated(mut self, name: &str) -> Self {
        self.active = Some(name.to_owned());
        self.with_config(name)
    }

    fn with_config(mut self, name: &str) -> Self {
        self.files.push((format!("config_{}", name), String::new()));
        self
    }

    fn write_str(&mut self, file: &str, contents: &str) {
        match self.files.iter_mut().find(|(name, _)| name == file) {
            Some(entry) => entry.1 = contents.to_owned(),
            None => self.files.push((file.to_owned(), contents.to_owned())),
        }
    }

    fn contents(&self, file: &str) -> Option<&str> {
        self.files.iter().find(|(name, _)| name == file).map(|(_, contents)| contents.as_str())
    }

    fn has_file(&self, file: &str) -> bool {
        self.contents(file).is_some()
    }

    fn take(&mut self, file: &str) -> String {
        let at = self.files.iter().position(|(name, _)| name == file).unwrap();
        self.files.remove(at).1
    }

    fn open(&self) -> Result<ConfigurationStore, Error> {
        ConfigurationStore::with_location(DirectoryScan {
            location: "/tmp/gcloud".to_owned(),
            location_is_dir: true,
            configurations_path: "/tmp/gcloud/configurations".to_owned(),
            configurations_is_dir: true,
            entries: Ok(self
                .files
                .iter()
                .map(|(name, _)| ScannedEntry::Named(name.clone()))
                .collect()),
            active: match &self.active {
                Some(name) => Ok(name.clone()),
                None => Err("No such file or directory (os error 2)".to_owned()),
            },
        })
    }

    fn perform(&mut self, operations: Vec<FileOperation>) {
        for operation in operations {
            match operation {
                FileOperation::WriteActive { name } => self.active = Some(name),
                FileOperation::WriteFile { file, contents } => self.write_str(&file, &contents),
                FileOperation::CopyFile { from, to } => {
                    let contents = self.contents(&from).unwrap().to_owned();
                    self.write_str(&to, &contents);
                }
                FileOperation::RenameFile { from, to } => {
                    let contents = self.take(&from);
                    self.write_str(&to, &contents);
                }
                FileOperation::RemoveFile { file } => {
                    self.take(&file);
                }
            }
        }
    }

    /// Opens the store, lets `command` decide, and does what it asks for.
    /// A failure comes back as the line that the command line prints.
    fn run<F>(&mut self, command: F) -> Result<ConfigurationStore, String>
    where
        F: FnOnce(&mut ConfigurationStore) -> Result<Vec<FileOperation>, Error>,
    {
        let result = self.open().and_then(|mut store| {
            let operations = command(&mut store)?;
            Ok((store, operations))
        });
        match result {
            Ok((store, operations)) => {
                self.perform(operations);
                Ok(store)
            }
            Err(error) => Err(format!("Error: {}\n", error.message())),
        }
    }

    fn current(&self) -> String {
        format!("{}\n", self.open().unwrap().active())
    }

    fn list(&self) -> String {
        let store = self.open().unwrap();
        let mut out = String::new();
        for configuration in store.configurations() {
            let prefix = if store.is_active(configuration) { "* " } else { "  " };
            out.push_str(&format!("{}{}\n", prefix, configuration.name()));
        }
        out
    }

    fn describe(&self, name: Option<&str>) -> Result<String, String> {
        let result = self.open().and_then(|store| {
            let file = store.describe(name.unwrap_or(store.active()))?;
            Properties::from_reader(self.contents(&file).unwrap())
        });
        match result {
            Ok(properties) => Ok(properties.to_writer()),
            Err(error) => Err(format!("Error: {}\n", error.message())),
        }
    }

    fn create(&mut self, name: &str, force: bool, activate: bool) -> Result<(), String> {
        let mut builder = PropertiesBuilder::default();
        builder
            .project("my-project")
            .account("a.user@example.org")
            .zone(Zone::parse("europe-west1-d").unwrap())
            .region(Region::parse("us-east1").unwrap());
        let properties = builder.build();
        self.run(|store| store.create(name, &properties, force.into()))?;
        if activate {
            self.run(|store| store.activate(name))?;
        }
        Ok(())
    }
}

const CONTENTS: &str = "[core]\nproject=my-project\naccount=a.user@example.org\n[compute]\nzone=europe-west1-d\nregion=us-east1\n";

#[test]
fn no_args_defaults_to_current() {
    let tmp = TempConfigurationStore::new().with_config("foo").with_config_activated("bar");
    assert_eq!(tmp.current(), "bar\n");
}

#[test]
fn unknown_subcommand_defaults_to_activate() {
    let mut tmp = TempConfigurationStore::new().with_config("foo").with_config_activated("bar");
    assert!(tmp.run(|store| store.activate("foo")).is_ok());
    assert_eq!(tmp.active.as_deref(), Some("foo"));
}

#[test]
fn activate_known_configuration_succeeds() {
    let mut tmp = TempConfigurationStore::new().with_config("foo").with_config_activated("bar");
    let store = tmp.run(|store| store.activate("foo")).unwrap();
    assert_eq!(store.active(), "foo");
    assert_eq!(tmp.active.as_deref(), Some("foo"));
}

#[test]
fn activate_unknown_configuration_fails() {
    let mut tmp = TempConfigurationStore::new().with_config_activated("foo");
    assert_eq!(
        tmp.run(|store| store.activate("unknown")).unwrap_err(),
        "Error: Unable to find configuration 'unknown'\n"
    );
    assert_eq!(tmp.active.as_deref(), Some("foo"));
}

#[test]
fn current_shows_active_configuration() {
    let tmp = TempConfigurationStore::new().with_config("foo").with_config_activated("bar");
    assert_eq!(tmp.current(), "bar\n");
}

#[test]
fn list_shows_configurations() {
    let tmp = TempConfigurationStore::new()
        .with_config("foo")
        .with_config("bar")
        .with_config_activated("baz")
        .with_config("qux");
    let expected = ["  bar", "* baz", "  foo", "  qux", ""].join("\n");
    assert_eq!(tmp.list(), expected);
}

#[test]
fn rename_inactive_configuration_succeeds() {
    let mut tmp = TempConfigurationStore::new().with_config("foo").with_config_activated("bar");
    assert!(tmp.run(|store| store.rename("foo", "renamed", false.into())).is_ok());
    assert_eq!(tmp.active.as_deref(), Some("bar"));
    assert!(!tmp.has_file("config_foo"));
    assert!(tmp.has_file("config_renamed"));
}

#[test]
fn rename_active_configuration_succeeds() {
    let mut tmp = TempConfigurationStore::new().with_config("foo").with_config_activated("bar");
    let store = tmp.run(|store| store.rename("bar", "renamed", false.into())).unwrap();
    assert!(store.is_active(store.find_by_name("renamed").unwrap()));
    assert_eq!(tmp.active.as_deref(), Some("renamed"));
    assert!(!tmp.has_file("config_bar"));
    assert!(tmp.has_file("config_renamed"));
}

#[test]
fn rename_to_existing_name_with_force_overwrites_existing() {
    let mut tmp = TempConfigurationStore::new().with_config("foo").with_config_activated("bar");
    let store = tmp.run(|store| store.rename("bar", "foo", true.into())).unwrap();
    assert!(store.is_active(store.find_by_name("foo").unwrap()));
    assert_eq!(tmp.active.as_deref(), Some("foo"));
    assert!(!tmp.has_file("config_bar"));
    assert!(tmp.has_file("config_foo"));
}

#[test]
fn rename_to_existing_name_without_force_fails() {
    let mut tmp = TempConfigurationStore::new().with_config("foo").with_config_activated("bar");
    assert_eq!(
        tmp.run(|store| store.rename("bar", "foo", false.into())).unwrap_err(),
        "Error: A configuration named 'foo' already exists. Use --force to overwrite it\n"
    );
    assert_eq!(tmp.active.as_deref(), Some("bar"));
    assert!(tmp.has_file("config_bar"));
    assert!(tmp.has_file("config_foo"));
}

#[test]
fn rename_to_invalid_name_fails() {
    let mut tmp = TempConfigurationStore::new().with_config_activated("foo");
    assert_eq!(
        tmp.run(|store| store.rename("foo", "invalid_name", false.into())).unwrap_err(),
        "Error: 'invalid_name' is invalid. Configuration names must only contain ASCII letters and numbers\n"
    );
    assert_eq!(tmp.active.as_deref(), Some("foo"));
    assert!(tmp.has_file("config_foo"));
    assert!(!tmp.has_file("config_invalid_name"));
}

#[test]
fn rename_unknown_configuration_fails() {
    let mut tmp = TempConfigurationStore::new().with_config_activated("foo");
    assert_eq!(
        tmp.run(|store| store.rename("unknown", "bar", false.into())).unwrap_err(),
        "Error: Unable to find configuration 'unknown'\n"
    );
    assert_eq!(tmp.active.as_deref(), Some("foo"));
    assert!(tmp.has_file("config_foo"));
    assert!(!tmp.has_file("config_bar"));
}

#[test]
fn create_sets_properties_successfully() {
    let mut tmp = TempConfigurationStore::new().with_config_activated("foo");
    assert_eq!(tmp.create("new-config", false, false), Ok(()));
    let expected = [
        "[core]",
        "project=my-project",
        "account=a.user@example.org",
        "[compute]",
        "zone=europe-west1-d",
        "region=us-east1",
        "",
    ]
    .join("\n");
    assert_eq!(tmp.contents("config_new-config"), Some(expected.as_str()));
}

#[test]
fn create_without_activate_maintains_previous_activation() {
    let mut tmp = TempConfigurationStore::new().with_config_activated("foo");
    assert_eq!(tmp.create("new-config", false, false), Ok(()));
    assert_eq!(tmp.active.as_deref(), Some("foo"));
}

#[test]
fn create_with_activate_activates_new_configuration() {
    let mut tmp = TempConfigurationStore::new().with_config_activated("foo");
    assert_eq!(tmp.create("new-config", false, true), Ok(()));
    assert_eq!(tmp.active.as_deref(), Some("new-config"));
}

#[test]
fn create_with_force_succeeds() {
    let mut tmp = TempConfigurationStore::new().with_config_activated("foo");
    assert_eq!(tmp.create("foo", true, false), Ok(()));
    assert_eq!(tmp.active.as_deref(), Some("foo"));
    assert_eq!(tmp.contents("config_foo"), Some(CONTENTS));
}

#[test]
fn create_with_invalid_name_fails() {
    let mut tmp = TempConfigurationStore::new().with_config_activated("foo");
    assert_eq!(
        tmp.create("invalid_name", false, false).unwrap_err(),
        "Error: 'invalid_name' is invalid. Configuration names must only contain ASCII letters and numbers\n"
    );
}

#[test]
fn create_without_force_fails() {
    let mut tmp = TempConfigurationStore::new().with_config_activated("foo");
    assert_eq!(
        tmp.create("foo", false, false).unwrap_err(),
        "Error: A configuration named 'foo' already exists. Use --force to overwrite it\n"
    );
    assert_eq!(tmp.contents("config_foo"), Some(""));
}

#[test]
fn describe_with_name_shows_supported_properties() {
    let mut tmp = TempConfigurationStore::new().with_config_activated("foo");
    tmp.write_str("config_foo", CONTENTS);
    assert_eq!(tmp.describe(Some("foo")).unwrap(), CONTENTS);
}

#[test]
fn describe_without_name_shows_active_configuration() {
    let mut tmp = TempConfigurationStore::new().with_config_activated("foo").with_config("bar");
    tmp.write_str("config_foo", CONTENTS);
    assert_eq!(tmp.describe(None).unwrap(), CONTENTS);
}

#[test]
fn describe_unknown_configuration_fails() {
    let tmp = TempConfigurationStore::new().with_config_activated("foo");
    assert_eq!(
        tmp.describe(Some("unknown")).unwrap_err(),
        "Error: Unable to find configuration 'unknown'\n"
    );
}

#[test]
fn copy_copies_all_properties() {
    let mut tmp = TempConfigurationStore::new().with_config_activated("foo");
    let contents = [
        "[core]",
        "project=my-project",
        "account=a.user@example.org",
        "[compute]",
        "zone=europe-west1-d",
        "region=us-east1",
        "[extra]",
        "foo=bar",
        "",
    ]
    .join("\n");
    tmp.write_str("config_foo", &contents);
    assert!(tmp.run(|store| store.copy("foo", "bar", false.into())).is_ok());
    assert_eq!(tmp.active.as_deref(), Some("foo"));
    assert_eq!(tmp.contents("config_bar"), Some(contents.as_str()));
}

#[test]
fn copy_with_activation_activates_configuration() {
    let mut tmp = TempConfigurationStore::new().with_config_activated("foo");
    assert!(tmp.run(|store| store.copy("foo", "bar", false.into())).is_ok());
    assert!(tmp.run(|store| store.activate("bar")).is_ok());
    assert_eq!(tmp.active.as_deref(), Some("bar"));
}

#[test]
fn copy_with_force_succeeds() {
    let mut tmp = TempConfigurationStore::new().with_config_activated("foo").with_config("bar");
    tmp.write_str("config_foo", "foo");
    tmp.write_str("config_bar", "bar");
    assert!(tmp.run(|store| store.copy("foo", "bar", true.into())).is_ok());
    assert_eq!(tmp.contents("config_bar"), tmp.contents("config_foo"));
    assert_eq!(tmp.contents("config_bar"), Some("foo"));
}

#[test]
fn copy_without_force_fails() {
    let mut tmp = TempConfigurationStore::new().with_config_activated("foo").with_config("bar");
    tmp.write_str("config_foo", "foo");
    tmp.write_str("config_bar", "bar");
    assert_eq!(
        tmp.run(|store| store.copy("foo", "bar", false.into())).unwrap_err(),
        "Error: A configuration named 'bar' already exists. Use --force to overwrite it\n"
    );
    assert_eq!(tmp.contents("config_bar"), Some("bar"));
}

#[test]
fn copy_unknown_configuration_fails() {
    let mut tmp = TempConfigurationStore::new().with_config_activated("foo");
    assert_eq!(
        tmp.run(|store| store.copy("unknown", "bar", false.into())).unwrap_err(),
        "Error: Unable to find configuration 'unknown'\n"
    );
}

#[test]
fn copy_invalid_name_fails() {
    let mut tmp = TempConfigurationStore::new().with_config_activated("foo");
    assert_eq!(
        tmp.run(|store| store.copy("foo", "invalid_name", false.into())).unwrap_err(),
        "Error: 'invalid_name' is invalid. Configuration names must only contain ASCII letters and numbers\n"
    );
}

#[test]
fn delete_known_configuration_succeeds() {
    let mut tmp = TempConfigurationStore::new().with_config_activated("foo").with_config("bar");
    assert!(tmp.run(|store| store.delete("bar")).is_ok());
    assert!(!tmp.has_file("config_bar"));
}

#[test]
fn delete_active_configuration_fails() {
    let mut tmp = TempConfigurationStore::new().with_config_activated("foo");
    assert_eq!(
        tmp.run(|store| store.delete("foo")).unwrap_err(),
        "Error: Unable to delete the configuration because it is currently active\n"
    );
    assert!(tmp.has_file("config_foo"));
}

#[test]
fn delete_unknown_configuration_fails() {
    let mut tmp = TempConfigurationStore::new().with_config_activated("foo");
    assert_eq!(
        tmp.run(|store| store.delete("unknown")).unwrap_err(),
        "Error: Unable to find configuration 'unknown'\n"
    );
}
