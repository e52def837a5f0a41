//! Where the application keeps its files.
//!
//! The home directory of the user is asked of the system; the picture
//! directory and a configuration file, both read elsewhere, may name the
//! import directory and another database. What comes of them is decided
//! here.

use crate::path::{join_path, joined};
use vstd::prelude::*;

verus! {

/// The paths that the application works with. An empty path stands for a
/// place that could not be found, and never exists.
#[derive(Clone, Debug, PartialEq, Eq)]
pub struct Settings {
    /// The directory that receipts are imported from.
    pub import_path: String,
    /// The configuration file.
    pub settings_file: String,
    /// The database.
    pub database_file: String,
}

/// What a [`Settings`] stands for.
pub struct SettingsView {
    pub import_path: Seq<char>,
    pub settings_file: Seq<char>,
    pub database_file: Seq<char>,
}

impl View for Settings {
    type V = SettingsView;

    open spec fn view(&self) -> SettingsView {
        SettingsView {
            import_path: self.import_path@,
            settings_file: self.settings_file@,
            database_file: self.database_file@,
        }
    }
}

/// The name of the configuration file in the home directory.
pub open spec fn settings_name() -> Seq<char> {
    ".bon-scanner.toml"@
}

/// The name of the database in the home directory.
pub open spec fn database_name() -> Seq<char> {
    ".bon-scanner.sqlite"@
}

/// The path of a file of the home directory; empty where no home directory
/// is known.
pub open spec fn in_home(home: Option<Seq<char>>, name: Seq<char>) -> Seq<char> {
    match home {
        Some(dir) => joined(dir, name),
        None => Seq::empty(),
    }
}

/// The settings that follow from the directories of the user alone: the
/// picture directory is imported from, and the configuration file and the
/// database lie in the home directory.
pub open spec fn default_settings(
    home: Option<Seq<char>>,
    pictures: Option<Seq<char>>,
) -> SettingsView {
    SettingsView {
        import_path: match pictures {
            Some(dir) => dir,
            None => Seq::empty(),
        },
        settings_file: in_home(home, settings_name()),
        database_file: in_home(home, database_name()),
    }
}

/// The settings with an import directory and a database laid over them:
/// where one is named, it takes the place of what the settings hold; the
/// rest stays.
pub open spec fn configured_settings(
    settings: SettingsView,
    import_path: Option<Seq<char>>,
    database: Option<Seq<char>>,
) -> SettingsView {
    SettingsView {
        import_path: match import_path {
            Some(path) => path,
            None => settings.import_path,
        },
        settings_file: settings.settings_file,
        database_file: match database {
            Some(path) => path,
            None => settings.database_file,
        },
    }
}

/// `dirs::home_dir` tells the home directory of the user, as the system has
/// it, or that there is none. Nothing is claimed of what it tells. A path
/// that is no text counts as none.
#[verifier::external_body]
fn home_dir() -> (dir: Option<String>) {
    dirs::home_dir().and_then(|path| path.to_str().map(|text| text.to_string()))
}

/// `std::path::Path::exists` tells whether something can be found at a path.
/// The answer depends on what is on disk at the moment of asking, so nothing
/// is claimed of it.
#[verifier::external_body]
fn path_exists(path: &str) -> (exists: bool) {
    std::path::Path::new(path).exists()
}

impl Settings {
    /// The settings that follow from the directories of the user alone.
    pub fn from_directories(home: Option<String>, pictures: Option<String>) -> (s: Settings)
        ensures
            s@ == default_settings(home.deep_view(), pictures.deep_view()),
    {
        let import_path = match pictures {
            Some(dir) => dir,
            None => String::new(),
        };
        match home {
            Some(dir) => Settings {
                import_path,
                settings_file: join_path(dir.as_str(), ".bon-scanner.toml"),
                database_file: join_path(dir.as_str(), ".bon-scanner.sqlite"),
            },
            None => Settings {
                import_path,
                settings_file: String::new(),
                database_file: String::new(),
            },
        }
    }

    /// The settings of this user, as far as the home directory gives them:
    /// the home directory is asked of the system, and the configuration file
    /// and the database lie in it as [`default_settings`] says. The import
    /// directory is left empty; the picture directory, or what a
    /// configuration file names, is laid over it by [`Settings::configured`].
    pub fn new() -> (s: Settings)
        ensures
            exists|home: Option<Seq<char>>| s@ == default_settings(home, None),
    {
        let home = home_dir();
        let s = Settings::from_directories(home, None);
        assert(s@ == default_settings(home.deep_view(), None));
        s
    }

    /// The import directory, given what a configuration file names for it:
    /// the directory that it names, or else the one of these settings.
    pub fn import_path(&self, configured: Option<String>) -> (path: String)
        ensures
            path@ == configured_settings(self@, configured.deep_view(), None).import_path,
    {
        match configured {
            Some(path) => path,
            None => self.import_path.clone(),
        }
    }

    /// The database, given what a configuration file names for it: the file
    /// that it names, or else the one of these settings.
    pub fn database_path(&self, configured: Option<String>) -> (path: String)
        ensures
            path@ == configured_settings(self@, None, configured.deep_view()).database_file,
    {
        match configured {
            Some(path) => path,
            None => self.database_file.clone(),
        }
    }

    /// Lays over the settings an import directory and a database, as the
    /// picture directory of the user or a configuration file names them.
    pub fn configured(self, import_path: Option<String>, database: Option<String>) -> (s: Settings)
        ensures
            s@ == configured_settings(self@, import_path.deep_view(), database.deep_view()),
    {
        let import_path = self.import_path(import_path);
        let database_file = self.database_path(database);
        Settings { import_path, settings_file: self.settings_file, database_file }
    }

    /// Whether a path counts as there, given whether something was found at
    /// it: an empty path never does.
    pub fn is_there(path: &str, found: bool) -> (there: bool)
        ensures
            there == (path@.len() > 0 && found),
    {
        !path.is_empty() && found
    }

    /// Whether the import directory can be found. The disk is asked, and
    /// the answer is settled as [`Settings::is_there`] says.
    pub fn import_path_exists(&self) -> (exists: bool)
        ensures
            exists ==> self.import_path@.len() > 0,
    {
        let found = path_exists(self.import_path.as_str());
        Settings::is_there(self.import_path.as_str(), found)
    }

    /// Whether the database can be found.
    pub fn database_exists(&self) -> (exists: bool)
        ensures
            exists ==> self.database_file@.len() > 0,
    {
        let found = path_exists(self.database_file.as_str());
        Settings::is_there(self.database_file.as_str(), found)
    }

    /// Whether the configuration file can be found.
    pub fn settings_exists(&self) -> (exists: bool)
        ensures
            exists ==> self.settings_file@.len() > 0,
    {
        let found = path_exists(self.settings_file.as_str());
        Settings::is_there(self.settings_file.as_str(), found)
    }
}

} // verus!
