//! The configuration side of the external extraction tool: game
//! versions, encryption keys, and the argument lists handed to the
//! tool. Running the tool and parsing its output is I/O and lives with
//! the caller; everything here is plain computation over the
//! configuration.

use vstd::prelude::*;

verus! {

broadcast use vstd::std_specs::vec::group_vec_axioms, vstd::seq::group_seq_axioms;

/// The engine releases the extraction tool can be asked to parse for.
#[derive(Debug, Clone, Copy, PartialEq, Eq, Hash, Structural)]
#[allow(non_camel_case_types)]
pub enum GameVersion {
    /// 4.0
    UE4_0,
    /// 4.27
    UE4_27,
    /// 5.0
    UE5_0,
    /// 5.1
    UE5_1,
    /// 5.2
    UE5_2,
    /// 5.3
    UE5_3,
    /// 5.4
    UE5_4,
    /// 5.5
    UE5_5,
}

/// The identifier string the extraction tool expects for a version.
pub open spec fn game_version_str(v: GameVersion) -> Seq<char> {
    match v {
        GameVersion::UE4_0 => "GAME_UE4_0"@,
        GameVersion::UE4_27 => "GAME_UE4_27"@,
        GameVersion::UE5_0 => "GAME_UE5_0"@,
        GameVersion::UE5_1 => "GAME_UE5_1"@,
        GameVersion::UE5_2 => "GAME_UE5_2"@,
        GameVersion::UE5_3 => "GAME_UE5_3"@,
        GameVersion::UE5_4 => "GAME_UE5_4"@,
        GameVersion::UE5_5 => "GAME_UE5_5"@,
    }
}

impl GameVersion {
    /// The identifier string the extraction tool expects.
    pub fn as_str(&self) -> (r: &'static str)
        ensures
            r@ == game_version_str(*self),
    {
        match self {
            GameVersion::UE4_0 => "GAME_UE4_0",
            GameVersion::UE4_27 => "GAME_UE4_27",
            GameVersion::UE5_0 => "GAME_UE5_0",
            GameVersion::UE5_1 => "GAME_UE5_1",
            GameVersion::UE5_2 => "GAME_UE5_2",
            GameVersion::UE5_3 => "GAME_UE5_3",
            GameVersion::UE5_4 => "GAME_UE5_4",
            GameVersion::UE5_5 => "GAME_UE5_5",
        }
    }
}

/// One decryption key: an identifier and the key text.
#[derive(Debug, PartialEq)]
pub struct AesKey {
    /// The identifier of the key, empty for the main key.
    pub guid: String,
    /// The key in hexadecimal text.
    pub key: String,
}

/// The extraction tool's configuration.
#[derive(Debug, PartialEq)]
pub struct ProviderConfig {
    /// The directory holding the game's packages.
    pub directory_path: String,
    /// The engine release to parse for.
    pub game_version: GameVersion,
    /// The decryption keys.
    pub aes_keys: Vec<AesKey>,
    /// The type-mapping file, when one is set.
    pub mappings_path: Option<String>,
}

/// One export of a package as the extraction tool reports it.
#[derive(Debug, PartialEq)]
pub struct ExportInfo {
    /// The object's name.
    pub name: String,
    /// The object's class name.
    pub class_name: String,
    /// The enclosing object's raw reference.
    pub outer_index: i32,
}

/// One package as the extraction tool reports it.
#[derive(Debug, PartialEq)]
pub struct PackageInfo {
    /// The package's name.
    pub name: String,
    /// The package's exports.
    pub exports: Vec<ExportInfo>,
}

/// The configured gateway to the extraction tool: it accumulates the
/// configuration and computes the argument lists; the caller runs the
/// tool on them.
#[derive(Debug, PartialEq)]
pub struct Provider {
    /// The configuration handed to the tool.
    pub config: ProviderConfig,
    /// The path of the tool's executable.
    pub executable_path: String,
}

impl Provider {
    /// A provider for the given package directory and engine release,
    /// with no keys and no mappings.
    pub fn new(directory_path: &str, version: GameVersion) -> (r: Self)
        ensures
            r.config.directory_path@ == directory_path@,
            r.config.game_version == version,
            r.config.aes_keys@.len() == 0,
            r.config.mappings_path is None,
    {
        Provider {
            config: ProviderConfig {
                directory_path: directory_path.to_owned(),
                game_version: version,
                aes_keys: Vec::new(),
                mappings_path: None,
            },
            executable_path: String::new(),
        }
    }

    /// Points the provider at the tool's executable.
    pub fn set_executable_path(&mut self, path: &str)
        ensures
            final(self).executable_path@ == path@,
            final(self).config == old(self).config,
    {
        self.executable_path = path.to_owned();
    }

    /// Adds a decryption key.
    pub fn add_key(&mut self, guid: &str, key: &str)
        ensures
            final(self).config.aes_keys@.len() == old(self).config.aes_keys@.len() + 1,
            final(self).config.aes_keys@.last().guid@ == guid@,
            final(self).config.aes_keys@.last().key@ == key@,
            forall|i: int|
                0 <= i < old(self).config.aes_keys@.len() ==> final(self).config.aes_keys@[i]
                    == old(self).config.aes_keys@[i],
            final(self).config.directory_path == old(self).config.directory_path,
            final(self).config.game_version == old(self).config.game_version,
            final(self).config.mappings_path == old(self).config.mappings_path,
            final(self).executable_path == old(self).executable_path,
    {
        self.config.aes_keys.push(AesKey { guid: guid.to_owned(), key: key.to_owned() });
    }

    /// Sets the type-mapping file.
    pub fn set_mappings(&mut self, path: &str)
        ensures
            final(self).config.mappings_path matches Some(p) && p@ == path@,
            final(self).config.aes_keys == old(self).config.aes_keys,
            final(self).config.directory_path == old(self).config.directory_path,
            final(self).config.game_version == old(self).config.game_version,
            final(self).executable_path == old(self).executable_path,
    {
        self.config.mappings_path = Some(path.to_owned());
    }

    /// The argument list for one invocation of the tool: the action,
    /// the directory and version, one `--aes-key` pair per key, and the
    /// mappings when set.
    pub fn command_args(&self, action: &str) -> (r: Vec<String>)
        ensures
            r@.len() == 5 + 2 * self.config.aes_keys@.len() + (
            if self.config.mappings_path is Some {
                2int
            } else {
                0int
            }),
            r@[0]@ == action@,
            r@[1]@ == "--directory"@,
            r@[2]@ == self.config.directory_path@,
            r@[3]@ == "--version"@,
            r@[4]@ == game_version_str(self.config.game_version),
    {
        let mut args: Vec<String> = Vec::new();
        args.push(action.to_owned());
        args.push("--directory".to_owned());
        args.push(self.config.directory_path.clone());
        args.push("--version".to_owned());
        args.push(self.config.game_version.as_str().to_owned());
        let n = self.config.aes_keys.len();
        let mut i: usize = 0;
        while i < n
            invariant
                n == self.config.aes_keys@.len(),
                i <= n,
                args@.len() == 5 + 2 * i,
                args@[0]@ == action@,
                args@[1]@ == "--directory"@,
                args@[2]@ == self.config.directory_path@,
                args@[3]@ == "--version"@,
                args@[4]@ == game_version_str(self.config.game_version),
            decreases n - i,
        {
            args.push("--aes-key".to_owned());
            let mut pair = self.config.aes_keys[i].guid.clone();
            pair.push(':');
            pair.append(self.config.aes_keys[i].key.as_str());
            args.push(pair);
            i += 1;
        }
        match &self.config.mappings_path {
            Some(m) => {
                args.push("--mappings".to_owned());
                args.push(m.clone());
            },
            None => {},
        }
        args
    }
}

/// Whether a native compression feature is available. This build
/// carries no native probe library, so the answer is `false` for every
/// feature: absence of the library must never look like presence.
pub fn is_feature_available(feature: &str) -> (r: bool)
    ensures
        r == false,
{
    let _ = feature;
    false
}

/// Renders a game version as the dotted release string the original
/// tooling reports.
pub open spec fn game_version_dotted(v: GameVersion) -> Seq<char> {
    match v {
        GameVersion::UE4_0 => "4.0.0"@,
        GameVersion::UE4_27 => "4.27.0"@,
        GameVersion::UE5_0 => "5.0.0"@,
        GameVersion::UE5_1 => "5.1.0"@,
        GameVersion::UE5_2 => "5.2.0"@,
        GameVersion::UE5_3 => "5.3.0"@,
        GameVersion::UE5_4 => "5.4.0"@,
        GameVersion::UE5_5 => "5.5.0"@,
    }
}

/// Conversion helpers bridging the extraction tool's report shapes and
/// the asset model.
pub struct ConversionUtils;

impl ConversionUtils {
    /// The dotted release string of a game version.
    pub fn game_version_to_string(version: &GameVersion) -> (r: &'static str)
        ensures
            r@ == game_version_dotted(*version),
    {
        match version {
            GameVersion::UE4_0 => "4.0.0",
            GameVersion::UE4_27 => "4.27.0",
            GameVersion::UE5_0 => "5.0.0",
            GameVersion::UE5_1 => "5.1.0",
            GameVersion::UE5_2 => "5.2.0",
            GameVersion::UE5_3 => "5.3.0",
            GameVersion::UE5_4 => "5.4.0",
            GameVersion::UE5_5 => "5.5.0",
        }
    }
}

/// The failures the extraction-tool boundary can report, modelled as
/// plain data: the caller that runs the tool raises them, the library
/// only carries them.
#[derive(Debug, PartialEq)]
pub enum CUE4ParseError {
    /// An input or output failure, with its message.
    Io(String),
    /// A malformed report from the tool, with the parser's message.
    Json(String),
    /// A string that could not cross the boundary.
    StringConversion,
    /// The tool exited unsuccessfully; the text is its error output.
    ProcessFailed(String),
    /// A path that does not name a usable file or directory.
    InvalidPath(String),
    /// A file the tool could not find.
    FileNotFound(String),
    /// A package that could not be parsed.
    ParseFailed,
}

impl CUE4ParseError {
    /// The rendered message of this error.
    pub fn message(&self) -> (r: String)
        ensures
            *self matches CUE4ParseError::InvalidPath(p) ==> r@ == "Invalid path: "@ + p@,
            *self matches CUE4ParseError::ProcessFailed(m) ==> r@ == "Process execution failed: "@
                + m@,
            *self == CUE4ParseError::ParseFailed ==> r@ == "Parse failed"@,
    {
        match self {
            CUE4ParseError::Io(m) => {
                let mut s = "IO error: ".to_owned();
                s.append(m.as_str());
                s
            },
            CUE4ParseError::Json(m) => {
                let mut s = "JSON error: ".to_owned();
                s.append(m.as_str());
                s
            },
            CUE4ParseError::StringConversion => "String conversion error".to_owned(),
            CUE4ParseError::ProcessFailed(m) => {
                let mut s = "Process execution failed: ".to_owned();
                s.append(m.as_str());
                s
            },
            CUE4ParseError::InvalidPath(p) => {
                let mut s = "Invalid path: ".to_owned();
                s.append(p.as_str());
                s
            },
            CUE4ParseError::FileNotFound(p) => {
                let mut s = "File not found: ".to_owned();
                s.append(p.as_str());
                s
            },
            CUE4ParseError::ParseFailed => "Parse failed".to_owned(),
        }
    }
}

} // verus!
