//! The manifest entities: plain records composing a package description.

use vstd::prelude::*;
use crate::paths::InstallationPath;
use crate::paths::InstallationPathV;
use crate::paths::opt_view;

verus! {

/// A package dependency, by name and version.  Data only: no resolution
/// logic consumes it.
#[derive(Clone, Debug, PartialEq)]
pub struct Dependency {
    pub name: String,
    pub version: String,
}

/// The mathematical value of a `Dependency`.
pub struct DependencyV {
    pub name: Seq<char>,
    pub version: Seq<char>,
}

impl View for Dependency {
    type V = DependencyV;

    open spec fn view(&self) -> DependencyV {
        DependencyV { name: self.name@, version: self.version@ }
    }
}

/// A contact record, used for the developer and the publisher.
#[derive(Clone, Debug, PartialEq)]
pub struct Author {
    pub name: String,
    pub email: String,
    pub url: String,
}

/// The mathematical value of an `Author`.
pub struct AuthorV {
    pub name: Seq<char>,
    pub email: Seq<char>,
    pub url: Seq<char>,
}

impl View for Author {
    type V = AuthorV;

    open spec fn view(&self) -> AuthorV {
        AuthorV { name: self.name@, email: self.email@, url: self.url@ }
    }
}

/// A file type the package registers, by extension and description.
#[derive(Clone, Debug, PartialEq)]
pub struct FiletypeAssociation {
    pub extension: String,
    pub description: String,
}

/// The mathematical value of a `FiletypeAssociation`.
pub struct FiletypeAssociationV {
    pub extension: Seq<char>,
    pub description: Seq<char>,
}

impl View for FiletypeAssociation {
    type V = FiletypeAssociationV;

    open spec fn view(&self) -> FiletypeAssociationV {
        FiletypeAssociationV { extension: self.extension@, description: self.description@ }
    }
}

/// One unit of installable content: where it goes, and optionally where it
/// is copied from.
#[derive(Clone, Debug, PartialEq)]
pub struct ContentBundle {
    pub target: InstallationPath,
    pub source: Option<InstallationPath>,
}

/// The mathematical value of a `ContentBundle`.
pub struct ContentBundleV {
    pub target: InstallationPathV,
    pub source: Option<InstallationPathV>,
}

impl View for ContentBundle {
    type V = ContentBundleV;

    open spec fn view(&self) -> ContentBundleV {
        ContentBundleV {
            target: self.target@,
            source: match self.source {
                Some(s) => Some(s@),
                None => None,
            },
        }
    }
}

/// The root manifest: the package's identity, its registered file types,
/// its authors, its entry point, and its content bundles.
#[derive(Clone, Debug, PartialEq)]
pub struct PackageFile {
    pub name: String,
    pub identifier: String,
    pub version: String,
    pub icon: Option<String>,
    pub filetypes: Vec<FiletypeAssociation>,
    pub developer: Author,
    pub publisher: Author,
    pub minimum_hub_version: Option<String>,
    pub entrypoint: InstallationPath,
    pub contents: Vec<ContentBundle>,
}

/// The mathematical value of a `PackageFile`.
pub struct PackageFileV {
    pub name: Seq<char>,
    pub identifier: Seq<char>,
    pub version: Seq<char>,
    pub icon: Option<Seq<char>>,
    pub filetypes: Seq<FiletypeAssociationV>,
    pub developer: AuthorV,
    pub publisher: AuthorV,
    pub minimum_hub_version: Option<Seq<char>>,
    pub entrypoint: InstallationPathV,
    pub contents: Seq<ContentBundleV>,
}

impl View for PackageFile {
    type V = PackageFileV;

    open spec fn view(&self) -> PackageFileV {
        PackageFileV {
            name: self.name@,
            identifier: self.identifier@,
            version: self.version@,
            icon: opt_view(self.icon),
            filetypes: Seq::new(self.filetypes@.len(), |i: int| self.filetypes@[i]@),
            developer: self.developer@,
            publisher: self.publisher@,
            minimum_hub_version: opt_view(self.minimum_hub_version),
            entrypoint: self.entrypoint@,
            contents: Seq::new(self.contents@.len(), |i: int| self.contents@[i]@),
        }
    }
}

impl Default for Dependency {
    /// An empty dependency record.
    fn default() -> (r: Self)
        ensures
            r@.name.len() == 0,
            r@.version.len() == 0,
    {
        Dependency { name: String::new(), version: String::new() }
    }
}

impl Default for Author {
    /// An empty contact record.
    fn default() -> (r: Self)
        ensures
            r@.name.len() == 0,
            r@.email.len() == 0,
            r@.url.len() == 0,
    {
        Author { name: String::new(), email: String::new(), url: String::new() }
    }
}

impl Default for FiletypeAssociation {
    /// An empty association record.
    fn default() -> (r: Self)
        ensures
            r@.extension.len() == 0,
            r@.description.len() == 0,
    {
        FiletypeAssociation { extension: String::new(), description: String::new() }
    }
}

impl Default for ContentBundle {
    /// A bundle with an empty target template and no source.
    fn default() -> (r: Self)
        ensures
            r@.target.universal is None,
            r@.target.windows is None,
            r@.target.macos is None,
            r@.target.linux is None,
            r@.source is None,
    {
        ContentBundle { target: InstallationPath::default(), source: None }
    }
}

impl Default for PackageFile {
    /// An empty manifest: empty identity strings, no optional fields, no
    /// file types and no contents.
    fn default() -> (r: Self)
        ensures
            r@.name.len() == 0,
            r@.identifier.len() == 0,
            r@.version.len() == 0,
            r@.icon is None,
            r@.filetypes.len() == 0,
            r@.minimum_hub_version is None,
            r@.contents.len() == 0,
    {
        PackageFile {
            name: String::new(),
            identifier: String::new(),
            version: String::new(),
            icon: None,
            filetypes: Vec::new(),
            developer: Author::default(),
            publisher: Author::default(),
            minimum_hub_version: None,
            entrypoint: InstallationPath::default(),
            contents: Vec::new(),
        }
    }
}

} // verus!
