//! Path templates: per-platform installation paths, variant selection, and
//! directory discovery.

use vstd::prelude::*;
use vstd::string::StringExecFns;
use crate::expand::expand;
use crate::expand::spec_expand;
use crate::platform::BuildMode;
use crate::platform::PathError;
use crate::platform::Platform;

verus! {

/// The view of an `Option<String>`: the characters of the string, if any.
pub open spec fn opt_view(o: Option<String>) -> Option<Seq<char>> {
    match o {
        Some(s) => Some(s@),
        None => None,
    }
}

/// A per-platform set of candidate installation paths.
///
/// At most one variant is used on a given platform: `universal` always takes
/// priority, otherwise the field matching the running platform.  Paths may
/// contain the placeholder tokens `$APPLICATIONS` and `$HOME`.
#[derive(Clone, Debug, PartialEq)]
pub struct InstallationPath {
    pub universal: Option<String>,
    pub windows: Option<String>,
    pub macos: Option<String>,
    pub linux: Option<String>,
}

/// The mathematical value of an `InstallationPath`.
pub struct InstallationPathV {
    pub universal: Option<Seq<char>>,
    pub windows: Option<Seq<char>>,
    pub macos: Option<Seq<char>>,
    pub linux: Option<Seq<char>>,
}

impl View for InstallationPath {
    type V = InstallationPathV;

    open spec fn view(&self) -> InstallationPathV {
        InstallationPathV {
            universal: opt_view(self.universal),
            windows: opt_view(self.windows),
            macos: opt_view(self.macos),
            linux: opt_view(self.linux),
        }
    }
}

impl InstallationPathV {
    /// The field matching the given platform.
    pub open spec fn platform_field(self, p: Platform) -> Option<Seq<char>> {
        match p {
            Platform::Windows => self.windows,
            Platform::Macos => self.macos,
            Platform::Linux => self.linux,
        }
    }

    /// The raw, unexpanded path chosen for `p`: `universal` when present,
    /// regardless of the platform; otherwise the field matching `p`.
    pub open spec fn raw(self, p: Platform) -> Option<Seq<char>> {
        if self.universal is Some {
            self.universal
        } else {
            self.platform_field(p)
        }
    }
}

/// The application-install directory for a platform and build mode: in
/// sandbox mode a fixed development directory under the home directory, on
/// Windows the `PROGRAMFILES` directory, on macOS `<home>/Applications`, on
/// Linux the standard executable directory.  `DirectoryDiscoveryError` when
/// the needed directory is unknown.
pub open spec fn spec_application_dir(
    platform: Platform,
    mode: BuildMode,
    home: Seq<char>,
    program_files: Option<Seq<char>>,
    executable_dir: Option<Seq<char>>,
) -> Result<Seq<char>, PathError> {
    if mode is Sandbox {
        Ok(home + "/ExpressiveLabs/ELSC/testing"@)
    } else {
        match platform {
            Platform::Windows => match program_files {
                Some(pf) => Ok(pf),
                None => Err(PathError::DirectoryDiscoveryError),
            },
            Platform::Macos => Ok(home + "/Applications"@),
            Platform::Linux => match executable_dir {
                Some(d) => Ok(d),
                None => Err(PathError::DirectoryDiscoveryError),
            },
        }
    }
}

/// Computes the application-install directory from known directory values.
pub fn application_dir(
    platform: Platform,
    mode: BuildMode,
    home: &String,
    program_files: &Option<String>,
    executable_dir: &Option<String>,
) -> (r: Result<String, PathError>)
    ensures
        match spec_application_dir(
            platform,
            mode,
            home@,
            opt_view(*program_files),
            opt_view(*executable_dir),
        ) {
            Ok(d) => r matches Ok(v) && v@ == d,
            Err(e) => r == Err::<String, PathError>(e),
        },
{
    match mode {
        BuildMode::Sandbox => Ok(home.clone().concat("/ExpressiveLabs/ELSC/testing")),
        BuildMode::Production => match platform {
            Platform::Windows => match program_files {
                Some(pf) => Ok(pf.clone()),
                None => Err(PathError::DirectoryDiscoveryError),
            },
            Platform::Macos => Ok(home.clone().concat("/Applications")),
            Platform::Linux => match executable_dir {
                Some(d) => Ok(d.clone()),
                None => Err(PathError::DirectoryDiscoveryError),
            },
        },
    }
}

/// Relies on `dirs::home_dir`: the user's home directory, when the platform
/// reports one.  The result depends on the environment, so nothing is
/// promised of it.
#[verifier::external_body]
fn query_home_dir() -> (r: Option<String>) {
    dirs::home_dir().and_then(|p| p.to_str().map(|s| s.to_owned()))
}

/// Relies on `dirs::executable_dir`: the platform's standard directory for
/// user executables, when the platform defines one.  The result depends on
/// the environment, so nothing is promised of it.
#[verifier::external_body]
fn query_executable_dir() -> (r: Option<String>) {
    dirs::executable_dir().and_then(|p| p.to_str().map(|s| s.to_owned()))
}

/// `app` is the application-install directory belonging to `home` for this
/// platform and mode, for some value of the platform's executable directory.
pub open spec fn is_application_dir_for(
    platform: Platform,
    mode: BuildMode,
    home: Seq<char>,
    program_files: Option<Seq<char>>,
    app: Seq<char>,
) -> bool {
    exists|ed: Option<Seq<char>>|
        spec_application_dir(platform, mode, home, program_files, ed) == Ok::<
            Seq<char>,
            PathError,
        >(app)
}

/// Determines the application-install directory and the home directory for
/// the given platform and build mode.
///
/// The home directory comes from the platform; the Windows application
/// directory must be supplied by the caller, since it comes from the
/// `PROGRAMFILES` environment variable; the Linux one is the platform's
/// executable directory.  Returns `(application_dir, home_dir)`.
pub fn discover_directories(
    platform: Platform,
    mode: BuildMode,
    program_files: &Option<String>,
) -> (r: Result<(String, String), PathError>)
    ensures
        r matches Ok(t) ==> is_application_dir_for(
            platform,
            mode,
            t.1@,
            opt_view(*program_files),
            t.0@,
        ),
        r is Err ==> r == Err::<(String, String), PathError>(PathError::DirectoryDiscoveryError),
        platform is Windows && mode is Production && program_files is None ==> r is Err,
{
    let home = match query_home_dir() {
        Some(h) => h,
        None => {
            return Err(PathError::DirectoryDiscoveryError);
        },
    };
    let exec_dir = query_executable_dir();
    match application_dir(platform, mode, &home, program_files, &exec_dir) {
        Ok(app) => {
            proof {
                assert(is_application_dir_for(
                    platform,
                    mode,
                    home@,
                    opt_view(*program_files),
                    app@,
                )) by {
                    assert(spec_application_dir(
                        platform,
                        mode,
                        home@,
                        opt_view(*program_files),
                        opt_view(exec_dir),
                    ) == Ok::<Seq<char>, PathError>(app@));
                }
            }
            Ok((app, home))
        },
        Err(e) => Err(e),
    }
}

impl InstallationPath {
    /// Picks the raw path variant for `platform`.
    ///
    /// `universal` is returned whenever it is set, regardless of the
    /// platform; otherwise the field matching `platform`.  When neither is
    /// set the template has no usable variant and `MissingPath` is returned.
    pub fn get(&self, platform: Platform) -> (r: Result<String, PathError>)
        ensures
            match self@.raw(platform) {
                Some(p) => r matches Ok(v) && v@ == p,
                None => r == Err::<String, PathError>(PathError::MissingPath),
            },
    {
        if let Some(p) = &self.universal {
            return Ok(p.clone());
        }
        let field = match platform {
            Platform::Windows => &self.windows,
            Platform::Macos => &self.macos,
            Platform::Linux => &self.linux,
        };
        match field {
            Some(p) => Ok(p.clone()),
            None => Err(PathError::MissingPath),
        }
    }

    /// Resolves the template for `platform` against already-known
    /// directories: raw variant selection followed by placeholder expansion.
    pub fn resolve_in(&self, platform: Platform, app_dir: &String, home: &String) -> (r: Result<
        String,
        PathError,
    >)
        ensures
            match self@.raw(platform) {
                Some(raw) => r matches Ok(v) && v@ == spec_expand(raw, app_dir@, home@),
                None => r == Err::<String, PathError>(PathError::MissingPath),
            },
    {
        match self.get(platform) {
            Ok(raw) => Ok(expand(raw.as_str(), app_dir.as_str(), home.as_str())),
            Err(e) => Err(e),
        }
    }

    /// Resolves the template for `platform`, discovering the directories
    /// from the environment.  The `PROGRAMFILES` directory, which only
    /// Windows needs, is supplied by the caller.  Canonicalizing the raw
    /// path on disk, where that is wanted, is the caller's step between
    /// picking the variant and expanding it.
    ///
    /// `MissingPath` is returned exactly when the template has no variant
    /// for `platform`; on success the result is the chosen raw path with
    /// both placeholder tokens expanded to the discovered directories: the
    /// home directory the environment reported, and the application-install
    /// directory belonging to it for this platform and mode.
    pub fn resolve(
        &self,
        platform: Platform,
        mode: BuildMode,
        program_files: &Option<String>,
    ) -> (r: Result<String, PathError>)
        ensures
            self@.raw(platform) is None <==> r == Err::<String, PathError>(
                PathError::MissingPath,
            ),
            r matches Ok(v) ==> exists|app: Seq<char>, home: Seq<char>|
                is_application_dir_for(platform, mode, home, opt_view(*program_files), app)
                    && v@ == spec_expand(self@.raw(platform).unwrap(), app, home),
    {
        let raw = match self.get(platform) {
            Ok(p) => p,
            Err(e) => {
                return Err(e);
            },
        };
        match discover_directories(platform, mode, program_files) {
            Ok((app, home)) => {
                let v = expand(raw.as_str(), app.as_str(), home.as_str());
                proof {
                    assert(exists|app2: Seq<char>, home2: Seq<char>|
                        is_application_dir_for(
                            platform,
                            mode,
                            home2,
                            opt_view(*program_files),
                            app2,
                        ) && v@ == spec_expand(self@.raw(platform).unwrap(), app2, home2)) by {
                        assert(is_application_dir_for(
                            platform,
                            mode,
                            home@,
                            opt_view(*program_files),
                            app@,
                        ));
                        assert(v@ == spec_expand(self@.raw(platform).unwrap(), app@, home@));
                    }
                }
                Ok(v)
            },
            Err(e) => Err(e),
        }
    }
}

impl Default for InstallationPath {
    /// An empty template, with no variant set.
    fn default() -> (r: Self)
        ensures
            r@.universal is None,
            r@.windows is None,
            r@.macos is None,
            r@.linux is None,
    {
        InstallationPath { universal: None, windows: None, macos: None, linux: None }
    }
}

} // verus!
