//! Choosing the build script of a package element.
use vstd::prelude::*;

use crate::derive::{lookup, lookup_metadata};

verus! {

pub const AUTOTOOLS_SCRIPT: &'static str = "
if [[ %{seperate-build-dir} == true ]] ; then
    CONFIGURE=../configure
    cd %{build-dir}
else
    CONFIGURE=./configure
fi

$CONFIGURE --prefix=%{prefix} \
    --sysconfdir=%{sysconfdir} \
    --libdir=%{libdir}  \
    --libexecdir=%{libdir} \
    --bindir=%{bindir} \
    --sbindir=%{bindir}
    %{conf-extra}

make -j$(nproc) %{compile}
make install DESTDIR=%{install-root} %{install}
            ";

pub const CMAKE_SCRIPT: &'static str = "
cmake -B %{build-dir} -DCMAKE_INSTALL_PREFIX=%{prefix}
cmake --build %{build-dir} %{compile}
DESTDIR=%{install-root} cmake --install %{build-dir} %{install}
            ";

pub const MAKEFILE_SCRIPT: &'static str = "
make PREFIX=%{prefix} BINDIR=%{bindir} LIBDIR=%{libdir} LIBEXECDIR=%{libdir} SBINDIR=%{bindir} %{compile}
make PREFIX=%{prefix} BINDIR=%{bindir} LIBDIR=%{libdir} LIBEXECDIR=%{libdir} SBINDIR=%{bindir} install DESTDIR=%{install-root} %{install}
";

pub const MESON_SCRIPT: &'static str = "
meson %{build-dir} --prefix=%{prefix} \
    --sysconfdir=%{sysconfdir} \
    --libdir=%{libdir}  \
    --libexecdir=%{libdir} \
    --bindir=%{bindir} \
    --sbindir=%{bindir}
    %{conf-extra}

ninja -C %{build-dir} %{compile}
DESTDIR=%{install-root} ninja -C %{build-dir} install %{install}";

/// How a source tree is built.
#[derive(Debug, Clone, Copy, PartialEq, Eq, Structural)]
pub enum BuildType {
    AutoTools,
    Meson,
    Cmake,
    Makefile,
    Python,
}

/// Why no build script could be had.
#[derive(Debug, Clone, Copy, PartialEq, Eq, Structural)]
pub enum BuildError {
    CompilationFailed,
    PackagingFailed,
}

/// The build type that the name `id` stands for.
pub open spec fn build_type_named(id: Seq<char>) -> Option<BuildType> {
    if id == "autotools"@ {
        Some(BuildType::AutoTools)
    } else if id == "meson"@ {
        Some(BuildType::Meson)
    } else if id == "cmake"@ {
        Some(BuildType::Cmake)
    } else if id == "make"@ {
        Some(BuildType::Makefile)
    } else if id == "pip"@ {
        Some(BuildType::Python)
    } else {
        None
    }
}

/// Whether `files` holds the name `f`.
pub open spec fn has_file(files: Seq<String>, f: Seq<char>) -> bool {
    exists|i: int| 0 <= i < files.len() && #[trigger] files[i]@ == f
}

/// The build type that the files of a source tree show, checked in the order
/// `configure`, `meson.build`, `CMakeLists.txt`, `Makefile`, `setup.py`.
pub open spec fn detected(files: Seq<String>) -> Option<BuildType> {
    if has_file(files, "configure"@) {
        Some(BuildType::AutoTools)
    } else if has_file(files, "meson.build"@) {
        Some(BuildType::Meson)
    } else if has_file(files, "CMakeLists.txt"@) {
        Some(BuildType::Cmake)
    } else if has_file(files, "Makefile"@) {
        Some(BuildType::Makefile)
    } else if has_file(files, "setup.py"@) {
        Some(BuildType::Python)
    } else {
        None
    }
}

/// The script template of a build type.
pub open spec fn script_of(t: BuildType) -> Seq<char> {
    match t {
        BuildType::AutoTools => AUTOTOOLS_SCRIPT@,
        BuildType::Cmake => CMAKE_SCRIPT@,
        BuildType::Makefile => MAKEFILE_SCRIPT@,
        BuildType::Meson => MESON_SCRIPT@,
        BuildType::Python => Seq::empty(),
    }
}

fn holds_file(files: &Vec<String>, f: &str) -> (r: bool)
    ensures
        r == has_file(files@, f@),
{
    let wanted = String::from_str(f);
    let mut i: usize = 0;
    while i < files.len()
        invariant
            i <= files.len(),
            wanted@ == f@,
            forall|j: int| 0 <= j < i ==> #[trigger] files@[j]@ != f@,
        decreases files.len() - i,
    {
        if files[i] == wanted {
            return true;
        }
        i = i + 1;
    }
    false
}

impl BuildType {
    /// The build type that the files of a source tree show (see `detected`).
    pub fn detect(files: &Vec<String>) -> (r: Option<BuildType>)
        ensures
            r == detected(files@),
    {
        if holds_file(files, "configure") {
            Some(BuildType::AutoTools)
        } else if holds_file(files, "meson.build") {
            Some(BuildType::Meson)
        } else if holds_file(files, "CMakeLists.txt") {
            Some(BuildType::Cmake)
        } else if holds_file(files, "Makefile") {
            Some(BuildType::Makefile)
        } else if holds_file(files, "setup.py") {
            Some(BuildType::Python)
        } else {
            None
        }
    }

    /// The build type named `id`: `autotools`, `meson`, `cmake`, `make` or `pip`.
    pub fn from_str(id: &str) -> (r: Option<BuildType>)
        ensures
            r == build_type_named(id@),
    {
        let s = String::from_str(id);
        if s == String::from_str("autotools") {
            Some(BuildType::AutoTools)
        } else if s == String::from_str("meson") {
            Some(BuildType::Meson)
        } else if s == String::from_str("cmake") {
            Some(BuildType::Cmake)
        } else if s == String::from_str("make") {
            Some(BuildType::Makefile)
        } else if s == String::from_str("pip") {
            Some(BuildType::Python)
        } else {
            None
        }
    }

    /// The script template of this build type.
    pub fn script(&self) -> (r: String)
        ensures
            r@ == script_of(*self),
    {
        match self {
            BuildType::AutoTools => String::from_str(AUTOTOOLS_SCRIPT),
            BuildType::Cmake => String::from_str(CMAKE_SCRIPT),
            BuildType::Makefile => String::from_str(MAKEFILE_SCRIPT),
            BuildType::Meson => String::from_str(MESON_SCRIPT),
            BuildType::Python => String::new(),
        }
    }
}

/// The build script that an element's `config` asks for: its `script`, else
/// the template of its `build-type`, else that of the type the source tree
/// with `files` shows.
pub open spec fn chosen_script(config: Seq<(String, String)>, files: Seq<String>) -> Option<Seq<char>> {
    match lookup(config, "script"@) {
        Some(s) => Some(s),
        None => {
            let t = match lookup(config, "build-type"@) {
                Some(name) => build_type_named(name),
                None => detected(files),
            };
            match t {
                Some(t) => Some(script_of(t)),
                None => None,
            }
        },
    }
}

/// The build script of an element with `config`, whose source tree holds
/// `files`; fails with `CompilationFailed` when no build type applies.
pub fn generate_script(config: &Vec<(String, String)>, files: &Vec<String>) -> (r: Result<String, BuildError>)
    ensures
        match r {
            Ok(s) => chosen_script(config@, files@) == Some(s@),
            Err(e) => chosen_script(config@, files@) is None && e == BuildError::CompilationFailed,
        },
{
    if let Some(s) = lookup_metadata(config, "script") {
        return Ok(s);
    }
    let build_type = match lookup_metadata(config, "build-type") {
        Some(name) => BuildType::from_str(name.as_str()),
        None => BuildType::detect(files),
    };
    match build_type {
        Some(t) => Ok(t.script()),
        None => Err(BuildError::CompilationFailed),
    }
}

} // verus!
