//! Toolchains on the search path, from the files in its directories and what they print.
use vstd::prelude::*;

use crate::platform::{lowered, to_lowercase};
use crate::text::{clone_opt, contains_text, opt_text, str_contains, without_suffixes};
use crate::toolchain::{toolchain_views, Toolchain, ToolchainView};
use crate::vendor::{
    compiler_kind, cxx_sibling, cxx_sibling_of, detect_compiler, kind_of_stem, target_in,
    vendor_version, Vendor,
};

verus! {

/// The argument with which a compiler on the search path tells its version and target.
pub const VERBOSE_FLAG: &'static str = "-v";

/// The make of MinGW.
pub const MAKE_EXE: &'static str = "mingw32-make.exe";

/// A file in a directory of the search path. `output` is what it prints when asked to be
/// verbose, `None` where it cannot be run or is not to be; `sibling` is the path of the C++
/// compiler beside it, where there is one; `has_make` says whether the make of MinGW lies
/// beside it.
pub struct PathFile {
    pub path: String,
    pub name: Option<String>,
    pub is_file: bool,
    pub output: Option<String>,
    pub sibling: Option<String>,
    pub has_make: bool,
}

/// A directory of the search path; `files` is `None` where it cannot be read.
pub struct PathDir {
    pub path: String,
    pub files: Option<Vec<PathFile>>,
}

/// Whether a directory of the search path is searched: the directories of editors, which
/// carry compilers of their own, are not. `lower` is its path in lower case.
pub open spec fn searched(lower: Seq<char>) -> bool {
    !contains_text(lower, ".vscode"@) && !contains_text(lower, "extensions"@)
}

/// Whether a directory of the search path is searched; `lower` is its path in lower case.
pub fn lower_dir_is_searched(lower: &str) -> (r: bool)
    ensures
        r == searched(lower@),
{
    !str_contains(lower, ".vscode") && !str_contains(lower, "extensions")
}

/// Whether a directory of the search path is searched.
pub fn dir_is_searched(dir: &str) -> (r: bool)
    ensures
        r == searched(lowered(dir@)),
{
    lower_dir_is_searched(to_lowercase(dir).as_str())
}

/// Whether a compiler may be one of MinGW, by its path in lower case. Only a GCC or Clang on
/// Windows can be.
pub open spec fn mingw_path(vendor: Vendor, lower: Seq<char>, windows: bool) -> bool {
    &&& windows
    &&& vendor != Vendor::ClangCl
    &&& contains_text(lower, "mingw"@) || contains_text(lower, "msys"@)
}

/// Whether a compiler may be one of MinGW, by its path in lower case.
pub fn lower_path_may_be_mingw(vendor: Vendor, lower: &str, windows: bool) -> (r: bool)
    ensures
        r == mingw_path(vendor, lower@, windows),
{
    let gnu = match vendor {
        Vendor::Gcc => true,
        Vendor::Clang => true,
        Vendor::ClangCl => false,
    };
    windows && gnu && (str_contains(lower, "mingw") || str_contains(lower, "msys"))
}

/// Whether a compiler may be one of MinGW, by its path.
pub fn may_be_mingw(vendor: Vendor, path: &str, windows: bool) -> (r: bool)
    ensures
        r == mingw_path(vendor, lowered(path@), windows),
{
    lower_path_may_be_mingw(vendor, to_lowercase(path).as_str(), windows)
}

/// The identifier of a vendor's toolchains.
pub open spec fn vendor_id(vendor: Vendor) -> Seq<char> {
    match vendor {
        Vendor::Gcc => "gcc"@,
        Vendor::Clang => "clang"@,
        Vendor::ClangCl => "clang-cl"@,
    }
}

/// The name of a vendor's toolchains on the search path.
pub open spec fn vendor_name(vendor: Vendor) -> Seq<char> {
    match vendor {
        Vendor::Gcc => "GCC"@,
        Vendor::Clang => "Clang"@,
        Vendor::ClangCl => "Clang-cl"@,
    }
}

/// The compiler that a file of the search path is, if it is one.
pub open spec fn file_vendor(f: PathFile) -> Option<Vendor> {
    if f.is_file {
        match opt_text(f.name) {
            Some(n) => kind_of_stem(lowered(without_suffixes(n, ".exe"@))),
            None => None,
        }
    } else {
        None
    }
}

/// The toolchain of a compiler on the search path that printed its version.
pub open spec fn path_toolchain(
    vendor: Vendor,
    version: Seq<char>,
    f: PathFile,
    windows: bool,
) -> ToolchainView {
    ToolchainView {
        id: vendor_id(vendor),
        name: vendor_name(vendor),
        version,
        path: f.path@,
        cxx: match vendor {
            Vendor::ClangCl => Some(f.path@),
            _ => if cxx_sibling_of(vendor, opt_text(f.name)->0) is Some {
                opt_text(f.sibling)
            } else {
                None
            },
        },
        generator: if mingw_path(vendor, lowered(f.path@), windows) && f.has_make {
            Some("MinGW Makefiles"@)
        } else {
            None
        },
        arch: None,
        triple: target_in(opt_text(f.output)->0),
        toolset: None,
    }
}

/// The toolchain that a file of the search path is: a file with the name of a compiler that
/// prints what that compiler prints.
pub open spec fn path_file_found(f: PathFile, windows: bool) -> Option<ToolchainView> {
    match file_vendor(f) {
        Some(vendor) => match opt_text(f.output) {
            Some(text) => match vendor_version(vendor, text) {
                Some(version) => Some(path_toolchain(vendor, version, f, windows)),
                None => None,
            },
            None => None,
        },
        None => None,
    }
}

/// The toolchains among the files of a directory.
pub open spec fn path_files_found(files: Seq<PathFile>, windows: bool) -> Seq<ToolchainView>
    decreases files.len(),
{
    if files.len() == 0 {
        Seq::<ToolchainView>::empty()
    } else {
        let before = path_files_found(files.drop_last(), windows);
        match path_file_found(files.last(), windows) {
            Some(t) => before.push(t),
            None => before,
        }
    }
}

/// The toolchains in the directories of the search path.
pub open spec fn path_found(dirs: Seq<PathDir>, windows: bool) -> Seq<ToolchainView>
    decreases dirs.len(),
{
    if dirs.len() == 0 {
        Seq::<ToolchainView>::empty()
    } else {
        let d = dirs.last();
        path_found(dirs.drop_last(), windows) + if searched(lowered(d.path@)) {
            match d.files {
                Some(files) => path_files_found(files@, windows),
                None => Seq::<ToolchainView>::empty(),
            }
        } else {
            Seq::<ToolchainView>::empty()
        }
    }
}

/// The toolchain that a file of the search path is.
fn probe_path_file(f: &PathFile, windows: bool) -> (r: Option<Toolchain>)
    ensures
        match r {
            Some(t) => path_file_found(*f, windows) == Some(t@),
            None => path_file_found(*f, windows) is None,
        },
{
    if !f.is_file {
        return None;
    }
    let name = match &f.name {
        Some(n) => n,
        None => {
            return None;
        },
    };
    let vendor = match compiler_kind(name.as_str()) {
        Some(v) => v,
        None => {
            return None;
        },
    };
    let text = match &f.output {
        Some(t) => t,
        None => {
            return None;
        },
    };
    let (version, triple) = match detect_compiler(vendor, text.as_str()) {
        Some(d) => d,
        None => {
            return None;
        },
    };
    let (id, label) = match vendor {
        Vendor::Gcc => ("gcc", "GCC"),
        Vendor::Clang => ("clang", "Clang"),
        Vendor::ClangCl => ("clang-cl", "Clang-cl"),
    };
    let cxx = match vendor {
        Vendor::ClangCl => Some(f.path.clone()),
        _ => match cxx_sibling(vendor, name.as_str()) {
            Some(_) => clone_opt(&f.sibling),
            None => None,
        },
    };
    let generator = if may_be_mingw(vendor, f.path.as_str(), windows) && f.has_make {
        Some("MinGW Makefiles".to_owned())
    } else {
        None
    };
    Some(
        Toolchain {
            id: id.to_owned(),
            name: label.to_owned(),
            version,
            path: f.path.clone(),
            cxx,
            generator,
            arch: None,
            triple,
            toolset: None,
        },
    )
}

/// Appends the toolchains among the files of a directory.
fn push_path_files(found: &mut Vec<Toolchain>, files: &Vec<PathFile>, windows: bool)
    ensures
        toolchain_views(final(found)@) == toolchain_views(old(found)@) + path_files_found(
            files@,
            windows,
        ),
{
    let ghost start = toolchain_views(found@);
    let mut i: usize = 0;
    proof {
        assert(start + path_files_found(files@.take(0), windows) =~= start);
    }
    while i < files.len()
        invariant
            i <= files@.len(),
            toolchain_views(found@) == start + path_files_found(files@.take(i as int), windows),
        decreases files@.len() - i,
    {
        let ghost before = found@;
        proof {
            assert(files@.take(i + 1).drop_last() == files@.take(i as int));
        }
        match probe_path_file(&files[i], windows) {
            Some(tc) => {
                found.push(tc);
                proof {
                    assert(toolchain_views(found@) =~= toolchain_views(before).push(tc@));
                    assert(toolchain_views(found@) =~= start + path_files_found(
                        files@.take(i + 1),
                        windows,
                    ));
                }
            },
            None => {},
        }
        i = i + 1;
    }
    proof {
        assert(files@.take(i as int) == files@);
    }
}

/// The toolchains in the directories of the search path.
pub fn probe_path(dirs: &Vec<PathDir>, windows: bool) -> (r: Vec<Toolchain>)
    ensures
        toolchain_views(r@) == path_found(dirs@, windows),
{
    let mut found: Vec<Toolchain> = Vec::new();
    let mut i: usize = 0;
    proof {
        assert(toolchain_views(found@) =~= path_found(dirs@.take(0), windows));
    }
    while i < dirs.len()
        invariant
            i <= dirs@.len(),
            toolchain_views(found@) == path_found(dirs@.take(i as int), windows),
        decreases dirs@.len() - i,
    {
        let d = &dirs[i];
        proof {
            assert(dirs@.take(i + 1).drop_last() == dirs@.take(i as int));
        }
        if dir_is_searched(d.path.as_str()) {
            match &d.files {
                Some(files) => {
                    push_path_files(&mut found, files, windows);
                },
                None => {},
            }
        }
        proof {
            assert(toolchain_views(found@) =~= path_found(dirs@.take(i + 1), windows));
        }
        i = i + 1;
    }
    proof {
        assert(dirs@.take(i as int) == dirs@);
    }
    found
}

} // verus!
