//! Finding folders whose contents can be deleted to free disk space, and
//! folders that use much of it.
//!
//! The library decides which folders are listed, under which ids, and what a
//! scan or a cleanup reports. Reading the environment, measuring folders and
//! deleting files are left to the caller, which hands the results back.
use vstd::prelude::*;
use crate::models::{
    is_error, CommandError, DiskCleanupRequest, DiskCleanupResult, DiskCleanupScan,
    DiskCleanupTarget, DiskUsageInsight, DiskUsageInsightCleanupRequest,
    DiskUsageInsightCleanupResult, DiskVolumeUsage,
};
use crate::paths::{join_path, path_join};
use crate::text::{
    ascii_lower, chars_less, chars_lt, chars_of, concat_str, lemma_chars_lt_asym,
    lemma_chars_lt_trans, starts_with, starts_with_str, eq_ignore_ascii_case, eq_ignore_case, equal_chars,
    equals_str, is_ascii_alnum, is_ascii_alphanumeric, lines, lines_of, owned, parse_u64_chars,
    parse_unsigned, seqs_of, split, split_on, string_of, to_ascii_lower, trim, trim_chars,
    trim_end_char, trim_end_matching,
};

verus! {

/// The cleanup component. It holds no state.
pub struct DiskCleanupManager;

/// The folders of the environment that the cleanup looks under, as read by the caller.
pub struct CleanupEnvironment {
    /// The platform's path separator.
    pub separator: char,
    /// The temporary folder of the current user.
    pub temp_dir: String,
    pub system_root: Option<String>,
    pub program_data: Option<String>,
    pub local_app_data: Option<String>,
    pub user_profile: Option<String>,
    pub app_data: Option<String>,
    pub program_files: Option<String>,
    pub program_files_x86: Option<String>,
    /// The home folder; given on macOS only, whose developer caches are then listed.
    pub home: Option<String>,
}

/// A folder that can be cleaned.
pub struct CleanupTargetDefinition {
    pub id: String,
    pub name: String,
    pub path: String,
    pub description: String,
}

/// A folder that may use much space.
pub struct UsageInsightDefinition {
    pub id: String,
    pub name: String,
    pub path: String,
    pub category: String,
    pub description: String,
}

/// A cleanup target as values.
pub struct TargetView {
    pub id: Seq<char>,
    pub name: Seq<char>,
    pub path: Seq<char>,
    pub description: Seq<char>,
}

/// A usage insight as values.
pub struct InsightView {
    pub id: Seq<char>,
    pub name: Seq<char>,
    pub path: Seq<char>,
    pub category: Seq<char>,
    pub description: Seq<char>,
}

pub open spec fn target_view(d: CleanupTargetDefinition) -> TargetView {
    TargetView { id: d.id@, name: d.name@, path: d.path@, description: d.description@ }
}

pub open spec fn target_views(v: Seq<CleanupTargetDefinition>) -> Seq<TargetView> {
    v.map_values(|d: CleanupTargetDefinition| target_view(d))
}

pub open spec fn insight_view(d: UsageInsightDefinition) -> InsightView {
    InsightView {
        id: d.id@,
        name: d.name@,
        path: d.path@,
        category: d.category@,
        description: d.description@,
    }
}

pub open spec fn insight_views(v: Seq<UsageInsightDefinition>) -> Seq<InsightView> {
    v.map_values(|d: UsageInsightDefinition| insight_view(d))
}

pub open spec fn insight(
    id: Seq<char>,
    name: Seq<char>,
    path: Seq<char>,
    category: Seq<char>,
    description: Seq<char>,
) -> InsightView {
    InsightView { id, name, path, category, description }
}

/// The ids of the usage insights whose contents can be downloaded or rebuilt again.
pub open spec fn is_safe_to_clean(id: Seq<char>) -> bool {
    ||| id == "nuget_packages"@
    ||| id == "cargo_registry"@
    ||| id == "cargo_git"@
    ||| id == "maven_repository"@
    ||| id == "gradle_cache"@
    ||| id == "go_module_cache"@
    ||| id == "conda_packages"@
    ||| id == "poetry_cache"@
    ||| id == "huggingface_cache"@
    ||| id == "torch_cache"@
    ||| id == "android_gradle_cache"@
    ||| id == "npm_cache"@
    ||| id == "pnpm_cache_macos"@
    ||| id == "pnpm_store_macos"@
    ||| id == "pnpm_store_roaming"@
    ||| id == "composer_cache"@
    ||| id == "pnpm_store_local"@
    ||| id == "pnpm_store_local_alt"@
    ||| id == "yarn_cache"@
    ||| id == "pip_cache"@
    ||| id == "electron_cache"@
    ||| id == "electron_builder_cache"@
    ||| id == "unity_cache"@
    ||| id == "unreal_derived_data_cache"@
    ||| id == "package_cache"@
    ||| id == "chocolatey_cache"@
    ||| id == "winget_cache"@
}

/// The advice shown with a usage insight.
pub open spec fn safety_text(safe_to_clean: bool) -> Seq<char> {
    if safe_to_clean {
        "Safe to clean; data can be redownloaded or rebuilt."@
    } else {
        "Inspect first; deleting this can remove app data, tools, or installations."@
    }
}

/// A path made into an id piece: ASCII letters and digits in lower case, anything else `_`.
pub open spec fn id_fragment_of(path: Seq<char>) -> Seq<char> {
    path.map_values(|c: char| if is_ascii_alnum(c) { ascii_lower(c) } else { '_' })
}

/// The ASCII letters and digits of `s`, in order.
pub open spec fn ascii_alnum_only(s: Seq<char>) -> Seq<char>
    decreases s.len(),
{
    if s.len() == 0 {
        s
    } else if is_ascii_alnum(s.last()) {
        ascii_alnum_only(s.drop_last()).push(s.last())
    } else {
        ascii_alnum_only(s.drop_last())
    }
}

/// The id piece of a volume: its label without trailing `:`, ASCII letters and digits only, in lower case.
pub open spec fn volume_id_of(label: Seq<char>) -> Seq<char> {
    ascii_alnum_only(trim_end_char(label, ':')).map_values(|c: char| ascii_lower(c))
}

/// The developer caches listed on macOS, under the home folder `home`.
#[verifier::opaque]
pub open spec fn macos_insights(home: Seq<char>) -> Seq<InsightView> {
    let library = path_join(home, "Library"@, '/');
    let caches = path_join(library, "Caches"@, '/');
    seq![
        insight("cargo_registry"@, "Cargo registry"@, path_join(home, ".cargo/registry"@, '/'), "Developer cache"@, "Rust crate registry cache."@),
        insight("cargo_git"@, "Cargo git cache"@, path_join(home, ".cargo/git"@, '/'), "Developer cache"@, "Rust git dependency cache."@),
        insight("rustup_toolchains"@, "Rust toolchains"@, path_join(home, ".rustup/toolchains"@, '/'), "Developer tools"@, "Installed Rust toolchains managed by rustup."@),
        insight("npm_cache"@, "npm cache"@, path_join(home, ".npm"@, '/'), "Developer cache"@, "npm package download cache."@),
        insight("pnpm_store_macos"@, "pnpm store"@, path_join(library, "pnpm/store"@, '/'), "Developer cache"@, "pnpm content-addressable package store."@),
        insight("pnpm_cache_macos"@, "pnpm cache"@, path_join(caches, "pnpm"@, '/'), "Developer cache"@, "pnpm metadata and downloaded package cache."@),
        insight("yarn_cache"@, "Yarn cache"@, path_join(caches, "Yarn"@, '/'), "Developer cache"@, "Yarn package cache."@),
        insight("pip_cache"@, "pip cache"@, path_join(caches, "pip"@, '/'), "Developer cache"@, "Python package download and wheel cache."@),
        insight("poetry_cache"@, "Poetry cache"@, path_join(caches, "pypoetry"@, '/'), "Developer cache"@, "Poetry package and virtual environment cache."@),
        insight("maven_repository"@, "Maven repository"@, path_join(home, ".m2/repository"@, '/'), "Developer cache"@, "Maven dependency artifacts used by Java projects."@),
        insight("gradle_cache"@, "Gradle cache"@, path_join(home, ".gradle/caches"@, '/'), "Developer cache"@, "Gradle dependency and build caches."@),
        insight("go_module_cache"@, "Go module cache"@, path_join(home, "go/pkg/mod"@, '/'), "Developer cache"@, "Downloaded Go modules used by Go projects."@),
        insight("vscode_extensions"@, "VS Code extensions"@, path_join(home, ".vscode/extensions"@, '/'), "Developer tools"@, "Installed Visual Studio Code extensions."@),
        insight("electron_cache"@, "Electron cache"@, path_join(caches, "electron"@, '/'), "Developer cache"@, "Electron download and runtime cache."@),
        insight("electron_builder_cache"@, "Electron Builder cache"@, path_join(caches, "electron-builder"@, '/'), "Developer cache"@, "Electron Builder downloaded tooling and target caches."@),
    ]
}

/// The caches and tools listed under the user's profile folder.
#[verifier::opaque]
pub open spec fn user_profile_insights(user_profile: Seq<char>, sep: char) -> Seq<InsightView> {
    seq![
        insight("nuget_packages"@, "NuGet packages"@, path_join(path_join(user_profile, ".nuget"@, sep), "packages"@, sep), "Developer cache"@, "NuGet package cache used by .NET projects."@),
        insight("cargo_registry"@, "Cargo registry"@, path_join(path_join(user_profile, ".cargo"@, sep), "registry"@, sep), "Developer cache"@, "Rust crate registry cache."@),
        insight("cargo_git"@, "Cargo git cache"@, path_join(path_join(user_profile, ".cargo"@, sep), "git"@, sep), "Developer cache"@, "Rust git dependency cache."@),
        insight("rustup_toolchains"@, "Rust toolchains"@, path_join(path_join(user_profile, ".rustup"@, sep), "toolchains"@, sep), "Developer tools"@, "Installed Rust toolchains managed by rustup."@),
        insight("vscode_extensions"@, "VS Code extensions"@, path_join(path_join(user_profile, ".vscode"@, sep), "extensions"@, sep), "Developer tools"@, "Installed Visual Studio Code extensions."@),
        insight("docker_user"@, "Docker user data"@, path_join(user_profile, ".docker"@, sep), "App data"@, "Docker CLI configuration and related user data."@),
        insight("maven_repository"@, "Maven repository"@, path_join(path_join(user_profile, ".m2"@, sep), "repository"@, sep), "Developer cache"@, "Maven and Gradle dependency artifacts shared by Java projects."@),
        insight("gradle_cache"@, "Gradle cache"@, path_join(path_join(user_profile, ".gradle"@, sep), "caches"@, sep), "Developer cache"@, "Gradle dependency and build caches."@),
        insight("go_module_cache"@, "Go module cache"@, path_join(path_join(path_join(user_profile, "go"@, sep), "pkg"@, sep), "mod"@, sep), "Developer cache"@, "Downloaded Go modules used by Go projects."@),
        insight("conda_packages"@, "Conda packages"@, path_join(path_join(user_profile, ".conda"@, sep), "pkgs"@, sep), "Developer cache"@, "Conda package cache used by Python environments."@),
        insight("poetry_cache"@, "Poetry cache"@, path_join(path_join(user_profile, ".cache"@, sep), "pypoetry"@, sep), "Developer cache"@, "Poetry package and virtual environment cache."@),
        insight("huggingface_cache"@, "Hugging Face cache"@, path_join(path_join(user_profile, ".cache"@, sep), "huggingface"@, sep), "AI model cache"@, "Downloaded datasets, tokenizers, and model files."@),
        insight("torch_cache"@, "PyTorch cache"@, path_join(path_join(user_profile, ".cache"@, sep), "torch"@, sep), "AI model cache"@, "Downloaded PyTorch model and extension cache."@),
        insight("android_gradle_cache"@, "Android Gradle cache"@, path_join(path_join(user_profile, ".android"@, sep), "build-cache"@, sep), "Developer cache"@, "Android build cache used by older Gradle Android builds."@),
    ]
}

/// The caches and data listed under the roaming application data folder.
#[verifier::opaque]
pub open spec fn app_data_insights(app_data: Seq<char>, sep: char) -> Seq<InsightView> {
    seq![
        insight("npm_cache"@, "npm cache"@, path_join(app_data, "npm-cache"@, sep), "Developer cache"@, "npm package download cache."@),
        insight("pnpm_store_roaming"@, "pnpm store"@, path_join(path_join(app_data, "pnpm"@, sep), "store"@, sep), "Developer cache"@, "pnpm content-addressable package store."@),
        insight("docker_roaming"@, "Docker roaming data"@, path_join(app_data, "Docker"@, sep), "App data"@, "Docker Desktop roaming application data."@),
        insight("composer_cache"@, "Composer cache"@, path_join(path_join(app_data, "Composer"@, sep), "cache"@, sep), "Developer cache"@, "PHP Composer package cache."@),
    ]
}

/// The caches and data listed under the local application data folder.
#[verifier::opaque]
pub open spec fn local_app_data_insights(local_app_data: Seq<char>, sep: char) -> Seq<InsightView> {
    seq![
        insight("pnpm_store_local"@, "pnpm local store"@, path_join(path_join(local_app_data, "pnpm"@, sep), "store"@, sep), "Developer cache"@, "pnpm package store under local app data."@),
        insight("pnpm_store_local_alt"@, "pnpm store"@, path_join(local_app_data, "pnpm-store"@, sep), "Developer cache"@, "Alternate pnpm package store location."@),
        insight("yarn_cache"@, "Yarn cache"@, path_join(path_join(local_app_data, "Yarn"@, sep), "Cache"@, sep), "Developer cache"@, "Yarn package cache."@),
        insight("pip_cache"@, "pip cache"@, path_join(path_join(local_app_data, "pip"@, sep), "Cache"@, sep), "Developer cache"@, "Python package download and wheel cache."@),
        insight("docker_local"@, "Docker Desktop data"@, path_join(local_app_data, "Docker"@, sep), "App data"@, "Docker Desktop local application data."@),
        insight("docker_wsl"@, "Docker WSL data"@, path_join(path_join(local_app_data, "Docker"@, sep), "wsl"@, sep), "App data"@, "Docker WSL distributions and disk images."@),
        insight("chrome_user_data"@, "Chrome user data"@, path_join(path_join(path_join(local_app_data, "Google"@, sep), "Chrome"@, sep), "User Data"@, sep), "App data"@, "Chrome profiles, cache, extensions, and browser data."@),
        insight("edge_user_data"@, "Edge user data"@, path_join(path_join(path_join(local_app_data, "Microsoft"@, sep), "Edge"@, sep), "User Data"@, sep), "App data"@, "Edge profiles, cache, extensions, and browser data."@),
        insight("teams_data"@, "Microsoft Teams data"@, path_join(path_join(local_app_data, "Microsoft"@, sep), "Teams"@, sep), "App data"@, "Teams local application data and cache."@),
        insight("electron_cache"@, "Electron cache"@, path_join(path_join(local_app_data, "electron"@, sep), "Cache"@, sep), "Developer cache"@, "Electron download and runtime cache."@),
        insight("electron_builder_cache"@, "Electron Builder cache"@, path_join(path_join(local_app_data, "electron-builder"@, sep), "Cache"@, sep), "Developer cache"@, "Electron Builder downloaded tooling and target caches."@),
        insight("android_sdk"@, "Android SDK"@, path_join(path_join(local_app_data, "Android"@, sep), "Sdk"@, sep), "Developer tools"@, "Installed Android SDK platforms, build tools, emulators, and system images."@),
        insight("jetbrains_caches"@, "JetBrains caches"@, path_join(local_app_data, "JetBrains"@, sep), "Developer cache"@, "JetBrains IDE indexes, caches, plugins, and local metadata."@),
        insight("visual_studio_component_cache"@, "Visual Studio component cache"@, path_join(path_join(path_join(local_app_data, "Microsoft"@, sep), "VisualStudio"@, sep), "Packages"@, sep), "Installer cache"@, "Visual Studio component package cache."@),
        insight("wsl_packages"@, "WSL package data"@, path_join(local_app_data, "Packages"@, sep), "App data"@, "Microsoft Store app package data, including WSL distributions and app containers."@),
        insight("unity_cache"@, "Unity cache"@, path_join(path_join(local_app_data, "Unity"@, sep), "cache"@, sep), "Developer cache"@, "Unity asset, package, and editor cache."@),
        insight("unreal_derived_data_cache"@, "Unreal Derived Data Cache"@, path_join(path_join(path_join(local_app_data, "UnrealEngine"@, sep), "Common"@, sep), "DerivedDataCache"@, sep), "Developer cache"@, "Unreal Engine shader, asset, and derived data cache."@),
    ]
}

/// The shared caches and data listed under the program data folder.
#[verifier::opaque]
pub open spec fn program_data_insights(program_data: Seq<char>, sep: char) -> Seq<InsightView> {
    seq![
        insight("docker_program_data"@, "Docker shared data"@, path_join(program_data, "Docker"@, sep), "App data"@, "Docker shared images, layers, and runtime data."@),
        insight("docker_desktop_program_data"@, "Docker Desktop shared data"@, path_join(program_data, "DockerDesktop"@, sep), "App data"@, "Docker Desktop shared application data."@),
        insight("package_cache"@, "Package Cache"@, path_join(program_data, "Package Cache"@, sep), "Installer cache"@, "Installer package cache used by Visual Studio and other setup tools."@),
        insight("chocolatey_cache"@, "Chocolatey cache"@, path_join(path_join(program_data, "chocolatey"@, sep), "cache"@, sep), "Package manager cache"@, "Chocolatey downloaded package cache."@),
        insight("winget_cache"@, "WinGet package cache"@, path_join(path_join(path_join(program_data, "Microsoft"@, sep), "WinGet"@, sep), "Packages"@, sep), "Package manager cache"@, "WinGet package download and installer cache."@),
    ]
}

/// The usage insights known by name, for the folders the environment has.
pub open spec fn known_insights(env: CleanupEnvironment) -> Seq<InsightView> {
    let sep = env.separator;
    (match env.home {
        Some(h) => macos_insights(h@),
        None => Seq::empty(),
    }) + (match env.user_profile {
        Some(f) => user_profile_insights(f@, sep),
        None => Seq::empty(),
    }) + (match env.app_data {
        Some(f) => app_data_insights(f@, sep),
        None => Seq::empty(),
    }) + (match env.local_app_data {
        Some(f) => local_app_data_insights(f@, sep),
        None => Seq::empty(),
    }) + (match env.program_data {
        Some(f) => program_data_insights(f@, sep),
        None => Seq::empty(),
    })
}

pub open spec fn target(id: Seq<char>, name: Seq<char>, path: Seq<char>, description: Seq<char>) -> TargetView {
    TargetView { id, name, path, description }
}

/// The two cleanup targets of a volume, under its root `label\`.
pub open spec fn volume_targets(label: Seq<char>, sep: char) -> Seq<TargetView> {
    let vid = volume_id_of(label);
    let root = label.push('\\');
    seq![
        target("recycle_bin_"@ + vid, "Recycle Bin"@, path_join(root, "$Recycle.Bin"@, sep), "Deleted files waiting in this volume's Recycle Bin."@),
        target("windows_old_"@ + vid, "Previous Windows installation"@, path_join(root, "Windows.old"@, sep), "Files kept after a Windows upgrade on this volume."@),
    ]
}

/// The cleanup targets of the volumes, volume by volume.
pub open spec fn volumes_targets(volumes: Seq<DiskVolumeUsage>, sep: char) -> Seq<TargetView>
    decreases volumes.len(),
{
    if volumes.len() == 0 {
        Seq::empty()
    } else {
        volumes_targets(volumes.drop_last(), sep) + volume_targets(volumes.last().label@, sep)
    }
}

/// The cleanup targets under the Windows folder.
#[verifier::opaque]
pub open spec fn system_root_targets(system_root: Seq<char>, sep: char) -> Seq<TargetView> {
    seq![
        target("windows_temp"@, "Windows temporary files"@, path_join(system_root, "Temp"@, sep), "Temporary files under the Windows folder."@),
        target("windows_update_cache"@, "Windows Update downloads"@, path_join(path_join(system_root, "SoftwareDistribution"@, sep), "Download"@, sep), "Downloaded update packages that Windows can fetch again."@),
    ]
}

/// The cleanup targets under the program data folder.
#[verifier::opaque]
pub open spec fn program_data_targets(program_data: Seq<char>, sep: char) -> Seq<TargetView> {
    let windows = path_join(path_join(program_data, "Microsoft"@, sep), "Windows"@, sep);
    seq![
        target("delivery_optimization"@, "Delivery Optimization cache"@, path_join(path_join(windows, "DeliveryOptimization"@, sep), "Cache"@, sep), "Windows delivery cache for updates and Store downloads."@),
        target("wer_reports"@, "Windows error reports"@, path_join(path_join(windows, "WER"@, sep), "ReportArchive"@, sep), "Archived Windows Error Reporting data."@),
    ]
}

/// The cleanup targets under the local application data folder.
#[verifier::opaque]
pub open spec fn local_app_data_targets(local_app_data: Seq<char>, sep: char) -> Seq<TargetView> {
    let chrome = path_join(path_join(path_join(local_app_data, "Google"@, sep), "Chrome"@, sep), "User Data"@, sep);
    let edge = path_join(path_join(path_join(local_app_data, "Microsoft"@, sep), "Edge"@, sep), "User Data"@, sep);
    seq![
        target("crash_dumps"@, "Crash dumps"@, path_join(local_app_data, "CrashDumps"@, sep), "Application crash dumps saved for diagnostics."@),
        target("chrome_cache"@, "Chrome cache"@, path_join(path_join(path_join(chrome, "Default"@, sep), "Cache"@, sep), "Cache_Data"@, sep), "Cached web content from the default Chrome profile."@),
        target("edge_cache"@, "Edge cache"@, path_join(path_join(path_join(edge, "Default"@, sep), "Cache"@, sep), "Cache_Data"@, sep), "Cached web content from the default Edge profile."@),
    ]
}

/// Every cleanup target: those of the volumes, the user's temporary folder,
/// then those under the folders the environment has.
pub open spec fn cleanup_targets(volumes: Seq<DiskVolumeUsage>, env: CleanupEnvironment) -> Seq<TargetView> {
    let sep = env.separator;
    volumes_targets(volumes, sep) + seq![
        target("user_temp"@, "User temporary files"@, env.temp_dir@, "Temporary files created by apps for the current user."@),
    ] + (match env.system_root {
        Some(f) => system_root_targets(f@, sep),
        None => Seq::empty(),
    }) + (match env.program_data {
        Some(f) => program_data_targets(f@, sep),
        None => Seq::empty(),
    }) + (match env.local_app_data {
        Some(f) => local_app_data_targets(f@, sep),
        None => Seq::empty(),
    })
}

/// Joining a piece whose last character is no separator, then another piece,
/// is joining both at once with a separator between them.
pub proof fn lemma_join_twice(base: Seq<char>, a: Seq<char>, b: Seq<char>, sep: char)
    requires
        a.len() > 0,
        a.last() != sep,
        a.last() != '/',
    ensures
        path_join(path_join(base, a, sep), b, sep) == path_join(base, a + seq![sep] + b, sep),
{
    let j = path_join(base, a, sep);
    assert(j.len() > 0 && j.last() == a.last());
    if base.len() == 0 || base.last() == sep || base.last() == '/' {
        assert(j + seq![sep] + b =~= base + (a + seq![sep] + b));
    } else {
        assert(j + seq![sep] + b =~= base + seq![sep] + (a + seq![sep] + b));
    }
}

/// With a program data folder `P` (and `\\` or `/` as separator), the cleanup
/// targets hold the Delivery Optimization cache at
/// `P\Microsoft\Windows\DeliveryOptimization\Cache` and the Windows error
/// reports at `P\Microsoft\Windows\WER\ReportArchive`, whatever the volumes.
pub proof fn program_data_holds_update_cache_and_error_reports(volumes: Seq<DiskVolumeUsage>, env: CleanupEnvironment)
    requires
        env.program_data is Some,
        env.separator == '\\' || env.separator == '/',
    ensures
        ({
            let sep = env.separator;
            let p = env.program_data->0@;
            let ts = cleanup_targets(volumes, env);
            &&& exists|i: int|
                0 <= i < ts.len() && (#[trigger] ts[i]).id == "delivery_optimization"@ && ts[i].path
                    == path_join(
                    p,
                    "Microsoft"@ + seq![sep] + "Windows"@ + seq![sep] + "DeliveryOptimization"@ + seq![sep] + "Cache"@,
                    sep,
                )
            &&& exists|i: int|
                0 <= i < ts.len() && (#[trigger] ts[i]).id == "wer_reports"@ && ts[i].name == "Windows error reports"@
                    && ts[i].path == path_join(
                    p,
                    "Microsoft"@ + seq![sep] + "Windows"@ + seq![sep] + "WER"@ + seq![sep] + "ReportArchive"@,
                    sep,
                )
        }),
{
    let sep = env.separator;
    let p = env.program_data->0@;
    reveal(program_data_targets);
    reveal_strlit("Microsoft");
    reveal_strlit("Windows");
    reveal_strlit("WER");
    reveal_strlit("DeliveryOptimization");
    let m = "Microsoft"@;
    let w = "Windows"@;
    assert(m.len() == 9 && m.last() == 't');
    assert(w.len() == 7 && w.last() == 's');
    assert("WER"@.len() == 3 && "WER"@.last() == 'R');
    assert("DeliveryOptimization"@.len() == 20 && "DeliveryOptimization"@.last() == 'n');
    let mw = m + seq![sep] + w;
    assert(mw.last() == 's');
    lemma_join_twice(p, m, w, sep);
    let windows = path_join(path_join(p, m, sep), w, sep);
    lemma_join_twice(p, mw, "WER"@, sep);
    let mww = mw + seq![sep] + "WER"@;
    assert(mww.last() == 'R');
    lemma_join_twice(p, mww, "ReportArchive"@, sep);
    assert(mww + seq![sep] + "ReportArchive"@ =~= m + seq![sep] + w + seq![sep] + "WER"@ + seq![sep] + "ReportArchive"@);
    lemma_join_twice(p, mw, "DeliveryOptimization"@, sep);
    let mwd = mw + seq![sep] + "DeliveryOptimization"@;
    assert(mwd.last() == 'n');
    lemma_join_twice(p, mwd, "Cache"@, sep);
    assert(mwd + seq![sep] + "Cache"@ =~= m + seq![sep] + w + seq![sep] + "DeliveryOptimization"@ + seq![sep] + "Cache"@);
    let pd = program_data_targets(p, sep);
    let ts = cleanup_targets(volumes, env);
    let before = volumes_targets(volumes, sep) + seq![
        target("user_temp"@, "User temporary files"@, env.temp_dir@, "Temporary files created by apps for the current user."@),
    ] + (match env.system_root {
        Some(f) => system_root_targets(f@, sep),
        None => Seq::empty(),
    });
    let k: int = before.len() as int;
    assert(ts[k] == pd[0]);
    assert(ts[k + 1] == pd[1]);
}

/// The cleanup targets always hold the user's temporary folder; with a Windows
/// folder `W` they hold `W\Temp` and the update downloads
/// `W\SoftwareDistribution\Download`; with a local application data folder
/// `L` the crash dumps `L\CrashDumps` and the caches
/// `L\Google\Chrome\User Data\Default\Cache\Cache_Data` and
/// `L\Microsoft\Edge\User Data\Default\Cache\Cache_Data`.
pub proof fn environment_folders_hold_their_targets(volumes: Seq<DiskVolumeUsage>, env: CleanupEnvironment)
    requires
        env.separator == '\\' || env.separator == '/',
    ensures
        ({
            let sep = env.separator;
            let ts = cleanup_targets(volumes, env);
            &&& exists|i: int| 0 <= i < ts.len() && (#[trigger] ts[i]).id == "user_temp"@ && ts[i].path == env.temp_dir@
            &&& env.system_root is Some ==> {
                let w = env.system_root->0@;
                &&& exists|i: int|
                    0 <= i < ts.len() && (#[trigger] ts[i]).id == "windows_temp"@ && ts[i].path == path_join(w, "Temp"@, sep)
                &&& exists|i: int|
                    0 <= i < ts.len() && (#[trigger] ts[i]).id == "windows_update_cache"@ && ts[i].path == path_join(
                        w,
                        "SoftwareDistribution"@ + seq![sep] + "Download"@,
                        sep,
                    )
            }
            &&& env.local_app_data is Some ==> {
                let l = env.local_app_data->0@;
                let cache = seq![sep] + "User Data"@ + seq![sep] + "Default"@ + seq![sep] + "Cache"@ + seq![sep] + "Cache_Data"@;
                &&& exists|i: int|
                    0 <= i < ts.len() && (#[trigger] ts[i]).id == "crash_dumps"@ && ts[i].path == path_join(l, "CrashDumps"@, sep)
                &&& exists|i: int|
                    0 <= i < ts.len() && (#[trigger] ts[i]).id == "chrome_cache"@ && ts[i].path == path_join(
                        l,
                        "Google"@ + seq![sep] + "Chrome"@ + cache,
                        sep,
                    )
                &&& exists|i: int|
                    0 <= i < ts.len() && (#[trigger] ts[i]).id == "edge_cache"@ && ts[i].path == path_join(
                        l,
                        "Microsoft"@ + seq![sep] + "Edge"@ + cache,
                        sep,
                    )
            }
        }),
{
    let sep = env.separator;
    let ts = cleanup_targets(volumes, env);
    reveal(system_root_targets);
    reveal(local_app_data_targets);
    reveal_strlit("SoftwareDistribution");
    reveal_strlit("Google");
    reveal_strlit("Chrome");
    reveal_strlit("Microsoft");
    reveal_strlit("Edge");
    reveal_strlit("User Data");
    reveal_strlit("Default");
    reveal_strlit("Cache");
    assert("SoftwareDistribution"@.len() == 20 && "SoftwareDistribution"@.last() == 'n');
    assert("Google"@.len() == 6 && "Google"@.last() == 'e');
    assert("Chrome"@.len() == 6 && "Chrome"@.last() == 'e');
    assert("Microsoft"@.len() == 9 && "Microsoft"@.last() == 't');
    assert("Edge"@.len() == 4 && "Edge"@.last() == 'e');
    assert("User Data"@.len() == 9 && "User Data"@.last() == 'a');
    assert("Default"@.len() == 7 && "Default"@.last() == 't');
    assert("Cache"@.len() == 5 && "Cache"@.last() == 'e');
    let vt = volumes_targets(volumes, sep);
    let head = vt + seq![
        target("user_temp"@, "User temporary files"@, env.temp_dir@, "Temporary files created by apps for the current user."@),
    ];
    assert(ts[vt.len() as int] == head[vt.len() as int]);
    let sr = match env.system_root {
        Some(f) => system_root_targets(f@, sep),
        None => Seq::empty(),
    };
    let pd = match env.program_data {
        Some(f) => program_data_targets(f@, sep),
        None => Seq::empty(),
    };
    if env.system_root is Some {
        let w = env.system_root->0@;
        lemma_join_twice(w, "SoftwareDistribution"@, "Download"@, sep);
        let k: int = head.len() as int;
        assert(ts[k] == sr[0]);
        assert(ts[k + 1] == sr[1]);
    }
    if env.local_app_data is Some {
        let l = env.local_app_data->0@;
        let la = local_app_data_targets(l, sep);
        let k: int = (head.len() + sr.len() + pd.len()) as int;
        assert(ts[k] == la[0]);
        assert(ts[k + 1] == la[1]);
        assert(ts[k + 2] == la[2]);
        // Chrome: L, Google, Chrome, User Data, Default, Cache, Cache_Data.
        let g = "Google"@;
        let g1 = g + seq![sep] + "Chrome"@;
        let g2 = g1 + seq![sep] + "User Data"@;
        let g3 = g2 + seq![sep] + "Default"@;
        let g4 = g3 + seq![sep] + "Cache"@;
        lemma_join_twice(l, g, "Chrome"@, sep);
        lemma_join_twice(l, g1, "User Data"@, sep);
        lemma_join_twice(l, g2, "Default"@, sep);
        lemma_join_twice(l, g3, "Cache"@, sep);
        lemma_join_twice(l, g4, "Cache_Data"@, sep);
        assert(g4 + seq![sep] + "Cache_Data"@ =~= g + seq![sep] + "Chrome"@ + (seq![sep] + "User Data"@ + seq![sep]
            + "Default"@ + seq![sep] + "Cache"@ + seq![sep] + "Cache_Data"@));
        let m = "Microsoft"@;
        let m1 = m + seq![sep] + "Edge"@;
        let m2 = m1 + seq![sep] + "User Data"@;
        let m3 = m2 + seq![sep] + "Default"@;
        let m4 = m3 + seq![sep] + "Cache"@;
        lemma_join_twice(l, m, "Edge"@, sep);
        lemma_join_twice(l, m1, "User Data"@, sep);
        lemma_join_twice(l, m2, "Default"@, sep);
        lemma_join_twice(l, m3, "Cache"@, sep);
        lemma_join_twice(l, m4, "Cache_Data"@, sep);
        assert(m4 + seq![sep] + "Cache_Data"@ =~= m + seq![sep] + "Edge"@ + (seq![sep] + "User Data"@ + seq![sep]
            + "Default"@ + seq![sep] + "Cache"@ + seq![sep] + "Cache_Data"@));
    }
}

/// Folders at least this large are listed as large applications (1 GiB).
pub const LARGE_APP_BYTES: u64 = 1024 * 1024 * 1024;

/// A top-level folder under one of the application roots, as the caller found and measured it.
pub struct AppFolder {
    pub path: String,
    /// Its last path component, when that is valid Unicode.
    pub name: Option<String>,
    pub bytes: u64,
}

/// The usage insight of an application folder, when it is large enough.
pub open spec fn large_app_insight(f: AppFolder) -> Option<InsightView> {
    if f.bytes < LARGE_APP_BYTES {
        None
    } else {
        Some(insight(
            "large_app_"@ + id_fragment_of(f.path@),
            match f.name {
                Some(n) => n@,
                None => "Application"@,
            },
            f.path@,
            "Apps over 1 GB"@,
            "Top-level application folder using more than 1 GB."@,
        ))
    }
}

/// The usage insights of the large application folders, in order.
pub open spec fn large_app_insights(folders: Seq<AppFolder>) -> Seq<InsightView>
    decreases folders.len(),
{
    if folders.len() == 0 {
        Seq::empty()
    } else {
        large_app_insights(folders.drop_last()) + match large_app_insight(folders.last()) {
            Some(i) => seq![i],
            None => Seq::empty(),
        }
    }
}

/// The folders whose top-level folders are checked for large applications.
pub open spec fn app_roots(env: CleanupEnvironment) -> Seq<Seq<char>> {
    (match env.program_files {
        Some(f) => seq![f@],
        None => Seq::empty(),
    }) + (match env.program_files_x86 {
        Some(f) => seq![f@],
        None => Seq::empty(),
    }) + (match env.local_app_data {
        Some(f) => seq![path_join(f@, "Programs"@, env.separator)],
        None => Seq::empty(),
    })
}

/// How much a folder holds and whether it exists, as the caller measured it.
#[derive(Clone, Copy)]
pub struct PathUsage {
    pub bytes: u64,
    pub exists: bool,
}

/// `t` reports the cleanup target `d` with usage `u`.
pub open spec fn is_target_report(t: DiskCleanupTarget, d: TargetView, u: PathUsage) -> bool {
    &&& t.id@ == d.id
    &&& t.name@ == d.name
    &&& t.path@ == d.path
    &&& t.description@ == d.description
    &&& t.bytes == u.bytes
    &&& t.exists == u.exists
}

/// `r` reports the usage insight `d` with usage `u`.
pub open spec fn is_insight_report(r: DiskUsageInsight, d: InsightView, u: PathUsage) -> bool {
    &&& r.id@ == d.id
    &&& r.name@ == d.name
    &&& r.path@ == d.path
    &&& r.category@ == d.category
    &&& r.description@ == d.description
    &&& r.bytes == u.bytes
    &&& r.exists == u.exists
    &&& r.safe_to_clean == is_safe_to_clean(d.id)
    &&& r.safety@ == safety_text(is_safe_to_clean(d.id))
}

/// The measured insights that a scan shows: those that exist and hold something, in order.
pub open spec fn shown_insights(s: Seq<(UsageInsightDefinition, PathUsage)>) -> Seq<(InsightView, PathUsage)>
    decreases s.len(),
{
    if s.len() == 0 {
        Seq::empty()
    } else if s.last().1.exists && s.last().1.bytes > 0 {
        shown_insights(s.drop_last()).push((insight_view(s.last().0), s.last().1))
    } else {
        shown_insights(s.drop_last())
    }
}

/// What cleaning a folder found: its size before and after, and whether it is still there.
#[derive(Clone, Copy)]
pub struct CleanedPath {
    pub before: u64,
    pub after: u64,
    pub exists: bool,
}

/// The bytes a cleaning freed (none when the folder grew meanwhile).
pub open spec fn freed(c: CleanedPath) -> int {
    if c.before >= c.after {
        c.before - c.after
    } else {
        0
    }
}

/// The bytes freed by a run of cleanings.
pub open spec fn freed_total(cs: Seq<CleanedPath>) -> int
    decreases cs.len(),
{
    if cs.len() == 0 {
        0
    } else {
        freed_total(cs.drop_last()) + freed(cs.last())
    }
}

/// The bytes the cleaned folders held before a run of cleanings.
pub open spec fn held_total(cs: Seq<CleanedPath>) -> int
    decreases cs.len(),
{
    if cs.len() == 0 {
        0
    } else {
        held_total(cs.drop_last()) + cs.last().before
    }
}

proof fn lemma_freed_within_held(cs: Seq<CleanedPath>)
    ensures
        0 <= freed_total(cs) <= held_total(cs),
    decreases cs.len(),
{
    if cs.len() > 0 {
        lemma_freed_within_held(cs.drop_last());
    }
}

/// A cleanup never reports more bytes freed than the cleaned folders held
/// before it began.
pub proof fn cleanup_frees_at_most_what_was_held<F: Fn(&String) -> CleanedPath>(
    res: DiskCleanupResult,
    requested: Seq<String>,
    defs: Seq<CleanupTargetDefinition>,
    clean_path: F,
    outs: Seq<CleanedPath>,
)
    requires
        is_clean_report(res, requested, defs, clean_path, outs),
    ensures
        res.released_bytes <= held_total(outs),
{
    lemma_freed_within_held(outs);
}

/// The position of the first definition with the given id.
pub open spec fn first_with_id(ids: Seq<Seq<char>>, id: Seq<char>) -> Option<int>
    decreases ids.len(),
{
    if ids.len() == 0 {
        None
    } else if ids[0] == id {
        Some(0)
    } else {
        match first_with_id(ids.drop_first(), id) {
            Some(i) => Some(i + 1),
            None => None,
        }
    }
}

proof fn lemma_first_with_id(ids: Seq<Seq<char>>, id: Seq<char>)
    ensures
        match first_with_id(ids, id) {
            Some(i) => 0 <= i < ids.len() && ids[i] == id && forall|j: int| 0 <= j < i ==> ids[j] != id,
            None => forall|j: int| 0 <= j < ids.len() ==> ids[j] != id,
        },
    decreases ids.len(),
{
    if ids.len() > 0 {
        lemma_first_with_id(ids.drop_first(), id);
        assert forall|j: int| 0 < j < ids.len() implies ids[j] == ids.drop_first()[j - 1] by {}
    }
}

pub open spec fn target_ids(defs: Seq<CleanupTargetDefinition>) -> Seq<Seq<char>> {
    defs.map_values(|d: CleanupTargetDefinition| d.id@)
}

pub open spec fn insight_ids(defs: Seq<UsageInsightDefinition>) -> Seq<Seq<char>> {
    defs.map_values(|d: UsageInsightDefinition| d.id@)
}

/// Every requested id names a cleanup target.
pub open spec fn all_known(requested: Seq<String>, defs: Seq<CleanupTargetDefinition>) -> bool {
    forall|k: int| 0 <= k < requested.len() ==> first_with_id(target_ids(defs), #[trigger] requested[k]@) is Some
}

/// `res` reports cleaning the requested targets, the `k`-th of which `clean_path` answered with `outs[k]`.
pub open spec fn is_clean_report<F: Fn(&String) -> CleanedPath>(
    res: DiskCleanupResult,
    requested: Seq<String>,
    defs: Seq<CleanupTargetDefinition>,
    clean_path: F,
    outs: Seq<CleanedPath>,
) -> bool {
    &&& outs.len() == requested.len()
    &&& res.cleaned_targets@.len() == requested.len()
    &&& res.released_bytes == if freed_total(outs) > u64::MAX { u64::MAX as int } else { freed_total(outs) }
    &&& forall|k: int| 0 <= k < requested.len() ==> {
        let d = defs[first_with_id(target_ids(defs), #[trigger] requested[k]@)->0];
        &&& clean_path.ensures((&d.path,), outs[k])
        &&& is_target_report(res.cleaned_targets@[k], target_view(d), PathUsage { bytes: outs[k].after, exists: outs[k].exists })
    }
}

/// A cleaning stopped at the first requested id that names no target, the
/// `outs.len()`-th: every id before it named a target, whose folder was handed
/// to `clean_path`, which answered with `outs[k]`.
pub open spec fn is_stopped_clean<F: Fn(&String) -> CleanedPath>(
    requested: Seq<String>,
    defs: Seq<CleanupTargetDefinition>,
    clean_path: F,
    outs: Seq<CleanedPath>,
) -> bool {
    &&& outs.len() < requested.len()
    &&& first_with_id(target_ids(defs), requested[outs.len() as int]@) is None
    &&& forall|k: int| 0 <= k < outs.len() ==> {
        let found = first_with_id(target_ids(defs), #[trigger] requested[k]@);
        &&& found is Some
        &&& clean_path.ensures((&defs[found->0].path,), outs[k])
    }
}

/// Each definition paired with the usage measured for it.
pub open spec fn measured<D>(defs: Seq<D>, usages: Seq<PathUsage>) -> Seq<(D, PathUsage)> {
    Seq::new(defs.len(), |i: int| (defs[i], usages[i]))
}

/// `scan` reports the cleanup targets `targets` and the usage insights
/// `insights` with the usages `measure` answered for their folders (`tu`, `iu`):
/// every target, and the insights that exist and hold something.
pub open spec fn is_scan_report<F: Fn(&String) -> PathUsage>(
    scan: DiskCleanupScan,
    targets: Seq<CleanupTargetDefinition>,
    insights: Seq<UsageInsightDefinition>,
    measure: F,
    tu: Seq<PathUsage>,
    iu: Seq<PathUsage>,
) -> bool {
    &&& tu.len() == targets.len()
    &&& iu.len() == insights.len()
    &&& forall|i: int| 0 <= i < targets.len() ==> measure.ensures((&(#[trigger] targets[i]).path,), tu[i])
    &&& forall|i: int| 0 <= i < insights.len() ==> measure.ensures((&(#[trigger] insights[i]).path,), iu[i])
    &&& scan.targets@.len() == targets.len()
    &&& forall|i: int| 0 <= i < targets.len() ==> is_target_report(#[trigger] scan.targets@[i], target_view(targets[i]), tu[i])
    &&& scan.usage_insights@.len() == shown_insights(measured(insights, iu)).len()
    &&& forall|i: int| 0 <= i < shown_insights(measured(insights, iu)).len() ==> is_insight_report(
        #[trigger] scan.usage_insights@[i],
        shown_insights(measured(insights, iu))[i].0,
        shown_insights(measured(insights, iu))[i].1,
    )
}

/// `res` reports cleaning the usage insight `d`, which `clean_path` answered with `out`.
pub open spec fn is_insight_clean_report<F: Fn(&String) -> CleanedPath>(
    res: DiskUsageInsightCleanupResult,
    d: UsageInsightDefinition,
    clean_path: F,
    out: CleanedPath,
) -> bool {
    &&& clean_path.ensures((&d.path,), out)
    &&& is_insight_report(res.cleaned_insight, insight_view(d), PathUsage { bytes: out.after, exists: out.exists })
    &&& res.released_bytes == freed(out)
}

/// A volume as values.
pub struct VolumeView {
    pub label: Seq<char>,
    pub name: Seq<char>,
    pub total_bytes: u64,
    pub free_bytes: u64,
    pub system_drive: bool,
}

pub open spec fn volume_view(v: DiskVolumeUsage) -> VolumeView {
    VolumeView {
        label: v.label@,
        name: v.name@,
        total_bytes: v.total_bytes,
        free_bytes: v.free_bytes,
        system_drive: v.system_drive,
    }
}

pub open spec fn volume_views(v: Seq<DiskVolumeUsage>) -> Seq<VolumeView> {
    v.map_values(|d: DiskVolumeUsage| volume_view(d))
}

/// The volume a trimmed line `VOL|label|name|total|free|system` describes: six
/// fields split at `|`, the first `VOL`, the sizes unsigned integers, the last
/// `true` in any case for the system drive.
pub open spec fn volume_of_line(line: Seq<char>) -> Option<VolumeView> {
    let parts = split(line, '|');
    if parts.len() == 6 && parts[0] == "VOL"@ {
        match (parse_unsigned(parts[3], u64::MAX as int), parse_unsigned(parts[4], u64::MAX as int)) {
            (Some(total), Some(free)) => Some(VolumeView {
                label: trim(parts[1]),
                name: trim(parts[2]),
                total_bytes: total as u64,
                free_bytes: free as u64,
                system_drive: eq_ignore_case(parts[5], "true"@),
            }),
            _ => None,
        }
    } else {
        None
    }
}

/// The volumes described by the non-blank lines, in order.
pub open spec fn volumes_of_lines(ls: Seq<Seq<char>>) -> Seq<VolumeView>
    decreases ls.len(),
{
    if ls.len() == 0 {
        Seq::empty()
    } else {
        let rest = volumes_of_lines(ls.drop_last());
        let line = trim(ls.last());
        if line.len() == 0 {
            rest
        } else {
            match volume_of_line(line) {
                Some(v) => rest.push(v),
                None => rest,
            }
        }
    }
}

/// A mounted disk as the caller read it.
pub struct MountedDisk {
    pub mount_point: String,
    pub name: String,
    pub total_space: u64,
    pub available_space: u64,
}

/// The volume shown for a mounted disk on macOS: the root and what is mounted
/// under `/Volumes/` (not under `/System/Volumes/`), when it has a size.
pub open spec fn listed_volume(d: MountedDisk) -> Option<VolumeView> {
    let mount = d.mount_point@;
    if d.total_space == 0 || !(mount == "/"@ || starts_with(mount, "/Volumes/"@))
        || starts_with(mount, "/System/Volumes/"@) {
        None
    } else {
        Some(VolumeView {
            label: mount,
            name: if d.name@.len() == 0 { mount } else { d.name@ },
            total_bytes: d.total_space,
            free_bytes: d.available_space,
            system_drive: mount == "/"@,
        })
    }
}

/// The volumes shown for the mounted disks, in the disks' order.
pub open spec fn listed_volumes(ds: Seq<MountedDisk>) -> Seq<VolumeView>
    decreases ds.len(),
{
    if ds.len() == 0 {
        Seq::empty()
    } else {
        let rest = listed_volumes(ds.drop_last());
        match listed_volume(ds.last()) {
            Some(v) => rest.push(v),
            None => rest,
        }
    }
}

/// `a` is listed strictly before `b`: the system drive first, then by label.
pub open spec fn volume_before(a: VolumeView, b: VolumeView) -> bool {
    (a.system_drive && !b.system_drive) || (a.system_drive == b.system_drive && chars_lt(
        a.label,
        b.label,
    ))
}

/// No volume is listed after one it comes strictly before.
pub open spec fn volumes_sorted(s: Seq<VolumeView>) -> bool {
    forall|i: int, j: int| 0 <= i < j < s.len() ==> !volume_before(#[trigger] s[j], #[trigger] s[i])
}

/// Where a stable insertion puts `x`: before the first volume it comes strictly before.
pub open spec fn volume_slot(s: Seq<VolumeView>, x: VolumeView, k: int) -> int
    decreases s.len() - k,
{
    if k < 0 || k >= s.len() {
        s.len() as int
    } else if volume_before(x, s[k]) {
        k
    } else {
        volume_slot(s, x, k + 1)
    }
}

/// The volumes in listing order, ties kept in their given order.
pub open spec fn volume_order(s: Seq<VolumeView>) -> Seq<VolumeView>
    decreases s.len(),
{
    if s.len() == 0 {
        s
    } else {
        let sorted = volume_order(s.drop_last());
        sorted.insert(volume_slot(sorted, s.last(), 0), s.last())
    }
}

proof fn lemma_volume_before_asym(a: VolumeView, b: VolumeView)
    ensures
        !(volume_before(a, b) && volume_before(b, a)),
{
    lemma_chars_lt_asym(a.label, b.label);
}

proof fn lemma_volume_before_trans(a: VolumeView, b: VolumeView, c: VolumeView)
    requires
        volume_before(a, b),
        volume_before(b, c),
    ensures
        volume_before(a, c),
{
    if a.system_drive == b.system_drive && b.system_drive == c.system_drive {
        lemma_chars_lt_trans(a.label, b.label, c.label);
    }
}

proof fn lemma_volume_slot_bounds(s: Seq<VolumeView>, x: VolumeView, k: int)
    requires
        0 <= k <= s.len(),
    ensures
        k <= volume_slot(s, x, k) <= s.len(),
        forall|i: int| k <= i < volume_slot(s, x, k) ==> !volume_before(x, #[trigger] s[i]),
        volume_slot(s, x, k) < s.len() ==> volume_before(x, s[volume_slot(s, x, k)]),
    decreases s.len() - k,
{
    if k < s.len() && !volume_before(x, s[k]) {
        lemma_volume_slot_bounds(s, x, k + 1);
    }
}

proof fn lemma_volume_insert_sorted(s: Seq<VolumeView>, x: VolumeView)
    requires
        volumes_sorted(s),
    ensures
        volumes_sorted(s.insert(volume_slot(s, x, 0), x)),
{
    lemma_volume_slot_bounds(s, x, 0);
    let p = volume_slot(s, x, 0);
    let t = s.insert(p, x);
    assert forall|i: int, j: int| 0 <= i < j < t.len() implies !volume_before(#[trigger] t[j], #[trigger] t[i]) by {
        if i < p && j == p {
            lemma_volume_before_asym(x, s[i]);
        } else if i == p && j > p {
            if volume_before(t[j], x) {
                if p < s.len() {
                    lemma_volume_before_trans(s[j - 1], x, s[p]);
                    if j - 1 == p {
                        lemma_volume_before_asym(s[p], x);
                    }
                }
            }
        } else if i < p && j > p {
            assert(t[i] == s[i] && t[j] == s[j - 1]);
        } else if j < p {
            assert(t[i] == s[i] && t[j] == s[j]);
        } else {
            assert(t[i] == s[i - 1] && t[j] == s[j - 1]);
        }
    }
}

/// The listing order puts the system drive first and the others by label,
/// and lists exactly the volumes it was given.
pub proof fn volume_order_is_sorted_permutation(s: Seq<VolumeView>)
    ensures
        volumes_sorted(volume_order(s)),
        volume_order(s).to_multiset() == s.to_multiset(),
        volume_order(s).len() == s.len(),
    decreases s.len(),
{
    broadcast use vstd::seq_lib::to_multiset_insert;
    if s.len() > 0 {
        let sorted = volume_order(s.drop_last());
        volume_order_is_sorted_permutation(s.drop_last());
        lemma_volume_insert_sorted(sorted, s.last());
        lemma_volume_slot_bounds(sorted, s.last(), 0);
        vstd::seq_lib::to_multiset_build(s.drop_last(), s.last());
        assert(s.drop_last().push(s.last()) =~= s);
    }
}

impl DiskCleanupManager {
    /// Whether a usage insight holds only data that can be downloaded or rebuilt again.
    pub fn safe_to_clean(id: &str) -> (r: bool)
        ensures
            r == is_safe_to_clean(id@),
    {
        let v = chars_of(id);
        equals_str(&v, "nuget_packages") || equals_str(&v, "cargo_registry") || equals_str(
            &v,
            "cargo_git",
        ) || equals_str(&v, "maven_repository") || equals_str(&v, "gradle_cache") || equals_str(
            &v,
            "go_module_cache",
        ) || equals_str(&v, "conda_packages") || equals_str(&v, "poetry_cache") || equals_str(
            &v,
            "huggingface_cache",
        ) || equals_str(&v, "torch_cache") || equals_str(&v, "android_gradle_cache")
            || equals_str(&v, "npm_cache") || equals_str(&v, "pnpm_cache_macos") || equals_str(
            &v,
            "pnpm_store_macos",
        ) || equals_str(&v, "pnpm_store_roaming") || equals_str(&v, "composer_cache")
            || equals_str(&v, "pnpm_store_local") || equals_str(&v, "pnpm_store_local_alt")
            || equals_str(&v, "yarn_cache") || equals_str(&v, "pip_cache") || equals_str(
            &v,
            "electron_cache",
        ) || equals_str(&v, "electron_builder_cache") || equals_str(&v, "unity_cache")
            || equals_str(&v, "unreal_derived_data_cache") || equals_str(&v, "package_cache")
            || equals_str(&v, "chocolatey_cache") || equals_str(&v, "winget_cache")
    }

    /// The advice shown with a usage insight.
    pub fn safety_label(safe_to_clean: bool) -> (r: &'static str)
        ensures
            r@ == safety_text(safe_to_clean),
    {
        if safe_to_clean {
            "Safe to clean; data can be redownloaded or rebuilt."
        } else {
            "Inspect first; deleting this can remove app data, tools, or installations."
        }
    }

    /// A path made into an id piece.
    pub fn id_fragment(path: &str) -> (r: String)
        ensures
            r@ == id_fragment_of(path@),
    {
        let v = chars_of(path);
        let mut out: Vec<char> = Vec::new();
        let mut k: usize = 0;
        while k < v.len()
            invariant
                k <= v.len(),
                out@ =~= id_fragment_of(v@.take(k as int)),
            decreases v.len() - k,
        {
            let c = v[k];
            if is_ascii_alphanumeric(c) {
                out.push(to_ascii_lower(c));
            } else {
                out.push('_');
            }
            assert(v@.take(k + 1) =~= v@.take(k as int).push(c));
            k = k + 1;
        }
        assert(v@.take(v@.len() as int) =~= v@);
        string_of(&out)
    }

    /// The id piece of a volume label.
    pub fn volume_id(label: &str) -> (r: String)
        ensures
            r@ == volume_id_of(label@),
    {
        let v = chars_of(label);
        let t = trim_end_matching(&v, ':');
        let mut out: Vec<char> = Vec::new();
        let mut k: usize = 0;
        while k < t.len()
            invariant
                k <= t.len(),
                out@ =~= ascii_alnum_only(t@.take(k as int)).map_values(
                    |c: char| ascii_lower(c),
                ),
            decreases t.len() - k,
        {
            let c = t[k];
            assert(t@.take(k + 1).drop_last() =~= t@.take(k as int));
            if is_ascii_alphanumeric(c) {
                out.push(to_ascii_lower(c));
            }
            k = k + 1;
        }
        assert(t@.take(t@.len() as int) =~= t@);
        string_of(&out)
    }

    /// Adds a usage insight at the end of `insights`.
    pub fn push_usage_insight(
        insights: &mut Vec<UsageInsightDefinition>,
        id: &str,
        name: &str,
        path: String,
        category: &str,
        description: &str,
    )
        ensures
            insight_views(final(insights)@) == insight_views(old(insights)@).push(
                insight(id@, name@, path@, category@, description@),
            ),
    {
        let ghost before = insight_views(insights@);
        insights.push(
            UsageInsightDefinition {
                id: owned(id),
                name: owned(name),
                path,
                category: owned(category),
                description: owned(description),
            },
        );
        assert(insight_views(insights@) =~= before.push(
            insight(id@, name@, path@, category@, description@),
        ));
    }

    /// Adds the developer caches of macOS under the home folder `home`.
    pub fn push_macos_usage_insights(insights: &mut Vec<UsageInsightDefinition>, home: &str)
        ensures
            insight_views(final(insights)@) == insight_views(old(insights)@) + macos_insights(home@),
    {
        let ghost start = insight_views(insights@);
        let library = join_path(home, "Library", '/');
        let caches = join_path(library.as_str(), "Caches", '/');
        Self::push_usage_insight(insights, "cargo_registry", "Cargo registry", join_path(home, ".cargo/registry", '/'), "Developer cache", "Rust crate registry cache.");
        Self::push_usage_insight(insights, "cargo_git", "Cargo git cache", join_path(home, ".cargo/git", '/'), "Developer cache", "Rust git dependency cache.");
        Self::push_usage_insight(insights, "rustup_toolchains", "Rust toolchains", join_path(home, ".rustup/toolchains", '/'), "Developer tools", "Installed Rust toolchains managed by rustup.");
        Self::push_usage_insight(insights, "npm_cache", "npm cache", join_path(home, ".npm", '/'), "Developer cache", "npm package download cache.");
        Self::push_usage_insight(insights, "pnpm_store_macos", "pnpm store", join_path(library.as_str(), "pnpm/store", '/'), "Developer cache", "pnpm content-addressable package store.");
        Self::push_usage_insight(insights, "pnpm_cache_macos", "pnpm cache", join_path(caches.as_str(), "pnpm", '/'), "Developer cache", "pnpm metadata and downloaded package cache.");
        Self::push_usage_insight(insights, "yarn_cache", "Yarn cache", join_path(caches.as_str(), "Yarn", '/'), "Developer cache", "Yarn package cache.");
        Self::push_usage_insight(insights, "pip_cache", "pip cache", join_path(caches.as_str(), "pip", '/'), "Developer cache", "Python package download and wheel cache.");
        Self::push_usage_insight(insights, "poetry_cache", "Poetry cache", join_path(caches.as_str(), "pypoetry", '/'), "Developer cache", "Poetry package and virtual environment cache.");
        Self::push_usage_insight(insights, "maven_repository", "Maven repository", join_path(home, ".m2/repository", '/'), "Developer cache", "Maven dependency artifacts used by Java projects.");
        Self::push_usage_insight(insights, "gradle_cache", "Gradle cache", join_path(home, ".gradle/caches", '/'), "Developer cache", "Gradle dependency and build caches.");
        Self::push_usage_insight(insights, "go_module_cache", "Go module cache", join_path(home, "go/pkg/mod", '/'), "Developer cache", "Downloaded Go modules used by Go projects.");
        Self::push_usage_insight(insights, "vscode_extensions", "VS Code extensions", join_path(home, ".vscode/extensions", '/'), "Developer tools", "Installed Visual Studio Code extensions.");
        Self::push_usage_insight(insights, "electron_cache", "Electron cache", join_path(caches.as_str(), "electron", '/'), "Developer cache", "Electron download and runtime cache.");
        Self::push_usage_insight(insights, "electron_builder_cache", "Electron Builder cache", join_path(caches.as_str(), "electron-builder", '/'), "Developer cache", "Electron Builder downloaded tooling and target caches.");
        reveal(macos_insights);
        assert(insight_views(insights@) =~= start + macos_insights(home@));
    }

    /// The caches and tools listed under the user's profile folder.
    pub fn push_user_profile_usage_insights(insights: &mut Vec<UsageInsightDefinition>, user_profile: &str, sep: char)
        ensures
            insight_views(final(insights)@) == insight_views(old(insights)@) + user_profile_insights(user_profile@, sep),
    {
        let ghost start = insight_views(insights@);
        Self::push_usage_insight(insights, "nuget_packages", "NuGet packages", join_path(join_path(user_profile, ".nuget", sep).as_str(), "packages", sep), "Developer cache", "NuGet package cache used by .NET projects.");
        Self::push_usage_insight(insights, "cargo_registry", "Cargo registry", join_path(join_path(user_profile, ".cargo", sep).as_str(), "registry", sep), "Developer cache", "Rust crate registry cache.");
        Self::push_usage_insight(insights, "cargo_git", "Cargo git cache", join_path(join_path(user_profile, ".cargo", sep).as_str(), "git", sep), "Developer cache", "Rust git dependency cache.");
        Self::push_usage_insight(insights, "rustup_toolchains", "Rust toolchains", join_path(join_path(user_profile, ".rustup", sep).as_str(), "toolchains", sep), "Developer tools", "Installed Rust toolchains managed by rustup.");
        Self::push_usage_insight(insights, "vscode_extensions", "VS Code extensions", join_path(join_path(user_profile, ".vscode", sep).as_str(), "extensions", sep), "Developer tools", "Installed Visual Studio Code extensions.");
        Self::push_usage_insight(insights, "docker_user", "Docker user data", join_path(user_profile, ".docker", sep), "App data", "Docker CLI configuration and related user data.");
        Self::push_usage_insight(insights, "maven_repository", "Maven repository", join_path(join_path(user_profile, ".m2", sep).as_str(), "repository", sep), "Developer cache", "Maven and Gradle dependency artifacts shared by Java projects.");
        Self::push_usage_insight(insights, "gradle_cache", "Gradle cache", join_path(join_path(user_profile, ".gradle", sep).as_str(), "caches", sep), "Developer cache", "Gradle dependency and build caches.");
        Self::push_usage_insight(insights, "go_module_cache", "Go module cache", join_path(join_path(join_path(user_profile, "go", sep).as_str(), "pkg", sep).as_str(), "mod", sep), "Developer cache", "Downloaded Go modules used by Go projects.");
        Self::push_usage_insight(insights, "conda_packages", "Conda packages", join_path(join_path(user_profile, ".conda", sep).as_str(), "pkgs", sep), "Developer cache", "Conda package cache used by Python environments.");
        Self::push_usage_insight(insights, "poetry_cache", "Poetry cache", join_path(join_path(user_profile, ".cache", sep).as_str(), "pypoetry", sep), "Developer cache", "Poetry package and virtual environment cache.");
        Self::push_usage_insight(insights, "huggingface_cache", "Hugging Face cache", join_path(join_path(user_profile, ".cache", sep).as_str(), "huggingface", sep), "AI model cache", "Downloaded datasets, tokenizers, and model files.");
        Self::push_usage_insight(insights, "torch_cache", "PyTorch cache", join_path(join_path(user_profile, ".cache", sep).as_str(), "torch", sep), "AI model cache", "Downloaded PyTorch model and extension cache.");
        Self::push_usage_insight(insights, "android_gradle_cache", "Android Gradle cache", join_path(join_path(user_profile, ".android", sep).as_str(), "build-cache", sep), "Developer cache", "Android build cache used by older Gradle Android builds.");
        reveal(user_profile_insights);
        assert(insight_views(insights@) =~= start + user_profile_insights(user_profile@, sep));
    }

    /// The caches and data listed under the roaming application data folder.
    pub fn push_app_data_usage_insights(insights: &mut Vec<UsageInsightDefinition>, app_data: &str, sep: char)
        ensures
            insight_views(final(insights)@) == insight_views(old(insights)@) + app_data_insights(app_data@, sep),
    {
        let ghost start = insight_views(insights@);
        Self::push_usage_insight(insights, "npm_cache", "npm cache", join_path(app_data, "npm-cache", sep), "Developer cache", "npm package download cache.");
        Self::push_usage_insight(insights, "pnpm_store_roaming", "pnpm store", join_path(join_path(app_data, "pnpm", sep).as_str(), "store", sep), "Developer cache", "pnpm content-addressable package store.");
        Self::push_usage_insight(insights, "docker_roaming", "Docker roaming data", join_path(app_data, "Docker", sep), "App data", "Docker Desktop roaming application data.");
        Self::push_usage_insight(insights, "composer_cache", "Composer cache", join_path(join_path(app_data, "Composer", sep).as_str(), "cache", sep), "Developer cache", "PHP Composer package cache.");
        reveal(app_data_insights);
        assert(insight_views(insights@) =~= start + app_data_insights(app_data@, sep));
    }

    /// The caches and data listed under the local application data folder.
    pub fn push_local_app_data_usage_insights(insights: &mut Vec<UsageInsightDefinition>, local_app_data: &str, sep: char)
        ensures
            insight_views(final(insights)@) == insight_views(old(insights)@) + local_app_data_insights(local_app_data@, sep),
    {
        let ghost start = insight_views(insights@);
        Self::push_usage_insight(insights, "pnpm_store_local", "pnpm local store", join_path(join_path(local_app_data, "pnpm", sep).as_str(), "store", sep), "Developer cache", "pnpm package store under local app data.");
        Self::push_usage_insight(insights, "pnpm_store_local_alt", "pnpm store", join_path(local_app_data, "pnpm-store", sep), "Developer cache", "Alternate pnpm package store location.");
        Self::push_usage_insight(insights, "yarn_cache", "Yarn cache", join_path(join_path(local_app_data, "Yarn", sep).as_str(), "Cache", sep), "Developer cache", "Yarn package cache.");
        Self::push_usage_insight(insights, "pip_cache", "pip cache", join_path(join_path(local_app_data, "pip", sep).as_str(), "Cache", sep), "Developer cache", "Python package download and wheel cache.");
        Self::push_usage_insight(insights, "docker_local", "Docker Desktop data", join_path(local_app_data, "Docker", sep), "App data", "Docker Desktop local application data.");
        Self::push_usage_insight(insights, "docker_wsl", "Docker WSL data", join_path(join_path(local_app_data, "Docker", sep).as_str(), "wsl", sep), "App data", "Docker WSL distributions and disk images.");
        Self::push_usage_insight(insights, "chrome_user_data", "Chrome user data", join_path(join_path(join_path(local_app_data, "Google", sep).as_str(), "Chrome", sep).as_str(), "User Data", sep), "App data", "Chrome profiles, cache, extensions, and browser data.");
        Self::push_usage_insight(insights, "edge_user_data", "Edge user data", join_path(join_path(join_path(local_app_data, "Microsoft", sep).as_str(), "Edge", sep).as_str(), "User Data", sep), "App data", "Edge profiles, cache, extensions, and browser data.");
        Self::push_usage_insight(insights, "teams_data", "Microsoft Teams data", join_path(join_path(local_app_data, "Microsoft", sep).as_str(), "Teams", sep), "App data", "Teams local application data and cache.");
        Self::push_usage_insight(insights, "electron_cache", "Electron cache", join_path(join_path(local_app_data, "electron", sep).as_str(), "Cache", sep), "Developer cache", "Electron download and runtime cache.");
        Self::push_usage_insight(insights, "electron_builder_cache", "Electron Builder cache", join_path(join_path(local_app_data, "electron-builder", sep).as_str(), "Cache", sep), "Developer cache", "Electron Builder downloaded tooling and target caches.");
        Self::push_usage_insight(insights, "android_sdk", "Android SDK", join_path(join_path(local_app_data, "Android", sep).as_str(), "Sdk", sep), "Developer tools", "Installed Android SDK platforms, build tools, emulators, and system images.");
        Self::push_usage_insight(insights, "jetbrains_caches", "JetBrains caches", join_path(local_app_data, "JetBrains", sep), "Developer cache", "JetBrains IDE indexes, caches, plugins, and local metadata.");
        Self::push_usage_insight(insights, "visual_studio_component_cache", "Visual Studio component cache", join_path(join_path(join_path(local_app_data, "Microsoft", sep).as_str(), "VisualStudio", sep).as_str(), "Packages", sep), "Installer cache", "Visual Studio component package cache.");
        Self::push_usage_insight(insights, "wsl_packages", "WSL package data", join_path(local_app_data, "Packages", sep), "App data", "Microsoft Store app package data, including WSL distributions and app containers.");
        Self::push_usage_insight(insights, "unity_cache", "Unity cache", join_path(join_path(local_app_data, "Unity", sep).as_str(), "cache", sep), "Developer cache", "Unity asset, package, and editor cache.");
        Self::push_usage_insight(insights, "unreal_derived_data_cache", "Unreal Derived Data Cache", join_path(join_path(join_path(local_app_data, "UnrealEngine", sep).as_str(), "Common", sep).as_str(), "DerivedDataCache", sep), "Developer cache", "Unreal Engine shader, asset, and derived data cache.");
        reveal(local_app_data_insights);
        assert(insight_views(insights@) =~= start + local_app_data_insights(local_app_data@, sep));
    }

    /// The shared caches and data listed under the program data folder.
    pub fn push_program_data_usage_insights(insights: &mut Vec<UsageInsightDefinition>, program_data: &str, sep: char)
        ensures
            insight_views(final(insights)@) == insight_views(old(insights)@) + program_data_insights(program_data@, sep),
    {
        let ghost start = insight_views(insights@);
        Self::push_usage_insight(insights, "docker_program_data", "Docker shared data", join_path(program_data, "Docker", sep), "App data", "Docker shared images, layers, and runtime data.");
        Self::push_usage_insight(insights, "docker_desktop_program_data", "Docker Desktop shared data", join_path(program_data, "DockerDesktop", sep), "App data", "Docker Desktop shared application data.");
        Self::push_usage_insight(insights, "package_cache", "Package Cache", join_path(program_data, "Package Cache", sep), "Installer cache", "Installer package cache used by Visual Studio and other setup tools.");
        Self::push_usage_insight(insights, "chocolatey_cache", "Chocolatey cache", join_path(join_path(program_data, "chocolatey", sep).as_str(), "cache", sep), "Package manager cache", "Chocolatey downloaded package cache.");
        Self::push_usage_insight(insights, "winget_cache", "WinGet package cache", join_path(join_path(join_path(program_data, "Microsoft", sep).as_str(), "WinGet", sep).as_str(), "Packages", sep), "Package manager cache", "WinGet package download and installer cache.");
        reveal(program_data_insights);
        assert(insight_views(insights@) =~= start + program_data_insights(program_data@, sep));
    }

    /// Adds the usage insights known by name, for the folders the environment has.
    pub fn push_known_usage_insights(insights: &mut Vec<UsageInsightDefinition>, env: &CleanupEnvironment)
        ensures
            insight_views(final(insights)@) == insight_views(old(insights)@) + known_insights(*env),
    {
        let ghost start = insight_views(insights@);
        let sep = env.separator;
        if let Some(home) = &env.home {
            Self::push_macos_usage_insights(insights, home.as_str());
        }
        if let Some(user_profile) = &env.user_profile {
            Self::push_user_profile_usage_insights(insights, user_profile.as_str(), sep);
        }
        if let Some(app_data) = &env.app_data {
            Self::push_app_data_usage_insights(insights, app_data.as_str(), sep);
        }
        if let Some(local_app_data) = &env.local_app_data {
            Self::push_local_app_data_usage_insights(insights, local_app_data.as_str(), sep);
        }
        if let Some(program_data) = &env.program_data {
            Self::push_program_data_usage_insights(insights, program_data.as_str(), sep);
        }
        assert(insight_views(insights@) =~= start + known_insights(*env));
    }

    fn push_target(targets: &mut Vec<CleanupTargetDefinition>, id: String, name: &str, path: String, description: &str)
        ensures
            target_views(final(targets)@) == target_views(old(targets)@).push(
                target(id@, name@, path@, description@),
            ),
    {
        let ghost before = target_views(targets@);
        targets.push(
            CleanupTargetDefinition { id, name: owned(name), path, description: owned(description) },
        );
        assert(target_views(targets@) =~= before.push(target(id@, name@, path@, description@)));
    }

    fn push_volume_targets(targets: &mut Vec<CleanupTargetDefinition>, label: &str, sep: char)
        ensures
            target_views(final(targets)@) == target_views(old(targets)@) + volume_targets(label@, sep),
    {
        let ghost start = target_views(targets@);
        let volume_id = Self::volume_id(label);
        let root = concat_str(label, "\\");
        assert(root@ =~= label@.push('\\')) by {
            reveal_strlit("\\");
        }
        Self::push_target(targets, concat_str("recycle_bin_", volume_id.as_str()), "Recycle Bin", join_path(root.as_str(), "$Recycle.Bin", sep), "Deleted files waiting in this volume's Recycle Bin.");
        Self::push_target(targets, concat_str("windows_old_", volume_id.as_str()), "Previous Windows installation", join_path(root.as_str(), "Windows.old", sep), "Files kept after a Windows upgrade on this volume.");
        assert(target_views(targets@) =~= start + volume_targets(label@, sep));
    }

    /// Every cleanup target for the given volumes and environment.
    pub fn targets(volumes: &Vec<DiskVolumeUsage>, env: &CleanupEnvironment) -> (r: Vec<CleanupTargetDefinition>)
        ensures
            target_views(r@) == cleanup_targets(volumes@, *env),
    {
        let sep = env.separator;
        let mut targets: Vec<CleanupTargetDefinition> = Vec::new();
        let mut k: usize = 0;
        while k < volumes.len()
            invariant
                k <= volumes.len(),
                sep == env.separator,
                target_views(targets@) == volumes_targets(volumes@.take(k as int), sep),
            decreases volumes.len() - k,
        {
            assert(volumes@.take(k + 1).drop_last() =~= volumes@.take(k as int));
            Self::push_volume_targets(&mut targets, volumes[k].label.as_str(), sep);
            k = k + 1;
        }
        assert(volumes@.take(volumes@.len() as int) =~= volumes@);
        Self::push_target(&mut targets, owned("user_temp"), "User temporary files", env.temp_dir.clone(), "Temporary files created by apps for the current user.");
        let ghost b = target_views(targets@);
        if let Some(system_root) = &env.system_root {
            let root = system_root.as_str();
            Self::push_target(&mut targets, owned("windows_temp"), "Windows temporary files", join_path(root, "Temp", sep), "Temporary files under the Windows folder.");
            Self::push_target(&mut targets, owned("windows_update_cache"), "Windows Update downloads", join_path(join_path(root, "SoftwareDistribution", sep).as_str(), "Download", sep), "Downloaded update packages that Windows can fetch again.");
            reveal(system_root_targets);
        }
        let ghost c = target_views(targets@);
        assert(c =~= b + (match env.system_root { Some(f) => system_root_targets(f@, sep), None => Seq::empty() }));
        if let Some(program_data) = &env.program_data {
            let windows = join_path(join_path(program_data.as_str(), "Microsoft", sep).as_str(), "Windows", sep);
            Self::push_target(&mut targets, owned("delivery_optimization"), "Delivery Optimization cache", join_path(join_path(windows.as_str(), "DeliveryOptimization", sep).as_str(), "Cache", sep), "Windows delivery cache for updates and Store downloads.");
            Self::push_target(&mut targets, owned("wer_reports"), "Windows error reports", join_path(join_path(windows.as_str(), "WER", sep).as_str(), "ReportArchive", sep), "Archived Windows Error Reporting data.");
            reveal(program_data_targets);
        }
        let ghost d = target_views(targets@);
        assert(d =~= c + (match env.program_data { Some(f) => program_data_targets(f@, sep), None => Seq::empty() }));
        if let Some(local_app_data) = &env.local_app_data {
            let base = local_app_data.as_str();
            let chrome = join_path(join_path(join_path(base, "Google", sep).as_str(), "Chrome", sep).as_str(), "User Data", sep);
            let edge = join_path(join_path(join_path(base, "Microsoft", sep).as_str(), "Edge", sep).as_str(), "User Data", sep);
            Self::push_target(&mut targets, owned("crash_dumps"), "Crash dumps", join_path(base, "CrashDumps", sep), "Application crash dumps saved for diagnostics.");
            Self::push_target(&mut targets, owned("chrome_cache"), "Chrome cache", join_path(join_path(join_path(chrome.as_str(), "Default", sep).as_str(), "Cache", sep).as_str(), "Cache_Data", sep), "Cached web content from the default Chrome profile.");
            Self::push_target(&mut targets, owned("edge_cache"), "Edge cache", join_path(join_path(join_path(edge.as_str(), "Default", sep).as_str(), "Cache", sep).as_str(), "Cache_Data", sep), "Cached web content from the default Edge profile.");
            reveal(local_app_data_targets);
        }
        assert(target_views(targets@) =~= d + (match env.local_app_data { Some(f) => local_app_data_targets(f@, sep), None => Seq::empty() }));
        assert(target_views(targets@) =~= cleanup_targets(volumes@, *env));
        targets
    }

    /// The folders whose top-level folders are checked for large applications.
    pub fn large_app_roots(env: &CleanupEnvironment) -> (r: Vec<String>)
        ensures
            r@.map_values(|s: String| s@) == app_roots(*env),
    {
        let mut roots: Vec<String> = Vec::new();
        if let Some(f) = &env.program_files {
            roots.push(f.clone());
        }
        if let Some(f) = &env.program_files_x86 {
            roots.push(f.clone());
        }
        if let Some(f) = &env.local_app_data {
            roots.push(join_path(f.as_str(), "Programs", env.separator));
        }
        assert(roots@.map_values(|s: String| s@) =~= app_roots(*env));
        roots
    }

    /// Adds the large application folders among `folders`.
    pub fn push_large_app_folders(insights: &mut Vec<UsageInsightDefinition>, folders: &Vec<AppFolder>)
        ensures
            insight_views(final(insights)@) == insight_views(old(insights)@) + large_app_insights(folders@),
    {
        let ghost start = insight_views(insights@);
        let mut k: usize = 0;
        while k < folders.len()
            invariant
                k <= folders.len(),
                insight_views(insights@) == start + large_app_insights(folders@.take(k as int)),
            decreases folders.len() - k,
        {
            let f = &folders[k];
            assert(folders@.take(k + 1).drop_last() =~= folders@.take(k as int));
            let ghost before = insight_views(insights@);
            if f.bytes >= LARGE_APP_BYTES {
                let name = match &f.name {
                    Some(n) => n.clone(),
                    None => owned("Application"),
                };
                let id = concat_str("large_app_", Self::id_fragment(f.path.as_str()).as_str());
                insights.push(UsageInsightDefinition {
                    id,
                    name,
                    path: f.path.clone(),
                    category: owned("Apps over 1 GB"),
                    description: owned("Top-level application folder using more than 1 GB."),
                });
                assert(insight_views(insights@) =~= before.push(large_app_insight(folders@[k as int])->0));
            }
            assert(insight_views(insights@) =~= start + large_app_insights(folders@.take(k + 1)));
            k = k + 1;
        }
        assert(folders@.take(folders@.len() as int) =~= folders@);
    }

    /// Every usage insight: those known by name, then the large application folders.
    pub fn usage_insights(env: &CleanupEnvironment, folders: &Vec<AppFolder>) -> (r: Vec<UsageInsightDefinition>)
        ensures
            insight_views(r@) == known_insights(*env) + large_app_insights(folders@),
    {
        let mut insights: Vec<UsageInsightDefinition> = Vec::new();
        assert(insight_views(insights@) =~= Seq::<InsightView>::empty());
        Self::push_known_usage_insights(&mut insights, env);
        Self::push_large_app_folders(&mut insights, folders);
        assert(insight_views(insights@) =~= known_insights(*env) + large_app_insights(folders@));
        insights
    }

    /// The report of a cleanup target with its usage.
    pub fn target_from_definition(definition: &CleanupTargetDefinition, usage: PathUsage) -> (r: DiskCleanupTarget)
        ensures
            is_target_report(r, target_view(*definition), usage),
    {
        DiskCleanupTarget {
            id: definition.id.clone(),
            name: definition.name.clone(),
            path: definition.path.clone(),
            description: definition.description.clone(),
            bytes: usage.bytes,
            exists: usage.exists,
        }
    }

    /// The report of a usage insight with its usage.
    pub fn usage_insight_from_definition(definition: &UsageInsightDefinition, usage: PathUsage) -> (r: DiskUsageInsight)
        ensures
            is_insight_report(r, insight_view(*definition), usage),
    {
        let safe_to_clean = Self::safe_to_clean(definition.id.as_str());
        DiskUsageInsight {
            safety: owned(Self::safety_label(safe_to_clean)),
            safe_to_clean,
            id: definition.id.clone(),
            name: definition.name.clone(),
            path: definition.path.clone(),
            category: definition.category.clone(),
            description: definition.description.clone(),
            bytes: usage.bytes,
            exists: usage.exists,
        }
    }

    /// The scan report of targets and insights already measured: every
    /// target, and the insights that exist and hold something.
    pub fn scan_measured(
        volumes: Vec<DiskVolumeUsage>,
        targets: &Vec<(CleanupTargetDefinition, PathUsage)>,
        insights: &Vec<(UsageInsightDefinition, PathUsage)>,
    ) -> (r: Result<DiskCleanupScan, CommandError>)
        ensures
            r matches Ok(scan) && scan.volumes@ == volumes@ && scan.targets@.len() == targets@.len()
                && (forall|i: int| 0 <= i < targets@.len() ==> is_target_report(
                #[trigger] scan.targets@[i],
                target_view(targets@[i].0),
                targets@[i].1,
            )) && scan.usage_insights@.len() == shown_insights(insights@).len() && (forall|i: int|
                0 <= i < shown_insights(insights@).len() ==> is_insight_report(
                    #[trigger] scan.usage_insights@[i],
                    shown_insights(insights@)[i].0,
                    shown_insights(insights@)[i].1,
                )),
    {
        let mut reports: Vec<DiskCleanupTarget> = Vec::new();
        let mut k: usize = 0;
        while k < targets.len()
            invariant
                k <= targets.len(),
                reports@.len() == k,
                forall|i: int| 0 <= i < k ==> is_target_report(
                    #[trigger] reports@[i],
                    target_view(targets@[i].0),
                    targets@[i].1,
                ),
            decreases targets.len() - k,
        {
            let t = Self::target_from_definition(&targets[k].0, targets[k].1);
            reports.push(t);
            k = k + 1;
        }
        let mut shown: Vec<DiskUsageInsight> = Vec::new();
        let mut k: usize = 0;
        while k < insights.len()
            invariant
                k <= insights.len(),
                shown@.len() == shown_insights(insights@.take(k as int)).len(),
                forall|i: int| 0 <= i < shown@.len() ==> is_insight_report(
                    #[trigger] shown@[i],
                    shown_insights(insights@.take(k as int))[i].0,
                    shown_insights(insights@.take(k as int))[i].1,
                ),
            decreases insights.len() - k,
        {
            assert(insights@.take(k + 1).drop_last() =~= insights@.take(k as int));
            let usage = insights[k].1;
            if usage.exists && usage.bytes > 0 {
                let report = Self::usage_insight_from_definition(&insights[k].0, usage);
                shown.push(report);
            }
            k = k + 1;
        }
        assert(insights@.take(insights@.len() as int) =~= insights@);
        Ok(DiskCleanupScan { targets: reports, usage_insights: shown, volumes })
    }

    /// Scans the machine: the cleanup targets of `volumes` and `env` (see
    /// `cleanup_targets`) and the usage insights of `env` and the application
    /// folders `folders` (see `known_insights`, `large_app_insights`), each
    /// folder measured by `measure`; the report holds every target and the
    /// insights that exist and hold something. It always succeeds.
    pub fn scan<F: Fn(&String) -> PathUsage>(
        volumes: Vec<DiskVolumeUsage>,
        env: &CleanupEnvironment,
        folders: &Vec<AppFolder>,
        measure: F,
    ) -> (r: Result<DiskCleanupScan, CommandError>)
        requires
            forall|p: &String| measure.requires((p,)),
        ensures
            r matches Ok(scan) && scan.volumes@ == volumes@ && exists|
                targets: Seq<CleanupTargetDefinition>,
                insights: Seq<UsageInsightDefinition>,
                tu: Seq<PathUsage>,
                iu: Seq<PathUsage>,
            |
                #![trigger is_scan_report(scan, targets, insights, measure, tu, iu)]
                target_views(targets) == cleanup_targets(volumes@, *env) && insight_views(insights)
                    == known_insights(*env) + large_app_insights(folders@) && is_scan_report(
                    scan,
                    targets,
                    insights,
                    measure,
                    tu,
                    iu,
                ),
    {
        let definitions = Self::targets(&volumes, env);
        let ghost defs = definitions@;
        let mut rest = definitions;
        let mut targets: Vec<(CleanupTargetDefinition, PathUsage)> = Vec::new();
        let ghost mut tu: Seq<PathUsage> = Seq::empty();
        assert(defs.skip(0) =~= defs);
        while rest.len() > 0
            invariant
                forall|p: &String| measure.requires((p,)),
                targets@.len() == tu.len(),
                tu.len() + rest@.len() == defs.len(),
                rest@ == defs.skip(tu.len() as int),
                forall|i: int| 0 <= i < targets@.len() ==> (#[trigger] targets@[i]).0 == defs[i] && targets@[i].1 == tu[i],
                forall|i: int| 0 <= i < tu.len() ==> measure.ensures((&defs[i].path,), #[trigger] tu[i]),
            decreases rest.len(),
        {
            let ghost n = tu.len();
            let d = rest.remove(0);
            assert(d == defs[n as int]);
            assert(rest@ =~= defs.skip(n as int + 1));
            let u = measure(&d.path);
            proof {
                tu = tu.push(u);
            }
            targets.push((d, u));
        }
        let insight_defs = Self::usage_insights(env, folders);
        let ghost idefs = insight_defs@;
        let mut rest = insight_defs;
        let mut insights: Vec<(UsageInsightDefinition, PathUsage)> = Vec::new();
        let ghost mut iu: Seq<PathUsage> = Seq::empty();
        assert(idefs.skip(0) =~= idefs);
        while rest.len() > 0
            invariant
                forall|p: &String| measure.requires((p,)),
                insights@.len() == iu.len(),
                iu.len() + rest@.len() == idefs.len(),
                rest@ == idefs.skip(iu.len() as int),
                forall|i: int| 0 <= i < insights@.len() ==> (#[trigger] insights@[i]).0 == idefs[i] && insights@[i].1 == iu[i],
                forall|i: int| 0 <= i < iu.len() ==> measure.ensures((&idefs[i].path,), #[trigger] iu[i]),
            decreases rest.len(),
        {
            let ghost n = iu.len();
            let d = rest.remove(0);
            assert(d == idefs[n as int]);
            assert(rest@ =~= idefs.skip(n as int + 1));
            let u = measure(&d.path);
            proof {
                iu = iu.push(u);
            }
            insights.push((d, u));
        }
        assert(insights@ =~= measured(idefs, iu));
        let r = Self::scan_measured(volumes, &targets, &insights);
        assert(is_scan_report(r->Ok_0, defs, idefs, measure, tu, iu));
        r
    }

    fn find_target(definitions: &Vec<CleanupTargetDefinition>, id: &String) -> (r: Option<usize>)
        ensures
            r matches Some(k) ==> k < definitions@.len() && first_with_id(target_ids(definitions@), id@)
                == Some(k as int),
            r is None ==> first_with_id(target_ids(definitions@), id@) is None,
    {
        let ghost ids = target_ids(definitions@);
        proof {
            lemma_first_with_id(ids, id@);
        }
        let idv = chars_of(id.as_str());
        assert(idv@ == id@);
        let mut k: usize = 0;
        while k < definitions.len()
            invariant
                k <= definitions.len(),
                idv@ == id@,
                ids == target_ids(definitions@),
                forall|j: int| 0 <= j < k ==> ids[j] != id@,
            decreases definitions.len() - k,
        {
            let dv = chars_of(definitions[k].id.as_str());
            assert(ids[k as int] == definitions@[k as int].id@);
            assert(dv@ == ids[k as int]);
            if equal_chars(&dv, &idv) {
                proof {
                    lemma_first_with_id(ids, id@);
                }
                return Some(k);
            }
            k = k + 1;
        }
        None
    }

    /// Cleans the requested targets in order, each through `clean_path`, and
    /// reports the bytes freed (their sum, held at `u64::MAX`) and the targets
    /// as they are after cleaning. Fails at the first id that names no target;
    /// the targets before it have been cleaned by then.
    pub fn clean<F: Fn(&String) -> CleanedPath>(
        request: DiskCleanupRequest,
        definitions: &Vec<CleanupTargetDefinition>,
        clean_path: F,
    ) -> (r: Result<DiskCleanupResult, CommandError>)
        requires
            forall|p: &String| clean_path.requires((p,)),
        ensures
            r is Ok <==> all_known(request.target_ids@, definitions@),
            r matches Err(e) ==> is_error(e, "diskCleanupFailed"@, "unknown cleanup target"@),
            r is Err ==> exists|outs: Seq<CleanedPath>|
                #[trigger] is_stopped_clean(request.target_ids@, definitions@, clean_path, outs),
            r matches Ok(res) ==> exists|outs: Seq<CleanedPath>|
                #[trigger] is_clean_report(res, request.target_ids@, definitions@, clean_path, outs),
    {
        let ids = &request.target_ids;
        let mut released_bytes: u64 = 0;
        let mut cleaned_targets: Vec<DiskCleanupTarget> = Vec::new();
        let ghost mut outs: Seq<CleanedPath> = Seq::empty();
        let mut k: usize = 0;
        while k < ids.len()
            invariant
                k <= ids.len(),
                ids@ == request.target_ids@,
                forall|p: &String| clean_path.requires((p,)),
                outs.len() == k,
                cleaned_targets@.len() == k,
                released_bytes == if freed_total(outs) > u64::MAX { u64::MAX as int } else { freed_total(outs) },
                forall|j: int| 0 <= j < k ==> first_with_id(target_ids(definitions@), #[trigger] ids@[j]@) is Some,
                forall|j: int| 0 <= j < k ==> {
                    let d = definitions@[first_with_id(target_ids(definitions@), #[trigger] ids@[j]@)->0];
                    &&& clean_path.ensures((&d.path,), outs[j])
                    &&& is_target_report(cleaned_targets@[j], target_view(d), PathUsage { bytes: outs[j].after, exists: outs[j].exists })
                },
            decreases ids.len() - k,
        {
            let found = Self::find_target(definitions, &ids[k]);
            let count = definitions.len();
            proof {
                lemma_first_with_id(target_ids(definitions@), ids@[k as int]@);
                assert(target_ids(definitions@).len() == count);
            }
            let i = match found {
                Some(i) => i,
                None => {
                    assert(!all_known(request.target_ids@, definitions@)) by {
                        assert(first_with_id(target_ids(definitions@), request.target_ids@[k as int]@) is None);
                    }
                    assert(is_stopped_clean(request.target_ids@, definitions@, clean_path, outs));
                    return Err(CommandError::disk_cleanup_failed("unknown cleanup target"));
                },
            };
            let definition = &definitions[i];
            assert(definitions@[first_with_id(target_ids(definitions@), ids@[k as int]@)->0] == *definition);
            let outcome = clean_path(&definition.path);
            let freed_now = if outcome.before >= outcome.after { outcome.before - outcome.after } else { 0 };
            released_bytes = released_bytes.saturating_add(freed_now);
            let report = Self::target_from_definition(
                definition,
                PathUsage { bytes: outcome.after, exists: outcome.exists },
            );
            cleaned_targets.push(report);
            proof {
                let old_outs = outs;
                outs = outs.push(outcome);
                assert(outs.drop_last() =~= old_outs);
                assert forall|j: int| 0 <= j < k + 1 implies {
                    let d = definitions@[first_with_id(target_ids(definitions@), #[trigger] ids@[j]@)->0];
                    &&& clean_path.ensures((&d.path,), outs[j])
                    &&& is_target_report(cleaned_targets@[j], target_view(d), PathUsage { bytes: outs[j].after, exists: outs[j].exists })
                } by {
                    if j < k {
                        assert(outs[j] == old_outs[j]);
                    } else {
                        assert(outs[j] == outcome);
                        assert(definitions@[first_with_id(target_ids(definitions@), ids@[j]@)->0] == *definition);
                    }
                }
            }
            k = k + 1;
        }
        let res = DiskCleanupResult { released_bytes, cleaned_targets };
        let r: Result<DiskCleanupResult, CommandError> = Ok(res);
        assert(is_clean_report(r->Ok_0, request.target_ids@, definitions@, clean_path, outs));
        r
    }

    fn find_insight(insights: &Vec<UsageInsightDefinition>, id: &String) -> (r: Option<usize>)
        ensures
            r matches Some(k) ==> k < insights@.len() && first_with_id(insight_ids(insights@), id@)
                == Some(k as int),
            r is None ==> first_with_id(insight_ids(insights@), id@) is None,
    {
        let ghost ids = insight_ids(insights@);
        let count = insights.len();
        proof {
            lemma_first_with_id(ids, id@);
            assert(ids.len() == count);
        }
        let idv = chars_of(id.as_str());
        assert(idv@ == id@);
        let mut k: usize = 0;
        while k < insights.len()
            invariant
                k <= insights.len(),
                idv@ == id@,
                ids == insight_ids(insights@),
                forall|j: int| 0 <= j < k ==> ids[j] != id@,
            decreases insights.len() - k,
        {
            let dv = chars_of(insights[k].id.as_str());
            assert(ids[k as int] == insights@[k as int].id@);
            assert(dv@ == ids[k as int]);
            if equal_chars(&dv, &idv) {
                proof {
                    lemma_first_with_id(ids, id@);
                }
                return Some(k);
            }
            k = k + 1;
        }
        None
    }

    /// Cleans the requested usage insight through `clean_path` and reports the
    /// bytes freed and the insight as it is after cleaning; fails when no
    /// insight has the requested id.
    pub fn clean_usage_insight<F: Fn(&String) -> CleanedPath>(
        request: DiskUsageInsightCleanupRequest,
        insights: &Vec<UsageInsightDefinition>,
        clean_path: F,
    ) -> (r: Result<DiskUsageInsightCleanupResult, CommandError>)
        requires
            forall|p: &String| clean_path.requires((p,)),
        ensures
            r is Ok <==> first_with_id(insight_ids(insights@), request.insight_id@) is Some,
            r matches Err(e) ==> is_error(e, "diskCleanupFailed"@, "unknown usage insight"@),
            r matches Ok(res) ==> exists|out: CleanedPath| #[trigger] is_insight_clean_report(
                res,
                insights@[first_with_id(insight_ids(insights@), request.insight_id@)->0],
                clean_path,
                out,
            ),
    {
        let i = match Self::find_insight(insights, &request.insight_id) {
            Some(i) => i,
            None => {
                return Err(CommandError::disk_cleanup_failed("unknown usage insight"));
            },
        };
        let definition = &insights[i];
        let outcome = clean_path(&definition.path);
        let cleaned_insight = Self::usage_insight_from_definition(
            definition,
            PathUsage { bytes: outcome.after, exists: outcome.exists },
        );
        let released_bytes = outcome.before.saturating_sub(outcome.after);
        let r: Result<DiskUsageInsightCleanupResult, CommandError> = Ok(
            DiskUsageInsightCleanupResult { released_bytes, cleaned_insight },
        );
        assert(insights@[first_with_id(insight_ids(insights@), request.insight_id@)->0] == *definition);
        assert(is_insight_clean_report(
            r->Ok_0,
            insights@[first_with_id(insight_ids(insights@), request.insight_id@)->0],
            clean_path,
            outcome,
        ));
        r
    }

    fn volume_from_line(line: &Vec<char>) -> (r: Option<DiskVolumeUsage>)
        ensures
            match volume_of_line(line@) {
                Some(v) => r matches Some(d) && volume_view(d) == v,
                None => r is None,
            },
    {
        let parts = split_on(line, '|');
        assert(parts@.len() == split(line@, '|').len());
        if parts.len() != 6 || !equals_str(&parts[0], "VOL") {
            assert(parts.len() == 6 ==> parts@[0]@ == split(line@, '|')[0]);
            return None;
        }
        assert(forall|i: int| 0 <= i < 6 ==> parts@[i]@ == #[trigger] split(line@, '|')[i]);
        let total = match parse_u64_chars(&parts[3]) {
            Some(t) => t,
            None => {
                return None;
            },
        };
        let free = match parse_u64_chars(&parts[4]) {
            Some(f) => f,
            None => {
                return None;
            },
        };
        let label = trim_chars(&parts[1]);
        let name = trim_chars(&parts[2]);
        let truth = chars_of("true");
        let system_drive = eq_ignore_ascii_case(&parts[5], &truth);
        Some(DiskVolumeUsage {
            label: string_of(&label),
            name: string_of(&name),
            total_bytes: total,
            free_bytes: free,
            system_drive,
        })
    }

    /// The volumes listed in the output of the volume query, one
    /// `VOL|label|name|total|free|system` line each; other lines are skipped.
    pub fn parse_volumes(output: &str) -> (r: Vec<DiskVolumeUsage>)
        ensures
            volume_views(r@) == volumes_of_lines(lines(output@)),
    {
        let text = chars_of(output);
        let all = lines_of(&text);
        let mut volumes: Vec<DiskVolumeUsage> = Vec::new();
        let mut k: usize = 0;
        while k < all.len()
            invariant
                k <= all.len(),
                seqs_of(all@) == lines(output@),
                volume_views(volumes@) == volumes_of_lines(seqs_of(all@).take(k as int)),
            decreases all.len() - k,
        {
            assert(seqs_of(all@).take(k + 1).drop_last() =~= seqs_of(all@).take(k as int));
            assert(seqs_of(all@).take(k + 1).last() == all@[k as int]@);
            let line = trim_chars(&all[k]);
            if line.len() > 0 {
                let ghost before = volume_views(volumes@);
                match Self::volume_from_line(&line) {
                    Some(v) => {
                        volumes.push(v);
                        assert(volume_views(volumes@) =~= before.push(volume_of_line(line@)->0));
                    },
                    None => {},
                }
            }
            k = k + 1;
        }
        assert(seqs_of(all@).take(all@.len() as int) =~= seqs_of(all@));
        volumes
    }

    fn listed_volume_of(disk: &MountedDisk) -> (r: Option<DiskVolumeUsage>)
        ensures
            match listed_volume(*disk) {
                Some(v) => r matches Some(d) && volume_view(d) == v,
                None => r is None,
            },
    {
        let mount = chars_of(disk.mount_point.as_str());
        let is_root = equals_str(&mount, "/");
        if disk.total_space == 0 || !(is_root || starts_with_str(&mount, "/Volumes/"))
            || starts_with_str(&mount, "/System/Volumes/") {
            return None;
        }
        let name_chars = chars_of(disk.name.as_str());
        let name = if name_chars.len() == 0 {
            disk.mount_point.clone()
        } else {
            disk.name.clone()
        };
        Some(DiskVolumeUsage {
            label: disk.mount_point.clone(),
            name,
            total_bytes: disk.total_space,
            free_bytes: disk.available_space,
            system_drive: is_root,
        })
    }

    fn volume_comes_before(a: &DiskVolumeUsage, b: &DiskVolumeUsage) -> (r: bool)
        ensures
            r == volume_before(volume_view(*a), volume_view(*b)),
    {
        if a.system_drive != b.system_drive {
            return a.system_drive;
        }
        let al = chars_of(a.label.as_str());
        let bl = chars_of(b.label.as_str());
        chars_less(&al, &bl)
    }

    /// The volumes shown on macOS for the mounted disks: the root first, then
    /// the others by mount point.
    pub fn macos_volumes(disks: &Vec<MountedDisk>) -> (r: Vec<DiskVolumeUsage>)
        ensures
            volume_views(r@) == volume_order(listed_volumes(disks@)),
    {
        let mut out: Vec<DiskVolumeUsage> = Vec::new();
        let mut k: usize = 0;
        while k < disks.len()
            invariant
                k <= disks.len(),
                volume_views(out@) == volume_order(listed_volumes(disks@.take(k as int))),
            decreases disks.len() - k,
        {
            assert(disks@.take(k + 1).drop_last() =~= disks@.take(k as int));
            match Self::listed_volume_of(&disks[k]) {
                Some(v) => {
                    let ghost sv = volume_views(out@);
                    let ghost x = volume_view(v);
                    let mut p: usize = 0;
                    while p < out.len() && !Self::volume_comes_before(&v, &out[p])
                        invariant
                            p <= out.len(),
                            sv == volume_views(out@),
                            x == volume_view(v),
                            volume_slot(sv, x, 0) == volume_slot(sv, x, p as int),
                        decreases out.len() - p,
                    {
                        p = p + 1;
                    }
                    out.insert(p, v);
                    assert(volume_views(out@) =~= sv.insert(p as int, x));
                    assert(listed_volumes(disks@.take(k + 1)) == listed_volumes(disks@.take(k as int)).push(x));
                    assert(listed_volumes(disks@.take(k + 1)).drop_last() =~= listed_volumes(disks@.take(k as int)));
                },
                None => {},
            }
            k = k + 1;
        }
        assert(disks@.take(disks@.len() as int) =~= disks@);
        out
    }
}

} // verus!
