//! llama.cpp releases on GitHub: release and asset records, classification
//! of asset file names into builds, and the flat list of downloadable builds.

use vstd::prelude::*;

use crate::text::{
    ascii_lower, chars_eq, concat, contains, contains_seq, extend_chars, from_chars, has_prefix,
    has_suffix, replace_all, replaced, starts_with, ends_with, to_ascii_lowercase, to_chars,
    trim_end_matches, trimmed_end,
};

verus! {

/// A file attached to a release.
#[derive(Clone, Debug, PartialEq)]
pub struct Asset {
    pub name: String,
    pub browser_download_url: String,
    pub size: u64,
}

/// A llama.cpp release: its tag (such as `b10635`) and its files.
#[derive(Clone, Debug, PartialEq)]
pub struct Release {
    pub tag: String,
    pub published_at: String,
    pub assets: Vec<Asset>,
}

/// Operating system a build targets.
#[derive(Clone, Copy, Debug, PartialEq, Eq)]
pub enum TargetOs {
    Windows,
    Linux,
}

/// Processor architecture a build targets.
#[derive(Clone, Copy, Debug, PartialEq, Eq)]
pub enum Arch {
    X64,
    Arm64,
}

impl TargetOs {
    /// The system named by `os_name`, as Rust names the target system
    /// (`std::env::consts::OS`): `windows` or `linux`; `None` for any other.
    pub fn current(os_name: &str) -> (r: Option<Self>)
        ensures
            r == (if os_name@ == "windows"@ {
                Some(TargetOs::Windows)
            } else if os_name@ == "linux"@ {
                Some(TargetOs::Linux)
            } else {
                None
            }),
    {
        let name = to_chars(os_name);
        if chars_eq(&name, &to_chars("windows")) {
            Some(TargetOs::Windows)
        } else if chars_eq(&name, &to_chars("linux")) {
            Some(TargetOs::Linux)
        } else {
            None
        }
    }
}

impl Arch {
    /// The architecture named by `arch_name`, as Rust names the target
    /// architecture (`std::env::consts::ARCH`): `x86_64` or `aarch64`;
    /// `None` for any other.
    pub fn current(arch_name: &str) -> (r: Option<Self>)
        ensures
            r == (if arch_name@ == "x86_64"@ {
                Some(Arch::X64)
            } else if arch_name@ == "aarch64"@ {
                Some(Arch::Arm64)
            } else {
                None
            }),
    {
        let name = to_chars(arch_name);
        if chars_eq(&name, &to_chars("x86_64")) {
            Some(Arch::X64)
        } else if chars_eq(&name, &to_chars("aarch64")) {
            Some(Arch::Arm64)
        } else {
            None
        }
    }
}

/// Compute backend inside a build.
#[derive(Clone, Copy, Debug, PartialEq, Eq)]
pub enum Backend {
    Cpu,
    Vulkan,
    Cuda,
    Rocm,
    Sycl,
    Openvino,
    Opencl,
    /// A backend that was not recognised.
    Other,
}

/// What an asset file name says about the build inside it.
#[derive(Clone, Copy, Debug, PartialEq, Eq)]
pub struct BuildKind {
    /// `None`: a platform this application does not serve (macOS, Android).
    pub os: Option<TargetOs>,
    /// `None`: the architecture was not recognised.
    pub arch: Option<Arch>,
    pub backend: Backend,
}

/// A downloadable build: an asset and its classification.
#[derive(Clone, Debug, PartialEq)]
pub struct BuildAsset {
    pub asset: Asset,
    pub tag: String,
    pub os: Option<TargetOs>,
    pub arch: Option<Arch>,
    pub backend: Backend,
    /// For Windows CUDA builds: the separate `cudart-*` archive with the
    /// runtime, unpacked into the same directory.
    pub runtime_asset: Option<Asset>,
}

// ---------------------------------------------------------------------------
// Models
// ---------------------------------------------------------------------------

pub struct AssetModel {
    pub name: Seq<char>,
    pub url: Seq<char>,
    pub size: u64,
}

pub struct ReleaseModel {
    pub tag: Seq<char>,
    pub published_at: Seq<char>,
    pub assets: Seq<AssetModel>,
}

pub struct BuildAssetModel {
    pub asset: AssetModel,
    pub tag: Seq<char>,
    pub os: Option<TargetOs>,
    pub arch: Option<Arch>,
    pub backend: Backend,
    pub runtime_asset: Option<AssetModel>,
}

impl View for Asset {
    type V = AssetModel;

    open spec fn view(&self) -> AssetModel {
        AssetModel { name: self.name@, url: self.browser_download_url@, size: self.size }
    }
}

impl View for Release {
    type V = ReleaseModel;

    open spec fn view(&self) -> ReleaseModel {
        ReleaseModel {
            tag: self.tag@,
            published_at: self.published_at@,
            assets: self.assets@.map_values(|a: Asset| a@),
        }
    }
}

pub open spec fn opt_asset_view(o: Option<Asset>) -> Option<AssetModel> {
    match o {
        Some(a) => Some(a@),
        None => None,
    }
}

impl View for BuildAsset {
    type V = BuildAssetModel;

    open spec fn view(&self) -> BuildAssetModel {
        BuildAssetModel {
            asset: self.asset@,
            tag: self.tag@,
            os: self.os,
            arch: self.arch,
            backend: self.backend,
            runtime_asset: opt_asset_view(self.runtime_asset),
        }
    }
}

// ---------------------------------------------------------------------------
// Specifications
// ---------------------------------------------------------------------------

/// Classification of an asset name (release naming of 2025 and later, such
/// as `llama-b10688-bin-ubuntu-vulkan-x64.tar.gz`). On the lower-cased name:
/// it must start with `llama-`, contain `-bin-`, not mention `cudart` and end
/// in `.zip` or `.tar.gz`; `-win-` means Windows, else `ubuntu` means Linux;
/// `-arm64` means Arm64, else `x64` means X64; the first backend word found
/// in the order vulkan, cuda, rocm, sycl, openvino, opencl decides the
/// backend, CPU if none.
pub open spec fn classify_spec(name: Seq<char>) -> Option<BuildKind> {
    let n = ascii_lower(name);
    if !has_prefix(n, "llama-"@) || !contains_seq(n, "-bin-"@) || contains_seq(n, "cudart"@) {
        None
    } else if !has_suffix(n, ".zip"@) && !has_suffix(n, ".tar.gz"@) {
        None
    } else {
        Some(
            BuildKind {
                os: if contains_seq(n, "-win-"@) {
                    Some(TargetOs::Windows)
                } else if contains_seq(n, "ubuntu"@) {
                    Some(TargetOs::Linux)
                } else {
                    None
                },
                arch: if contains_seq(n, "-arm64"@) {
                    Some(Arch::Arm64)
                } else if contains_seq(n, "x64"@) {
                    Some(Arch::X64)
                } else {
                    None
                },
                backend: backend_of(n),
            },
        )
    }
}

/// The backend named in a lower-case asset name.
pub open spec fn backend_of(n: Seq<char>) -> Backend {
    if contains_seq(n, "vulkan"@) {
        Backend::Vulkan
    } else if contains_seq(n, "cuda"@) {
        Backend::Cuda
    } else if contains_seq(n, "rocm"@) {
        Backend::Rocm
    } else if contains_seq(n, "sycl"@) {
        Backend::Sycl
    } else if contains_seq(n, "openvino"@) {
        Backend::Openvino
    } else if contains_seq(n, "opencl"@) {
        Backend::Opencl
    } else {
        Backend::Cpu
    }
}

/// Directory name of a build: the asset name without trailing `.zip` and
/// then `.tar.gz`, with every `-bin-` replaced by `-`.
pub open spec fn dir_name_spec(asset_name: Seq<char>) -> Seq<char> {
    replaced(trimmed_end(trimmed_end(asset_name, ".zip"@), ".tar.gz"@), "-bin-"@, "-"@)
}

/// The first asset with the given name.
pub open spec fn find_asset(assets: Seq<AssetModel>, name: Seq<char>) -> Option<AssetModel>
    decreases assets.len(),
{
    if assets.len() == 0 {
        None
    } else if assets[0].name == name {
        Some(assets[0])
    } else {
        find_asset(assets.skip(1), name)
    }
}

/// Name of the CUDA runtime archive that goes with a CUDA build of release
/// `tag`: `cudart-` followed by the build's name with `-<tag>-` replaced by
/// `-` (the runtime archive carries no version tag).
pub open spec fn runtime_name(asset_name: Seq<char>, tag: Seq<char>) -> Seq<char> {
    "cudart-"@ + replaced(asset_name, seq!['-'] + tag + seq!['-'], seq!['-'])
}

/// The build record for asset `a` of release `r`.
pub open spec fn build_of(r: ReleaseModel, a: AssetModel, k: BuildKind) -> BuildAssetModel {
    BuildAssetModel {
        asset: a,
        tag: r.tag,
        os: k.os,
        arch: k.arch,
        backend: k.backend,
        runtime_asset: if k.backend == Backend::Cuda {
            find_asset(r.assets, runtime_name(a.name, r.tag))
        } else {
            None
        },
    }
}

/// The builds among `assets` (in order) for release `r`.
pub open spec fn builds_in(r: ReleaseModel, assets: Seq<AssetModel>) -> Seq<BuildAssetModel>
    decreases assets.len(),
{
    if assets.len() == 0 {
        seq![]
    } else {
        builds_in(r, assets.drop_last()) + match classify_spec(assets.last().name) {
            Some(k) => seq![build_of(r, assets.last(), k)],
            None => seq![],
        }
    }
}

/// All builds of all releases, release by release, asset by asset.
pub open spec fn all_builds(rs: Seq<ReleaseModel>) -> Seq<BuildAssetModel>
    decreases rs.len(),
{
    if rs.len() == 0 {
        seq![]
    } else {
        all_builds(rs.drop_last()) + builds_in(rs.last(), rs.last().assets)
    }
}

// ---------------------------------------------------------------------------
// Executable functions
// ---------------------------------------------------------------------------

pub open spec fn backend_label_spec(b: Backend) -> Seq<char> {
    match b {
        Backend::Cpu => "CPU"@,
        Backend::Vulkan => "Vulkan"@,
        Backend::Cuda => "CUDA"@,
        Backend::Rocm => "ROCm"@,
        Backend::Sycl => "SYCL"@,
        Backend::Openvino => "OpenVINO"@,
        Backend::Opencl => "OpenCL"@,
        Backend::Other => "Другое"@,
    }
}

impl Backend {
    /// Display name of the backend.
    pub fn label(self) -> (r: &'static str)
        ensures
            r@ == backend_label_spec(self),
    {
        match self {
            Backend::Cpu => "CPU",
            Backend::Vulkan => "Vulkan",
            Backend::Cuda => "CUDA",
            Backend::Rocm => "ROCm",
            Backend::Sycl => "SYCL",
            Backend::Openvino => "OpenVINO",
            Backend::Opencl => "OpenCL",
            Backend::Other => "Другое",
        }
    }
}

/// A copy of an asset record.
pub fn copy_asset(a: &Asset) -> (r: Asset)
    ensures
        r@ == a@,
{
    Asset { name: a.name.clone(), browser_download_url: a.browser_download_url.clone(), size: a.size }
}

/// A copy of a release record.
pub fn copy_release(r: &Release) -> (c: Release)
    ensures
        c@ == r@,
{
    let mut assets: Vec<Asset> = Vec::new();
    let mut i: usize = 0;
    while i < r.assets.len()
        invariant
            i <= r.assets@.len(),
            assets@.len() == i,
            forall|k: int| 0 <= k < i ==> (#[trigger] assets@[k])@ == r.assets@[k]@,
        decreases r.assets@.len() - i,
    {
        assets.push(copy_asset(&r.assets[i]));
        i += 1;
    }
    assert(assets@.map_values(|a: Asset| a@) =~= r.assets@.map_values(|a: Asset| a@));
    Release { tag: r.tag.clone(), published_at: r.published_at.clone(), assets }
}

impl BuildAsset {
    /// Name of the directory for this build in the local library.
    pub fn dir_name(&self) -> (r: String)
        ensures
            r@ == dir_name_spec(self.asset.name@),
    {
        let name = to_chars(self.asset.name.as_str());
        proof {
            reveal_strlit(".zip");
            reveal_strlit(".tar.gz");
            reveal_strlit("-bin-");
        }
        let a = trim_end_matches(&name, &to_chars(".zip"));
        let b = trim_end_matches(&a, &to_chars(".tar.gz"));
        let c = replace_all(&b, &to_chars("-bin-"), &to_chars("-"));
        from_chars(&c)
    }
}

/// Classifies an asset by its file name; `None` for files that are not
/// llama-server builds (web UI, xcframework, cudart runtime, sources).
pub fn classify_asset(name: &str) -> (r: Option<BuildKind>)
    ensures
        r == classify_spec(name@),
{
    let n = to_ascii_lowercase(&to_chars(name));
    if !starts_with(&n, &to_chars("llama-")) || !contains(&n, &to_chars("-bin-")) || contains(
        &n,
        &to_chars("cudart"),
    ) {
        return None;
    }
    if !ends_with(&n, &to_chars(".zip")) && !ends_with(&n, &to_chars(".tar.gz")) {
        return None;
    }
    let os = if contains(&n, &to_chars("-win-")) {
        Some(TargetOs::Windows)
    } else if contains(&n, &to_chars("ubuntu")) {
        Some(TargetOs::Linux)
    } else {
        None
    };
    let arch = if contains(&n, &to_chars("-arm64")) {
        Some(Arch::Arm64)
    } else if contains(&n, &to_chars("x64")) {
        Some(Arch::X64)
    } else {
        None
    };
    let backend = if contains(&n, &to_chars("vulkan")) {
        Backend::Vulkan
    } else if contains(&n, &to_chars("cuda")) {
        Backend::Cuda
    } else if contains(&n, &to_chars("rocm")) {
        Backend::Rocm
    } else if contains(&n, &to_chars("sycl")) {
        Backend::Sycl
    } else if contains(&n, &to_chars("openvino")) {
        Backend::Openvino
    } else if contains(&n, &to_chars("opencl")) {
        Backend::Opencl
    } else {
        Backend::Cpu
    };
    Some(BuildKind { os, arch, backend })
}

/// The first asset of `assets` named `name`, copied.
fn find_asset_named(assets: &Vec<Asset>, name: &[char]) -> (r: Option<Asset>)
    ensures
        opt_asset_view(r) == find_asset(assets@.map_values(|a: Asset| a@), name@),
{
    let ghost all = assets@.map_values(|a: Asset| a@);
    let mut i: usize = 0;
    assert(all.skip(0) =~= all);
    while i < assets.len()
        invariant
            i <= assets@.len(),
            all == assets@.map_values(|a: Asset| a@),
            find_asset(all, name@) == find_asset(all.skip(i as int), name@),
        decreases assets@.len() - i,
    {
        assert(all.skip(i as int)[0] == assets@[i as int]@);
        assert(all.skip(i as int).skip(1) =~= all.skip(i + 1));
        if chars_eq(&to_chars(assets[i].name.as_str()), name) {
            return Some(copy_asset(&assets[i]));
        }
        i += 1;
    }
    None
}

/// The builds of one release, appended to `out`.
fn push_release_builds(release: &Release, out: &mut Vec<BuildAsset>)
    ensures
        final(out)@.map_values(|b: BuildAsset| b@) == old(out)@.map_values(|b: BuildAsset| b@)
            + builds_in(release@, release@.assets),
{
    let ghost r = release@;
    let ghost start = old(out)@.map_values(|b: BuildAsset| b@);
    let mut j: usize = 0;
    assert(r.assets.take(0) =~= Seq::<AssetModel>::empty());
    assert(out@.map_values(|b: BuildAsset| b@) =~= start + Seq::<BuildAssetModel>::empty());
    while j < release.assets.len()
        invariant
            j <= release.assets@.len(),
            r == release@,
            out@.map_values(|b: BuildAsset| b@) == start + builds_in(r, r.assets.take(j as int)),
        decreases release.assets@.len() - j,
    {
        let asset = &release.assets[j];
        let ghost before = out@.map_values(|b: BuildAsset| b@);
        assert(r.assets.take(j + 1).drop_last() =~= r.assets.take(j as int));
        assert(r.assets.take(j + 1).last() == asset@);
        match classify_asset(asset.name.as_str()) {
            Some(kind) => {
                let runtime_asset = match kind.backend {
                    Backend::Cuda => {
                        let tag = to_chars(release.tag.as_str());
                        let mut pattern: Vec<char> = Vec::new();
                        pattern.push('-');
                        extend_chars(&mut pattern, &tag);
                        pattern.push('-');
                        let mut dash: Vec<char> = Vec::new();
                        dash.push('-');
                        let base = replace_all(&to_chars(asset.name.as_str()), &pattern, &dash);
                        let wanted = concat(&to_chars("cudart-"), &base);
                        assert(pattern@ =~= seq!['-'] + r.tag + seq!['-']);
                        assert(dash@ =~= seq!['-']);
                        find_asset_named(&release.assets, &wanted)
                    },
                    _ => None,
                };
                let build = BuildAsset {
                    asset: copy_asset(asset),
                    tag: release.tag.clone(),
                    os: kind.os,
                    arch: kind.arch,
                    backend: kind.backend,
                    runtime_asset,
                };
                assert(build@ == build_of(r, asset@, kind));
                out.push(build);
                assert(out@.map_values(|b: BuildAsset| b@) =~= before.push(build@));
            },
            None => {},
        }
        j += 1;
        assert(out@.map_values(|b: BuildAsset| b@) =~= start + builds_in(r, r.assets.take(j as int)));
    }
    assert(r.assets.take(release.assets@.len() as int) =~= r.assets);
}

/// The flat list of downloadable builds of all releases, in order; a CUDA
/// build comes with the matching runtime archive of its release.
pub fn buildable_assets(releases: &[Release]) -> (r: Vec<BuildAsset>)
    ensures
        r@.map_values(|b: BuildAsset| b@) == all_builds(releases@.map_values(|x: Release| x@)),
{
    let ghost rs = releases@.map_values(|x: Release| x@);
    let mut out: Vec<BuildAsset> = Vec::new();
    let mut i: usize = 0;
    assert(out@.map_values(|b: BuildAsset| b@) =~= all_builds(rs.take(0)));
    while i < releases.len()
        invariant
            i <= releases@.len(),
            rs == releases@.map_values(|x: Release| x@),
            out@.map_values(|b: BuildAsset| b@) == all_builds(rs.take(i as int)),
        decreases releases@.len() - i,
    {
        assert(rs.take(i + 1).drop_last() =~= rs.take(i as int));
        assert(rs.take(i + 1).last() == releases@[i as int]@);
        push_release_builds(&releases[i], &mut out);
        i += 1;
    }
    assert(rs.take(releases@.len() as int) =~= rs);
    out
}

// ---------------------------------------------------------------------------
// Builds for this machine
// ---------------------------------------------------------------------------

/// A build runs on this machine and matches the backend filter: its system
/// is known and is this machine's, its architecture is unknown or this
/// machine's, and when a backend is chosen it is that backend.
pub open spec fn fits_platform(
    b: BuildAssetModel,
    os: Option<TargetOs>,
    arch: Option<Arch>,
    backend: Option<Backend>,
) -> bool {
    &&& b.os is Some && b.os == os
    &&& b.arch is None || b.arch == arch
    &&& backend matches Some(x) ==> b.backend == x
}

/// The builds that fit, in the order given.
pub open spec fn platform_builds(
    bs: Seq<BuildAssetModel>,
    os: Option<TargetOs>,
    arch: Option<Arch>,
    backend: Option<Backend>,
) -> Seq<BuildAssetModel>
    decreases bs.len(),
{
    if bs.len() == 0 {
        seq![]
    } else {
        let before = platform_builds(bs.drop_last(), os, arch, backend);
        if fits_platform(bs.last(), os, arch, backend) {
            before.push(bs.last())
        } else {
            before
        }
    }
}

fn same_os(a: Option<TargetOs>, b: Option<TargetOs>) -> (r: bool)
    ensures
        r == (a == b),
{
    match (a, b) {
        (None, None) => true,
        (Some(TargetOs::Windows), Some(TargetOs::Windows)) => true,
        (Some(TargetOs::Linux), Some(TargetOs::Linux)) => true,
        _ => false,
    }
}

fn same_arch(a: Option<Arch>, b: Option<Arch>) -> (r: bool)
    ensures
        r == (a == b),
{
    match (a, b) {
        (None, None) => true,
        (Some(Arch::X64), Some(Arch::X64)) => true,
        (Some(Arch::Arm64), Some(Arch::Arm64)) => true,
        _ => false,
    }
}

fn same_backend(a: Backend, b: Backend) -> (r: bool)
    ensures
        r == (a == b),
{
    match (a, b) {
        (Backend::Cpu, Backend::Cpu) => true,
        (Backend::Vulkan, Backend::Vulkan) => true,
        (Backend::Cuda, Backend::Cuda) => true,
        (Backend::Rocm, Backend::Rocm) => true,
        (Backend::Sycl, Backend::Sycl) => true,
        (Backend::Openvino, Backend::Openvino) => true,
        (Backend::Opencl, Backend::Opencl) => true,
        (Backend::Other, Backend::Other) => true,
        _ => false,
    }
}

fn copy_build(b: &BuildAsset) -> (r: BuildAsset)
    ensures
        r@ == b@,
{
    BuildAsset {
        asset: copy_asset(&b.asset),
        tag: b.tag.clone(),
        os: b.os,
        arch: b.arch,
        backend: b.backend,
        runtime_asset: match &b.runtime_asset {
            Some(a) => Some(copy_asset(a)),
            None => None,
        },
    }
}

/// The builds offered on this machine (see [`fits_platform`]): `os` and
/// `arch` are the machine's, `backend` the backend chosen to show, if any.
pub fn builds_for_platform(
    builds: &[BuildAsset],
    os: Option<TargetOs>,
    arch: Option<Arch>,
    backend: Option<Backend>,
) -> (r: Vec<BuildAsset>)
    ensures
        r@.map_values(|b: BuildAsset| b@) == platform_builds(
            builds@.map_values(|b: BuildAsset| b@),
            os,
            arch,
            backend,
        ),
{
    let ghost bs = builds@.map_values(|b: BuildAsset| b@);
    let mut out: Vec<BuildAsset> = Vec::new();
    let mut i: usize = 0;
    assert(bs.take(0) =~= Seq::<BuildAssetModel>::empty());
    assert(out@.map_values(|b: BuildAsset| b@) =~= platform_builds(bs.take(0), os, arch, backend));
    while i < builds.len()
        invariant
            i <= builds@.len(),
            bs == builds@.map_values(|b: BuildAsset| b@),
            out@.map_values(|b: BuildAsset| b@) == platform_builds(bs.take(i as int), os, arch, backend),
        decreases builds@.len() - i,
    {
        assert(bs.take(i + 1).drop_last() =~= bs.take(i as int));
        assert(bs.take(i + 1).last() == builds@[i as int]@);
        let b = &builds[i];
        let os_ok = b.os.is_some() && same_os(b.os, os);
        let arch_ok = b.arch.is_none() || same_arch(b.arch, arch);
        let backend_ok = match backend {
            Some(x) => same_backend(b.backend, x),
            None => true,
        };
        if os_ok && arch_ok && backend_ok {
            let ghost before = out@.map_values(|b: BuildAsset| b@);
            let c = copy_build(b);
            out.push(c);
            assert(out@.map_values(|b: BuildAsset| b@) =~= before.push(b@));
        }
        i += 1;
    }
    assert(bs.take(builds@.len() as int) =~= bs);
    out
}

} // verus!
