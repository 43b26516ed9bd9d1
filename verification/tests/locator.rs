use std::collections::{BTreeMap, BTreeSet};

use v8_runner::platform::locator::{
    installation_root_for_executable, DirListing, EdtVersion, ExecutableProbe, Locator, LocatorError,
    PathFacts, PlatformResolutionPolicy, PlatformVersion, PlatformVersionRequirement, ResolutionSource,
    SearchFacts, UtilityLocation, UtilityType, UtilityVersion,
};

/// An in-memory file tree: directories and executable files, no links.
#[derive(Default)]
struct FakeFs {
    dirs: BTreeSet<String>,
    files: BTreeMap<String, bool>,
}

fn parent_of(p: &str) -> Option<&str> {
    let i = p.rfind('/')?;
    if i == 0 {
        if p.len() > 1 { Some("/") } else { None }
    } else {
        Some(&p[..i])
    }
}

impl FakeFs {
    fn mkdir_all(&mut self, dir: &str) {
        let mut cur = Some(dir);
        while let Some(d) = cur {
            self.dirs.insert(d.to_owned());
            cur = parent_of(d);
        }
    }

    fn touch_executable(&mut self, path: &str) -> String {
        if let Some(p) = parent_of(path) {
            self.mkdir_all(p);
        }
        self.files.insert(path.to_owned(), true);
        path.to_owned()
    }

    fn touch_versioned(&mut self, root: &str, version: &str, utility: UtilityType, bin: bool) -> String {
        let exe = utility.executable_name();
        if bin {
            self.touch_executable(&format!("{root}/{version}/bin/{exe}"))
        } else {
            self.touch_executable(&format!("{root}/{version}/{exe}"))
        }
    }

    fn holds(&self, p: &str) -> bool {
        self.dirs.contains(p) || self.files.contains_key(p)
    }

    fn nearest_existing(&self, p: &str) -> String {
        let mut cur = p;
        loop {
            if self.holds(cur) {
                return p.to_owned();
            }
            match parent_of(cur) {
                Some(up) => cur = up,
                None => return p.to_owned(),
            }
        }
    }

    fn describe(&self, p: &str) -> PathFacts {
        PathFacts {
            path: p.to_owned(),
            is_file: self.files.contains_key(p),
            is_dir: self.dirs.contains(p),
            canonical: self.nearest_existing(p),
        }
    }

    fn list(&self, root: &str) -> DirListing {
        let prefix = format!("{root}/");
        let dirs = self
            .dirs
            .iter()
            .filter(|d| d.starts_with(&prefix) && !d[prefix.len()..].contains('/'))
            .cloned()
            .collect();
        DirListing { root: root.to_owned(), dirs }
    }

    fn probe(&self, p: &str) -> ExecutableProbe {
        let resolved = if self.files.get(p).copied().unwrap_or(false) {
            let root = installation_root_for_executable(p);
            if self.dirs.contains(&root) { Some((p.to_owned(), root)) } else { None }
        } else {
            None
        };
        ExecutableProbe { path: p.to_owned(), resolved }
    }

    /// Everything a search of `utility` asks of the file system, gathered
    /// the way the program does it.
    fn facts(&self, locator: &Locator, utility: UtilityType) -> SearchFacts {
        let request = locator.search_request(utility);
        let mut facts = SearchFacts { paths: Vec::new(), listings: Vec::new(), probes: Vec::new() };
        if let Some(h) = &request.hint {
            facts.paths.push(self.describe(h));
        }
        for r in &request.roots {
            facts.listings.push(self.list(r));
        }
        let to_probe = locator.probe_paths(utility, &facts);
        facts.probes = to_probe.iter().map(|p| self.probe(p)).collect();
        facts
    }

    fn locate(&self, locator: &mut Locator, utility: UtilityType) -> Result<UtilityLocation, LocatorError> {
        let facts = self.facts(locator, utility);
        locator.locate(utility, &facts)
    }
}

const TMP: &str = "/tmp/locator-fixture";

fn strict_locator(hint: &str, version: Option<&str>, platform_roots: Vec<&str>, path_roots: Vec<&str>) -> Locator {
    Locator::with_search_roots(
        Some(hint.to_owned()),
        version.and_then(PlatformVersionRequirement::parse),
        PlatformResolutionPolicy::Strict,
        None,
        None,
        platform_roots.into_iter().map(str::to_owned).collect(),
        Vec::new(),
        path_roots.into_iter().map(str::to_owned).collect(),
    )
}

fn lenient_locator(hint: Option<&str>, version: Option<&str>, platform_roots: Vec<&str>, path_roots: Vec<&str>) -> Locator {
    Locator::with_search_roots(
        hint.map(str::to_owned),
        version.and_then(PlatformVersionRequirement::parse),
        PlatformResolutionPolicy::Lenient,
        None,
        None,
        platform_roots.into_iter().map(str::to_owned).collect(),
        Vec::new(),
        path_roots.into_iter().map(str::to_owned).collect(),
    )
}

fn requirement(s: &str) -> PlatformVersionRequirement {
    PlatformVersionRequirement::parse(s).expect("requirement")
}

fn version(s: &str) -> PlatformVersion {
    PlatformVersion::parse_strict(s).expect("version")
}

#[test]
fn strict_resolution_does_not_fallback_to_default_or_path_roots() {
    let mut fs = FakeFs::default();
    let explicit = format!("{TMP}/explicit");
    let default_root = format!("{TMP}/default");
    let path_root = format!("{TMP}/path");
    fs.mkdir_all(&explicit);
    fs.touch_versioned(&default_root, "8.3.25.1234", UtilityType::V8, true);
    fs.touch_executable(&format!("{path_root}/1cv8"));
    let mut locator = strict_locator(&explicit, None, vec![&default_root], vec![&path_root]);

    assert_eq!(
        fs.locate(&mut locator, UtilityType::V8),
        Err(LocatorError::StrictBoundaryNotFound { utility: UtilityType::V8, boundary: explicit })
    );
}

#[test]
fn strict_resolution_reports_exact_version_mismatch() {
    let mut fs = FakeFs::default();
    let root = format!("{TMP}/platform");
    let binary = fs.touch_versioned(&root, "8.3.25.9999", UtilityType::V8, true);
    let mut locator = strict_locator(&root, Some("8.3.25.1234"), vec![], vec![]);

    assert_eq!(
        fs.locate(&mut locator, UtilityType::V8),
        Err(LocatorError::VersionMismatch {
            utility: UtilityType::V8,
            path: binary,
            required: requirement("8.3.25.1234"),
            found: version("8.3.25.9999"),
        })
    );
}

#[test]
fn strict_resolution_reports_prefix_version_mismatch() {
    let mut fs = FakeFs::default();
    let root = format!("{TMP}/platform");
    let binary = fs.touch_versioned(&root, "8.3.24.9999", UtilityType::V8C, false);
    let mut locator = strict_locator(&root, Some("8.3.25"), vec![], vec![]);

    assert_eq!(
        fs.locate(&mut locator, UtilityType::V8C),
        Err(LocatorError::VersionMismatch {
            utility: UtilityType::V8C,
            path: binary,
            required: requirement("8.3.25"),
            found: version("8.3.24.9999"),
        })
    );
}

#[test]
fn strict_resolution_rejects_unknown_version_when_requirement_is_configured() {
    let mut fs = FakeFs::default();
    let root = format!("{TMP}/platform");
    let binary = fs.touch_executable(&format!("{root}/bin/ibcmd"));
    let mut locator = strict_locator(&root, Some("8.3"), vec![], vec![]);

    assert_eq!(
        fs.locate(&mut locator, UtilityType::Ibcmd),
        Err(LocatorError::UnknownVersion { utility: UtilityType::Ibcmd, path: binary, required: requirement("8.3") })
    );
}

#[test]
fn strict_resolution_does_not_infer_version_from_outer_ancestor() {
    let mut fs = FakeFs::default();
    let installation = format!("{TMP}/8.3.25.1234/unversioned-installation");
    let binary = fs.touch_executable(&format!("{installation}/bin/1cv8"));
    let mut locator = strict_locator(&installation, Some("8.3.25.1234"), vec![], vec![]);

    assert_eq!(
        fs.locate(&mut locator, UtilityType::V8),
        Err(LocatorError::UnknownVersion {
            utility: UtilityType::V8,
            path: binary,
            required: requirement("8.3.25.1234"),
        })
    );
}

#[test]
fn strict_resolution_selects_highest_version_and_reports_explicit_source() {
    let mut fs = FakeFs::default();
    let root = format!("{TMP}/platform");
    let older = fs.touch_versioned(&root, "8.3.25.1000", UtilityType::V8, false);
    let wanted = fs.touch_versioned(&root, "8.3.25.9999", UtilityType::V8, true);
    let mut locator = strict_locator(&root, Some("8.3.25"), vec![], vec![]);

    let location = fs.locate(&mut locator, UtilityType::V8).expect("locate");

    assert_ne!(location.path, older);
    assert_eq!(location.path, wanted);
    assert_eq!(location.source, ResolutionSource::Explicit);
    assert_eq!(location.installation_root, format!("{root}/8.3.25.9999"));
}

#[test]
fn platform_resolution_pins_siblings_to_first_installation() {
    let mut fs = FakeFs::default();
    let explicit_root = format!("{TMP}/explicit");
    let fallback_root = format!("{TMP}/fallback");
    let v8 = fs.touch_versioned(&explicit_root, "8.3.25.1234", UtilityType::V8, true);
    fs.touch_versioned(&fallback_root, "8.3.25.1234", UtilityType::V8C, true);
    let mut locator = strict_locator(&explicit_root, Some("8.3.25.1234"), vec![&fallback_root], vec![]);

    let first = fs.locate(&mut locator, UtilityType::V8).expect("first utility");

    assert_eq!(first.path, v8);
    assert_eq!(
        fs.locate(&mut locator, UtilityType::V8C),
        Err(LocatorError::MissingSibling { utility: UtilityType::V8C, installation_root: first.installation_root })
    );
}

#[test]
fn lenient_path_resolution_ignores_version_for_direct_hint() {
    let mut fs = FakeFs::default();
    let explicit_root = format!("{TMP}/explicit");
    let default_root = format!("{TMP}/default");
    let explicit = fs.touch_executable(&format!("{explicit_root}/bin/1cv8"));
    fs.touch_versioned(&default_root, "8.3.25.1234", UtilityType::V8, true);
    let mut locator = lenient_locator(Some(&explicit_root), Some("8.3.25.1234"), vec![&default_root], vec![]);

    let location = fs.locate(&mut locator, UtilityType::V8).expect("direct hint");

    assert_eq!(location.path, explicit);
    assert_eq!(location.version, None);
    assert_eq!(location.source, ResolutionSource::Explicit);
}

#[test]
fn lenient_path_resolution_ignores_version_for_versioned_hint() {
    let mut fs = FakeFs::default();
    let explicit_root = format!("{TMP}/explicit");
    let default_root = format!("{TMP}/default");
    let explicit = fs.touch_versioned(&explicit_root, "8.3.24.9999", UtilityType::V8, true);
    fs.touch_versioned(&default_root, "8.3.25.1234", UtilityType::V8, true);
    let mut locator = lenient_locator(Some(&explicit_root), Some("8.3.25.1234"), vec![&default_root], vec![]);

    let location = fs.locate(&mut locator, UtilityType::V8).expect("version ignored for explicit path");

    assert_eq!(location.path, explicit);
    assert_eq!(location.version, Some(UtilityVersion::Platform(version("8.3.24.9999"))));
    assert_eq!(location.source, ResolutionSource::Explicit);
}

#[test]
fn lenient_path_resolution_does_not_fallback_to_default_roots() {
    let mut fs = FakeFs::default();
    let explicit_root = format!("{TMP}/explicit");
    let default_root = format!("{TMP}/default");
    let v8 = fs.touch_versioned(&explicit_root, "8.3.25.1234", UtilityType::V8, true);
    fs.touch_versioned(&default_root, "8.3.25.1234", UtilityType::V8C, true);
    let mut locator = lenient_locator(Some(&explicit_root), Some("8.3.25.1234"), vec![&default_root], vec![]);

    let first = fs.locate(&mut locator, UtilityType::V8).expect("explicit v8");

    assert_eq!(first.path, v8);
    assert_eq!(first.source, ResolutionSource::Explicit);
    assert_eq!(fs.locate(&mut locator, UtilityType::V8C), Err(LocatorError::NotFound(UtilityType::V8C)));
}

#[test]
fn version_only_resolution_uses_default_roots_and_path_with_version_filter() {
    let mut fs = FakeFs::default();
    let default_root = format!("{TMP}/default");
    let path_root = format!("{TMP}/path-bin");
    fs.touch_versioned(&default_root, "8.3.24.9999", UtilityType::V8, true);
    let wanted = fs.touch_versioned(&default_root, "8.3.25.1234", UtilityType::V8, true);
    fs.touch_executable(&format!("{path_root}/1cv8"));
    let mut locator = lenient_locator(None, Some("8.3.25.1234"), vec![&default_root], vec![&path_root]);

    let location = fs.locate(&mut locator, UtilityType::V8).expect("versioned utility");

    assert_eq!(location.path, wanted);
    assert_eq!(location.source, ResolutionSource::DefaultRoot);
}

#[test]
fn strict_without_path_uses_default_roots_with_version_filter() {
    let mut fs = FakeFs::default();
    let default_root = format!("{TMP}/default");
    let wanted = fs.touch_versioned(&default_root, "8.3.25.1234", UtilityType::V8, true);
    let mut locator = Locator::with_search_roots(
        None,
        PlatformVersionRequirement::parse("8.3.25.1234"),
        PlatformResolutionPolicy::Strict,
        None,
        None,
        vec![default_root],
        vec![],
        vec![],
    );

    let location = fs.locate(&mut locator, UtilityType::V8).expect("versioned utility");

    assert_eq!(location.path, wanted);
    assert_eq!(location.source, ResolutionSource::DefaultRoot);
}

#[test]
fn lenient_resolution_without_hint_uses_injected_path_roots_and_reports_path_source() {
    let mut fs = FakeFs::default();
    let path_root = format!("{TMP}/path-bin");
    let binary = fs.touch_executable(&format!("{path_root}/ibcmd"));
    let mut locator = lenient_locator(None, None, vec![], vec![&path_root]);

    let location = fs.locate(&mut locator, UtilityType::Ibcmd).expect("PATH utility");

    assert_eq!(location.path, binary);
    assert_eq!(location.source, ResolutionSource::Path);
    assert_eq!(location.installation_root, path_root);
}

#[test]
fn explicit_file_hint_supports_sibling_binary_lookup() {
    let mut fs = FakeFs::default();
    let v8 = fs.touch_executable(&format!("{TMP}/1cv8"));
    let v8c = fs.touch_executable(&format!("{TMP}/1cv8c"));
    let mut locator = Locator::with_roots(Some(v8), None, None, None, vec![], vec![]);

    assert_eq!(fs.locate(&mut locator, UtilityType::V8C).expect("locate").path, v8c);
}

#[test]
fn explicit_directory_hint_checks_direct_and_bin_layouts() {
    let mut fs = FakeFs::default();
    let install_dir = format!("{TMP}/install");
    let binary = fs.touch_executable(&format!("{install_dir}/bin/1cv8"));
    let mut locator = Locator::with_roots(Some(install_dir), None, None, None, vec![], vec![]);

    assert_eq!(fs.locate(&mut locator, UtilityType::V8).expect("locate").path, binary);
}

#[test]
fn explicit_root_hint_searches_versioned_children() {
    let mut fs = FakeFs::default();
    let root = format!("{TMP}/platform-root");
    let thin = fs.touch_executable(&format!("{root}/8.3.25.1234/bin/1cv8c"));
    let mut locator = Locator::with_roots(Some(root), Some(requirement("8.3.25.1234")), None, None, vec![], vec![]);

    assert_eq!(fs.locate(&mut locator, UtilityType::V8C).expect("locate").path, thin);
}

#[test]
fn explicit_root_hint_searches_versioned_children_for_ibcmd() {
    let mut fs = FakeFs::default();
    let root = format!("{TMP}/platform-root");
    let ibcmd = fs.touch_executable(&format!("{root}/8.3.27.1789/bin/ibcmd"));
    let mut locator = Locator::with_roots(Some(root), Some(requirement("8.3.27.1789")), None, None, vec![], vec![]);

    assert_eq!(fs.locate(&mut locator, UtilityType::Ibcmd).expect("locate").path, ibcmd);
}

#[test]
fn platform_search_prefers_exact_version_match() {
    let mut fs = FakeFs::default();
    let root = format!("{TMP}/platform");
    let wanted = fs.touch_executable(&format!("{root}/8.3.25.1234/1cv8"));
    fs.touch_executable(&format!("{root}/8.3.24.9999/1cv8"));
    let mut locator = Locator::with_roots(None, Some(requirement("8.3.25.1234")), None, None, vec![root], vec![]);

    let location = fs.locate(&mut locator, UtilityType::V8).expect("locate");
    assert_eq!(location.path, wanted);
    assert!(matches!(location.version, Some(UtilityVersion::Platform(_))));
}

#[test]
fn platform_search_prefix_picks_highest_matching_build() {
    let mut fs = FakeFs::default();
    let root = format!("{TMP}/platform");
    let wanted = fs.touch_executable(&format!("{root}/8.3.25.9999/1cv8"));
    fs.touch_executable(&format!("{root}/8.3.25.1234/1cv8"));
    fs.touch_executable(&format!("{root}/8.3.24.9999/1cv8"));
    let mut locator = Locator::with_roots(None, Some(requirement("8.3.25")), None, None, vec![root], vec![]);

    let location = fs.locate(&mut locator, UtilityType::V8).expect("locate");
    assert_eq!(location.path, wanted);
    assert_eq!(location.version, Some(UtilityVersion::Platform(version("8.3.25.9999"))));
}

#[test]
fn platform_search_minor_prefix_picks_highest_matching_version() {
    let mut fs = FakeFs::default();
    let root = format!("{TMP}/platform");
    let wanted = fs.touch_executable(&format!("{root}/8.3.27.1789/1cv8"));
    fs.touch_executable(&format!("{root}/8.3.27.1000/1cv8"));
    fs.touch_executable(&format!("{root}/8.3.20.9999/1cv8"));
    fs.touch_executable(&format!("{root}/8.4.1.1/1cv8"));
    let mut locator = Locator::with_roots(None, Some(requirement("8.3")), None, None, vec![root], vec![]);

    let location = fs.locate(&mut locator, UtilityType::V8).expect("locate");
    assert_eq!(location.path, wanted);
    assert_eq!(location.version, Some(UtilityVersion::Platform(version("8.3.27.1789"))));
}

#[test]
fn platform_version_matrix_applies_to_all_platform_utilities() {
    for utility in [UtilityType::V8, UtilityType::V8C, UtilityType::Ibcmd] {
        let mut fs = FakeFs::default();
        let root = format!("{TMP}/platform-{}", utility.executable_name());
        let exact = fs.touch_versioned(&root, "8.3.27.1789", utility, true);
        fs.touch_versioned(&root, "8.3.27.1000", utility, false);
        let patch_best = fs.touch_versioned(&root, "8.3.20.9999", utility, false);
        fs.touch_versioned(&root, "8.3.20.1000", utility, true);
        fs.touch_versioned(&root, "8.4.1.1", utility, false);

        let mut exact_locator =
            Locator::with_roots(None, Some(requirement("8.3.27.1789")), None, None, vec![root.clone()], vec![]);
        assert_eq!(fs.locate(&mut exact_locator, utility).expect("exact").path, exact);

        let mut patch_locator =
            Locator::with_roots(None, Some(requirement("8.3.20")), None, None, vec![root.clone()], vec![]);
        assert_eq!(fs.locate(&mut patch_locator, utility).expect("patch").path, patch_best);

        let mut minor_locator = Locator::with_roots(None, Some(requirement("8.3")), None, None, vec![root], vec![]);
        assert_eq!(fs.locate(&mut minor_locator, utility).expect("minor").path, exact);
    }
}

fn edt_fixture(fs: &mut FakeFs, root: &str, dir: &str) -> String {
    fs.touch_executable(&format!("{root}/{dir}/1cedt/1cedtcli"))
}

#[test]
fn edt_search_picks_highest_lenient_version() {
    let mut fs = FakeFs::default();
    let root = format!("{TMP}/edt");
    let newer = edt_fixture(&mut fs, &root, "1c-edt-2025.1.0+656-x86_64");
    edt_fixture(&mut fs, &root, "1c-edt-2024.2.0+100-x86_64");
    let mut locator = Locator::with_roots(None, None, None, None, vec![], vec![root]);

    assert_eq!(fs.locate(&mut locator, UtilityType::EdtCli).expect("locate").path, newer);
}

#[test]
fn edt_search_accepts_version_prefix_hint() {
    let mut fs = FakeFs::default();
    let root = format!("{TMP}/edt");
    let wanted = edt_fixture(&mut fs, &root, "1c-edt-2025.2.3+30-x86_64");
    edt_fixture(&mut fs, &root, "1c-edt-2025.1.9+100-x86_64");
    let mut locator = Locator::with_roots(
        None,
        None,
        None,
        Some(EdtVersion::parse_lenient("1c-edt-2025.2.3").expect("version")),
        vec![],
        vec![root],
    );

    assert_eq!(fs.locate(&mut locator, UtilityType::EdtCli).expect("locate").path, wanted);
}

#[test]
fn edt_search_accepts_plain_numeric_version_hint() {
    let mut fs = FakeFs::default();
    let root = format!("{TMP}/edt");
    let wanted = edt_fixture(&mut fs, &root, "1c-edt-2025.2.3+30-x86_64");
    edt_fixture(&mut fs, &root, "1c-edt-2025.1.9+100-x86_64");
    let mut locator = Locator::with_roots(
        None,
        None,
        None,
        Some(EdtVersion::parse_lenient("2025.2.3").expect("version")),
        vec![],
        vec![root],
    );

    assert_eq!(fs.locate(&mut locator, UtilityType::EdtCli).expect("locate").path, wanted);
}

#[test]
fn cached_location_is_revalidated_and_relocated() {
    let mut fs = FakeFs::default();
    let root = format!("{TMP}/platform");
    let first = fs.touch_executable(&format!("{root}/8.3.25.1234/1cv8"));
    let mut locator = Locator::with_roots(None, Some(requirement("8.3.25.1234")), None, None, vec![root.clone()], vec![]);
    assert_eq!(fs.locate(&mut locator, UtilityType::V8).expect("first").path, first);

    fs.files.remove(&first);
    let second = fs.touch_executable(&format!("{root}/8.3.25.1234/bin/1cv8"));
    assert_eq!(fs.locate(&mut locator, UtilityType::V8).expect("second").path, second);
}
