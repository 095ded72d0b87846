use devsecrets::workspace::{CargoWorkspace, PackageInfo};

fn sample() -> CargoWorkspace {
    CargoWorkspace::new(
        "/ws/member/Cargo.toml".to_string(),
        vec![
            PackageInfo {
                name: "alpha".to_string(),
                manifest_path: "/ws/alpha/Cargo.toml".to_string(),
            },
            PackageInfo {
                name: "member".to_string(),
                manifest_path: "/ws/member/Cargo.toml".to_string(),
            },
            PackageInfo {
                name: "alpha".to_string(),
                manifest_path: "/ws/alpha2/Cargo.toml".to_string(),
            },
        ],
    )
}

#[test]
fn find_package_returns_the_first_match() {
    let ws = sample();
    let p = ws.find_package("alpha").unwrap();
    assert_eq!(p.manifest_path, "/ws/alpha/Cargo.toml");
}

#[test]
fn find_package_unknown_name_is_none() {
    let ws = sample();
    assert!(ws.find_package("gamma").is_none());
}

#[test]
fn find_default_package_matches_the_workspace_manifest() {
    let ws = sample();
    let p = ws.find_default_package().unwrap();
    assert_eq!(p.name, "member");
}

#[test]
fn find_default_package_absent_is_none() {
    let ws = CargoWorkspace::new("/elsewhere/Cargo.toml".to_string(), vec![]);
    assert!(ws.find_default_package().is_none());
}
