use std::collections::HashMap;

use opengamecore::dxvk::{
    dll_names, env_overrides, hud_env, install_plan, install_probes, installed_dll_paths,
    is_installed, uninstall_plan, uninstall_probes, FileOp,
};

#[test]
fn env_overrides_sets_dll_overrides() {
    let env = env_overrides();
    let overrides = env.get("WINEDLLOVERRIDES").unwrap();
    assert!(overrides.contains("d3d11=n"));
    assert!(overrides.contains("dxgi=n"));
}

#[test]
fn env_overrides_exact() {
    let env = env_overrides();
    assert_eq!(env.get("WINEDLLOVERRIDES").unwrap(), "d3d9=n;d3d10core=n;d3d11=n;dxgi=n");
    assert_eq!(env.entries().len(), 1);
}

#[test]
fn hud_env_only_when_enabled() {
    assert_eq!(hud_env(true).get("DXVK_HUD").unwrap(), "fps,devinfo");
    assert!(hud_env(false).get("DXVK_HUD").is_none());
}

/// A file system in memory: files by path with their contents, and directories.
struct Fs {
    files: HashMap<String, String>,
    dirs: Vec<String>,
}

impl Fs {
    fn has_path(&self, p: &str) -> bool {
        self.files.contains_key(p) || self.dirs.iter().any(|d| d == p)
    }
    fn existing(&self, probes: Vec<String>) -> Vec<String> {
        probes.into_iter().filter(|p| self.has_path(p)).collect()
    }
    fn run(&mut self, ops: Vec<FileOp>) {
        for op in ops {
            match op {
                FileOp::CreateDirAll(d) => self.dirs.push(d),
                FileOp::Rename(a, b) => {
                    let c = self.files.remove(&a).expect("rename source exists");
                    self.files.insert(b, c);
                }
                FileOp::Copy(a, b) => {
                    let c = self.files.get(&a).expect("copy source exists").clone();
                    self.files.insert(b, c);
                }
            }
        }
    }
    fn installed(&self, bottle: &str) -> bool {
        let present: Vec<bool> = installed_dll_paths(bottle).iter().map(|p| self.has_path(p)).collect();
        is_installed(&present)
    }
    fn install(&mut self, dxvk: &str, bottle: &str) {
        let existing = self.existing(install_probes(dxvk, bottle));
        let ops = install_plan(dxvk, bottle, &existing);
        self.run(ops);
    }
    fn uninstall(&mut self, bottle: &str) {
        let existing = self.existing(uninstall_probes(bottle));
        let ops = uninstall_plan(bottle, &existing);
        self.run(ops);
    }
}

fn fake_bottle_and_dxvk() -> Fs {
    let mut fs = Fs { files: HashMap::new(), dirs: vec!["/t/bottle/drive_c/windows/system32".into(), "/t/dxvk/x64".into()] };
    for dll in dll_names() {
        fs.files.insert(format!("/t/dxvk/x64/{}.dll", dll), "fake dxvk".into());
    }
    fs
}

#[test]
fn not_installed_in_fresh_bottle() {
    let fs = Fs { files: HashMap::new(), dirs: vec!["/t/bottle/drive_c/windows/system32".into()] };
    assert!(!fs.installed("/t/bottle"));
}

#[test]
fn install_and_check() {
    let mut fs = fake_bottle_and_dxvk();
    fs.install("/t/dxvk", "/t/bottle");
    assert!(fs.installed("/t/bottle"));
}

#[test]
fn install_backs_up_originals() {
    let mut fs = fake_bottle_and_dxvk();
    for dll in dll_names() {
        fs.files.insert(format!("/t/bottle/drive_c/windows/system32/{}.dll", dll), "original".into());
    }
    fs.install("/t/dxvk", "/t/bottle");
    for dll in dll_names() {
        let backup = format!("/t/bottle/drive_c/windows/system32/{}.dll.orig", dll);
        assert_eq!(fs.files.get(&backup).unwrap(), "original");
        let dest = format!("/t/bottle/drive_c/windows/system32/{}.dll", dll);
        assert_eq!(fs.files.get(&dest).unwrap(), "fake dxvk");
    }
}

#[test]
fn uninstall_restores_originals() {
    let mut fs = fake_bottle_and_dxvk();
    for dll in dll_names() {
        fs.files.insert(format!("/t/bottle/drive_c/windows/system32/{}.dll", dll), "original".into());
    }
    fs.install("/t/dxvk", "/t/bottle");
    fs.uninstall("/t/bottle");
    for dll in dll_names() {
        let content = fs.files.get(&format!("/t/bottle/drive_c/windows/system32/{}.dll", dll)).unwrap();
        assert_eq!(content, "original");
    }
}

#[test]
fn is_installed_false_with_partial_dlls() {
    let mut fs = Fs { files: HashMap::new(), dirs: vec![] };
    fs.files.insert("/t/b/drive_c/windows/system32/d3d9.dll".into(), "fake".into());
    fs.files.insert("/t/b/drive_c/windows/system32/d3d11.dll".into(), "fake".into());
    assert!(!fs.installed("/t/b"));
}

#[test]
fn uninstall_without_backups_is_safe_noop() {
    let mut fs = Fs { files: HashMap::new(), dirs: vec!["/t/b/drive_c/windows/system32".into()] };
    for dll in ["d3d9", "d3d10core", "d3d11", "dxgi"] {
        fs.files.insert(format!("/t/b/drive_c/windows/system32/{}.dll", dll), "original".into());
    }
    let existing = fs.existing(uninstall_probes("/t/b"));
    assert!(uninstall_plan("/t/b", &existing).is_empty());
    fs.uninstall("/t/b");
    for dll in ["d3d9", "d3d10core", "d3d11", "dxgi"] {
        assert_eq!(fs.files.get(&format!("/t/b/drive_c/windows/system32/{}.dll", dll)).unwrap(), "original");
    }
}

#[test]
fn install_keeps_existing_backup() {
    let mut fs = fake_bottle_and_dxvk();
    fs.files.insert("/t/bottle/drive_c/windows/system32/d3d9.dll".into(), "older dxvk".into());
    fs.files.insert("/t/bottle/drive_c/windows/system32/d3d9.dll.orig".into(), "original".into());
    fs.install("/t/dxvk", "/t/bottle");
    assert_eq!(fs.files.get("/t/bottle/drive_c/windows/system32/d3d9.dll.orig").unwrap(), "original");
    assert_eq!(fs.files.get("/t/bottle/drive_c/windows/system32/d3d9.dll").unwrap(), "fake dxvk");
}

#[test]
fn install_32_bit_only_with_syswow64() {
    let mut fs = fake_bottle_and_dxvk();
    fs.dirs.push("/t/dxvk/x32".into());
    fs.files.insert("/t/dxvk/x32/d3d9.dll".into(), "dxvk32".into());
    fs.install("/t/dxvk", "/t/bottle");
    assert!(!fs.files.contains_key("/t/bottle/drive_c/windows/syswow64/d3d9.dll"));
    fs.dirs.push("/t/bottle/drive_c/windows/syswow64".into());
    fs.install("/t/dxvk", "/t/bottle");
    assert_eq!(fs.files.get("/t/bottle/drive_c/windows/syswow64/d3d9.dll").unwrap(), "dxvk32");
}

#[test]
fn dxvk_lifecycle() {
    let mut fs = Fs { files: HashMap::new(), dirs: vec!["/t/bottle/drive_c/windows/system32".into(), "/t/dxvk/x64".into()] };
    for dll in &["d3d9", "d3d10core", "d3d11", "dxgi"] {
        fs.files.insert(format!("/t/dxvk/x64/{}.dll", dll), "dxvk replacement".into());
    }
    assert!(!fs.installed("/t/bottle"));
    for dll in &["d3d9", "d3d10core", "d3d11", "dxgi"] {
        fs.files.insert(format!("/t/bottle/drive_c/windows/system32/{}.dll", dll), "original wine dll".into());
    }
    fs.install("/t/dxvk", "/t/bottle");
    assert!(fs.installed("/t/bottle"));
    for dll in &["d3d9", "d3d10core", "d3d11", "dxgi"] {
        let backup = format!("/t/bottle/drive_c/windows/system32/{}.dll.orig", dll);
        assert_eq!(fs.files.get(&backup).unwrap(), "original wine dll");
    }
    fs.uninstall("/t/bottle");
    for dll in &["d3d9", "d3d10core", "d3d11", "dxgi"] {
        let path = format!("/t/bottle/drive_c/windows/system32/{}.dll", dll);
        assert_eq!(fs.files.get(&path).unwrap(), "original wine dll");
    }
}
