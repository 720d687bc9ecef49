use deb_rs::file::{Deb, Version};
use deb_rs::file::{DataEntry, DebError};

const GNOME_CLOCKS: &str = "./example/assets/gnome_clocks.deb";
const STAGED: &str = "/tmp/libdeb/5f0c1d8e-3b7a-4c2e-9a61-0d2f4b8e7c13/";

const GNOME_CLOCKS_CONTROL: &str = "Package: gnome-clocks
Version: 3.30.1-2
Architecture: amd64
Maintainer: Debian GNOME Maintainers <pkg-gnome-maintainers@lists.alioth.debian.org>
Installed-Size: 1735
Depends: geoclue-2.0, gsettings-desktop-schemas, libc6 (>= 2.4), libgdk-pixbuf2.0-0 (>= 2.22.0), libgeoclue-2-0 (>= 2.3.1), libgeocode-glib0 (>= 3.10.0), libglib2.0-0 (>= 2.44.0), libgnome-desktop-3-17 (>= 3.17.92), libgsound0 (>= 0.98), libgtk-3-0 (>= 3.20.0), libgweather-3-15 (>= 3.27.2), libpango-1.0-0 (>= 1.14.0)
Section: gnome
Priority: optional
Homepage: https://wiki.gnome.org/Apps/Clocks
Description: Simple GNOME app with stopwatch, timer, and world clock support
 GNOME Clocks is a simple application to show the time and date in
 multiple locations and set alarms or timers. A stopwatch is also included.
";

const EXA_CONTROL: &str = "Package: exa
Version: 0.9.0-4
Architecture: amd64
Maintainer: Debian Rust Maintainers <pkg-rust-maintainers@alioth-lists.debian.net>
Installed-Size: 1240
Depends: libc6 (>= 2.28), libgcc1 (>= 1:4.2), libgit2-28 (>= 0.28.1)
Section: utils
Priority: optional
Homepage: https://the.exa.website/
Description: Modern replacement for ls
 exa is a modern replacement for ls. It uses colours for information by
 default, helping you distinguish between many types of files, such as
 whether you are the owner, or in the owning group.
";

fn staged(path: &'static str) -> Result<Deb, DebError> {
    let mut deb = Deb::new(path);
    deb.extract(Ok(STAGED.to_string()))?;
    Ok(deb)
}

/// The entries of a data root holding 302 files in a few directories.
fn gnome_clocks_entries() -> Vec<DataEntry> {
    let root = format!("{}data/", STAGED);
    let mut entries = Vec::new();
    for dir in ["usr", "usr/bin", "usr/share", "usr/share/locale"] {
        entries.push(DataEntry { path: format!("{}{}", root, dir), is_file: false });
    }
    entries.push(DataEntry { path: format!("{}usr/bin/gnome-clocks", root), is_file: true });
    for i in 0..301 {
        entries.push(DataEntry {
            path: format!("{}usr/share/locale/l{:03}/gnome-clocks.mo", root, i),
            is_file: true,
        });
    }
    entries
}

fn check_gnome_clocks_control(deb: &Deb) -> Result<(), DebError> {
    let control = deb.retrieve_control(GNOME_CLOCKS_CONTROL)?;

    assert_eq!(control.package, "gnome-clocks".to_string());
    assert_eq!(control.source, None);
    assert_eq!(control.version, "3.30.1-2".to_string());
    assert_eq!(control.section, Some("gnome".to_string()));
    assert_eq!(control.priority, Some("optional".to_string()));
    assert_eq!(control.architecture, "amd64".to_string());
    assert_eq!(control.essential, None);
    assert_eq!(control.install_size, Some(1735));
    assert_eq!(
        control.maintainer,
        "Debian GNOME Maintainers <pkg-gnome-maintainers@lists.alioth.debian.org>".to_string()
    );
    assert_eq!(control.description, "Simple GNOME app with stopwatch, timer, and world clock support GNOME Clocks is a simple application to show the time and date in multiple locations and set alarms or timers. A stopwatch is also included.".to_string());
    assert_eq!(
        control.homepage,
        Some("https://wiki.gnome.org/Apps/Clocks".to_string())
    );
    assert_eq!(control.built_using, None);
    assert_eq!(control.depends.len(), 12);
    assert_eq!(control.pre_depends.len(), 0);
    assert_eq!(control.recommends.len(), 0);
    assert_eq!(control.suggests.len(), 0);
    assert_eq!(control.enhances.len(), 0);
    assert_eq!(control.breaks.len(), 0);
    assert_eq!(control.conflicts.len(), 0);
    Ok(())
}

#[test]
fn deb_new() {
    Deb::new(GNOME_CLOCKS);
}

#[test]
fn deb_extract() -> Result<(), DebError> {
    let mut deb = Deb::new(GNOME_CLOCKS);
    deb.extract(Ok(STAGED.to_string()))?;
    println!("{:?}", deb.extracted_path);
    assert_eq!(deb.extracted_path, Some(STAGED.to_string()));
    Ok(())
}

#[test]
fn deb_retrieve_control() -> Result<(), DebError> {
    let deb = staged(GNOME_CLOCKS)?;
    check_gnome_clocks_control(&deb)
}

#[test]
fn deb_version() -> Result<(), DebError> {
    let version = staged(GNOME_CLOCKS)?.version("2.0\n")?;

    assert_eq!(version, Version::V2_0);
    Ok(())
}

#[test]
fn deb_install_tree() -> Result<(), DebError> {
    let install_tree = staged(GNOME_CLOCKS)?.install_tree(&gnome_clocks_entries())?;

    assert_eq!(install_tree.len(), 302);
    Ok(())
}

#[test]
fn deb_test_new() {
    Deb::new(GNOME_CLOCKS);
}

#[test]
fn deb_test_extract() -> Result<(), DebError> {
    let mut deb = Deb::new(GNOME_CLOCKS);
    deb.extract(Ok(STAGED.to_string()))?;
    assert!(deb.extracted_path.is_some());
    Ok(())
}

#[test]
fn deb_test_retrieve_control() -> Result<(), DebError> {
    let deb = staged(GNOME_CLOCKS)?;
    check_gnome_clocks_control(&deb)
}

#[test]
fn secondary_control() -> Result<(), DebError> {
    let _control = staged("./example/assets/exa.deb")?.retrieve_control(EXA_CONTROL)?;

    Ok(())
}

#[test]
fn deb_test_version() -> Result<(), DebError> {
    let version = staged(GNOME_CLOCKS)?.version("2.0\n")?;

    assert_eq!(version, Version::V2_0);
    Ok(())
}

#[test]
fn deb_test_install_tree() -> Result<(), DebError> {
    let install_tree = staged(GNOME_CLOCKS)?.install_tree(&gnome_clocks_entries())?;

    assert_eq!(install_tree.len(), 302);
    Ok(())
}
