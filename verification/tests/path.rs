use opengamecore::path::{extension, file_name, file_stem, join, with_extension};

#[test]
fn join_like_std() {
    for (base, seg) in [
        ("/a/b", "c"),
        ("/a/b/", "c"),
        ("", "c"),
        ("/a", "/abs"),
        ("a", "drive_c/game.exe"),
        ("/bottles/game", "drive_c/game.exe"),
    ] {
        let expected = std::path::Path::new(base).join(seg);
        assert_eq!(join(base, seg), expected.to_str().unwrap(), "{} + {}", base, seg);
    }
    assert_eq!(join("/bottles/game", "drive_c/game.exe"), "/bottles/game/drive_c/game.exe");
}

#[test]
fn file_name_like_std() {
    for p in ["bin/x64/Cyberpunk2077.exe", "a/b/", "a/..", "/", "", ".", "a/./", "x.exe", "a//b", "./c"] {
        let expected = std::path::Path::new(p).file_name().map(|n| n.to_str().unwrap().to_string());
        assert_eq!(file_name(p), expected, "{}", p);
    }
}

#[test]
fn extension_like_std() {
    for p in ["a/Game.EXE", ".bashrc", "a/b.tar.gz", "noext", "a/b.", "..", "dir/"] {
        let expected = std::path::Path::new(p).extension().map(|n| n.to_str().unwrap().to_string());
        assert_eq!(extension(p), expected, "{}", p);
    }
}

#[test]
fn with_extension_like_std() {
    for p in ["/t/config.toml", "/t/games", "/t/.hidden", "a/b.tar.gz", "a/b.toml/", "/", "a/..", "x"] {
        let expected = std::path::Path::new(p).with_extension("bak");
        assert_eq!(with_extension(p, "bak"), expected.to_str().unwrap(), "{}", p);
    }
    assert_eq!(with_extension("/t/config.toml", "bak"), "/t/config.bak");
}

#[test]
fn file_stem_like_std() {
    for p in ["a/Game.EXE", ".bashrc", "a/b.tar.gz", "noext", "a/b.", "..", "dir/", "/", "", "x/setup.exe"] {
        let expected = std::path::Path::new(p).file_stem().map(|n| n.to_str().unwrap().to_string());
        assert_eq!(file_stem(p), expected, "{}", p);
    }
    assert_eq!(file_stem("/games/Hollow Knight/hollow_knight.exe").as_deref(), Some("hollow_knight"));
}
