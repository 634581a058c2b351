use nix_uri::parser::{is_file, is_tarball};

#[test]
fn check_tarball() {
        let filename = "example.tar.gz";
        assert!(is_tarball(filename));
    }

#[test]
fn check_tarball_uri() {
        let filename = "https://github.com/NixOS/patchelf/archive/master.tar.gz";
        assert!(is_tarball(filename));
    }

#[test]
fn check_file_uri() {
        let filename = "https://github.com/NixOS/patchelf/";
        assert!(is_file(filename));
    }

#[test]
fn check_file() {
        let filename = "example";
        assert!(is_file(filename));
    }
