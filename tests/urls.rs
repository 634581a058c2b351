use nix_uri::parser::is_tarball;
use nix_uri::urls::UrlWrapper;
use nix_uri::{FlakeRef, FlakeRefType, GitForge, GitForgePlatform, LocationParameters};

#[test]
fn simple_url_conversion() {
        let url = "https://github.com/nixos/nixpkgs";
        let expected = FlakeRef::default()
            .kind(FlakeRefType::GitForge(GitForge {
                platform: GitForgePlatform::GitHub,
                owner: "nixos".into(),
                repo: "nixpkgs".into(),
                ref_or_rev: None,
            }))
            .clone();
        assert_eq!(UrlWrapper::convert_or_parse(url).unwrap(), expected);
    }

#[test]
fn simple_url_conversion_with_param() {
        let url = "https://github.com/nixos/nixpkgs?dir=foo";
        let mut params = LocationParameters::default();
        params.dir(Some("foo".into()));
        let expected = FlakeRef::default()
            .kind(FlakeRefType::GitForge(GitForge {
                platform: GitForgePlatform::GitHub,
                owner: "nixos".into(),
                repo: "nixpkgs".into(),
                ref_or_rev: None,
            }))
            .params(params)
            .clone();
        assert_eq!(UrlWrapper::convert_or_parse(url).unwrap(), expected);
    }

#[test]
fn simple_url_conversion_with_flake() {
        let url = "https://github.com/nixos/nixpkgs#fizz";
        let expected = FlakeRef::default()
            .kind(FlakeRefType::GitForge(GitForge {
                platform: GitForgePlatform::GitHub,
                owner: "nixos".into(),
                repo: "nixpkgs".into(),
                ref_or_rev: None,
            }))
            .clone();
        assert_eq!(UrlWrapper::convert_or_parse(url).unwrap(), expected);
    }

#[test]
fn check_tarball_uri_conversion() {
        let filename = "https://github.com/NixOS/patchelf/archive/master.tar.gz";
        assert!(is_tarball(filename));
    }
