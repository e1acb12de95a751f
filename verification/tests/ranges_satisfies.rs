use code_nix::ranges::satisfies;
use code_nix::version::Version;
use code_nix::GalleryError;

fn v(major: u64, minor: u64, patch: u64) -> Version {
    Version { major, minor, patch }
}

#[test]
fn star_accepts_everything() {
    assert_eq!(satisfies(&v(1, 75, 0), "*"), Ok(true));
    assert_eq!(satisfies(&v(0, 0, 1), "*"), Ok(true));
}

#[test]
fn caret_accepts_same_major_line_forward() {
    assert_eq!(satisfies(&v(1, 75, 0), "^1.50.0"), Ok(true));
    assert_eq!(satisfies(&v(1, 50, 0), "^1.50.0"), Ok(true));
    assert_eq!(satisfies(&v(1, 49, 9), "^1.50.0"), Ok(false));
    assert_eq!(satisfies(&v(2, 0, 0), "^1.50.0"), Ok(false));
}

#[test]
fn zero_major_caret_locks_the_minor() {
    // Anchored below major version 1, a differing minor is rejected even
    // though the major matches.
    assert_eq!(satisfies(&v(0, 6, 0), "^0.5.0"), Ok(false));
    assert_eq!(satisfies(&v(0, 4, 9), "^0.5.0"), Ok(false));
    assert_eq!(satisfies(&v(0, 5, 0), "^0.5.0"), Ok(true));
    assert_eq!(satisfies(&v(0, 5, 7), "^0.5.2"), Ok(true));
    assert_eq!(satisfies(&v(0, 5, 1), "^0.5.2"), Ok(false));
    assert_eq!(satisfies(&v(1, 5, 0), "^0.5.0"), Ok(false));
}

#[test]
fn patch_wildcard_locks_major_and_minor() {
    assert_eq!(satisfies(&v(1, 2, 0), "1.2.x"), Ok(true));
    assert_eq!(satisfies(&v(1, 2, 99), "1.2.x"), Ok(true));
    assert_eq!(satisfies(&v(1, 3, 0), "1.2.x"), Ok(false));
    assert_eq!(satisfies(&v(2, 2, 0), "1.2.x"), Ok(false));
}

#[test]
fn exact_range_accepts_only_itself() {
    assert_eq!(satisfies(&v(1, 2, 3), "1.2.3"), Ok(true));
    assert_eq!(satisfies(&v(1, 2, 4), "1.2.3"), Ok(false));
}

#[test]
fn unparsable_ranges_surface_an_error() {
    assert_eq!(satisfies(&v(1, 75, 0), ""), Err(GalleryError::RangeParse));
    assert_eq!(satisfies(&v(1, 75, 0), ">=1.0.0"), Err(GalleryError::RangeParse));
    assert_eq!(satisfies(&v(1, 75, 0), "^1.50"), Err(GalleryError::RangeParse));
    assert_eq!(satisfies(&v(1, 75, 0), "banana"), Err(GalleryError::RangeParse));
    assert_eq!(satisfies(&v(1, 75, 0), "1.x"), Err(GalleryError::RangeParse));
}
