use dirlist::{is_hidden, is_visible, ListingOptions, SortingKey};

fn options(all: bool, dirs_only: bool, files_only: bool) -> ListingOptions {
    ListingOptions { all, dirs_only, files_only, sort: SortingKey::Name, reverse: false }
}

#[test]
fn default_options_set_no_flag() {
    let defaults = ListingOptions::default();
    assert!(!defaults.all);
    assert!(!defaults.dirs_only);
    assert!(!defaults.files_only);
    assert!(!defaults.reverse);
    assert_eq!(defaults.sort, SortingKey::Name);
    assert_eq!(SortingKey::default(), SortingKey::Name);
}

#[test]
fn is_hidden_of_names() {
    assert!(is_hidden(".env"));
    assert!(is_hidden("."));
    assert!(is_hidden(".."));
    assert!(is_hidden(".hidden.txt"));
    assert!(!is_hidden("env"));
    assert!(!is_hidden("a.txt"));
    assert!(!is_hidden("a."));
    assert!(!is_hidden(""));
    assert!(!is_hidden(" .env"));
    assert!(!is_hidden("é.txt"));
}

#[test]
fn dot_file_is_left_out_without_all() {
    assert!(!is_visible(&options(false, false, false), ".env", false));
    assert!(!is_visible(&options(false, false, false), ".git", true));
}

#[test]
fn dot_file_is_shown_with_all() {
    assert!(is_visible(&options(true, false, false), ".env", false));
    assert!(is_visible(&options(true, false, false), ".git", true));
}

#[test]
fn plain_names_are_shown_with_and_without_all() {
    for all in [false, true] {
        assert!(is_visible(&options(all, false, false), "a.txt", false));
        assert!(is_visible(&options(all, false, false), "subdir", true));
    }
}

#[test]
fn dirs_only_shuts_out_files() {
    assert!(is_visible(&options(false, true, false), "subdir", true));
    assert!(!is_visible(&options(false, true, false), "a.txt", false));
    assert!(!is_visible(&options(false, true, false), ".git", true));
    assert!(is_visible(&options(true, true, false), ".git", true));
}

#[test]
fn files_only_shuts_out_directories() {
    assert!(is_visible(&options(false, false, true), "a.txt", false));
    assert!(!is_visible(&options(false, false, true), "subdir", true));
    assert!(!is_visible(&options(false, false, true), ".env", false));
    assert!(is_visible(&options(true, false, true), ".env", false));
}

#[test]
fn both_only_flags_show_nothing() {
    for all in [false, true] {
        for name in ["a.txt", ".env", "subdir", ""] {
            for is_dir in [false, true] {
                assert!(!is_visible(&options(all, true, true), name, is_dir));
            }
        }
    }
}

#[test]
fn the_order_does_not_change_the_filter() {
    for sort in [SortingKey::Name, SortingKey::Size] {
        for reverse in [false, true] {
            let chosen = ListingOptions { sort, reverse, ..options(false, false, true) };
            assert!(is_visible(&chosen, "a.txt", false));
            assert!(!is_visible(&chosen, ".env", false));
            assert!(!is_visible(&chosen, "subdir", true));
        }
    }
}
