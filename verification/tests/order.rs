use dirlist::{entry_before, is_visible, path_before, sort_order, EntryKeys, ListingOptions, SortingKey};

fn keys(entries: &[(&str, u64)]) -> Vec<EntryKeys> {
    entries
        .iter()
        .map(|(path, size)| EntryKeys { path: path.as_bytes().to_vec(), size: *size })
        .collect()
}

fn is_permutation(order: &[usize]) -> bool {
    let mut seen = vec![false; order.len()];
    for &index in order {
        if index >= seen.len() || seen[index] {
            return false;
        }
        seen[index] = true;
    }
    true
}

#[test]
fn path_before_compares_byte_by_byte() {
    assert!(path_before(&b"a".to_vec(), &b"b".to_vec()));
    assert!(!path_before(&b"b".to_vec(), &b"a".to_vec()));
    assert!(path_before(&b"dir/a".to_vec(), &b"dir/a.txt".to_vec()));
    assert!(path_before(&b"Z".to_vec(), &b"a".to_vec()));
    assert!(path_before(&b"a10".to_vec(), &b"a9".to_vec()));
    assert!(path_before(&vec![0x7f], &vec![0x80]));
    assert!(path_before(&vec![0x61, 0xff], &vec![0x62]));
}

#[test]
fn path_before_puts_a_prefix_first() {
    assert!(path_before(&b"".to_vec(), &b"a".to_vec()));
    assert!(!path_before(&b"a".to_vec(), &b"".to_vec()));
    assert!(path_before(&b"abc".to_vec(), &b"abcd".to_vec()));
    assert!(!path_before(&b"abcd".to_vec(), &b"abc".to_vec()));
}

#[test]
fn path_before_is_false_of_equal_paths() {
    assert!(!path_before(&b"".to_vec(), &b"".to_vec()));
    assert!(!path_before(&b"same".to_vec(), &b"same".to_vec()));
}

#[test]
fn path_before_agrees_with_the_order_of_byte_slices() {
    let paths: [&[u8]; 7] = [b"", b"a", b"a.txt", b"ab", b"b", b"B", &[0xc3, 0xa9]];
    for first in paths {
        for second in paths {
            assert_eq!(path_before(&first.to_vec(), &second.to_vec()), first < second);
        }
    }
}

#[test]
fn entry_before_selects_the_key() {
    let small = EntryKeys { path: b"z".to_vec(), size: 1 };
    let large = EntryKeys { path: b"a".to_vec(), size: 2 };
    assert!(entry_before(&small, &large, SortingKey::Size, false));
    assert!(!entry_before(&large, &small, SortingKey::Size, false));
    assert!(entry_before(&large, &small, SortingKey::Name, false));
    assert!(!entry_before(&small, &large, SortingKey::Name, false));
}

#[test]
fn entry_before_is_inverted_by_the_reverse_flag() {
    let small = EntryKeys { path: b"z".to_vec(), size: 1 };
    let large = EntryKeys { path: b"a".to_vec(), size: 2 };
    assert!(entry_before(&large, &small, SortingKey::Size, true));
    assert!(!entry_before(&small, &large, SortingKey::Size, true));
    assert!(entry_before(&small, &large, SortingKey::Name, true));
    assert!(!entry_before(&small, &small, SortingKey::Name, true));
    assert!(!entry_before(&small, &small, SortingKey::Size, true));
}

#[test]
fn sort_order_by_name() {
    let entries = keys(&[("dir/b", 0), ("dir/a.txt", 0), ("dir/a", 0), ("dir/B", 0)]);
    assert_eq!(sort_order(&entries, SortingKey::Name, false), vec![3, 2, 1, 0]);
}

#[test]
fn sort_order_by_name_reads_the_whole_path() {
    let entries = keys(&[("b/a", 5), ("a/b", 1), ("a/a", 9)]);
    assert_eq!(sort_order(&entries, SortingKey::Name, false), vec![2, 1, 0]);
}

#[test]
fn sort_order_by_name_reversed_is_the_mirror() {
    let entries = keys(&[("dir/b", 3), ("dir/a.txt", 2), ("dir/a", 1), ("dir/c", 0)]);
    let ascending = sort_order(&entries, SortingKey::Name, false);
    let mut descending = sort_order(&entries, SortingKey::Name, true);
    assert_eq!(descending, vec![3, 0, 1, 2]);
    descending.reverse();
    assert_eq!(descending, ascending);
    descending.reverse();
    descending.reverse();
    assert_eq!(descending, ascending);
}

#[test]
fn sort_order_by_size() {
    let entries = keys(&[("a", 100), ("b", 10), ("c", 4096), ("d", 0)]);
    assert_eq!(sort_order(&entries, SortingKey::Size, false), vec![3, 1, 0, 2]);
    assert_eq!(sort_order(&entries, SortingKey::Size, true), vec![2, 0, 1, 3]);
}

#[test]
fn sort_order_puts_the_smaller_size_first() {
    let entries = keys(&[("a", 7), ("b", 3), ("c", 7), ("d", 1), ("e", 3), ("f", u64::MAX)]);
    for reverse in [false, true] {
        let order = sort_order(&entries, SortingKey::Size, reverse);
        for (place, &first) in order.iter().enumerate() {
            for &second in &order[place + 1..] {
                if reverse {
                    assert!(entries[first].size >= entries[second].size);
                } else {
                    assert!(entries[first].size <= entries[second].size);
                }
            }
        }
    }
}

#[test]
fn sort_order_keeps_equal_sizes_in_the_given_order() {
    let entries = keys(&[("c", 5), ("a", 5), ("b", 1), ("d", 5)]);
    assert_eq!(sort_order(&entries, SortingKey::Size, false), vec![2, 0, 1, 3]);
    assert_eq!(sort_order(&entries, SortingKey::Size, true), vec![0, 1, 3, 2]);
}

#[test]
fn sort_order_keeps_equal_paths_in_the_given_order() {
    let entries = keys(&[("same", 3), ("other", 2), ("same", 1)]);
    assert_eq!(sort_order(&entries, SortingKey::Name, false), vec![1, 0, 2]);
    assert_eq!(sort_order(&entries, SortingKey::Name, true), vec![0, 2, 1]);
}

#[test]
fn sort_order_agrees_with_a_stable_sort() {
    let entries = keys(&[
        ("x/m", 40),
        ("x/a", 12),
        ("x/z", 40),
        ("x/b", 0),
        ("x/.q", 12),
        ("x/Q", 7),
        ("x/a", 99),
    ]);
    let mut by_name: Vec<usize> = (0..entries.len()).collect();
    by_name.sort_by_key(|&index| entries[index].path.clone());
    assert_eq!(sort_order(&entries, SortingKey::Name, false), by_name);
    let mut by_name_reversed: Vec<usize> = (0..entries.len()).collect();
    by_name_reversed.sort_by_key(|&index| std::cmp::Reverse(entries[index].path.clone()));
    assert_eq!(sort_order(&entries, SortingKey::Name, true), by_name_reversed);
    let mut by_size: Vec<usize> = (0..entries.len()).collect();
    by_size.sort_by_key(|&index| entries[index].size);
    assert_eq!(sort_order(&entries, SortingKey::Size, false), by_size);
    let mut by_size_reversed: Vec<usize> = (0..entries.len()).collect();
    by_size_reversed.sort_by_key(|&index| std::cmp::Reverse(entries[index].size));
    assert_eq!(sort_order(&entries, SortingKey::Size, true), by_size_reversed);
}

#[test]
fn sort_order_is_a_permutation() {
    let entries = keys(&[("e", 5), ("d", 4), ("c", 5), ("b", 4), ("a", 5)]);
    for key in [SortingKey::Name, SortingKey::Size] {
        for reverse in [false, true] {
            let order = sort_order(&entries, key, reverse);
            assert_eq!(order.len(), entries.len());
            assert!(is_permutation(&order));
        }
    }
}

#[test]
fn sort_order_is_the_same_every_time() {
    let entries = keys(&[("b", 2), ("a", 2), ("c", 1)]);
    assert_eq!(
        sort_order(&entries, SortingKey::Size, false),
        sort_order(&entries, SortingKey::Size, false)
    );
}

#[test]
fn sort_order_of_nothing_and_of_one() {
    assert_eq!(sort_order(&Vec::new(), SortingKey::Name, false), Vec::<usize>::new());
    assert_eq!(sort_order(&Vec::new(), SortingKey::Size, true), Vec::<usize>::new());
    assert_eq!(sort_order(&keys(&[("only", 1)]), SortingKey::Size, true), vec![0]);
}

fn listed(entries: &[(&str, u64, bool)], options: &ListingOptions) -> Vec<String> {
    let sort_keys: Vec<EntryKeys> = entries
        .iter()
        .map(|(name, size, _)| EntryKeys {
            path: format!("./{}", name).into_bytes(),
            size: *size,
        })
        .collect();
    let mut names = Vec::new();
    for index in sort_order(&sort_keys, options.sort, options.reverse) {
        let (name, _, is_dir) = entries[index];
        if is_visible(options, name, is_dir) {
            names.push(name.to_string());
        }
    }
    names
}

#[test]
fn listing_with_default_options() {
    let entries = [("a.txt", 100, false), (".hidden", 10, false), ("subdir", 4096, true)];
    assert_eq!(listed(&entries, &ListingOptions::default()), vec!["a.txt", "subdir"]);
}

#[test]
fn listing_of_everything_by_size() {
    let entries = [("a.txt", 100, false), (".hidden", 10, false), ("subdir", 4096, true)];
    let options =
        ListingOptions { all: true, sort: SortingKey::Size, ..ListingOptions::default() };
    assert_eq!(listed(&entries, &options), vec![".hidden", "a.txt", "subdir"]);
}

#[test]
fn listing_reversed() {
    let entries = [("a.txt", 100, false), (".hidden", 10, false), ("subdir", 4096, true)];
    let by_name = ListingOptions { all: true, reverse: true, ..ListingOptions::default() };
    assert_eq!(listed(&entries, &by_name), vec!["subdir", "a.txt", ".hidden"]);
    let by_size = ListingOptions { sort: SortingKey::Size, ..by_name };
    assert_eq!(listed(&entries, &by_size), vec!["subdir", "a.txt", ".hidden"]);
}

#[test]
fn listing_with_both_only_flags_is_empty() {
    let entries = [("a.txt", 100, false), (".hidden", 10, false), ("subdir", 4096, true)];
    let options = ListingOptions {
        all: true,
        dirs_only: true,
        files_only: true,
        ..ListingOptions::default()
    };
    assert!(listed(&entries, &options).is_empty());
}

#[test]
fn listing_of_one_kind() {
    let entries = [("a.txt", 100, false), (".hidden", 10, false), ("subdir", 4096, true)];
    let dirs = ListingOptions { dirs_only: true, ..ListingOptions::default() };
    assert_eq!(listed(&entries, &dirs), vec!["subdir"]);
    let files = ListingOptions { files_only: true, all: true, ..ListingOptions::default() };
    assert_eq!(listed(&entries, &files), vec![".hidden", "a.txt"]);
}
