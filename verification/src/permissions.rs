//! POSIX permission bits rendered as `rwx` triplets and as octal digits.

use vstd::prelude::*;

use crate::text::{digit_char, digit_text};

verus! {

/// The three characters that stand for one subject's permissions: a letter
/// where the permission is granted, a dash where it is not.
pub open spec fn triplet_chars(read: bool, write: bool, execute: bool) -> Seq<char> {
    seq![
        if read { 'r' } else { '-' },
        if write { 'w' } else { '-' },
        if execute { 'x' } else { '-' },
    ]
}

/// The nine characters for the low nine bits of `mode`: the triplets of the
/// owner, of the group and of everybody else, in this order.
pub open spec fn permission_chars(mode: u32) -> Seq<char> {
    triplet_chars(mode & 0o400 != 0, mode & 0o200 != 0, mode & 0o100 != 0)
        + triplet_chars(mode & 0o040 != 0, mode & 0o020 != 0, mode & 0o010 != 0)
        + triplet_chars(mode & 0o004 != 0, mode & 0o002 != 0, mode & 0o001 != 0)
}

/// Whether `text` is one of the eight triplets
/// `---`, `r--`, `-w-`, `--x`, `r-x`, `rw-`, `-wx`, `rwx`.
pub open spec fn is_fixed_triplet(text: Seq<char>) -> bool {
    ||| text == seq!['-', '-', '-']
    ||| text == seq!['r', '-', '-']
    ||| text == seq!['-', 'w', '-']
    ||| text == seq!['-', '-', 'x']
    ||| text == seq!['r', '-', 'x']
    ||| text == seq!['r', 'w', '-']
    ||| text == seq!['-', 'w', 'x']
    ||| text == seq!['r', 'w', 'x']
}

/// The three lowest octal digits of `mode`, the highest first.
pub open spec fn octal_chars(mode: u32) -> Seq<char> {
    seq![
        digit_char((mode as int / 64) % 8),
        digit_char((mode as int / 8) % 8),
        digit_char(mode as int % 8),
    ]
}

/// Renders the permissions that `mode` grants to one subject, whose read,
/// write and execute bits are given as masks.
pub fn triplet(mode: u32, read: u32, write: u32, execute: u32) -> (text: String)
    ensures
        text@ == triplet_chars(mode & read != 0, mode & write != 0, mode & execute != 0),
        text@.len() == 3,
        is_fixed_triplet(text@),
{
    proof {
        reveal_strlit("---");
        reveal_strlit("r--");
        reveal_strlit("-w-");
        reveal_strlit("--x");
        reveal_strlit("r-x");
        reveal_strlit("rw-");
        reveal_strlit("-wx");
        reveal_strlit("rwx");
    }
    let text: &str = match (mode & read, mode & write, mode & execute) {
        (0, 0, 0) => "---",
        (_, 0, 0) => "r--",
        (0, _, 0) => "-w-",
        (0, 0, _) => "--x",
        (_, 0, _) => "r-x",
        (_, _, 0) => "rw-",
        (0, _, _) => "-wx",
        (_, _, _) => "rwx",
    };
    proof {
        lemma_triplet_chars_fixed(mode & read != 0, mode & write != 0, mode & execute != 0);
    }
    text.to_string()
}

/// `libc::S_IRUSR`, the owner's read bit: octal 400.
#[verifier::external_body]
fn owner_read() -> (bit: u32)
    ensures
        bit == 0o400,
{
    libc::S_IRUSR
}

/// `libc::S_IWUSR`, the owner's write bit: octal 200.
#[verifier::external_body]
fn owner_write() -> (bit: u32)
    ensures
        bit == 0o200,
{
    libc::S_IWUSR
}

/// `libc::S_IXUSR`, the owner's execute bit: octal 100.
#[verifier::external_body]
fn owner_execute() -> (bit: u32)
    ensures
        bit == 0o100,
{
    libc::S_IXUSR
}

/// `libc::S_IRGRP`, the group's read bit: octal 40.
#[verifier::external_body]
fn group_read() -> (bit: u32)
    ensures
        bit == 0o040,
{
    libc::S_IRGRP
}

/// `libc::S_IWGRP`, the group's write bit: octal 20.
#[verifier::external_body]
fn group_write() -> (bit: u32)
    ensures
        bit == 0o020,
{
    libc::S_IWGRP
}

/// `libc::S_IXGRP`, the group's execute bit: octal 10.
#[verifier::external_body]
fn group_execute() -> (bit: u32)
    ensures
        bit == 0o010,
{
    libc::S_IXGRP
}

/// `libc::S_IROTH`, the read bit of everybody else: octal 4.
#[verifier::external_body]
fn other_read() -> (bit: u32)
    ensures
        bit == 0o004,
{
    libc::S_IROTH
}

/// `libc::S_IWOTH`, the write bit of everybody else: octal 2.
#[verifier::external_body]
fn other_write() -> (bit: u32)
    ensures
        bit == 0o002,
{
    libc::S_IWOTH
}

/// `libc::S_IXOTH`, the execute bit of everybody else: octal 1.
#[verifier::external_body]
fn other_execute() -> (bit: u32)
    ensures
        bit == 0o001,
{
    libc::S_IXOTH
}

/// Renders the low nine bits of `mode` as three triplets without a
/// separator: owner, group, others.
pub fn parse_permissions(mode: u32) -> (text: String)
    ensures
        text@ == permission_chars(mode),
        text@.len() == 9,
{
    let user = triplet(mode, owner_read(), owner_write(), owner_execute());
    let group = triplet(mode, group_read(), group_write(), group_execute());
    let other = triplet(mode, other_read(), other_write(), other_execute());
    let mut text = user;
    text.append(group.as_str());
    text.append(other.as_str());
    text
}

/// Renders the three lowest octal digits of `mode`, such as `755`.
pub fn mode_short(mode: u32) -> (text: String)
    ensures
        text@ == octal_chars(mode),
{
    let high: u32 = (mode / 64) % 8;
    let middle: u32 = (mode / 8) % 8;
    let low: u32 = mode % 8;
    let mut text = digit_text(high as u8).to_string();
    text.append(digit_text(middle as u8));
    text.append(digit_text(low as u8));
    text
}

/// The rendering has nine characters, and each of its three groups is one of
/// the eight fixed triplets.
pub proof fn lemma_permission_chars_shape(mode: u32)
    ensures
        permission_chars(mode).len() == 9,
        is_fixed_triplet(permission_chars(mode).subrange(0, 3)),
        is_fixed_triplet(permission_chars(mode).subrange(3, 6)),
        is_fixed_triplet(permission_chars(mode).subrange(6, 9)),
{
    let owner = triplet_chars(mode & 0o400 != 0, mode & 0o200 != 0, mode & 0o100 != 0);
    let group = triplet_chars(mode & 0o040 != 0, mode & 0o020 != 0, mode & 0o010 != 0);
    let other = triplet_chars(mode & 0o004 != 0, mode & 0o002 != 0, mode & 0o001 != 0);
    lemma_triplet_chars_fixed(mode & 0o400 != 0, mode & 0o200 != 0, mode & 0o100 != 0);
    lemma_triplet_chars_fixed(mode & 0o040 != 0, mode & 0o020 != 0, mode & 0o010 != 0);
    lemma_triplet_chars_fixed(mode & 0o004 != 0, mode & 0o002 != 0, mode & 0o001 != 0);
    assert(permission_chars(mode).subrange(0, 3) =~= owner);
    assert(permission_chars(mode).subrange(3, 6) =~= group);
    assert(permission_chars(mode).subrange(6, 9) =~= other);
}

/// Whatever the three permissions are, their triplet is one of the eight.
pub proof fn lemma_triplet_chars_fixed(read: bool, write: bool, execute: bool)
    ensures
        triplet_chars(read, write, execute).len() == 3,
        is_fixed_triplet(triplet_chars(read, write, execute)),
{
}

/// Only the low nine bits of a mode are rendered: the file-type bits and
/// the set-id bits above them change nothing.
pub proof fn lemma_permission_chars_low_bits(mode: u32)
    ensures
        permission_chars(mode) == permission_chars(mode & 0o777),
{
    assert((mode & 0o777) & 0o400 == mode & 0o400) by (bit_vector);
    assert((mode & 0o777) & 0o200 == mode & 0o200) by (bit_vector);
    assert((mode & 0o777) & 0o100 == mode & 0o100) by (bit_vector);
    assert((mode & 0o777) & 0o040 == mode & 0o040) by (bit_vector);
    assert((mode & 0o777) & 0o020 == mode & 0o020) by (bit_vector);
    assert((mode & 0o777) & 0o010 == mode & 0o010) by (bit_vector);
    assert((mode & 0o777) & 0o004 == mode & 0o004) by (bit_vector);
    assert((mode & 0o777) & 0o002 == mode & 0o002) by (bit_vector);
    assert((mode & 0o777) & 0o001 == mode & 0o001) by (bit_vector);
}

/// Two modes with the same low nine bits have the same rendering, and two
/// modes that differ in one of them do not.
pub proof fn lemma_permission_chars_injective(first: u32, second: u32)
    ensures
        permission_chars(first) == permission_chars(second) <==> first & 0o777 == second
            & 0o777,
{
    lemma_permission_chars_low_bits(first);
    lemma_permission_chars_low_bits(second);
    if permission_chars(first) == permission_chars(second) {
        let a = permission_chars(first);
        let b = permission_chars(second);
        assert(a[0] == b[0] && a[1] == b[1] && a[2] == b[2]);
        assert(a[3] == b[3] && a[4] == b[4] && a[5] == b[5]);
        assert(a[6] == b[6] && a[7] == b[7] && a[8] == b[8]);
        assert(first & 0o777 == second & 0o777) by (bit_vector)
            requires
                (first & 0o400 != 0) == (second & 0o400 != 0),
                (first & 0o200 != 0) == (second & 0o200 != 0),
                (first & 0o100 != 0) == (second & 0o100 != 0),
                (first & 0o040 != 0) == (second & 0o040 != 0),
                (first & 0o020 != 0) == (second & 0o020 != 0),
                (first & 0o010 != 0) == (second & 0o010 != 0),
                (first & 0o004 != 0) == (second & 0o004 != 0),
                (first & 0o002 != 0) == (second & 0o002 != 0),
                (first & 0o001 != 0) == (second & 0o001 != 0),
        ;
    }
}

} // verus!
