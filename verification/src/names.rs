//! Names and paths of the profile store, computed over bytes.
//!
//! A profile named `n` is backed by a file `n.toml` in the profile directory;
//! the directory also holds the reserved pointer file `cargo-config-current`.
//! A listing derives each displayed name by cutting the file name before the
//! first occurrence of `.toml`.

use vstd::prelude::*;

verus! {

// ---------------------------------------------------------------------------
// Spec-level constants
// ---------------------------------------------------------------------------

/// The file-name suffix of every profile file: `.toml`.
pub open spec fn toml_suffix() -> Seq<u8> {
    seq![46, 116, 111, 109, 108]
}

/// The reserved pointer-file name: `cargo-config-current`.
pub open spec fn reserved_name() -> Seq<u8> {
    seq![99, 97, 114, 103, 111, 45, 99, 111, 110, 102, 105, 103,
         45, 99, 117, 114, 114, 101, 110, 116]
}

/// The name of the profile that migration creates: `config`.
pub open spec fn config_profile() -> Seq<u8> {
    seq![99, 111, 110, 102, 105, 103]
}

/// The package manager's configuration file name: `config.toml`.
pub open spec fn config_file() -> Seq<u8> {
    config_profile() + toml_suffix()
}

/// The path separator.
pub open spec fn slash() -> Seq<u8> {
    seq![47]
}

/// The package manager's directory, relative to the home directory: `/.cargo`.
pub open spec fn cargo_dir_rel() -> Seq<u8> {
    seq![47, 46, 99, 97, 114, 103, 111]
}

/// The profile directory's own name: `cargo-config`.
pub open spec fn profile_dir_name() -> Seq<u8> {
    seq![99, 97, 114, 103, 111, 45, 99, 111, 110, 102, 105, 103]
}

/// The backing file name of the profile named `name`: `name` + `.toml`.
pub open spec fn profile_entry_name(name: Seq<u8>) -> Seq<u8> {
    name + toml_suffix()
}

/// Distinct profile names have distinct backing file names.
pub proof fn lemma_profile_entry_name_injective(a: Seq<u8>, b: Seq<u8>)
    requires
        profile_entry_name(a) == profile_entry_name(b),
    ensures
        a == b,
{
    assert(profile_entry_name(a).len() == a.len() + 5);
    assert(profile_entry_name(b).len() == b.len() + 5);
    assert forall|i: int| 0 <= i < a.len() implies a[i] == b[i] by {
        assert(profile_entry_name(a)[i] == a[i]);
        assert(profile_entry_name(b)[i] == b[i]);
    }
    assert(a =~= b);
}

/// `dir` and `file` joined by a separator.
pub open spec fn joined(dir: Seq<u8>, file: Seq<u8>) -> Seq<u8> {
    dir + slash() + file
}

/// The package manager's directory under the home directory `home`.
pub open spec fn cargo_dir_of(home: Seq<u8>) -> Seq<u8> {
    home + cargo_dir_rel()
}

/// The profile directory under the home directory `home`.
pub open spec fn config_dir_of(home: Seq<u8>) -> Seq<u8> {
    home + cargo_dir_rel() + slash() + profile_dir_name()
}

/// The message of a `NotFound` failure on `name`: `name does not exist`.
pub open spec fn not_exist_message(name: Seq<u8>) -> Seq<u8> {
    name + seq![32, 100, 111, 101, 115, 32, 110, 111, 116, 32,
                101, 120, 105, 115, 116]
}

/// The message of an `AlreadyExists` failure on `name`: `name already exists`.
pub open spec fn already_exists_message(name: Seq<u8>) -> Seq<u8> {
    name + seq![32, 97, 108, 114, 101, 97, 100, 121, 32,
                101, 120, 105, 115, 116, 115]
}

/// The message reported when no home directory is known.
pub open spec fn home_missing_message() -> Seq<u8> {
    seq![67, 97, 114, 103, 111, 32, 100, 105, 114, 101, 99,
         116, 111, 114, 121, 32, 99, 111, 117, 108, 100, 32,
         110, 111, 116, 32, 98, 101, 32, 102, 111, 117, 110,
         100]
}

// ---------------------------------------------------------------------------
// Byte-vector helpers
// ---------------------------------------------------------------------------

/// A fresh copy of `src`.
pub fn copy_bytes(src: &Vec<u8>) -> (r: Vec<u8>)
    ensures
        r@ == src@,
{
    let mut r: Vec<u8> = Vec::new();
    let mut i: usize = 0;
    while i < src.len()
        invariant
            i <= src@.len(),
            r@ == src@.subrange(0, i as int),
        decreases src@.len() - i,
    {
        r.push(src[i]);
        proof {
            assert(r@ =~= src@.subrange(0, i as int + 1));
        }
        i = i + 1;
    }
    proof {
        assert(r@ =~= src@);
    }
    r
}

/// Appends all of `src` to `dst`.
pub fn append_bytes(dst: &mut Vec<u8>, src: &Vec<u8>)
    ensures
        final(dst)@ == old(dst)@ + src@,
{
    let mut i: usize = 0;
    while i < src.len()
        invariant
            i <= src@.len(),
            dst@ == old(dst)@ + src@.subrange(0, i as int),
        decreases src@.len() - i,
    {
        dst.push(src[i]);
        proof {
            assert(dst@ =~= old(dst)@ + src@.subrange(0, i as int + 1));
        }
        i = i + 1;
    }
    proof {
        assert(old(dst)@ + src@.subrange(0, src@.len() as int) =~= old(dst)@ + src@);
    }
}

/// Whether `a` and `b` hold the same bytes.
pub fn bytes_eq(a: &Vec<u8>, b: &Vec<u8>) -> (r: bool)
    ensures
        r == (a@ == b@),
{
    if a.len() != b.len() {
        proof {
            assert(a@ != b@);
        }
        return false;
    }
    let mut i: usize = 0;
    while i < a.len()
        invariant
            i <= a@.len(),
            a@.len() == b@.len(),
            forall|j: int| 0 <= j < i ==> a@[j] == b@[j],
        decreases a@.len() - i,
    {
        if a[i] != b[i] {
            proof {
                assert(a@ != b@) by {
                    if a@ == b@ {
                        assert(a@[i as int] == b@[i as int]);
                    }
                }
            }
            return false;
        }
        i = i + 1;
    }
    proof {
        assert(a@ =~= b@);
    }
    true
}

// ---------------------------------------------------------------------------
// Executable constants
// ---------------------------------------------------------------------------

/// The `.toml` suffix as bytes.
pub fn toml_suffix_bytes() -> (r: Vec<u8>)
    ensures
        r@ == toml_suffix(),
{
    let mut r: Vec<u8> = Vec::new();
    r.push(46);
    r.push(116);
    r.push(111);
    r.push(109);
    r.push(108);
    proof {
        assert(r@ =~= toml_suffix());
    }
    r
}

/// The reserved pointer-file name as bytes.
pub fn reserved_file_name() -> (r: Vec<u8>)
    ensures
        r@ == reserved_name(),
{
    let mut r: Vec<u8> = Vec::new();
    r.push(99);
    r.push(97);
    r.push(114);
    r.push(103);
    r.push(111);
    r.push(45);
    r.push(99);
    r.push(111);
    r.push(110);
    r.push(102);
    r.push(105);
    r.push(103);
    r.push(45);
    r.push(99);
    r.push(117);
    r.push(114);
    r.push(114);
    r.push(101);
    r.push(110);
    r.push(116);
    proof {
        assert(r@ =~= reserved_name());
    }
    r
}

/// The migration profile's name, `config`, as bytes.
pub fn config_profile_name() -> (r: Vec<u8>)
    ensures
        r@ == config_profile(),
{
    let mut r: Vec<u8> = Vec::new();
    r.push(99);
    r.push(111);
    r.push(110);
    r.push(102);
    r.push(105);
    r.push(103);
    proof {
        assert(r@ =~= config_profile());
    }
    r
}

/// The message reported when no home directory is known, as bytes.
pub fn home_missing_message_bytes() -> (r: Vec<u8>)
    ensures
        r@ == home_missing_message(),
{
    let mut r: Vec<u8> = Vec::new();
    r.push(67);
    r.push(97);
    r.push(114);
    r.push(103);
    r.push(111);
    r.push(32);
    r.push(100);
    r.push(105);
    r.push(114);
    r.push(101);
    r.push(99);
    r.push(116);
    r.push(111);
    r.push(114);
    r.push(121);
    r.push(32);
    r.push(99);
    r.push(111);
    r.push(117);
    r.push(108);
    r.push(100);
    r.push(32);
    r.push(110);
    r.push(111);
    r.push(116);
    r.push(32);
    r.push(98);
    r.push(101);
    r.push(32);
    r.push(102);
    r.push(111);
    r.push(117);
    r.push(110);
    r.push(100);
    proof {
        assert(r@ =~= home_missing_message());
    }
    r
}

/// The `NotFound` message for `name`: `name does not exist`.
pub fn not_exist_message_bytes(name: &Vec<u8>) -> (r: Vec<u8>)
    ensures
        r@ == not_exist_message(name@),
{
    let mut r = copy_bytes(name);
    r.push(32);
    r.push(100);
    r.push(111);
    r.push(101);
    r.push(115);
    r.push(32);
    r.push(110);
    r.push(111);
    r.push(116);
    r.push(32);
    r.push(101);
    r.push(120);
    r.push(105);
    r.push(115);
    r.push(116);
    proof {
        assert(r@ =~= not_exist_message(name@));
    }
    r
}

/// The `AlreadyExists` message for `name`: `name already exists`.
pub fn already_exists_message_bytes(name: &Vec<u8>) -> (r: Vec<u8>)
    ensures
        r@ == already_exists_message(name@),
{
    let mut r = copy_bytes(name);
    r.push(32);
    r.push(97);
    r.push(108);
    r.push(114);
    r.push(101);
    r.push(97);
    r.push(100);
    r.push(121);
    r.push(32);
    r.push(101);
    r.push(120);
    r.push(105);
    r.push(115);
    r.push(116);
    r.push(115);
    proof {
        assert(r@ =~= already_exists_message(name@));
    }
    r
}

/// The backing file name of the profile named `name`: `name` + `.toml`.
pub fn profile_file_name(name: &Vec<u8>) -> (r: Vec<u8>)
    ensures
        r@ == profile_entry_name(name@),
{
    let mut r = copy_bytes(name);
    let suffix = toml_suffix_bytes();
    append_bytes(&mut r, &suffix);
    r
}

/// `dir` and `file` joined by a separator.
pub fn join_path(dir: &Vec<u8>, file: &Vec<u8>) -> (r: Vec<u8>)
    ensures
        r@ == joined(dir@, file@),
{
    let mut r = copy_bytes(dir);
    r.push(47);
    append_bytes(&mut r, file);
    proof {
        assert(r@ =~= joined(dir@, file@));
    }
    r
}

/// The package manager's directory under `home`: `home/.cargo`.
pub fn cargo_dir_path(home: &Vec<u8>) -> (r: Vec<u8>)
    ensures
        r@ == cargo_dir_of(home@),
{
    let mut r = copy_bytes(home);
    r.push(47);
    r.push(46);
    r.push(99);
    r.push(97);
    r.push(114);
    r.push(103);
    r.push(111);
    proof {
        assert(r@ =~= cargo_dir_of(home@));
    }
    r
}

/// The profile directory under `home`: `home/.cargo/cargo-config`.
pub fn config_dir_path(home: &Vec<u8>) -> (r: Vec<u8>)
    ensures
        r@ == config_dir_of(home@),
{
    let mut r = cargo_dir_path(home);
    r.push(47);
    r.push(99);
    r.push(97);
    r.push(114);
    r.push(103);
    r.push(111);
    r.push(45);
    r.push(99);
    r.push(111);
    r.push(110);
    r.push(102);
    r.push(105);
    r.push(103);
    proof {
        assert(r@ =~= config_dir_of(home@));
    }
    r
}

// ---------------------------------------------------------------------------
// Displayed names
// ---------------------------------------------------------------------------

/// Whether the `.toml` suffix occurs in `s` at position `i`.
pub open spec fn suffix_at(s: Seq<u8>, i: int) -> bool {
    0 <= i && i + 5 <= s.len() && s.subrange(i, i + 5) == toml_suffix()
}

/// The position of the first occurrence of `.toml` in `s` at or after `i`,
/// or `s.len()` if there is none.
pub open spec fn split_point_from(s: Seq<u8>, i: int) -> int
    decreases s.len() - i,
{
    if i + 5 > s.len() {
        s.len() as int
    } else if suffix_at(s, i) {
        i
    } else {
        split_point_from(s, i + 1)
    }
}

/// The position of the first occurrence of `.toml` in `s`, or `s.len()`.
pub open spec fn split_point(s: Seq<u8>) -> int {
    split_point_from(s, 0)
}

/// The name displayed for a directory entry `s`: everything before the first
/// occurrence of `.toml`, or all of `s` if the suffix never occurs.
pub open spec fn display_name_spec(s: Seq<u8>) -> Seq<u8> {
    s.subrange(0, split_point(s))
}

pub proof fn lemma_split_point_bounds(s: Seq<u8>, i: int)
    requires
        0 <= i <= s.len(),
    ensures
        i <= split_point_from(s, i) <= s.len(),
    decreases s.len() - i,
{
    if i + 5 > s.len() {
    } else if suffix_at(s, i) {
    } else {
        lemma_split_point_bounds(s, i + 1);
    }
}

/// The name displayed for the directory entry `file`.
pub fn display_name(file: &Vec<u8>) -> (r: Vec<u8>)
    ensures
        r@ == display_name_spec(file@),
{
    let n = file.len();
    let mut found = false;
    let mut cut: usize = n;
    let mut i: usize = 0;
    while !found && n >= 5 && i <= n - 5
        invariant
            i <= n,
            n == file@.len(),
            !found ==> cut == n && split_point(file@) == split_point_from(file@, i as int),
            found ==> cut == i && split_point(file@) == i as int && i <= n,
        decreases n - i + (if found { 0int } else { 1int }),
    {
        if file[i] == 46 && file[i + 1] == 116 && file[i + 2] == 111
            && file[i + 3] == 109 && file[i + 4] == 108 {
            proof {
                assert(file@.subrange(i as int, i as int + 5) =~= toml_suffix());
                assert(suffix_at(file@, i as int));
            }
            found = true;
            cut = i;
        } else {
            proof {
                assert(!suffix_at(file@, i as int)) by {
                    if suffix_at(file@, i as int) {
                        let sub = file@.subrange(i as int, i as int + 5);
                        assert(sub[0] == file@[i as int]);
                        assert(sub[1] == file@[i as int + 1]);
                        assert(sub[2] == file@[i as int + 2]);
                        assert(sub[3] == file@[i as int + 3]);
                        assert(sub[4] == file@[i as int + 4]);
                        assert(sub[0] == toml_suffix()[0]);
                        assert(sub[1] == toml_suffix()[1]);
                        assert(sub[2] == toml_suffix()[2]);
                        assert(sub[3] == toml_suffix()[3]);
                        assert(sub[4] == toml_suffix()[4]);
                    }
                }
            }
            i = i + 1;
        }
    }
    proof {
        lemma_split_point_bounds(file@, i as int);
        assert(split_point(file@) == cut as int);
    }
    let mut r: Vec<u8> = Vec::new();
    let mut j: usize = 0;
    while j < cut
        invariant
            j <= cut,
            cut <= n,
            n == file@.len(),
            r@ == file@.subrange(0, j as int),
        decreases cut - j,
    {
        r.push(file[j]);
        proof {
            assert(r@ =~= file@.subrange(0, j as int + 1));
        }
        j = j + 1;
    }
    r
}

// ---------------------------------------------------------------------------
// Listing
// ---------------------------------------------------------------------------

/// The byte views of a sequence of byte vectors.
pub open spec fn views_of(s: Seq<Vec<u8>>) -> Seq<Seq<u8>> {
    Seq::new(s.len(), |i: int| s[i]@)
}

/// The names a listing displays for the directory entries `entries`: the
/// displayed name of each entry, in order, with the reserved pointer-file
/// name left out.
pub open spec fn listed_names(entries: Seq<Seq<u8>>) -> Seq<Seq<u8>>
    decreases entries.len(),
{
    if entries.len() == 0 {
        Seq::empty()
    } else if display_name_spec(entries.first()) == reserved_name() {
        listed_names(entries.drop_first())
    } else {
        seq![display_name_spec(entries.first())] + listed_names(entries.drop_first())
    }
}

/// The displayed names of the directory entries `entries`, with the reserved
/// pointer-file name left out.
pub fn filtered_names(entries: &Vec<Vec<u8>>) -> (r: Vec<Vec<u8>>)
    ensures
        views_of(r@) == listed_names(views_of(entries@)),
{
    let reserved = reserved_file_name();
    let mut r: Vec<Vec<u8>> = Vec::new();
    let mut i: usize = 0;
    proof {
        assert(views_of(r@) =~= Seq::<Seq<u8>>::empty());
        assert(views_of(entries@).skip(0) =~= views_of(entries@));
        assert(Seq::<Seq<u8>>::empty() + listed_names(views_of(entries@))
            =~= listed_names(views_of(entries@)));
    }
    while i < entries.len()
        invariant
            i <= entries@.len(),
            views_of(r@) + listed_names(views_of(entries@).skip(i as int))
                == listed_names(views_of(entries@)),
            reserved@ == reserved_name(),
        decreases entries@.len() - i,
    {
        let ghost all = views_of(entries@);
        let ghost pre = views_of(r@);
        proof {
            assert(all.skip(i as int).first() == all[i as int]);
            assert(all.skip(i as int).drop_first() =~= all.skip(i as int + 1));
        }
        let d = display_name(&entries[i]);
        if !bytes_eq(&d, &reserved) {
            r.push(d);
            proof {
                assert(views_of(r@) =~= pre.push(d@));
                assert(pre.push(d@) =~= pre + seq![d@]);
                assert((pre + seq![d@]) + listed_names(all.skip(i as int + 1))
                    =~= pre + (seq![d@] + listed_names(all.skip(i as int + 1))));
            }
        }
        i = i + 1;
    }
    proof {
        assert(views_of(entries@).skip(entries@.len() as int) =~= Seq::<Seq<u8>>::empty());
    }
    r
}

} // verus!
