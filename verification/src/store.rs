//! The verified model of the profile store.
//!
//! The store keeps the state the tool manipulates on disk: the entries of the
//! profile directory (one backing file per profile plus the reserved pointer
//! file), the contents of their files, and the package manager's single
//! configuration file, which is a hard link to the active profile's file.
//!
//! Hard links are modelled by keeping contents in `files` (one slot per
//! inode) and letting both a directory entry and the configuration link refer
//! to a slot by index: writing a profile's file in place is then visible
//! through the link, and removing a profile's entry leaves the linked data
//! behind, exactly as on disk.

use vstd::prelude::*;

use crate::errors::{ErrorKind, StoreError};
use crate::names;
use crate::names::{
    already_exists_message, config_file, config_profile, listed_names, not_exist_message,
    profile_entry_name, reserved_name, views_of,
};

verus! {

/// One entry of the profile directory: a file name and the inode it names.
pub struct Entry {
    pub name: Vec<u8>,
    pub ino: usize,
}

/// The state of the profile store.
pub struct ProfileStore {
    /// The contents of the inodes ever created; slots are never removed, so a
    /// hard link outlives the directory entry it was created from.
    pub files: Vec<Vec<u8>>,
    /// The entries of the profile directory, in directory order.
    pub entries: Vec<Entry>,
    /// The package manager's `config.toml`, when present: the inode it is
    /// hard-linked to.  At most one such file ever exists.
    pub link: Option<usize>,
}

impl ProfileStore {
    /// Well-formedness: entries name existing inodes, no two entries share a
    /// name or an inode, and the link names an existing inode.
    pub open spec fn wf(self) -> bool {
        &&& (forall|i: int|
            0 <= i < self.entries@.len() ==> (#[trigger] self.entries@[i]).ino
                < self.files@.len())
        &&& (forall|i: int, j: int|
            0 <= i < j < self.entries@.len() ==> (#[trigger] self.entries@[i]).name@
                != (#[trigger] self.entries@[j]).name@)
        &&& (forall|i: int, j: int|
            0 <= i < j < self.entries@.len() ==> (#[trigger] self.entries@[i]).ino
                != (#[trigger] self.entries@[j]).ino)
        &&& (self.link is Some ==> self.link->0 < self.files@.len())
    }

    /// Whether the profile directory holds an entry named `name`.
    pub open spec fn has_entry(self, name: Seq<u8>) -> bool {
        exists|i: int|
            0 <= i < self.entries@.len() && (#[trigger] self.entries@[i]).name@ == name
    }

    /// The position of the entry named `name`.
    pub open spec fn entry_index(self, name: Seq<u8>) -> int {
        choose|i: int|
            0 <= i < self.entries@.len() && (#[trigger] self.entries@[i]).name@ == name
    }

    /// The inode of the entry named `name`.
    pub open spec fn entry_ino(self, name: Seq<u8>) -> int {
        self.entries@[self.entry_index(name)].ino as int
    }

    /// The content of the file of the entry named `name`.
    pub open spec fn content_of(self, name: Seq<u8>) -> Seq<u8> {
        self.files@[self.entry_ino(name)]@
    }

    /// The names of the directory's entries, in directory order.
    pub open spec fn entry_names(self) -> Seq<Seq<u8>> {
        Seq::new(self.entries@.len(), |i: int| self.entries@[i].name@)
    }

    /// Whether the pointer file exists.
    pub open spec fn pointer_exists(self) -> bool {
        self.has_entry(reserved_name())
    }

    /// The content of the pointer file: the active profile's name.
    pub open spec fn pointer_content(self) -> Seq<u8> {
        self.content_of(reserved_name())
    }

    /// Whether the package manager's `config.toml` exists.
    pub open spec fn link_present(self) -> bool {
        self.link is Some
    }

    /// The content read through the package manager's `config.toml`.
    pub open spec fn link_content(self) -> Seq<u8> {
        self.files@[self.link->0 as int]@
    }

    /// Whether `config.toml` is hard-linked to the file of the entry `name`.
    pub open spec fn linked_to(self, name: Seq<u8>) -> bool {
        &&& self.has_entry(name)
        &&& self.link is Some
        &&& self.link->0 as int == self.entry_ino(name)
    }

    /// Every profile of `pre` is still in `post`, with the same content.
    pub open spec fn profiles_preserved(pre: Self, post: Self) -> bool {
        forall|n: Seq<u8>|
            n != reserved_name() && #[trigger] pre.has_entry(n) ==> post.has_entry(n)
                && post.content_of(n) == pre.content_of(n)
    }

    /// `post` holds no profile that `pre` did not.
    pub open spec fn no_new_profiles(pre: Self, post: Self) -> bool {
        forall|n: Seq<u8>|
            n != reserved_name() && #[trigger] post.has_entry(n) ==> pre.has_entry(n)
    }

    /// The profiles and their contents are the same in `pre` and `post`.
    pub open spec fn same_profiles(pre: Self, post: Self) -> bool {
        &&& Self::profiles_preserved(pre, post)
        &&& Self::no_new_profiles(pre, post)
    }

    /// What a successful `create(name)` did: the new profile's backing file
    /// exists and is empty, everything else is untouched.
    pub open spec fn create_ok(pre: Self, post: Self, name: Seq<u8>) -> bool {
        let f = profile_entry_name(name);
        &&& post.has_entry(f)
        &&& post.content_of(f) == Seq::<u8>::empty()
        &&& post.entry_names() == pre.entry_names().push(f)
        &&& (forall|n: Seq<u8>|
            #[trigger] pre.has_entry(n) ==> post.has_entry(n) && post.content_of(n)
                == pre.content_of(n))
        &&& (forall|n: Seq<u8>| #[trigger] post.has_entry(n) ==> n == f || pre.has_entry(n))
        &&& post.link == pre.link
        &&& (pre.link_present() ==> post.link_content() == pre.link_content())
    }

    /// What a successful `switch(name)` did: the pointer file holds exactly
    /// `name`, `config.toml` is hard-linked to the named profile's file, and
    /// the profiles themselves are untouched.
    pub open spec fn switch_ok(pre: Self, post: Self, name: Seq<u8>) -> bool {
        let f = profile_entry_name(name);
        &&& post.pointer_exists()
        &&& post.pointer_content() == name
        &&& post.linked_to(f)
        &&& post.link_content() == pre.content_of(f)
        &&& Self::same_profiles(pre, post)
    }

    /// What a `switch(name)` on a missing profile left behind: the pointer
    /// file was already written and the old link already removed when the
    /// linking step failed, so no configuration file is linked.
    pub open spec fn switch_failed(pre: Self, post: Self, name: Seq<u8>) -> bool {
        &&& post.pointer_exists()
        &&& post.pointer_content() == name
        &&& !post.link_present()
        &&& Self::same_profiles(pre, post)
    }

    /// What a successful `remove(name)` did: the entry is gone, everything
    /// else — the link and its data included — is untouched.
    pub open spec fn remove_ok(pre: Self, post: Self, name: Seq<u8>) -> bool {
        let f = profile_entry_name(name);
        &&& !post.has_entry(f)
        &&& post.entry_names() == pre.entry_names().remove(pre.entry_index(f))
        &&& (forall|n: Seq<u8>|
            n != f && #[trigger] pre.has_entry(n) ==> post.has_entry(n) && post.content_of(n)
                == pre.content_of(n))
        &&& (forall|n: Seq<u8>| #[trigger] post.has_entry(n) ==> pre.has_entry(n))
        &&& post.link == pre.link
        &&& (pre.link_present() ==> post.link_content() == pre.link_content())
    }

    /// What a successful `write_profile(name, content)` did: the named
    /// profile's file holds `content`, in place, so a hard link to it reads
    /// the new content; everything else is untouched.
    pub open spec fn write_ok(pre: Self, post: Self, name: Seq<u8>, content: Seq<u8>) -> bool {
        let f = profile_entry_name(name);
        &&& post.entry_names() == pre.entry_names()
        &&& post.has_entry(f)
        &&& post.content_of(f) == content
        &&& (forall|n: Seq<u8>|
            n != f && #[trigger] pre.has_entry(n) ==> post.has_entry(n) && post.content_of(n)
                == pre.content_of(n))
        &&& post.link == pre.link
        &&& (pre.linked_to(f) ==> post.link_content() == content)
        &&& (pre.link is Some && pre.link->0 as int != pre.entry_ino(f)
            ==> post.link_content() == pre.link_content())
    }

    /// What the one-time migration did: the unmanaged configuration's bytes
    /// became the profile `config`, the pointer file names `config`, and
    /// `config.toml` is hard-linked to the new profile's file.
    pub open spec fn migrated(pre: Self, post: Self) -> bool {
        &&& post.has_entry(config_file())
        &&& post.content_of(config_file()) == pre.link_content()
        &&& post.pointer_exists()
        &&& post.pointer_content() == config_profile()
        &&& post.linked_to(config_file())
        &&& post.link_content() == pre.link_content()
        &&& (forall|n: Seq<u8>|
            n != reserved_name() && n != config_file() ==> ((#[trigger] post.has_entry(n))
                <==> pre.has_entry(n)))
        &&& (forall|n: Seq<u8>|
            n != reserved_name() && n != config_file() && #[trigger] pre.has_entry(n)
                ==> post.content_of(n) == pre.content_of(n))
    }

    /// In a well-formed store, the entry at position `i` is the one found for
    /// its own name.
    pub proof fn lemma_index_is_entry(self, i: int)
        requires
            self.wf(),
            0 <= i < self.entries@.len(),
        ensures
            self.has_entry(self.entries@[i].name@),
            self.entry_index(self.entries@[i].name@) == i,
            self.entry_ino(self.entries@[i].name@) == self.entries@[i].ino as int,
            self.content_of(self.entries@[i].name@) == self.files@[self.entries@[i].ino as int]@,
    {
        let n = self.entries@[i].name@;
        assert(self.has_entry(n));
        let j = self.entry_index(n);
        assert(0 <= j < self.entries@.len() && self.entries@[j].name@ == n);
        if i < j {
            assert(self.entries@[i].name@ != self.entries@[j].name@);
        } else if j < i {
            assert(self.entries@[j].name@ != self.entries@[i].name@);
        }
    }

    /// No profile's backing file name is the reserved pointer-file name.
    pub proof fn lemma_profile_name_not_reserved(name: Seq<u8>)
        ensures
            profile_entry_name(name) != reserved_name(),
    {
        let f = profile_entry_name(name);
        if f == reserved_name() {
            assert(f.len() == name.len() + 5);
            assert(f[name.len() as int + 4] == names::toml_suffix()[4]);
            assert(names::toml_suffix()[4] == 108);
            assert(reserved_name()[19] == 116);
            assert(name.len() == 15);
        }
    }

    // -----------------------------------------------------------------------
    // Construction
    // -----------------------------------------------------------------------

    /// An empty store: no profiles, no pointer file, no configuration file.
    pub fn new() -> (r: Self)
        ensures
            r.wf(),
            r.entry_names() == Seq::<Seq<u8>>::empty(),
            forall|n: Seq<u8>| !r.has_entry(n),
            !r.link_present(),
    {
        let r = ProfileStore { files: Vec::new(), entries: Vec::new(), link: None };
        proof {
            assert(r.entry_names() =~= Seq::<Seq<u8>>::empty());
        }
        r
    }

    /// A store holding only a pre-existing, unmanaged configuration file with
    /// the given content: no profiles and no pointer file.
    pub fn with_unmanaged_config(content: Vec<u8>) -> (r: Self)
        ensures
            r.wf(),
            r.entry_names() == Seq::<Seq<u8>>::empty(),
            forall|n: Seq<u8>| !r.has_entry(n),
            !r.pointer_exists(),
            r.link_present(),
            r.link_content() == content@,
    {
        let mut files: Vec<Vec<u8>> = Vec::new();
        files.push(content);
        let r = ProfileStore { files, entries: Vec::new(), link: Some(0) };
        proof {
            assert(r.entry_names() =~= Seq::<Seq<u8>>::empty());
        }
        r
    }

    // -----------------------------------------------------------------------
    // Lookup
    // -----------------------------------------------------------------------

    /// The position of the entry named `name`, if any.
    fn find(&self, name: &Vec<u8>) -> (r: Option<usize>)
        ensures
            r is Some ==> r->0 < self.entries@.len() && self.entries@[r->0 as int].name@
                == name@ && self.has_entry(name@),
            r is None ==> !self.has_entry(name@),
    {
        let mut i: usize = 0;
        while i < self.entries.len()
            invariant
                i <= self.entries@.len(),
                forall|j: int| 0 <= j < i ==> (#[trigger] self.entries@[j]).name@ != name@,
            decreases self.entries@.len() - i,
        {
            if names::bytes_eq(&self.entries[i].name, name) {
                return Some(i);
            }
            i = i + 1;
        }
        None
    }

    // -----------------------------------------------------------------------
    // Operations
    // -----------------------------------------------------------------------

    /// Creates the new, empty profile `name`; fails with `AlreadyExists`, and
    /// changes nothing, if its backing file already exists.
    pub fn create(&mut self, name: &Vec<u8>) -> (r: Result<(), StoreError>)
        requires
            old(self).wf(),
            name@.len() > 0,
            name@ != reserved_name(),
        ensures
            final(self).wf(),
            old(self).has_entry(profile_entry_name(name@)) ==> r is Err
                && r->Err_0.kind == ErrorKind::AlreadyExists
                && r->Err_0.message@ == already_exists_message(profile_entry_name(name@))
                && *final(self) == *old(self),
            !old(self).has_entry(profile_entry_name(name@)) ==> r is Ok
                && Self::create_ok(*old(self), *final(self), name@),
    {
        let fname = names::profile_file_name(name);
        if self.find(&fname).is_some() {
            return Err(StoreError::new(
                ErrorKind::AlreadyExists,
                names::already_exists_message_bytes(&fname),
            ));
        }
        let ghost pre = *self;
        let ino = self.files.len();
        self.files.push(Vec::new());
        self.entries.push(Entry { name: fname, ino });
        proof {
            let f = profile_entry_name(name@);
            let last = pre.entries@.len() as int;
            assert(self.entries@[last].name@ == f);
            assert forall|i: int| 0 <= i < self.entries@.len() implies (
                #[trigger] self.entries@[i]).ino < self.files@.len() by {
                if i < last {
                    assert(pre.entries@[i].ino < pre.files@.len());
                }
            }
            assert forall|i: int, j: int| 0 <= i < j < self.entries@.len() implies (
                #[trigger] self.entries@[i]).name@ != (#[trigger] self.entries@[j]).name@ by {
                if j < last {
                    assert(pre.entries@[i].name@ != pre.entries@[j].name@);
                } else {
                    assert(self.entries@[j].name@ == f);
                    assert(pre.entries@[i].name@ != f);
                }
            }
            assert forall|i: int, j: int| 0 <= i < j < self.entries@.len() implies (
                #[trigger] self.entries@[i]).ino != (#[trigger] self.entries@[j]).ino by {
                if j < last {
                    assert(pre.entries@[i].ino != pre.entries@[j].ino);
                } else {
                    assert(pre.entries@[i].ino < pre.files@.len());
                }
            }
            assert(self.wf());
            self.lemma_index_is_entry(last);
            assert(self.content_of(f) =~= Seq::<u8>::empty());
            assert(self.entry_names() =~= pre.entry_names().push(f));
            assert forall|n: Seq<u8>| #[trigger] pre.has_entry(n) implies self.has_entry(n)
                && self.content_of(n) == pre.content_of(n) by {
                let i = pre.entry_index(n);
                assert(0 <= i < pre.entries@.len() && pre.entries@[i].name@ == n);
                pre.lemma_index_is_entry(i);
                assert(self.entries@[i].name@ == n);
                self.lemma_index_is_entry(i);
            }
            assert forall|n: Seq<u8>| #[trigger] self.has_entry(n) implies n == f
                || pre.has_entry(n) by {
                let i = self.entry_index(n);
                assert(0 <= i < self.entries@.len() && self.entries@[i].name@ == n);
                if i < last {
                    assert(pre.entries@[i].name@ == n);
                }
            }
        }
        Ok(())
    }

    /// Activates the profile `name`: writes `name` into the pointer file
    /// (creating the file first if missing, and replacing any previous
    /// content whole), removes any existing `config.toml`, and hard-links the
    /// profile's file into its place.  Fails with `NotFound` if the profile's
    /// file does not exist; the pointer was then already written and the old
    /// link already removed.
    #[verifier::rlimit(100)]
    pub fn switch(&mut self, name: &Vec<u8>) -> (r: Result<(), StoreError>)
        requires
            old(self).wf(),
        ensures
            final(self).wf(),
            old(self).has_entry(profile_entry_name(name@)) ==> r is Ok
                && Self::switch_ok(*old(self), *final(self), name@),
            !old(self).has_entry(profile_entry_name(name@)) ==> r is Err
                && r->Err_0.kind == ErrorKind::NotFound
                && r->Err_0.message@ == not_exist_message(name@)
                && Self::switch_failed(*old(self), *final(self), name@),
    {
        let ghost pre = *self;
        let reserved = names::reserved_file_name();

        // Ensure the pointer file exists.
        let ptr_ino: usize;
        match self.find(&reserved) {
            Some(i) => {
                ptr_ino = self.entries[i].ino;
                proof {
                    self.lemma_index_is_entry(i as int);
                }
            },
            None => {
                ptr_ino = self.files.len();
                let rname = names::copy_bytes(&reserved);
                self.files.push(Vec::new());
                self.entries.push(Entry { name: rname, ino: ptr_ino });
                proof {
                    let last = pre.entries@.len() as int;
                    assert forall|i: int, j: int| 0 <= i < j < self.entries@.len() implies (
                        #[trigger] self.entries@[i]).name@ != (
                    #[trigger] self.entries@[j]).name@ by {
                        if j < last {
                            assert(pre.entries@[i].name@ != pre.entries@[j].name@);
                        } else {
                            assert(self.entries@[j].name@ == reserved_name());
                            assert(pre.entries@[i].name@ == self.entries@[i].name@);
                            assert(!pre.has_entry(reserved_name()));
                        }
                    }
                    assert forall|i: int, j: int| 0 <= i < j < self.entries@.len() implies (
                        #[trigger] self.entries@[i]).ino != (#[trigger] self.entries@[j]).ino by {
                        if j < last {
                            assert(pre.entries@[i].ino != pre.entries@[j].ino);
                        } else {
                            assert(pre.entries@[i].ino < pre.files@.len());
                        }
                    }
                    assert(self.wf());
                    self.lemma_index_is_entry(last);
                }
            },
        }
        let ghost mid1 = *self;
        proof {
            assert(mid1.wf());
            assert(mid1.has_entry(reserved_name()));
            assert(mid1.entries@[mid1.entry_index(reserved_name())].ino == ptr_ino);
            assert(ptr_ino < mid1.files@.len());
            // Every entry of `pre` is still here, with its content, and at
            // most the pointer entry was added.
            assert forall|n: Seq<u8>| #[trigger] pre.has_entry(n) implies mid1.has_entry(n)
                && mid1.content_of(n) == pre.content_of(n)
                && mid1.entries@[mid1.entry_index(n)].ino == pre.entries@[pre.entry_index(
                n)].ino by {
                let i = pre.entry_index(n);
                assert(0 <= i < pre.entries@.len() && pre.entries@[i].name@ == n);
                pre.lemma_index_is_entry(i);
                assert(mid1.entries@[i].name@ == n);
                mid1.lemma_index_is_entry(i);
            }
            assert forall|n: Seq<u8>| n != reserved_name() && #[trigger] mid1.has_entry(n)
                implies pre.has_entry(n) by {
                let i = mid1.entry_index(n);
                assert(0 <= i < mid1.entries@.len() && mid1.entries@[i].name@ == n);
                if i < pre.entries@.len() {
                    assert(pre.entries@[i].name@ == n);
                }
            }
        }

        // Overwrite the pointer file's content with the name, whole.
        self.files[ptr_ino] = names::copy_bytes(name);
        let ghost mid2 = *self;
        proof {
            assert(mid2.wf());
            assert(mid2.entry_names() =~= mid1.entry_names());
            assert(mid2.entry_index(reserved_name()) == mid1.entry_index(reserved_name()));
            assert(mid2.pointer_content() == name@);
            // Profile entries keep their contents: their inodes differ from
            // the pointer entry's inode.
            assert forall|n: Seq<u8>| n != reserved_name() && #[trigger] mid1.has_entry(n)
                implies mid2.has_entry(n) && mid2.content_of(n) == mid1.content_of(n)
                && mid2.entries@[mid2.entry_index(n)].ino == mid1.entries@[mid1.entry_index(
                n)].ino by {
                let i = mid1.entry_index(n);
                assert(0 <= i < mid1.entries@.len() && mid1.entries@[i].name@ == n);
                mid1.lemma_index_is_entry(i);
                mid2.lemma_index_is_entry(i);
                let p = mid1.entry_index(reserved_name());
                if i < p {
                    assert(mid1.entries@[i].ino != mid1.entries@[p].ino);
                } else if p < i {
                    assert(mid1.entries@[p].ino != mid1.entries@[i].ino);
                } else {
                    assert(mid1.entries@[i].name@ == reserved_name());
                }
            }
            assert forall|n: Seq<u8>| #[trigger] mid2.has_entry(n) implies mid1.has_entry(
                n) by {
                let i = mid2.entry_index(n);
                assert(0 <= i < mid2.entries@.len() && mid2.entries@[i].name@ == n);
                mid1.lemma_index_is_entry(i);
            }
        }

        // Remove the existing configuration file, if present.
        self.link = None;

        // Hard-link the named profile's file into place.
        let fname = names::profile_file_name(name);
        proof {
            Self::lemma_profile_name_not_reserved(name@);
        }
        match self.find(&fname) {
            Some(i) => {
                let ino = self.entries[i].ino;
                proof {
                    self.lemma_index_is_entry(i as int);
                }
                self.link = Some(ino);
                proof {
                    assert(self.wf());
                    assert(self.entry_index(profile_entry_name(name@)) == i as int);
                    assert(self.linked_to(profile_entry_name(name@)));
                    assert(self.link_content() == mid2.content_of(profile_entry_name(name@)));
                    assert(pre.has_entry(profile_entry_name(name@)));
                    assert(self.link_content() == pre.content_of(profile_entry_name(name@)));
                    assert(Self::same_profiles(pre, *self));
                }
                Ok(())
            },
            None => {
                proof {
                    assert(!pre.has_entry(profile_entry_name(name@)));
                    assert(Self::same_profiles(pre, *self));
                }
                Err(StoreError::new(ErrorKind::NotFound, names::not_exist_message_bytes(name)))
            },
        }
    }

    /// The displayed names of all profiles, in directory order, the reserved
    /// pointer-file name left out.  Fails with `NotFound` if the pointer file
    /// has never been created.
    pub fn list(&self) -> (r: Result<Vec<Vec<u8>>, StoreError>)
        requires
            self.wf(),
        ensures
            self.pointer_exists() ==> r is Ok && views_of(r->Ok_0@) == listed_names(
                self.entry_names()),
            !self.pointer_exists() ==> r is Err && r->Err_0.kind == ErrorKind::NotFound
                && r->Err_0.message@ == not_exist_message(reserved_name()),
    {
        let reserved = names::reserved_file_name();
        if self.find(&reserved).is_none() {
            return Err(StoreError::new(
                ErrorKind::NotFound,
                names::not_exist_message_bytes(&reserved),
            ));
        }
        let mut file_names: Vec<Vec<u8>> = Vec::new();
        let mut i: usize = 0;
        while i < self.entries.len()
            invariant
                i <= self.entries@.len(),
                views_of(file_names@) == self.entry_names().subrange(0, i as int),
            decreases self.entries@.len() - i,
        {
            let ghost fns_pre = file_names@;
            proof {
                assert(views_of(fns_pre).len() == fns_pre.len());
                assert(fns_pre.len() == i as int);
            }
            let copied = names::copy_bytes(&self.entries[i].name);
            file_names.push(copied);
            proof {
                assert(file_names@ == fns_pre.push(copied));
                assert forall|j: int| 0 <= j < i as int + 1 implies views_of(file_names@)[j]
                    == self.entry_names().subrange(0, i as int + 1)[j] by {
                    if j < i as int {
                        assert(views_of(fns_pre)[j] == self.entry_names().subrange(0, i as int)[j]);
                        assert(file_names@[j] == fns_pre[j]);
                    } else {
                        assert(file_names@[j] == copied);
                        assert(copied@ == self.entries@[i as int].name@);
                    }
                }
                assert(views_of(file_names@) =~= self.entry_names().subrange(0, i as int + 1));
            }
            i = i + 1;
        }
        proof {
            assert(views_of(file_names@) =~= self.entry_names());
        }
        Ok(names::filtered_names(&file_names))
    }

    /// Deletes the profile `name`'s backing file.  Fails with `NotFound`, and
    /// a message naming the profile, if it does not exist.  The configuration
    /// link is not touched: removing the active profile leaves the linked
    /// data reachable through `config.toml`.
    pub fn remove(&mut self, name: &Vec<u8>) -> (r: Result<(), StoreError>)
        requires
            old(self).wf(),
        ensures
            final(self).wf(),
            !old(self).has_entry(profile_entry_name(name@)) ==> r is Err
                && r->Err_0.kind == ErrorKind::NotFound
                && r->Err_0.message@ == not_exist_message(name@)
                && *final(self) == *old(self),
            old(self).has_entry(profile_entry_name(name@)) ==> r is Ok
                && Self::remove_ok(*old(self), *final(self), name@),
    {
        let fname = names::profile_file_name(name);
        match self.find(&fname) {
            None => Err(StoreError::new(ErrorKind::NotFound, names::not_exist_message_bytes(
                name))),
            Some(i) => {
                let ghost pre = *self;
                proof {
                    self.lemma_index_is_entry(i as int);
                }
                self.entries.remove(i);
                proof {
                    let f = profile_entry_name(name@);
                    assert(pre.entry_index(f) == i as int);
                    assert forall|a: int, b: int| 0 <= a < b < self.entries@.len() implies (
                        #[trigger] self.entries@[a]).name@ != (
                    #[trigger] self.entries@[b]).name@ by {
                        let pa: int = if a < i as int { a } else { a + 1 };
                        let pb: int = if b < i as int { b } else { b + 1 };
                        assert(self.entries@[a] == pre.entries@[pa]);
                        assert(self.entries@[b] == pre.entries@[pb]);
                        assert(pre.entries@[pa].name@ != pre.entries@[pb].name@);
                    }
                    assert forall|a: int, b: int| 0 <= a < b < self.entries@.len() implies (
                        #[trigger] self.entries@[a]).ino != (#[trigger] self.entries@[b]).ino by {
                        let pa: int = if a < i as int { a } else { a + 1 };
                        let pb: int = if b < i as int { b } else { b + 1 };
                        assert(self.entries@[a] == pre.entries@[pa]);
                        assert(self.entries@[b] == pre.entries@[pb]);
                        assert(pre.entries@[pa].ino != pre.entries@[pb].ino);
                    }
                    assert forall|a: int| 0 <= a < self.entries@.len() implies (
                        #[trigger] self.entries@[a]).ino < self.files@.len() by {
                        let pa: int = if a < i as int { a } else { a + 1 };
                        assert(self.entries@[a] == pre.entries@[pa]);
                        assert(pre.entries@[pa].ino < pre.files@.len());
                    }
                    assert(self.wf());
                    assert(!self.has_entry(f)) by {
                        if self.has_entry(f) {
                            let a = self.entry_index(f);
                            assert(0 <= a < self.entries@.len() && self.entries@[a].name@ == f);
                            let pa: int = if a < i as int { a } else { a + 1 };
                            assert(self.entries@[a] == pre.entries@[pa]);
                            assert(pa != i as int);
                            if pa < i as int {
                                assert(pre.entries@[pa].name@ != pre.entries@[i as int].name@);
                            } else {
                                assert(pre.entries@[i as int].name@ != pre.entries@[pa].name@);
                            }
                        }
                    }
                    assert(self.entry_names() =~= pre.entry_names().remove(i as int));
                    assert forall|n: Seq<u8>| n != f && #[trigger] pre.has_entry(n) implies
                        self.has_entry(n) && self.content_of(n) == pre.content_of(n) by {
                        let pa = pre.entry_index(n);
                        assert(0 <= pa < pre.entries@.len() && pre.entries@[pa].name@ == n);
                        pre.lemma_index_is_entry(pa);
                        assert(pa != i as int);
                        let a: int = if pa < i as int { pa } else { pa - 1 };
                        assert(self.entries@[a] == pre.entries@[pa]);
                        self.lemma_index_is_entry(a);
                    }
                    assert forall|n: Seq<u8>| #[trigger] self.has_entry(n) implies
                        pre.has_entry(n) by {
                        let a = self.entry_index(n);
                        assert(0 <= a < self.entries@.len() && self.entries@[a].name@ == n);
                        let pa: int = if a < i as int { a } else { a + 1 };
                        assert(self.entries@[a] == pre.entries@[pa]);
                    }
                }
                Ok(())
            },
        }
    }

    /// Replaces the content of the profile `name`'s backing file in place,
    /// as an editor saving the file does.  A hard link to the file — the
    /// active `config.toml` — reads the new content immediately.  Fails with
    /// `NotFound` if the profile does not exist.
    pub fn write_profile(&mut self, name: &Vec<u8>, content: &Vec<u8>) -> (r: Result<
        (),
        StoreError,
    >)
        requires
            old(self).wf(),
        ensures
            final(self).wf(),
            !old(self).has_entry(profile_entry_name(name@)) ==> r is Err
                && r->Err_0.kind == ErrorKind::NotFound
                && r->Err_0.message@ == not_exist_message(name@)
                && *final(self) == *old(self),
            old(self).has_entry(profile_entry_name(name@)) ==> r is Ok
                && Self::write_ok(*old(self), *final(self), name@, content@),
    {
        let fname = names::profile_file_name(name);
        match self.find(&fname) {
            None => Err(StoreError::new(ErrorKind::NotFound, names::not_exist_message_bytes(
                name))),
            Some(i) => {
                let ghost pre = *self;
                let ino = self.entries[i].ino;
                proof {
                    self.lemma_index_is_entry(i as int);
                }
                self.files[ino] = names::copy_bytes(content);
                proof {
                    let f = profile_entry_name(name@);
                    assert(self.wf());
                    assert(self.entry_names() =~= pre.entry_names());
                    assert(self.entry_index(f) == i as int);
                    assert(self.content_of(f) == content@);
                    assert forall|n: Seq<u8>| n != f && #[trigger] pre.has_entry(n) implies
                        self.has_entry(n) && self.content_of(n) == pre.content_of(n) by {
                        let pa = pre.entry_index(n);
                        assert(0 <= pa < pre.entries@.len() && pre.entries@[pa].name@ == n);
                        pre.lemma_index_is_entry(pa);
                        self.lemma_index_is_entry(pa);
                        if pa < i as int {
                            assert(pre.entries@[pa].ino != pre.entries@[i as int].ino);
                        } else if (i as int) < pa {
                            assert(pre.entries@[i as int].ino != pre.entries@[pa].ino);
                        } else {
                            assert(pre.entries@[pa].name@ == f);
                        }
                    }
                }
                Ok(())
            },
        }
    }

    /// The one-time initialization: if the pointer file is missing but an
    /// unmanaged `config.toml` exists, its bytes become the new profile
    /// `config`, which is then activated; fails with `AlreadyExists` if a
    /// `config` profile already exists.  Otherwise nothing is done.
    pub fn initialise(&mut self) -> (r: Result<(), StoreError>)
        requires
            old(self).wf(),
        ensures
            final(self).wf(),
            old(self).pointer_exists() ==> r is Ok && *final(self) == *old(self),
            !old(self).pointer_exists() && !old(self).link_present() ==> r is Ok && *final(self)
                == *old(self),
            !old(self).pointer_exists() && old(self).link_present() && old(self).has_entry(
                config_file()) ==> r is Err && r->Err_0.kind == ErrorKind::AlreadyExists
                && r->Err_0.message@ == already_exists_message(config_file())
                && *final(self) == *old(self),
            !old(self).pointer_exists() && old(self).link_present() && !old(self).has_entry(
                config_file()) ==> r is Ok && Self::migrated(*old(self), *final(self)),
    {
        let ghost pre = *self;
        let reserved = names::reserved_file_name();
        if self.find(&reserved).is_some() {
            return Ok(());
        }
        let link_ino: usize;
        match self.link {
            None => {
                return Ok(());
            },
            Some(i) => {
                link_ino = i;
            },
        }
        let cfg_profile = names::config_profile_name();
        let cfg_entry = names::profile_file_name(&cfg_profile);
        if self.find(&cfg_entry).is_some() {
            return Err(StoreError::new(
                ErrorKind::AlreadyExists,
                names::already_exists_message_bytes(&cfg_entry),
            ));
        }
        // Copy the unmanaged configuration's bytes into the new profile file.
        let content = names::copy_bytes(&self.files[link_ino]);
        let ino = self.files.len();
        self.files.push(content);
        self.entries.push(Entry { name: cfg_entry, ino });
        proof {
            let last = pre.entries@.len() as int;
            assert forall|i: int, j: int| 0 <= i < j < self.entries@.len() implies (
                #[trigger] self.entries@[i]).name@ != (#[trigger] self.entries@[j]).name@ by {
                if j < last {
                    assert(pre.entries@[i].name@ != pre.entries@[j].name@);
                } else {
                    assert(self.entries@[j].name@ == config_file());
                    assert(pre.entries@[i].name@ == self.entries@[i].name@);
                    assert(!pre.has_entry(config_file()));
                }
            }
            assert forall|i: int, j: int| 0 <= i < j < self.entries@.len() implies (
                #[trigger] self.entries@[i]).ino != (#[trigger] self.entries@[j]).ino by {
                if j < last {
                    assert(pre.entries@[i].ino != pre.entries@[j].ino);
                } else {
                    assert(pre.entries@[i].ino < pre.files@.len());
                }
            }
            assert(self.wf());
            self.lemma_index_is_entry(last);
            assert(self.content_of(config_file()) == pre.link_content());
            assert(self.has_entry(config_file()));
        }
        let ghost mid = *self;
        proof {
            // The entries of `pre` carry over unchanged.
            assert forall|n: Seq<u8>| #[trigger] pre.has_entry(n) implies mid.has_entry(n)
                && mid.content_of(n) == pre.content_of(n) by {
                let i = pre.entry_index(n);
                assert(0 <= i < pre.entries@.len() && pre.entries@[i].name@ == n);
                pre.lemma_index_is_entry(i);
                mid.lemma_index_is_entry(i);
            }
            assert forall|n: Seq<u8>| #[trigger] mid.has_entry(n) implies n == config_file()
                || pre.has_entry(n) by {
                let i = mid.entry_index(n);
                assert(0 <= i < mid.entries@.len() && mid.entries@[i].name@ == n);
                if i < pre.entries@.len() {
                    assert(pre.entries@[i].name@ == n);
                }
            }
        }
        // Activate the new profile.
        let res = self.switch(&cfg_profile);
        proof {
            assert(mid.has_entry(profile_entry_name(config_profile())));
            assert(res is Ok);
            assert(Self::switch_ok(mid, *self, config_profile()));
            Self::lemma_profile_name_not_reserved(config_profile());
            assert(Self::migrated(pre, *self)) by {
                assert(self.content_of(config_file()) == mid.content_of(config_file()));
                assert(self.link_content() == mid.content_of(config_file()));
                assert forall|n: Seq<u8>|
                    n != reserved_name() && n != config_file() implies ((
                #[trigger] self.has_entry(n)) <==> pre.has_entry(n)) by {
                    if self.has_entry(n) {
                        assert(mid.has_entry(n));
                    }
                    if pre.has_entry(n) {
                        assert(mid.has_entry(n));
                        assert(self.has_entry(n));
                    }
                }
                assert forall|n: Seq<u8>|
                    n != reserved_name() && n != config_file() && #[trigger] pre.has_entry(n)
                    implies self.content_of(n) == pre.content_of(n) by {
                    assert(mid.has_entry(n));
                    assert(self.content_of(n) == mid.content_of(n));
                }
            }
        }
        match res {
            Ok(()) => Ok(()),
            Err(e) => Err(e),
        }
    }

    // -----------------------------------------------------------------------
    // Observers
    // -----------------------------------------------------------------------

    /// Whether the profile `name`'s backing file exists.
    pub fn profile_exists(&self, name: &Vec<u8>) -> (r: bool)
        ensures
            r == self.has_entry(profile_entry_name(name@)),
    {
        let fname = names::profile_file_name(name);
        self.find(&fname).is_some()
    }

    /// The content of the profile `name`'s backing file, if it exists.
    pub fn profile_content(&self, name: &Vec<u8>) -> (r: Option<Vec<u8>>)
        requires
            self.wf(),
        ensures
            self.has_entry(profile_entry_name(name@)) ==> r is Some && r->0@ == self.content_of(
                profile_entry_name(name@)),
            !self.has_entry(profile_entry_name(name@)) ==> r is None,
    {
        let fname = names::profile_file_name(name);
        match self.find(&fname) {
            None => None,
            Some(i) => {
                proof {
                    self.lemma_index_is_entry(i as int);
                }
                let ino = self.entries[i].ino;
                Some(names::copy_bytes(&self.files[ino]))
            },
        }
    }

    /// Whether the package manager's `config.toml` exists.
    pub fn has_active_config(&self) -> (r: bool)
        ensures
            r == self.link_present(),
    {
        self.link.is_some()
    }

    /// The content read through the package manager's `config.toml`, if it
    /// exists.
    pub fn active_config_content(&self) -> (r: Option<Vec<u8>>)
        requires
            self.wf(),
        ensures
            self.link_present() ==> r is Some && r->0@ == self.link_content(),
            !self.link_present() ==> r is None,
    {
        match self.link {
            None => None,
            Some(i) => Some(names::copy_bytes(&self.files[i])),
        }
    }

    /// The content of the pointer file — the active profile's name — if the
    /// pointer file exists.
    pub fn active_pointer(&self) -> (r: Option<Vec<u8>>)
        requires
            self.wf(),
        ensures
            self.pointer_exists() ==> r is Some && r->0@ == self.pointer_content(),
            !self.pointer_exists() ==> r is None,
    {
        let reserved = names::reserved_file_name();
        match self.find(&reserved) {
            None => None,
            Some(i) => {
                proof {
                    self.lemma_index_is_entry(i as int);
                }
                let ino = self.entries[i].ino;
                Some(names::copy_bytes(&self.files[ino]))
            },
        }
    }
}

} // verus!
