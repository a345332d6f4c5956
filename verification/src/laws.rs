//! Proved laws relating the operations of the profile store.
//!
//! Each law is stated over the transition predicates that the operations'
//! own contracts establish, so it holds of any sequence of calls.

use vstd::prelude::*;

use crate::names::{
    config_file, config_profile, display_name_spec, listed_names, not_exist_message,
    profile_entry_name, reserved_name,
};
use crate::store::ProfileStore;

verus! {

/// Creating a profile and then creating the same profile again must fail:
/// after a successful `create(name)` the backing file exists, and `create`
/// returns `AlreadyExists` — changing nothing — exactly when the backing
/// file exists.
pub proof fn lemma_create_twice_fails(pre: ProfileStore, post: ProfileStore, name: Seq<u8>)
    requires
        ProfileStore::create_ok(pre, post, name),
    ensures
        post.has_entry(profile_entry_name(name)),
{
}

/// Round trip through the link: after `create(name)` and a successful
/// `switch(name)`, the package manager's configuration file reads content
/// byte-identical to the profile's own file.
pub proof fn lemma_create_switch_round_trip(
    s0: ProfileStore,
    s1: ProfileStore,
    s2: ProfileStore,
    name: Seq<u8>,
)
    requires
        ProfileStore::create_ok(s0, s1, name),
        ProfileStore::switch_ok(s1, s2, name),
    ensures
        s2.link_content() == s2.content_of(profile_entry_name(name)),
        s2.link_content() == s1.content_of(profile_entry_name(name)),
{
}

/// Switching to `a` and then to `b` leaves the configuration file — of which
/// the store holds at most one by construction — hard-linked to `b`'s
/// profile file, and the pointer file holding exactly `b`: the old pointer
/// content is replaced whole, never appended to.
pub proof fn lemma_switch_switch(
    s0: ProfileStore,
    s1: ProfileStore,
    s2: ProfileStore,
    a: Seq<u8>,
    b: Seq<u8>,
)
    requires
        ProfileStore::switch_ok(s0, s1, a),
        ProfileStore::switch_ok(s1, s2, b),
    ensures
        s2.link_present(),
        s2.linked_to(profile_entry_name(b)),
        s2.pointer_content() == b,
        s2.link_content() == s1.content_of(profile_entry_name(b)),
{
}

/// The `NotFound` message for a missing profile names the profile: the
/// message begins with the name itself.
pub proof fn lemma_not_exist_message_names_profile(name: Seq<u8>)
    ensures
        not_exist_message(name).subrange(0, name.len() as int) == name,
{
    assert(not_exist_message(name).subrange(0, name.len() as int) =~= name);
}

/// A listing never shows the reserved pointer-file name, however many
/// profiles exist: no element of `listed_names` — which `list` returns
/// exactly — is the reserved name.
pub proof fn lemma_listing_excludes_reserved(entries: Seq<Seq<u8>>)
    ensures
        !listed_names(entries).contains(reserved_name()),
    decreases entries.len(),
{
    if entries.len() == 0 {
    } else {
        lemma_listing_excludes_reserved(entries.drop_first());
        let d = display_name_spec(entries.first());
        let rest = listed_names(entries.drop_first());
        if d != reserved_name() {
            let l = seq![d] + rest;
            if l.contains(reserved_name()) {
                let i = choose|i: int| 0 <= i < l.len() && l[i] == reserved_name();
                if i == 0 {
                    assert(d == reserved_name());
                } else {
                    assert(rest[i - 1] == reserved_name());
                    assert(rest.contains(reserved_name()));
                }
            }
        }
    }
}

/// Migration of a pre-existing unmanaged configuration file: afterwards the
/// profile `config` holds the original file's bytes, the pointer file holds
/// `config`, and the configuration file is hard-linked to the new profile's
/// file.
pub proof fn lemma_migration(pre: ProfileStore, post: ProfileStore)
    requires
        ProfileStore::migrated(pre, post),
    ensures
        post.has_entry(config_file()),
        post.content_of(config_file()) == pre.link_content(),
        post.pointer_content() == config_profile(),
        post.linked_to(config_file()),
        post.link_content() == pre.link_content(),
{
}

/// The full activation scenario over two profiles with distinct contents:
/// after writing `ca` into `a` and `cb` into `b`, switching to `a` makes the
/// configuration file read `ca`; switching on to `b` makes it read `cb`,
/// while `a`'s own file — no longer reachable through the package manager's
/// path, of which the store holds at most one — still holds `ca`.
pub proof fn lemma_alternating_switches_read_each_profile(
    s0: ProfileStore,
    s1: ProfileStore,
    s2: ProfileStore,
    s3: ProfileStore,
    s4: ProfileStore,
    a: Seq<u8>,
    b: Seq<u8>,
    ca: Seq<u8>,
    cb: Seq<u8>,
)
    requires
        a != b,
        ProfileStore::write_ok(s0, s1, a, ca),
        ProfileStore::write_ok(s1, s2, b, cb),
        ProfileStore::switch_ok(s2, s3, a),
        ProfileStore::switch_ok(s3, s4, b),
    ensures
        s3.link_content() == ca,
        s4.link_content() == cb,
        s4.linked_to(profile_entry_name(b)),
        s4.content_of(profile_entry_name(a)) == ca,
{
    let fa = profile_entry_name(a);
    let fb = profile_entry_name(b);
    assert(fa != fb) by {
        if fa == fb {
            crate::names::lemma_profile_entry_name_injective(a, b);
        }
    }
    ProfileStore::lemma_profile_name_not_reserved(a);
    ProfileStore::lemma_profile_name_not_reserved(b);
    assert(s2.content_of(fa) == ca);
    assert(s3.link_content() == ca);
    assert(s2.content_of(fb) == cb);
    assert(s3.content_of(fb) == cb);
    assert(s4.link_content() == cb);
    assert(s3.content_of(fa) == ca);
    assert(s4.content_of(fa) == ca);
}

/// The activation link is a hard link, not a copy: writing the active
/// profile's file in place is immediately visible through the package
/// manager's configuration file, without switching again.
pub proof fn lemma_edit_active_profile_visible(
    pre: ProfileStore,
    post: ProfileStore,
    name: Seq<u8>,
    content: Seq<u8>,
)
    requires
        pre.linked_to(profile_entry_name(name)),
        ProfileStore::write_ok(pre, post, name, content),
    ensures
        post.link_content() == content,
{
}

} // verus!
