//! The unofficial extras subscriber protocol: filling in the host's
//! version-tagged subscriber record.
//!
//! The record is a header (`info_version` and an unused word) followed by
//! pointer-sized fields. Each version extends the one before it: version 1
//! holds the subscriber name, the squad update, language changed and key bind
//! changed callbacks; version 2 adds the chat message callback; version 3 the
//! second chat message callback. A field holds an address, zero for absent.
use vstd::prelude::*;

verus! {

/// The protocol revision this subscriber speaks.
pub const EXTRAS_API_VERSION: u32 = 2;

/// The newest record version this subscriber fills in.
pub const MAX_INFO_VERSION: u32 = 3;

/// What the extras host says of itself.
#[derive(Clone, Copy, Debug, PartialEq, Eq, Structural)]
pub struct AddonInfo {
    pub api_version: u32,
    pub max_info_version: u32,
}

/// The host's subscriber record: the header, then the fields of the largest
/// version the host reported.
#[derive(Debug)]
pub struct SubscriberInfo {
    pub info_version: u32,
    pub unused: u32,
    pub fields: Vec<u64>,
}

/// The addresses that the subscriber hands out; zero stands for absent.
#[derive(Clone, Copy, Debug, PartialEq, Eq, Structural)]
pub struct ExtrasAddresses {
    pub name: u64,
    pub squad_update: u64,
    pub chat_message: u64,
    pub chat_message2: u64,
}

/// The number of fields after the header in a record of version `v`.
pub open spec fn field_count(v: u32) -> int {
    if v <= 1 {
        4
    } else if v == 2 {
        5
    } else {
        6
    }
}

/// The version filled in for a host that reads versions up to `max`.
pub open spec fn tier(max: u32) -> u32 {
    if max >= MAX_INFO_VERSION {
        MAX_INFO_VERSION
    } else {
        max
    }
}

/// Whether the host accepts this subscriber at all.
pub open spec fn accepted(addon: AddonInfo) -> bool {
    addon.api_version == EXTRAS_API_VERSION && addon.max_info_version >= 1
}

/// The value of the field at position `j` after the header.
pub open spec fn field_value(a: ExtrasAddresses, j: int) -> u64 {
    if j == 0 {
        a.name
    } else if j == 1 {
        a.squad_update
    } else if j == 4 {
        a.chat_message
    } else if j == 5 {
        a.chat_message2
    } else {
        0
    }
}

/// Whether `after` is `before` filled in as a record of version `v`: the tag is
/// `v`, the fields of version `v` hold their values, and everything else is
/// as it was.
pub open spec fn populated(before: SubscriberInfo, after: SubscriberInfo, v: u32, a: ExtrasAddresses) -> bool {
    &&& after.info_version == v
    &&& after.unused == before.unused
    &&& after.fields@.len() == before.fields@.len()
    &&& forall|j: int|
        0 <= j < after.fields@.len() ==> #[trigger] after.fields@[j] == if j < field_count(v) {
            field_value(a, j)
        } else {
            before.fields@[j]
        }
}

/// How many fields after the header the subscriber writes for this host:
/// those of the version it fills in, none where the host is refused.
pub fn fields_to_fill(addon: &AddonInfo) -> (r: usize)
    ensures
        r == if accepted(*addon) {
            field_count(tier(addon.max_info_version))
        } else {
            0
        },
{
    if addon.api_version != EXTRAS_API_VERSION || addon.max_info_version < 1 {
        0
    } else if addon.max_info_version == 1 {
        4
    } else if addon.max_info_version == 2 {
        5
    } else {
        6
    }
}

fn populate_v1(sub: &mut SubscriberInfo, a: &ExtrasAddresses)
    requires
        old(sub).fields@.len() >= field_count(1),
    ensures
        populated(*old(sub), *final(sub), 1, *a),
{
    sub.info_version = 1;
    sub.fields.set(0, a.name);
    sub.fields.set(1, a.squad_update);
    sub.fields.set(2, 0);
    sub.fields.set(3, 0);
}

fn populate_v2(sub: &mut SubscriberInfo, a: &ExtrasAddresses)
    requires
        old(sub).fields@.len() >= field_count(2),
    ensures
        populated(*old(sub), *final(sub), 2, *a),
{
    populate_v1(sub, a);
    sub.info_version = 2;
    sub.fields.set(4, a.chat_message);
}

fn populate_v3(sub: &mut SubscriberInfo, a: &ExtrasAddresses)
    requires
        old(sub).fields@.len() >= field_count(3),
    ensures
        populated(*old(sub), *final(sub), 3, *a),
{
    populate_v2(sub, a);
    sub.info_version = 3;
    sub.fields.set(5, a.chat_message2);
}

/// The subscriber's side of the extras handshake. A host with another
/// protocol revision, or one that reads no record version, gets no write at
/// all; any other gets the newest version it reads, up to version 3. Returns
/// whether the record was filled in, which is when the idiomatic init hook
/// runs.
pub fn subscriber_init(addon: &AddonInfo, sub: &mut SubscriberInfo, a: &ExtrasAddresses) -> (r:
    bool)
    requires
        accepted(*addon) ==> old(sub).fields@.len() >= field_count(tier(addon.max_info_version)),
    ensures
        r == accepted(*addon),
        !r ==> *final(sub) == *old(sub),
        r ==> populated(*old(sub), *final(sub), tier(addon.max_info_version), *a),
{
    if addon.api_version != EXTRAS_API_VERSION {
        return false;
    }
    if addon.max_info_version < 1 {
        return false;
    }
    if addon.max_info_version == 1 {
        populate_v1(sub, a);
    } else if addon.max_info_version == 2 {
        populate_v2(sub, a);
    } else {
        populate_v3(sub, a);
    }
    true
}

/// Each version's writes include the writes of the one before it: filling in
/// version 2 leaves the version 1 fields as version 1 leaves them, and
/// version 3 leaves the version 2 fields as version 2 leaves them.
pub proof fn lemma_versions_nest(
    before: SubscriberInfo,
    s1: SubscriberInfo,
    s2: SubscriberInfo,
    s3: SubscriberInfo,
    a: ExtrasAddresses,
)
    requires
        populated(before, s1, 1, a),
        populated(before, s2, 2, a),
        populated(before, s3, 3, a),
    ensures
        s2.fields@.subrange(0, field_count(1)) == s1.fields@.subrange(0, field_count(1))
            || before.fields@.len() < field_count(1),
        s3.fields@.subrange(0, field_count(2)) == s2.fields@.subrange(0, field_count(2))
            || before.fields@.len() < field_count(2),
        s1.unused == s2.unused && s2.unused == s3.unused,
{
    if before.fields@.len() >= field_count(1) {
        assert(s2.fields@.subrange(0, 4) =~= s1.fields@.subrange(0, 4));
    }
    if before.fields@.len() >= field_count(2) {
        assert(s3.fields@.subrange(0, 5) =~= s2.fields@.subrange(0, 5));
    }
}

} // verus!
