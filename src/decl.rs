//! The declaration: an unordered `name: value` list, validated into one
//! binding per slot.
use vstd::prelude::*;
use crate::slot::{Binding, SlotId, SLOT_COUNT};
use crate::text::text_is;

verus! {

/// One `name: value` entry of a declaration.
pub struct Field<E> {
    /// The entry's name; `None` for an unnamed (positional) member.
    pub member: Option<String>,
    /// The entry's value.
    pub expr: E,
    /// The value's text, when the value is a string literal.
    pub literal: Option<String>,
}

/// What an entry's name selects.
#[derive(Clone, Copy, Debug, PartialEq, Eq, Structural)]
pub enum Key {
    Name,
    Sig,
    Signature,
    Init,
    Release,
    Raw(SlotId),
    Safe(SlotId),
}

/// Why a declaration is refused. Each error but the last names the position
/// of the offending entry.
#[derive(Clone, Copy, Debug, PartialEq, Eq, Structural)]
pub enum DeclError {
    /// The entry has no name.
    Unnamed(usize),
    /// The entry's name selects no field.
    UnknownField(usize),
    /// The `name` entry's value is not a string literal.
    NameNotText(usize),
    /// The entry binds a slot that an earlier entry bound in the other
    /// variant; `raw` tells whether this entry is the raw one.
    Exclusive { index: usize, slot: SlotId, raw: bool },
    /// The entry gives the signature under one of its two names after an
    /// earlier entry gave it under the other.
    SignatureNamedTwice(usize),
    /// No entry gives the signature.
    MissingSignature,
}

/// The key a slot name selects, looking at the slots from position `i` on.
pub open spec fn slot_key_from(n: Seq<char>, i: int) -> Option<Key>
    decreases SLOT_COUNT - i,
{
    if i < 0 || i >= SLOT_COUNT {
        None
    } else if n == SlotId::at(i).safe_name() {
        Some(Key::Safe(SlotId::at(i)))
    } else if n == SlotId::at(i).raw_name() {
        Some(Key::Raw(SlotId::at(i)))
    } else {
        slot_key_from(n, i + 1)
    }
}

/// The key an entry name selects. The signature is accepted under its short
/// name `sig` or under `signature`, but not under both in one declaration.
pub open spec fn key_of(n: Seq<char>) -> Option<Key> {
    if n == "name"@ {
        Some(Key::Name)
    } else if n == "sig"@ {
        Some(Key::Sig)
    } else if n == "signature"@ {
        Some(Key::Signature)
    } else if n == "init"@ {
        Some(Key::Init)
    } else if n == "release"@ {
        Some(Key::Release)
    } else {
        slot_key_from(n, 0)
    }
}

pub open spec fn entry_key<E>(f: Field<E>) -> Option<Key> {
    match f.member {
        Some(m) => key_of(m@),
        None => None,
    }
}

/// Whether an entry before position `i` selects `k`.
pub open spec fn bound_before<E>(fs: Seq<Field<E>>, i: int, k: Key) -> bool {
    exists|j: int| 0 <= j < i && #[trigger] entry_key(fs[j]) == Some(k)
}

/// What is wrong with the entry at position `i`, given the entries before it.
pub open spec fn fault_at<E>(fs: Seq<Field<E>>, i: int) -> Option<DeclError> {
    let f = fs[i];
    match f.member {
        None => Some(DeclError::Unnamed(i as usize)),
        Some(m) => match key_of(m@) {
            None => Some(DeclError::UnknownField(i as usize)),
            Some(Key::Name) => if f.literal is None {
                Some(DeclError::NameNotText(i as usize))
            } else {
                None
            },
            Some(Key::Raw(s)) => if bound_before(fs, i, Key::Safe(s)) {
                Some(DeclError::Exclusive { index: i as usize, slot: s, raw: true })
            } else {
                None
            },
            Some(Key::Sig) => if bound_before(fs, i, Key::Signature) {
                Some(DeclError::SignatureNamedTwice(i as usize))
            } else {
                None
            },
            Some(Key::Signature) => if bound_before(fs, i, Key::Sig) {
                Some(DeclError::SignatureNamedTwice(i as usize))
            } else {
                None
            },
            Some(Key::Safe(s)) => if bound_before(fs, i, Key::Raw(s)) {
                Some(DeclError::Exclusive { index: i as usize, slot: s, raw: false })
            } else {
                None
            },
            _ => None,
        },
    }
}

/// Whether none of the first `n` entries is at fault.
pub open spec fn clean_before<E>(fs: Seq<Field<E>>, n: int) -> bool {
    forall|j: int| 0 <= j < n ==> (#[trigger] fault_at(fs, j)) is None
}

/// The last entry that selects `k`; a later entry overrides an earlier one.
pub open spec fn last_entry<E>(fs: Seq<Field<E>>, k: Key) -> Option<Field<E>>
    decreases fs.len(),
{
    if fs.len() == 0 {
        None
    } else if entry_key(fs.last()) == Some(k) {
        Some(fs.last())
    } else {
        last_entry(fs.drop_last(), k)
    }
}

pub open spec fn last_value<E>(fs: Seq<Field<E>>, k: Key) -> Option<E> {
    match last_entry(fs, k) {
        Some(f) => Some(f.expr),
        None => None,
    }
}

/// The signature the entries give, under whichever of its names.
pub open spec fn sig_of<E>(fs: Seq<Field<E>>) -> Option<E> {
    match last_value(fs, Key::Sig) {
        Some(e) => Some(e),
        None => last_value(fs, Key::Signature),
    }
}

/// What the entries bind to a slot.
pub open spec fn binding_of<E>(fs: Seq<Field<E>>, s: SlotId) -> Binding<E> {
    match last_value(fs, Key::Raw(s)) {
        Some(e) => Binding::Raw(e),
        None => match last_value(fs, Key::Safe(s)) {
            Some(e) => Binding::Safe(e),
            None => Binding::Unbound,
        },
    }
}

/// The name the entries give, when they give one.
pub open spec fn name_of<E>(fs: Seq<Field<E>>) -> Option<String> {
    match last_entry(fs, Key::Name) {
        Some(f) => f.literal,
        None => None,
    }
}

/// A validated declaration: a signature, optional name and hooks, and one
/// binding for each slot, indexed by `SlotId::index`.
pub struct Declaration<E> {
    pub name: Option<String>,
    pub sig: E,
    pub init: Option<E>,
    pub release: Option<E>,
    pub slots: Vec<Binding<E>>,
}

impl<E> Declaration<E> {
    pub open spec fn wf(&self) -> bool {
        self.slots.len() == SLOT_COUNT
    }

    pub open spec fn binding(&self, s: SlotId) -> Binding<E> {
        self.slots@[s.spec_index() as int]
    }
}

/// Whether `d` is what the fault-free entries `fs` declare.
pub open spec fn declares<E>(fs: Seq<Field<E>>, d: Declaration<E>) -> bool {
    &&& d.wf()
    &&& sig_of(fs) == Some(d.sig)
    &&& d.name == name_of(fs)
    &&& d.init == last_value(fs, Key::Init)
    &&& d.release == last_value(fs, Key::Release)
    &&& forall|s: SlotId| #[trigger] d.binding(s) == binding_of(fs, s)
}

/// The key an entry name selects.
pub fn key_for(n: &str) -> (r: Option<Key>)
    ensures
        r == key_of(n@),
{
    if text_is(n, "name") {
        return Some(Key::Name);
    }
    if text_is(n, "sig") {
        return Some(Key::Sig);
    }
    if text_is(n, "signature") {
        return Some(Key::Signature);
    }
    if text_is(n, "init") {
        return Some(Key::Init);
    }
    if text_is(n, "release") {
        return Some(Key::Release);
    }
    let mut i: usize = 0;
    while i < SLOT_COUNT
        invariant
            i <= SLOT_COUNT,
            slot_key_from(n@, 0) == slot_key_from(n@, i as int),
            key_of(n@) == slot_key_from(n@, 0),
        decreases SLOT_COUNT - i,
    {
        let s = SlotId::from_index(i);
        if text_is(n, s.safe_name_str()) {
            return Some(Key::Safe(s));
        }
        if text_is(n, s.raw_name_str()) {
            return Some(Key::Raw(s));
        }
        i += 1;
    }
    None
}

proof fn lemma_last_entry_some<E>(fs: Seq<Field<E>>, k: Key)
    ensures
        (last_entry(fs, k) is Some) == bound_before(fs, fs.len() as int, k),
    decreases fs.len(),
{
    if fs.len() > 0 {
        let p = fs.drop_last();
        lemma_last_entry_some(p, k);
        if entry_key(fs.last()) == Some(k) {
            assert(entry_key(fs[fs.len() - 1]) == Some(k));
        } else {
            if bound_before(p, p.len() as int, k) {
                let j = choose|j: int| 0 <= j < p.len() && #[trigger] entry_key(p[j]) == Some(k);
                assert(fs[j] == p[j]);
            }
            if bound_before(fs, fs.len() as int, k) {
                let j = choose|j: int| 0 <= j < fs.len() && #[trigger] entry_key(fs[j]) == Some(k);
                assert(p[j] == fs[j]);
            }
        }
    }
}

proof fn lemma_bound_prefix<E>(fs: Seq<Field<E>>, i: int, k: Key)
    requires
        0 <= i <= fs.len(),
    ensures
        bound_before(fs, i, k) == bound_before(fs.subrange(0, i), i, k),
{
    let p = fs.subrange(0, i);
    if bound_before(fs, i, k) {
        let j = choose|j: int| 0 <= j < i && #[trigger] entry_key(fs[j]) == Some(k);
        assert(p[j] == fs[j]);
    }
    if bound_before(p, i, k) {
        let j = choose|j: int| 0 <= j < i && #[trigger] entry_key(p[j]) == Some(k);
        assert(p[j] == fs[j]);
    }
}

/// Validates a declaration. The first entry at fault decides the error;
/// without one, a missing signature is the error; otherwise each field takes
/// the value of the last entry that names it. Since a slot may not be bound
/// both raw and safe, nor the signature given under both its names, entries
/// that select pairwise different fields are accepted or refused alike in
/// any order, and declare the same when accepted (`lemma_neighbours_commute`).
pub fn parse_declaration<E>(fields: Vec<Field<E>>) -> (r: Result<Declaration<E>, DeclError>)
    ensures
        r is Ok <==> clean_before(fields@, fields@.len() as int) && sig_of(fields@) is Some,
        r matches Ok(d) ==> declares(fields@, d),
        r matches Err(e) ==> (e == DeclError::MissingSignature && clean_before(
            fields@,
            fields@.len() as int,
        )) || exists|i: int|
            0 <= i < fields@.len() && clean_before(fields@, i) && #[trigger] fault_at(fields@, i)
                == Some(e),
{
    let ghost all = fields@;
    let mut rest = fields;
    let mut name: Option<String> = None;
    let mut sig: Option<E> = None;
    let mut signature: Option<E> = None;
    let mut init: Option<E> = None;
    let mut release: Option<E> = None;
    let mut raw: Vec<Option<E>> = Vec::new();
    let mut safe: Vec<Option<E>> = Vec::new();
    let mut k: usize = 0;
    while k < SLOT_COUNT
        invariant
            k <= SLOT_COUNT,
            raw.len() == k,
            safe.len() == k,
            forall|j: int| 0 <= j < k ==> raw@[j] is None && safe@[j] is None,
        decreases SLOT_COUNT - k,
    {
        raw.push(None);
        safe.push(None);
        k += 1;
    }
    let n = rest.len();
    let mut i: usize = 0;
    while i < n
        invariant
            all == fields@,
            n == all.len(),
            i <= n,
            rest@ == all.subrange(i as int, n as int),
            clean_before(all, i as int),
            raw.len() == SLOT_COUNT,
            safe.len() == SLOT_COUNT,
            name == name_of(all.subrange(0, i as int)),
            sig == last_value(all.subrange(0, i as int), Key::Sig),
            signature == last_value(all.subrange(0, i as int), Key::Signature),
            init == last_value(all.subrange(0, i as int), Key::Init),
            release == last_value(all.subrange(0, i as int), Key::Release),
            forall|s: SlotId|
                raw@[#[trigger] s.spec_index() as int] == last_value(
                    all.subrange(0, i as int),
                    Key::Raw(s),
                ) && safe@[s.spec_index() as int] == last_value(
                    all.subrange(0, i as int),
                    Key::Safe(s),
                ),
        decreases n - i,
    {
        let ghost pre = all.subrange(0, i as int);
        let ghost next = all.subrange(0, i + 1);
        proof {
            assert(next.drop_last() =~= pre);
            assert(next.last() == all[i as int]);
            assert(rest@[0] == all[i as int]);
        }
        let f = rest.remove(0);
        assert(f == all[i as int]);
        let Field { member, expr, literal } = f;
        let key = match &member {
            None => {
                proof {
                    assert(fault_at(all, i as int) == Some(DeclError::Unnamed(i)));
                }
                return Err(DeclError::Unnamed(i));
            },
            Some(m) => key_for(m.as_str()),
        };
        match key {
            None => {
                proof {
                    assert(fault_at(all, i as int) == Some(DeclError::UnknownField(i)));
                }
                return Err(DeclError::UnknownField(i));
            },
            Some(Key::Name) => {
                if literal.is_none() {
                    proof {
                        assert(fault_at(all, i as int) == Some(DeclError::NameNotText(i)));
                    }
                    return Err(DeclError::NameNotText(i));
                }
                name = literal;
            },
            Some(Key::Sig) => {
                proof {
                    lemma_last_entry_some(pre, Key::Signature);
                    lemma_bound_prefix(all, i as int, Key::Signature);
                }
                if signature.is_some() {
                    proof {
                        assert(fault_at(all, i as int) == Some(DeclError::SignatureNamedTwice(i)));
                    }
                    return Err(DeclError::SignatureNamedTwice(i));
                }
                sig = Some(expr);
            },
            Some(Key::Signature) => {
                proof {
                    lemma_last_entry_some(pre, Key::Sig);
                    lemma_bound_prefix(all, i as int, Key::Sig);
                }
                if sig.is_some() {
                    proof {
                        assert(fault_at(all, i as int) == Some(DeclError::SignatureNamedTwice(i)));
                    }
                    return Err(DeclError::SignatureNamedTwice(i));
                }
                signature = Some(expr);
            },
            Some(Key::Init) => {
                init = Some(expr);
            },
            Some(Key::Release) => {
                release = Some(expr);
            },
            Some(Key::Raw(s)) => {
                let idx = s.index();
                proof {
                    lemma_last_entry_some(pre, Key::Safe(s));
                    lemma_bound_prefix(all, i as int, Key::Safe(s));
                }
                if safe[idx].is_some() {
                    proof {
                        assert(fault_at(all, i as int) == Some(
                            DeclError::Exclusive { index: i, slot: s, raw: true },
                        ));
                    }
                    return Err(DeclError::Exclusive { index: i, slot: s, raw: true });
                }
                raw.set(idx, Some(expr));
            },
            Some(Key::Safe(s)) => {
                let idx = s.index();
                proof {
                    lemma_last_entry_some(pre, Key::Raw(s));
                    lemma_bound_prefix(all, i as int, Key::Raw(s));
                }
                if raw[idx].is_some() {
                    proof {
                        assert(fault_at(all, i as int) == Some(
                            DeclError::Exclusive { index: i, slot: s, raw: false },
                        ));
                    }
                    return Err(DeclError::Exclusive { index: i, slot: s, raw: false });
                }
                safe.set(idx, Some(expr));
            },
        }
        proof {
            assert forall|s: SlotId|
                raw@[#[trigger] s.spec_index() as int] == last_value(next, Key::Raw(s))
                    && safe@[s.spec_index() as int] == last_value(next, Key::Safe(s)) by {
                s.lemma_at_index();
            }
            assert forall|j: int| 0 <= j < i + 1 implies (#[trigger] fault_at(all, j)) is None by {
            }
        }
        i += 1;
    }
    proof {
        assert(all.subrange(0, n as int) =~= all);
    }
    let sig = match sig {
        Some(e) => e,
        None => match signature {
            Some(e) => e,
            None => {
                return Err(DeclError::MissingSignature);
            },
        },
    };
    let ghost raw0 = raw@;
    let ghost safe0 = safe@;
    let mut slots: Vec<Binding<E>> = Vec::new();
    let mut j: usize = 0;
    while j < SLOT_COUNT
        invariant
            j <= SLOT_COUNT,
            raw0.len() == SLOT_COUNT,
            safe0.len() == SLOT_COUNT,
            raw@ == raw0.subrange(j as int, SLOT_COUNT as int),
            safe@ == safe0.subrange(j as int, SLOT_COUNT as int),
            slots.len() == j,
            forall|t: int|
                0 <= t < j ==> slots@[t] == match raw0[t] {
                    Some(e) => Binding::Raw(e),
                    None => match safe0[t] {
                        Some(e) => Binding::Safe(e),
                        None => Binding::Unbound,
                    },
                },
        decreases SLOT_COUNT - j,
    {
        let r = raw.remove(0);
        let s = safe.remove(0);
        let b = match r {
            Some(e) => Binding::Raw(e),
            None => match s {
                Some(e) => Binding::Safe(e),
                None => Binding::Unbound,
            },
        };
        slots.push(b);
        j += 1;
    }
    let d = Declaration { name, sig, init, release, slots };
    proof {
        assert forall|s: SlotId| #[trigger] d.binding(s) == binding_of(all, s) by {
            s.lemma_at_index();
        }
    }
    Ok(d)
}

/// The entries with positions `i` and `i + 1` exchanged.
pub open spec fn swapped<E>(fs: Seq<Field<E>>, i: int) -> Seq<Field<E>> {
    fs.update(i, fs[i + 1]).update(i + 1, fs[i])
}

proof fn lemma_bound_swap<E>(fs: Seq<Field<E>>, i: int, j: int, k: Key)
    requires
        0 <= i,
        i + 1 < fs.len(),
        0 <= j <= fs.len(),
    ensures
        j != i + 1 ==> bound_before(swapped(fs, i), j, k) == bound_before(fs, j, k),
        j == i + 1 ==> bound_before(swapped(fs, i), j, k) == (bound_before(fs, i, k) || entry_key(
            fs[i + 1],
        ) == Some(k)),
        j == i + 1 ==> bound_before(fs, j, k) == (bound_before(fs, i, k) || entry_key(fs[i])
            == Some(k)),
{
    let gs = swapped(fs, i);
    let other = |t: int|
        if t == i {
            i + 1
        } else if t == i + 1 {
            i
        } else {
            t
        };
    if bound_before(gs, j, k) {
        let t = choose|t: int| 0 <= t < j && #[trigger] entry_key(gs[t]) == Some(k);
        assert(gs[t] == fs[other(t)]);
        if j != i + 1 {
            assert(entry_key(fs[other(t)]) == Some(k));
        } else if t < i {
            assert(entry_key(fs[t]) == Some(k));
        }
    }
    if bound_before(fs, j, k) {
        let t = choose|t: int| 0 <= t < j && #[trigger] entry_key(fs[t]) == Some(k);
        assert(fs[t] == gs[other(t)]);
        if j != i + 1 {
            assert(entry_key(gs[other(t)]) == Some(k));
        } else if t < i {
            assert(entry_key(gs[t]) == Some(k));
        }
    }
    if j == i + 1 {
        if bound_before(fs, i, k) {
            let t = choose|t: int| 0 <= t < i && #[trigger] entry_key(fs[t]) == Some(k);
            assert(gs[t] == fs[t]);
            assert(entry_key(gs[t]) == Some(k));
            assert(entry_key(fs[t]) == Some(k));
        }
        if entry_key(fs[i + 1]) == Some(k) {
            assert(entry_key(gs[i]) == Some(k));
        }
        if entry_key(fs[i]) == Some(k) {
            assert(entry_key(fs[i]) == Some(k));
        }
    }
}

proof fn lemma_last_swap<E>(fs: Seq<Field<E>>, i: int, n: int, k: Key)
    requires
        0 <= i,
        i + 1 < fs.len(),
        0 <= n <= fs.len(),
        n != i + 1,
        entry_key(fs[i]) != entry_key(fs[i + 1]),
    ensures
        last_entry(swapped(fs, i).subrange(0, n), k) == last_entry(fs.subrange(0, n), k),
    decreases n,
{
    let gs = swapped(fs, i);
    let a = gs.subrange(0, n);
    let b = fs.subrange(0, n);
    if n <= i {
        assert(a =~= b);
    } else if n == i + 2 {
        lemma_last_swap(fs, i, i, k);
        assert(a.drop_last() =~= gs.subrange(0, i + 1));
        assert(b.drop_last() =~= fs.subrange(0, i + 1));
        assert(gs.subrange(0, i + 1).drop_last() =~= gs.subrange(0, i));
        assert(fs.subrange(0, i + 1).drop_last() =~= fs.subrange(0, i));
        assert(a.last() == fs[i]);
        assert(b.last() == fs[i + 1]);
        assert(gs.subrange(0, i + 1).last() == fs[i + 1]);
        assert(fs.subrange(0, i + 1).last() == fs[i]);
        let ga = gs.subrange(0, i + 1);
        let fa = fs.subrange(0, i + 1);
        assert(last_entry(a, k) == if entry_key(fs[i]) == Some(k) {
            Some(fs[i])
        } else {
            last_entry(ga, k)
        });
        assert(last_entry(ga, k) == if entry_key(fs[i + 1]) == Some(k) {
            Some(fs[i + 1])
        } else {
            last_entry(gs.subrange(0, i), k)
        });
        assert(last_entry(b, k) == if entry_key(fs[i + 1]) == Some(k) {
            Some(fs[i + 1])
        } else {
            last_entry(fa, k)
        });
        assert(last_entry(fa, k) == if entry_key(fs[i]) == Some(k) {
            Some(fs[i])
        } else {
            last_entry(fs.subrange(0, i), k)
        });
    } else {
        lemma_last_swap(fs, i, n - 1, k);
        assert(a.drop_last() =~= gs.subrange(0, n - 1));
        assert(b.drop_last() =~= fs.subrange(0, n - 1));
        assert(a.last() == b.last());
    }
}

proof fn lemma_swap_keeps_clean<E>(fs: Seq<Field<E>>, i: int)
    requires
        0 <= i,
        i + 1 < fs.len(),
        clean_before(fs, fs.len() as int),
    ensures
        clean_before(swapped(fs, i), fs.len() as int),
{
    let gs = swapped(fs, i);
    assert forall|j: int| 0 <= j < fs.len() implies (#[trigger] fault_at(gs, j)) is None by {
        let src = if j == i {
            i + 1
        } else if j == i + 1 {
            i
        } else {
            j
        };
        assert(gs[j] == fs[src]);
        assert(fault_at(fs, src) is None);
        assert(fault_at(fs, i) is None);
        assert(fault_at(fs, i + 1) is None);
        match entry_key(fs[src]) {
            Some(Key::Raw(s)) => {
                lemma_bound_swap(fs, i, j, Key::Safe(s));
                lemma_bound_swap(fs, i, i + 1, Key::Safe(s));
            },
            Some(Key::Safe(s)) => {
                lemma_bound_swap(fs, i, j, Key::Raw(s));
                lemma_bound_swap(fs, i, i + 1, Key::Raw(s));
            },
            Some(Key::Sig) => {
                lemma_bound_swap(fs, i, j, Key::Signature);
                lemma_bound_swap(fs, i, i + 1, Key::Signature);
            },
            Some(Key::Signature) => {
                lemma_bound_swap(fs, i, j, Key::Sig);
                lemma_bound_swap(fs, i, i + 1, Key::Sig);
            },
            _ => {},
        }
    }
}

/// The declaration is an unordered list: exchanging two neighbouring entries
/// that select different fields changes neither whether it is accepted nor,
/// when it is, any field of what it declares. Any reordering of entries that
/// select pairwise different fields is a series of such exchanges.
pub proof fn lemma_neighbours_commute<E>(fs: Seq<Field<E>>, i: int)
    requires
        0 <= i,
        i + 1 < fs.len(),
        entry_key(fs[i]) != entry_key(fs[i + 1]),
    ensures
        clean_before(swapped(fs, i), fs.len() as int) == clean_before(fs, fs.len() as int),
        forall|k: Key| #[trigger] last_entry(swapped(fs, i), k) == last_entry(fs, k),
        sig_of(swapped(fs, i)) == sig_of(fs),
        name_of(swapped(fs, i)) == name_of(fs),
        forall|s: SlotId| #[trigger] binding_of(swapped(fs, i), s) == binding_of(fs, s),
{
    let gs = swapped(fs, i);
    assert(gs.len() == fs.len());
    assert(swapped(gs, i) =~= fs);
    if clean_before(fs, fs.len() as int) {
        lemma_swap_keeps_clean(fs, i);
    }
    if clean_before(gs, gs.len() as int) {
        lemma_swap_keeps_clean(gs, i);
    }
    assert forall|k: Key| #[trigger] last_entry(gs, k) == last_entry(fs, k) by {
        lemma_last_swap(fs, i, fs.len() as int, k);
        assert(gs.subrange(0, fs.len() as int) =~= gs);
        assert(fs.subrange(0, fs.len() as int) =~= fs);
    }
    assert(last_entry(gs, Key::Sig) == last_entry(fs, Key::Sig));
    assert(last_entry(gs, Key::Signature) == last_entry(fs, Key::Signature));
    assert(last_entry(gs, Key::Name) == last_entry(fs, Key::Name));
    assert forall|s: SlotId| #[trigger] binding_of(gs, s) == binding_of(fs, s) by {
        assert(last_entry(gs, Key::Raw(s)) == last_entry(fs, Key::Raw(s)));
        assert(last_entry(gs, Key::Safe(s)) == last_entry(fs, Key::Safe(s)));
    }
}

/// A declaration that binds one slot both raw and safe, in whatever order, is
/// refused: it is never clean, so `parse_declaration` returns an error.
pub proof fn lemma_raw_and_safe_refused<E>(fs: Seq<Field<E>>, s: SlotId, i: int, j: int)
    requires
        0 <= i < fs.len(),
        0 <= j < fs.len(),
        entry_key(fs[i]) == Some(Key::Raw(s)),
        entry_key(fs[j]) == Some(Key::Safe(s)),
    ensures
        !clean_before(fs, fs.len() as int),
{
    if i < j {
        assert(bound_before(fs, j, Key::Raw(s)));
        assert(fault_at(fs, j) is Some);
    } else {
        assert(bound_before(fs, i, Key::Safe(s)));
        assert(fault_at(fs, i) is Some);
    }
}

/// A declaration that gives the signature both as `sig` and as `signature`,
/// in whatever order, is refused.
pub proof fn lemma_both_signature_names_refused<E>(fs: Seq<Field<E>>, i: int, j: int)
    requires
        0 <= i < fs.len(),
        0 <= j < fs.len(),
        entry_key(fs[i]) == Some(Key::Sig),
        entry_key(fs[j]) == Some(Key::Signature),
    ensures
        !clean_before(fs, fs.len() as int),
{
    if i < j {
        assert(bound_before(fs, j, Key::Sig));
        assert(fault_at(fs, j) is Some);
    } else {
        assert(bound_before(fs, i, Key::Signature));
        assert(fault_at(fs, i) is Some);
    }
}

} // verus!
