//! The types that the store holds: identifiers and entries.

use crate::database::properties::{Pairs, Properties};
use crate::text::{clone_strings, is_sorted_set_of, sorted_unique, texts};
use vstd::prelude::*;
use vstd::string::StrSliceExecFns;
use vstd::string::StringSliceAdditionalSpecFns;

verus! {

/// The number that a sequence of bytes denotes when read with the most
/// significant byte first.
pub open spec fn be_value(bytes: Seq<u8>) -> nat
    decreases bytes.len(),
{
    if bytes.len() == 0 {
        0
    } else {
        be_value(bytes.drop_last()) * 256 + bytes.last() as nat
    }
}

/// Two byte sequences of one length that denote the same number are equal.
pub proof fn lemma_be_value_injective(a: Seq<u8>, b: Seq<u8>)
    requires
        a.len() == b.len(),
        be_value(a) == be_value(b),
    ensures
        a == b,
    decreases a.len(),
{
    if a.len() > 0 {
        lemma_be_value_injective(a.drop_last(), b.drop_last());
        assert(a =~= a.drop_last().push(a.last()));
        assert(b =~= b.drop_last().push(b.last()));
    } else {
        assert(a =~= b);
    }
}

/// 256 to the power `n`.
pub open spec fn pow256(n: nat) -> nat
    decreases n,
{
    if n == 0 {
        1
    } else {
        256 * pow256((n - 1) as nat)
    }
}

/// The `n` bytes that denote `v`, most significant first: the inverse of
/// `be_value` on the numbers below `256^n`.
pub open spec fn be_bytes(v: nat, n: nat) -> Seq<u8>
    decreases n,
{
    if n == 0 {
        Seq::empty()
    } else {
        be_bytes(v / 256, (n - 1) as nat).push((v % 256) as u8)
    }
}

/// `be_bytes` gives as many bytes as are asked for.
pub proof fn lemma_be_bytes_len(v: nat, n: nat)
    ensures
        be_bytes(v, n).len() == n,
    decreases n,
{
    if n > 0 {
        lemma_be_bytes_len(v / 256, (n - 1) as nat);
    }
}

/// A sequence of `n` bytes denotes a number below `256^n`.
pub proof fn lemma_be_value_bound(bytes: Seq<u8>)
    ensures
        be_value(bytes) < pow256(bytes.len()),
    decreases bytes.len(),
{
    if bytes.len() > 0 {
        lemma_be_value_bound(bytes.drop_last());
    }
}

/// Every 128-bit value is below `256^16`.
pub proof fn lemma_u128_below_pow256(v: u128)
    ensures
        v < pow256(16),
        pow256(16) == u128::MAX + 1,
{
    reveal_with_fuel(pow256, 17);
}

/// `be_bytes` has the length asked for and denotes the number it was made
/// from.
pub proof fn lemma_be_bytes_value(v: nat, n: nat)
    requires
        v < pow256(n),
    ensures
        be_bytes(v, n).len() == n,
        be_value(be_bytes(v, n)) == v,
    decreases n,
{
    if n > 0 {
        let rest = be_bytes(v / 256, (n - 1) as nat);
        lemma_be_bytes_value(v / 256, (n - 1) as nat);
        assert(be_bytes(v, n).drop_last() =~= rest);
    }
}

/// Bytes made from the number that `bytes` denotes are `bytes` again.
pub proof fn lemma_be_value_bytes(bytes: Seq<u8>)
    ensures
        be_bytes(be_value(bytes), bytes.len()) == bytes,
{
    lemma_be_value_bound(bytes);
    lemma_be_bytes_value(be_value(bytes), bytes.len());
    lemma_be_value_injective(be_bytes(be_value(bytes), bytes.len()), bytes);
}

/// Why a text is not an identifier.
#[derive(Clone, Copy, Debug, PartialEq, Eq, Structural)]
pub enum IdError {
    /// The text is not 26 bytes long.
    InvalidLength,
    /// The text is 26 bytes long and holds a byte outside the alphabet.
    InvalidChar,
}

/// The value that a text denotes as an identifier, where it denotes one.
pub uninterp spec fn ulid_value_of(text: Seq<char>) -> Option<u128>;

/// The canonical text of an identifier's value.
pub uninterp spec fn ulid_text_of(value: u128) -> Seq<char>;

/// `ulid::Ulid::new`: a value made of the current time and random bits.
/// Nothing is claimed of it.
#[verifier::external_body]
fn ulid_generate() -> u128 {
    ulid::Ulid::new().0
}

/// `ulid::Ulid::from_string`: decodes Crockford base 32. The crate refuses a
/// text whose length in bytes is not 26 with one error, and a text of that
/// length with a byte outside its alphabet with the other.
#[verifier::external_body]
fn ulid_from_string(text: &str) -> (r: Result<u128, IdError>)
    ensures
        match r {
            Ok(v) => ulid_value_of(text@) == Some(v),
            Err(IdError::InvalidLength) => ulid_value_of(text@) is None
                && text.spec_bytes().len() != 26,
            Err(IdError::InvalidChar) => ulid_value_of(text@) is None
                && text.spec_bytes().len() == 26,
        },
{
    match ulid::Ulid::from_string(text) {
        Ok(id) => Ok(id.0),
        Err(ulid::DecodeError::InvalidLength) => Err(IdError::InvalidLength),
        Err(ulid::DecodeError::InvalidChar) => Err(IdError::InvalidChar),
    }
}

/// `ulid::Ulid::to_string`: the 26 characters of the value in Crockford
/// base 32, which `from_string` decodes to the same value.
#[verifier::external_body]
fn ulid_to_string(value: u128) -> (r: String)
    ensures
        r@ == ulid_text_of(value),
        r@.len() == 26,
        ulid_value_of(r@) == Some(value),
{
    ulid::Ulid(value).to_string()
}

/// `ulid::Ulid::to_bytes`: the value's 16 bytes, most significant first.
#[verifier::external_body]
fn ulid_to_bytes(value: u128) -> (r: [u8; 16])
    ensures
        r@ == be_bytes(value as nat, 16),
{
    ulid::Ulid(value).to_bytes()
}

/// `ulid::Ulid::from_bytes`: the value that 16 bytes denote, most
/// significant first.
#[verifier::external_body]
fn ulid_from_bytes(bytes: [u8; 16]) -> (r: u128)
    ensures
        r == be_value(bytes@),
{
    ulid::Ulid::from_bytes(bytes).0
}

/// A 128-bit identifier of an entry. Identifiers are ordered by their value,
/// which is the order of their binary forms.
#[derive(Clone, Copy, Debug, PartialEq, Eq, Structural, PartialOrd, Ord, Hash)]
pub struct ServiceId {
    pub value: u128,
}

impl View for ServiceId {
    type V = u128;

    open spec fn view(&self) -> u128 {
        self.value
    }
}

impl ServiceId {
    /// The identifier that a text denotes, where it denotes one.
    pub open spec fn spec_from_text(text: Seq<char>) -> Option<ServiceId> {
        match ulid_value_of(text) {
            Some(v) => Some(ServiceId { value: v }),
            None => None,
        }
    }

    /// A new identifier, made of the current time and random bits.
    pub fn new() -> Self {
        ServiceId { value: ulid_generate() }
    }

    /// Reads an identifier from its text.
    pub fn from_string(s: &str) -> (r: Result<Self, IdError>)
        ensures
            match r {
                Ok(id) => Self::spec_from_text(s@) == Some(id),
                Err(IdError::InvalidLength) => Self::spec_from_text(s@) is None
                    && s.spec_bytes().len() != 26,
                Err(IdError::InvalidChar) => Self::spec_from_text(s@) is None
                    && s.spec_bytes().len() == 26,
            },
    {
        match ulid_from_string(s) {
            Ok(value) => Ok(ServiceId { value }),
            Err(err) => Err(err),
        }
    }

    /// The text of the identifier: 26 characters, from which `from_string`
    /// reads the identifier back.
    pub fn to_string(&self) -> (r: String)
        ensures
            r@ == ulid_text_of(self@),
            r@.len() == 26,
            Self::spec_from_text(r@) == Some(*self),
    {
        ulid_to_string(self.value)
    }

    /// The least identifier.
    pub fn min() -> (r: Self)
        ensures
            r@ == 0,
    {
        ServiceId { value: 0 }
    }

    /// The greatest identifier.
    pub fn max() -> (r: Self)
        ensures
            r@ == u128::MAX,
    {
        ServiceId { value: u128::MAX }
    }

    /// The bounds of a scan over every identifier, both inclusive.
    pub fn range_all() -> (r: (Self, Self))
        ensures
            r.0@ == 0,
            r.1@ == u128::MAX,
    {
        (Self::min(), Self::max())
    }

    /// The width in bytes of the binary form, which is the same for every
    /// identifier.
    pub fn fixed_width() -> (r: Option<usize>)
        ensures
            r == Some(16usize),
    {
        Some(16)
    }

    /// The binary form: 16 bytes, most significant first.
    pub fn as_bytes(value: &ServiceId) -> (r: [u8; 16])
        ensures
            r@ == be_bytes(value@ as nat, 16),
    {
        ulid_to_bytes(value.value)
    }

    /// Reads an identifier from its binary form.
    pub fn from_bytes(data: &[u8]) -> (r: Self)
        requires
            data@.len() == 16,
        ensures
            r@ == be_value(data@),
    {
        let mut bytes = [0u8; 16];
        let mut i: usize = 0;
        while i < 16
            invariant
                i <= 16,
                data@.len() == 16,
                forall|j: int| 0 <= j < i ==> bytes@[j] == data@[j],
            decreases 16 - i,
        {
            bytes[i] = data[i];
            i = i + 1;
        }
        assert(bytes@ =~= data@);
        ServiceId { value: ulid_from_bytes(bytes) }
    }
}

/// The binary form of an identifier reads back as that identifier, and the
/// identifier read from 16 bytes has those bytes as its binary form.
pub proof fn lemma_binary_round_trip(id: ServiceId, bytes: Seq<u8>)
    requires
        bytes.len() == 16,
    ensures
        be_bytes(id@ as nat, 16).len() == 16,
        be_value(be_bytes(id@ as nat, 16)) == id@,
        be_value(bytes) <= u128::MAX,
        be_bytes(be_value(bytes), 16) == bytes,
{
    lemma_u128_below_pow256(id@);
    lemma_be_bytes_value(id@ as nat, 16);
    lemma_be_value_bound(bytes);
    lemma_be_value_bytes(bytes);
}

/// `chrono::Local::now` and `timestamp`: the current time in whole seconds
/// since the epoch. Nothing is claimed of it.
#[verifier::external_body]
fn now_sec() -> i64 {
    chrono::Local::now().timestamp()
}

/// `chrono::Local::now` and `timestamp_millis`: the current time in
/// milliseconds since the epoch. Nothing is claimed of it.
#[verifier::external_body]
pub(crate) fn now_millis() -> i64 {
    chrono::Local::now().timestamp_millis()
}

/// The last character of the name of a property whose value is secret.
pub const SECRET_MARKER: char = '!';

/// What stands in place of a secret value when an entry is shown.
pub const SECRET_MASK: &'static str = "<< SECRET >>";

/// Whether a property of this name holds a secret.
pub open spec fn is_secret_name(name: Seq<char>) -> bool {
    name.len() > 0 && name.last() == SECRET_MARKER
}

/// The properties `p` with every secret value replaced by the mask.
pub open spec fn masked(p: Pairs) -> Pairs {
    Seq::new(
        p.len(),
        |i: int|
            if is_secret_name(p[i].0) {
                (p[i].0, SECRET_MASK@)
            } else {
                p[i]
            },
    )
}

/// Whether the time `a` is later than the time `b`. A missing time is
/// earlier than every time, and not later than a missing time.
pub open spec fn later(a: Option<i64>, b: Option<i64>) -> bool {
    match (a, b) {
        (Some(x), Some(y)) => x > y,
        (Some(_), None) => true,
        (None, _) => false,
    }
}

/// What an entry holds.
pub struct EntryView {
    pub id: u128,
    pub service: Seq<char>,
    pub aliases: Seq<Seq<char>>,
    pub tags: Seq<Seq<char>>,
    pub properties: Pairs,
    pub last_update: Option<i64>,
    pub removed: Option<bool>,
}

impl EntryView {
    /// Whether the entry is marked as removed.
    pub open spec fn is_removed(self) -> bool {
        self.removed == Some(true)
    }

    /// The same entry with another time of last update.
    pub open spec fn with_last_update(self, last_update: Option<i64>) -> EntryView {
        EntryView { last_update, ..self }
    }
}

/// A stored credential: a service with its aliases, tags and properties,
/// the time of its last update in seconds since the epoch, and the mark of
/// a removed entry.
#[derive(Debug, PartialEq, Eq)]
pub struct Entry {
    id: ServiceId,
    service: String,
    aliases: Vec<String>,
    tags: Vec<String>,
    properties: Properties,
    last_update: Option<i64>,
    removed: Option<bool>,
}

impl View for Entry {
    type V = EntryView;

    closed spec fn view(&self) -> EntryView {
        EntryView {
            id: self.id@,
            service: self.service@,
            aliases: texts(self.aliases@),
            tags: texts(self.tags@),
            properties: self.properties@,
            last_update: self.last_update,
            removed: self.removed,
        }
    }
}

impl Clone for Entry {
    /// An independent copy.
    fn clone(&self) -> (r: Self)
        ensures
            r@ == self@,
    {
        Entry {
            id: self.id,
            service: self.service.clone(),
            aliases: clone_strings(&self.aliases),
            tags: clone_strings(&self.tags),
            properties: self.properties.clone(),
            last_update: self.last_update,
            removed: self.removed,
        }
    }
}

impl Entry {
    /// What `new` makes of its arguments when the time is `now`.
    pub open spec fn is_new(
        self,
        id: ServiceId,
        service: Seq<char>,
        aliases: Seq<Seq<char>>,
        tags: Seq<Seq<char>>,
        properties: Pairs,
        now: i64,
    ) -> bool {
        &&& self@.id == id@
        &&& self@.service == service
        &&& is_sorted_set_of(self@.aliases, aliases)
        &&& is_sorted_set_of(self@.tags, tags)
        &&& self@.properties == properties
        &&& self@.last_update == Some(now)
        &&& self@.removed is None
    }

    /// An entry for a new registration, stamped with the current time:
    /// aliases and tags are put in ascending order, each of them once.
    pub fn new(
        id: ServiceId,
        service: String,
        aliases: Vec<String>,
        tags: Vec<String>,
        properties: Properties,
    ) -> (r: Self)
        ensures
            r@.last_update is Some,
            r.is_new(
                id,
                service@,
                texts(aliases@),
                texts(tags@),
                properties@,
                r@.last_update->0,
            ),
    {
        Self::new_at(id, service, aliases, tags, properties, now_sec())
    }

    /// The entry that `new` makes at the time `now`.
    pub fn new_at(
        id: ServiceId,
        service: String,
        aliases: Vec<String>,
        tags: Vec<String>,
        properties: Properties,
        now: i64,
    ) -> (r: Self)
        ensures
            r.is_new(id, service@, texts(aliases@), texts(tags@), properties@, now),
    {
        Entry {
            id,
            service,
            aliases: sorted_unique(&aliases),
            tags: sorted_unique(&tags),
            properties,
            last_update: Some(now),
            removed: None,
        }
    }

    /// An entry that holds exactly what is given, in the order given.
    pub fn from_parts(
        id: ServiceId,
        service: String,
        aliases: Vec<String>,
        tags: Vec<String>,
        properties: Properties,
        last_update: Option<i64>,
        removed: Option<bool>,
    ) -> (r: Self)
        ensures
            r@ == (EntryView {
                id: id@,
                service: service@,
                aliases: texts(aliases@),
                tags: texts(tags@),
                properties: properties@,
                last_update,
                removed,
            }),
    {
        Entry { id, service, aliases, tags, properties, last_update, removed }
    }

    /// The identifier.
    pub fn id(&self) -> (r: ServiceId)
        ensures
            r@ == self@.id,
    {
        self.id
    }

    /// A copy of the service's name.
    pub fn service(&self) -> (r: String)
        ensures
            r@ == self@.service,
    {
        self.service.clone()
    }

    /// A copy of the tags.
    pub fn tags(&self) -> (r: Vec<String>)
        ensures
            texts(r@) == self@.tags,
    {
        clone_strings(&self.tags)
    }

    /// A copy of the aliases.
    pub fn aliases(&self) -> (r: Vec<String>)
        ensures
            texts(r@) == self@.aliases,
    {
        clone_strings(&self.aliases)
    }

    /// A copy of the properties.
    pub fn properties(&self) -> (r: Properties)
        ensures
            r@ == self@.properties,
    {
        self.properties.clone()
    }

    /// Whether the entry is marked as removed.
    pub fn is_removed(&self) -> (r: bool)
        ensures
            r == self@.is_removed(),
    {
        match self.removed {
            Some(flag) => flag,
            None => false,
        }
    }

    /// The mark of a removed entry as it is stored.
    pub fn removed(&self) -> (r: Option<bool>)
        ensures
            r == self@.removed,
    {
        self.removed
    }

    /// The time of the last update, in seconds since the epoch.
    pub fn last_update(&self) -> (r: Option<i64>)
        ensures
            r == self@.last_update,
    {
        self.last_update
    }

    /// Stamps the entry with the current time.
    pub fn set_last_update_now(&mut self)
        ensures
            final(self)@.last_update is Some,
            final(self)@ == old(self)@.with_last_update(final(self)@.last_update),
    {
        self.last_update = Some(now_sec());
    }

    /// Stamps the entry with the time `dt`.
    pub fn set_last_update(&mut self, dt: i64)
        ensures
            final(self)@ == old(self)@.with_last_update(Some(dt)),
    {
        self.last_update = Some(dt);
    }

    /// Marks the entry as removed, or takes the mark away.
    pub fn set_removed(&mut self, removed: bool)
        ensures
            final(self)@ == (EntryView {
                removed: if removed {
                    Some(true)
                } else {
                    None
                },
                ..old(self)@
            }),
    {
        self.removed = if removed {
            Some(true)
        } else {
            None
        };
    }

    /// Replaces every secret value by the mask, for showing the entry. The
    /// names and everything else stay as they are.
    pub fn mask_secret_properties(&mut self)
        ensures
            final(self)@ == (EntryView { properties: masked(old(self)@.properties), ..old(self)@ }),
    {
        let ghost before = self.properties@;
        let n = self.properties.len();
        let mut i: usize = 0;
        while i < n
            invariant
                i <= n,
                n == before.len(),
                self.properties@.len() == n,
                self.id == old(self).id,
                self.service == old(self).service,
                self.aliases == old(self).aliases,
                self.tags == old(self).tags,
                self.last_update == old(self).last_update,
                self.removed == old(self).removed,
                forall|j: int| 0 <= j < i ==> self.properties@[j] == masked(before)[j],
                forall|j: int| i <= j < n ==> self.properties@[j] == before[j],
            decreases n - i,
        {
            let secret = {
                let key = self.properties.key_at(i);
                let len = key.as_str().unicode_len();
                len > 0 && key.as_str().get_char(len - 1) == SECRET_MARKER
            };
            if secret {
                self.properties.set_value_at(i, SECRET_MASK.to_owned());
            }
            i = i + 1;
        }
        assert(self.properties@ =~= masked(before));
    }

    /// The width in bytes of the stored form, which has none that holds for
    /// every entry.
    pub fn fixed_width() -> (r: Option<usize>)
        ensures
            r is None,
    {
        None
    }
}

} // verus!
