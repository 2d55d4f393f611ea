//! The replicated document store: a CRDT document whose root holds a
//! `values` map of text fields. Reads and writes go through the fields of
//! that map; remote snapshots are merged in. Every mutation hands back the
//! snapshot to persist, so that the caller can write it to disk.

use vstd::prelude::*;
use automerge::{AutoCommit, ReadDoc};
use automerge::transaction::Transactable;
use crate::identity::ID;
use crate::broadcast::MessageType;
use crate::wire::{le_bytes, push_le};

verus! {

/// The automerge document type, held opaque.
#[verifier::external_type_specification]
#[verifier::external_body]
pub struct ExAutoCommit(automerge::AutoCommit);

/// The entries of the `values` map at the root of document `d`, each as the
/// text that automerge displays for it (a string value in double quotes);
/// `None` when the root holds no map under `values`.
pub uninterp spec fn doc_fields(d: AutoCommit) -> Option<Map<Seq<char>, Seq<char>>>;

/// What `AutoCommit::load` makes of bytes `b`: `None` when it refuses them,
/// else the fields (as `doc_fields` has them) of the document they load as.
pub uninterp spec fn snapshot_fields(b: Seq<u8>) -> Option<Option<Map<Seq<char>, Seq<char>>>>;

/// What `AutoCommit::merge` makes of `d` and `other`: `None` when it fails,
/// else the fields (as `doc_fields` has them) of the merged document.
pub uninterp spec fn merged_fields(d: AutoCommit, other: AutoCommit) -> Option<Option<Map<Seq<char>, Seq<char>>>>;

/// What merging the document that bytes `b` load as into `d` gives, as
/// `merged_fields` has it. Merging takes the other document's changes only,
/// so this depends on the bytes, not on the actor a load picks.
pub uninterp spec fn merged_snapshot(d: AutoCommit, b: Seq<u8>) -> Option<Option<Map<Seq<char>, Seq<char>>>>;

/// The hashes of the changes document `d` holds. Operations not committed
/// yet count as the change that committing them makes (a commit's content
/// and time are fixed when the operations are made).
pub uninterp spec fn doc_changes(d: AutoCommit) -> Set<Seq<u8>>;

/// The hashes of the changes in the document that bytes `b` load as.
pub uninterp spec fn snapshot_changes(b: Seq<u8>) -> Set<Seq<u8>>;

/// The actor under which document `d` makes its changes.
pub uninterp spec fn doc_actor(d: AutoCommit) -> Seq<u8>;

/// The text automerge displays for the string value `s`.
pub open spec fn quoted(s: Seq<char>) -> Seq<char> {
    seq!['"'] + s + seq!['"']
}

/// Relies on `AutoCommit::load`: it parses a saved document, or fails. The
/// loaded document gets a random actor; its changes are those in the bytes.
#[verifier::external_body]
fn load_doc(b: &[u8]) -> (r: Option<AutoCommit>)
    ensures
        r is Some <==> snapshot_fields(b@) is Some,
        r matches Some(d) ==> snapshot_fields(b@) == Some(doc_fields(d)),
        r matches Some(o) ==> forall|d: AutoCommit| #[trigger] merged_fields(d, o) == merged_snapshot(d, b@),
        r matches Some(o) ==> doc_changes(o) == snapshot_changes(b@),
{
    AutoCommit::load(b).ok()
}

/// Relies on `AutoCommit::save`: it commits pending operations, which keeps
/// the fields, and returns bytes that `AutoCommit::load` turns back into the
/// same document.
#[verifier::external_body]
fn save_doc(d: &mut AutoCommit) -> (r: Vec<u8>)
    ensures
        doc_fields(*final(d)) == doc_fields(*old(d)),
        doc_actor(*final(d)) == doc_actor(*old(d)),
        doc_changes(*final(d)) == doc_changes(*old(d)),
        snapshot_fields(r@) == Some(doc_fields(*old(d))),
        snapshot_changes(r@) == doc_changes(*old(d)),
{
    d.save()
}

/// Relies on `AutoCommit::merge`: it applies the changes of `other` that `d`
/// lacks, or fails (possibly after applying some of them). It keeps the actor.
/// When `d` holds all of them already, nothing is applied and it succeeds.
#[verifier::external_body]
fn merge_doc(d: &mut AutoCommit, other: &mut AutoCommit) -> (r: bool)
    ensures
        r ==> doc_changes(*final(d)) == doc_changes(*old(d)).union(doc_changes(*old(other))),
        doc_changes(*old(other)).subset_of(doc_changes(*old(d))) ==> r && doc_fields(*final(d)) == doc_fields(
            *old(d),
        ),
        r == merged_fields(*old(d), *old(other)) is Some,
        r ==> Some(doc_fields(*final(d))) == merged_fields(*old(d), *old(other)),
        doc_actor(*final(d)) == doc_actor(*old(d)),
{
    d.merge(other).is_ok()
}

/// Relies on `AutoCommit::new`: an empty document, whose root holds nothing.
#[verifier::external_body]
fn new_doc() -> (r: AutoCommit)
    ensures
        doc_fields(r) is None,
{
    AutoCommit::new()
}

/// Relies on `AutoCommit::set_actor` (with `ActorId::from` on the bytes):
/// later changes are made under this actor; the content stays as it is.
#[verifier::external_body]
fn assign_actor(d: &mut AutoCommit, actor: &[u8])
    ensures
        doc_fields(*final(d)) == doc_fields(*old(d)),
        doc_actor(*final(d)) == actor@,
        doc_changes(*final(d)) == doc_changes(*old(d)),
{
    d.set_actor(automerge::ActorId::from(actor));
}

/// Relies on `Transactable::put_object`: puts a new, empty map under
/// `values` at the root. The root is always a map, so the call cannot fail.
#[verifier::external_body]
fn add_values_map(d: &mut AutoCommit)
    ensures
        doc_fields(*final(d)) == Some(Map::<Seq<char>, Seq<char>>::empty()),
        doc_actor(*final(d)) == doc_actor(*old(d)),
{
    let _ = d.put_object(automerge::ROOT, "values", automerge::ObjType::Map);
}

/// Relies on `ReadDoc::get`: whether the root holds a map under `values`.
#[verifier::external_body]
fn has_values_map(d: &AutoCommit) -> (r: bool)
    ensures
        r == doc_fields(*d) is Some,
{
    matches!(
        d.get(automerge::ROOT, "values"),
        Ok(Some((automerge::Value::Object(automerge::ObjType::Map), _)))
    )
}

/// Relies on `ReadDoc::get` (on the root, then on the `values` map) and on
/// the `Display` of the value found: the text of field `key`.
#[verifier::external_body]
fn read_field(d: &AutoCommit, key: &str) -> (r: Option<String>)
    ensures
        doc_fields(*d) is None ==> r is None,
        doc_fields(*d) matches Some(m) ==> (r is Some <==> m.contains_key(key@)),
        doc_fields(*d) matches Some(m) ==> (r matches Some(s) ==> s@ == m[key@]),
{
    match d.get(automerge::ROOT, "values") {
        Ok(Some((automerge::Value::Object(automerge::ObjType::Map), values))) => {
            d.get(&values, key).ok().flatten().map(|(v, _)| v.to_string())
        },
        _ => None,
    }
}

/// Relies on `ReadDoc::get` (on the root) and `Transactable::put`: sets the
/// string `value` under `key` in the `values` map. A put of a string key on
/// an existing map does not fail; without the map nothing is written.
#[verifier::external_body]
fn write_field(d: &mut AutoCommit, key: &str, value: &str) -> (r: bool)
    ensures
        r == doc_fields(*old(d)) is Some,
        r ==> doc_fields(*final(d)) == Some(doc_fields(*old(d))->0.insert(key@, quoted(value@))),
        !r ==> *final(d) == *old(d),
        doc_actor(*final(d)) == doc_actor(*old(d)),
{
    match d.get(automerge::ROOT, "values") {
        Ok(Some((automerge::Value::Object(automerge::ObjType::Map), values))) => {
            d.put(&values, key, value).is_ok()
        },
        _ => false,
    }
}

/// The actor bytes of a node's own document: its address and bump, framed
/// as on the wire.
pub open spec fn actor_bytes(identity: ID) -> Seq<u8> {
    crate::wire::addr_bytes(identity.addr) + le_bytes(identity.bump as nat, 2)
}

pub fn actor_id_bytes(identity: &ID) -> (r: Vec<u8>)
    ensures
        r@ == actor_bytes(*identity),
{
    let mut out: Vec<u8> = Vec::new();
    crate::wire::push_addr(&mut out, identity.addr);
    push_le(&mut out, identity.bump as u128, 2);
    out
}

/// A document whose root holds an empty `values` map, created by one fixed
/// actor: every node's fresh document starts with this very same change, so
/// merging two of them leaves one `values` map rather than two competing ones.
fn values_document() -> (r: AutoCommit)
    ensures
        doc_fields(r) == Some(Map::<Seq<char>, Seq<char>>::empty()),
{
    let mut doc = new_doc();
    let genesis: Vec<u8> = vec![0x76, 0x61, 0x6c, 0x75, 0x65, 0x73];
    assign_actor(&mut doc, genesis.as_slice());
    add_values_map(&mut doc);
    doc
}

/// A fresh document for `identity`: the root holds an empty `values` map,
/// and later changes are made under an actor derived from the identity.
pub fn get_initial_state(identity: &ID) -> (r: AutoCommit)
    ensures
        doc_fields(r) == Some(Map::<Seq<char>, Seq<char>>::empty()),
        doc_actor(r) == actor_bytes(*identity),
{
    let mut doc = values_document();
    let actor = actor_id_bytes(identity);
    assign_actor(&mut doc, actor.as_slice());
    doc
}

/// Whether `saved` holds bytes that load as a document.
pub open spec fn loads(saved: Option<Vec<u8>>) -> bool {
    match saved {
        Some(b) => snapshot_fields(b@) is Some,
        None => false,
    }
}

/// The document to start from: the saved one where there is one and it
/// loads, else a fresh one for `identity`.
pub fn load_state(saved: Option<Vec<u8>>, identity: &ID) -> (r: AutoCommit)
    ensures
        loads(saved) ==> Some(doc_fields(r)) == snapshot_fields(saved->0@),
        !loads(saved) ==> doc_fields(r) == Some(Map::<Seq<char>, Seq<char>>::empty()),
        !loads(saved) ==> doc_actor(r) == actor_bytes(*identity),
        loads(saved) ==> doc_changes(r) == snapshot_changes(saved->0@),
{
    match saved {
        Some(bytes) => match load_doc(bytes.as_slice()) {
            Some(doc) => doc,
            None => get_initial_state(identity),
        },
        None => get_initial_state(identity),
    }
}

/// The field `name` in `fields`, if present.
pub open spec fn field_value(fields: Map<Seq<char>, Seq<char>>, name: Seq<char>) -> Option<Seq<char>> {
    if fields.contains_key(name) {
        Some(fields[name])
    } else {
        None
    }
}

pub open spec fn text_of(r: Option<String>) -> Option<Seq<char>> {
    match r {
        Some(s) => Some(s@),
        None => None,
    }
}

/// The line that answers a read of field `name`: `name: value`, with `N/A`
/// where the field is missing.
pub open spec fn field_line(name: Seq<char>, value: Option<Seq<char>>) -> Seq<char> {
    name + ": "@ + match value {
        Some(v) => v,
        None => "N/A"@,
    }
}

pub fn describe_field(field_name: &str, value: Option<String>) -> (r: String)
    ensures
        r@ == field_line(field_name@, text_of(value)),
{
    let mut out = String::from_str(field_name);
    out.append(": ");
    match value {
        Some(v) => out.append(v.as_str()),
        None => out.append("N/A"),
    }
    out
}

/// The document store of one node.
pub struct HolyDiverDataHandler {
    doc: AutoCommit,
}

impl HolyDiverDataHandler {
    /// The text fields of the document; `None` if its `values` map is gone.
    pub closed spec fn fields(&self) -> Option<Map<Seq<char>, Seq<char>>> {
        doc_fields(self.doc)
    }

    /// The document itself.
    pub closed spec fn doc(&self) -> AutoCommit {
        self.doc
    }

    /// The hashes of the changes the document holds.
    pub closed spec fn changes(&self) -> Set<Seq<u8>> {
        doc_changes(self.doc)
    }

    /// The actor under which this node's changes are made.
    pub closed spec fn actor(&self) -> Seq<u8> {
        doc_actor(self.doc)
    }

    /// Starts from the saved snapshot where it loads, else from a fresh
    /// document for `identity`.
    pub fn new(saved: Option<Vec<u8>>, identity: &ID) -> (r: HolyDiverDataHandler)
        ensures
            loads(saved) ==> Some(r.fields()) == snapshot_fields(saved->0@),
            !loads(saved) ==> r.fields() == Some(Map::<Seq<char>, Seq<char>>::empty()),
            !loads(saved) ==> r.actor() == actor_bytes(*identity),
            loads(saved) ==> r.changes() == snapshot_changes(saved->0@),
    {
        HolyDiverDataHandler { doc: load_state(saved, identity) }
    }

    /// Whether the document holds its `values` map, which reads and writes need.
    pub fn has_values(&self) -> (r: bool)
        ensures
            r == self.fields() is Some,
    {
        has_values_map(&self.doc)
    }

    pub fn get_field(&self, field_name: String) -> (r: Option<String>)
        requires
            self.fields() is Some,
        ensures
            text_of(r) == field_value(self.fields()->0, field_name@),
    {
        read_field(&self.doc, field_name.as_str())
    }

    /// Sets a field and returns the snapshot to persist.
    pub fn set_field(&mut self, field_name: String, field_value: String) -> (r: Vec<u8>)
        requires
            old(self).fields() is Some,
        ensures
            final(self).fields() == Some(old(self).fields()->0.insert(field_name@, quoted(field_value@))),
            snapshot_fields(r@) == Some(final(self).fields()),
            snapshot_changes(r@) == final(self).changes(),
            final(self).actor() == old(self).actor(),
    {
        write_field(&mut self.doc, field_name.as_str(), field_value.as_str());
        save_doc(&mut self.doc)
    }

    /// A snapshot of the whole document.
    pub fn get_state(&mut self) -> (r: Vec<u8>)
        ensures
            final(self).fields() == old(self).fields(),
            snapshot_fields(r@) == Some(old(self).fields()),
            final(self).actor() == old(self).actor(),
            final(self).changes() == old(self).changes(),
            snapshot_changes(r@) == old(self).changes(),
    {
        save_doc(&mut self.doc)
    }

    /// Merges `other` in; on success returns the snapshot to persist. A
    /// failed merge may have applied part of the changes.
    pub fn merge(&mut self, other: AutoCommit) -> (r: Option<Vec<u8>>)
        ensures
            (r is Some) == (merged_fields(old(self).doc(), other) is Some),
            r is Some ==> Some(final(self).fields()) == merged_fields(old(self).doc(), other),
            r matches Some(b) ==> snapshot_fields(b@) == Some(final(self).fields()),
            r matches Some(b) ==> snapshot_changes(b@) == final(self).changes(),
            r is Some ==> final(self).changes() == old(self).changes().union(doc_changes(other)),
            doc_changes(other).subset_of(old(self).changes()) ==> r is Some && final(self).fields()
                == old(self).fields() && final(self).changes() == old(self).changes(),
            final(self).actor() == old(self).actor(),
    {
        let mut other = other;
        if merge_doc(&mut self.doc, &mut other) {
            Some(save_doc(&mut self.doc))
        } else {
            None
        }
    }

    /// Applies a received message. A full snapshot that loads is merged in,
    /// and the snapshot to persist comes back; anything else changes nothing.
    pub fn handle_message(&mut self, msg_type: MessageType, msg_payload: Vec<u8>) -> (r: Option<Vec<u8>>)
        ensures
            msg_type == MessageType::IncSync ==> r is None && *final(self) == *old(self),
            snapshot_fields(msg_payload@) is None ==> r is None && *final(self) == *old(self),
            msg_type == MessageType::FullSync && snapshot_fields(msg_payload@) is Some ==> {
                &&& (r is Some) == (merged_snapshot(old(self).doc(), msg_payload@) is Some)
                &&& r is Some ==> Some(final(self).fields()) == merged_snapshot(old(self).doc(), msg_payload@)
                &&& r is Some ==> final(self).changes() == old(self).changes().union(snapshot_changes(msg_payload@))
                &&& snapshot_changes(msg_payload@).subset_of(old(self).changes()) ==> r is Some
                    && final(self).fields() == old(self).fields() && final(self).changes() == old(self).changes()
            },
            r matches Some(b) ==> snapshot_changes(b@) == final(self).changes(),
            r matches Some(b) ==> snapshot_fields(b@) == Some(final(self).fields()),
            final(self).actor() == old(self).actor(),
    {
        match msg_type {
            MessageType::FullSync => match load_doc(msg_payload.as_slice()) {
                Some(doc) => self.merge(doc),
                None => None,
            },
            MessageType::IncSync => None,
        }
    }
}

/// Merging is idempotent: once a store has merged the snapshots `s1` and
/// then `s2`, it holds every change of `s1`, so a FullSync message carrying
/// `s1` again leaves its fields and changes as they are (see
/// `handle_message`).
pub proof fn law_merge_idempotent(
    start: HolyDiverDataHandler,
    after_s1: HolyDiverDataHandler,
    after_s2: HolyDiverDataHandler,
    s1: Seq<u8>,
    s2: Seq<u8>,
)
    requires
        after_s1.changes() == start.changes().union(snapshot_changes(s1)),
        after_s2.changes() == after_s1.changes().union(snapshot_changes(s2)),
    ensures
        snapshot_changes(s1).subset_of(after_s2.changes()),
{
}

/// Two stores that exchange snapshots end up with the same changes: `a`
/// merges a snapshot of `b` (so it gains `b`'s changes), then `b` merges a
/// snapshot of the result. Whether equal changes give equal fields is the
/// CRDT's own guarantee and is not stated here.
pub proof fn law_exchange_converges(
    a: HolyDiverDataHandler,
    b: HolyDiverDataHandler,
    a_after: HolyDiverDataHandler,
    b_after: HolyDiverDataHandler,
)
    requires
        a_after.changes() == a.changes().union(b.changes()),
        b_after.changes() == b.changes().union(a_after.changes()),
    ensures
        a_after.changes() == b_after.changes(),
{
    assert(a_after.changes() =~= b_after.changes());
}

/// The order of two successful merges does not matter for the changes held.
pub proof fn law_merge_order_irrelevant(
    start: HolyDiverDataHandler,
    x: HolyDiverDataHandler,
    y: HolyDiverDataHandler,
    o1: Set<Seq<u8>>,
    o2: Set<Seq<u8>>,
)
    requires
        x.changes() == start.changes().union(o1).union(o2),
        y.changes() == start.changes().union(o2).union(o1),
    ensures
        x.changes() == y.changes(),
{
    assert(x.changes() =~= y.changes());
}

fn get_test_data() -> (r: AutoCommit)
    ensures
        doc_fields(r) == Some(Map::<Seq<char>, Seq<char>>::empty().insert("name"@, quoted("dio"@))),
{
    let mut doc = values_document();
    let sample: Vec<u8> = vec![0x73, 0x61, 0x6d, 0x70, 0x6c, 0x65];
    assign_actor(&mut doc, sample.as_slice());
    write_field(&mut doc, "name", "dio");
    doc
}

/// A snapshot of a small sample document whose field `name` is "dio".
pub fn get_broadcast_data() -> (r: Vec<u8>)
    ensures
        snapshot_fields(r@) == Some(Some(Map::<Seq<char>, Seq<char>>::empty().insert("name"@, quoted("dio"@)))),
{
    let mut data = get_test_data();
    save_doc(&mut data)
}

} // verus!
