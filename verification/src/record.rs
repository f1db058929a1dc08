//! The metadata record of one stored object, in its two forms.
//!
//! [`ObjectMeta`] is the form a backend listing yields and the predicate
//! reads; [`ObjectExport`] is the form that crosses a process boundary. Every
//! field of one has its counterpart in the other, so a record can pass
//! through any number of chained filters unchanged.

use vstd::prelude::*;
use vstd::std_specs::convert::FromSpecImpl;
use crate::timestamp::Timestamp;

verus! {

/// What a record says, whichever form holds it.
pub struct RecordView {
    pub location: Seq<char>,
    pub last_modified: Timestamp,
    pub size: nat,
    pub e_tag: Option<Seq<char>>,
    pub version: Option<Seq<char>>,
}

/// The text of an optional string.
pub open spec fn text_of(field: Option<String>) -> Option<Seq<char>> {
    match field {
        Some(s) => Some(s@),
        None => None,
    }
}

/// The metadata that describes an object, as exchanged between processes.
#[derive(Debug, Clone, PartialEq, Eq)]
pub struct ObjectExport {
    /// The full path to the object
    pub location: String,
    /// The last modified time
    pub last_modified: Timestamp,
    /// The size in bytes of the object
    pub size: usize,
    /// The unique identifier for the object
    pub e_tag: Option<String>,
    /// A version indicator for this object
    pub version: Option<String>,
}

/// The metadata that describes an object, as a backend listing reports it.
#[derive(Debug, Clone, PartialEq, Eq)]
pub struct ObjectMeta {
    /// The full path to the object
    pub location: String,
    /// The last modified time
    pub last_modified: Timestamp,
    /// The size in bytes of the object
    pub size: usize,
    /// The unique identifier for the object
    pub e_tag: Option<String>,
    /// A version indicator for this object
    pub version: Option<String>,
}

impl View for ObjectExport {
    type V = RecordView;

    open spec fn view(&self) -> RecordView {
        RecordView {
            location: self.location@,
            last_modified: self.last_modified,
            size: self.size as nat,
            e_tag: text_of(self.e_tag),
            version: text_of(self.version),
        }
    }
}

impl View for ObjectMeta {
    type V = RecordView;

    open spec fn view(&self) -> RecordView {
        RecordView {
            location: self.location@,
            last_modified: self.last_modified,
            size: self.size as nat,
            e_tag: text_of(self.e_tag),
            version: text_of(self.version),
        }
    }
}

impl ObjectExport {
    /// The wire form of `meta`.
    pub open spec fn of(meta: ObjectMeta) -> ObjectExport {
        ObjectExport {
            location: meta.location,
            last_modified: meta.last_modified,
            size: meta.size,
            e_tag: meta.e_tag,
            version: meta.version,
        }
    }
}

impl ObjectMeta {
    /// The listed form of `export`.
    pub open spec fn of(export: ObjectExport) -> ObjectMeta {
        ObjectMeta {
            location: export.location,
            last_modified: export.last_modified,
            size: export.size,
            e_tag: export.e_tag,
            version: export.version,
        }
    }
}

impl FromSpecImpl<ObjectMeta> for ObjectExport {
    open spec fn obeys_from_spec() -> bool {
        true
    }

    open spec fn from_spec(meta: ObjectMeta) -> ObjectExport {
        ObjectExport::of(meta)
    }
}

impl From<ObjectMeta> for ObjectExport {
    /// The wire form of a listed record: every field is carried over as it is.
    fn from(meta: ObjectMeta) -> (export: ObjectExport)
        ensures
            export == ObjectExport::of(meta),
            export@ == meta@,
    {
        ObjectExport {
            location: meta.location,
            last_modified: meta.last_modified,
            size: meta.size,
            e_tag: meta.e_tag,
            version: meta.version,
        }
    }
}

impl FromSpecImpl<ObjectExport> for ObjectMeta {
    open spec fn obeys_from_spec() -> bool {
        true
    }

    open spec fn from_spec(export: ObjectExport) -> ObjectMeta {
        ObjectMeta::of(export)
    }
}

impl From<ObjectExport> for ObjectMeta {
    /// The listed form of a wire record: every field is carried over as it is.
    fn from(export: ObjectExport) -> (meta: ObjectMeta)
        ensures
            meta == ObjectMeta::of(export),
            meta@ == export@,
    {
        ObjectMeta {
            location: export.location,
            last_modified: export.last_modified,
            size: export.size,
            e_tag: export.e_tag,
            version: export.version,
        }
    }
}

/// Mapping a listed record to its wire form and back yields the record it
/// started from, equal in every field.
pub proof fn lemma_export_round_trip(meta: ObjectMeta)
    ensures
        ObjectMeta::of(ObjectExport::of(meta)) == meta,
        ObjectExport::of(meta)@ == meta@,
{
}

/// Mapping a wire record to its listed form and back yields the record it
/// started from, equal in every field.
pub proof fn lemma_import_round_trip(export: ObjectExport)
    ensures
        ObjectExport::of(ObjectMeta::of(export)) == export,
        ObjectMeta::of(export)@ == export@,
{
}

/// Where the final segment of `location` begins: just past its last `/`, or
/// at zero when it holds none.
pub open spec fn basename_start(location: Seq<char>) -> int
    decreases location.len(),
{
    if location.len() == 0 {
        0
    } else if location.last() == '/' {
        location.len() as int
    } else {
        basename_start(location.drop_last())
    }
}

/// The final path segment of `location`: what follows its last `/`, the
/// whole of it when it holds no `/`, and nothing when it ends in one.
pub open spec fn spec_basename(location: Seq<char>) -> Seq<char> {
    location.subrange(basename_start(location), location.len() as int)
}

/// `name` is a suffix of `location` that holds no `/` and cannot be
/// extended to the left without taking one in.
pub open spec fn is_final_segment(name: Seq<char>, location: Seq<char>) -> bool {
    &&& name.len() <= location.len()
    &&& name == location.subrange(location.len() - name.len(), location.len() as int)
    &&& forall|i: int| 0 <= i < name.len() ==> name[i] != '/'
    &&& name.len() < location.len() ==> location[location.len() - name.len() - 1] == '/'
}

/// The start of the final segment lies within the location, nothing from
/// there on is a `/`, and the character before it, if any, is one.
pub proof fn lemma_basename_start(location: Seq<char>)
    ensures
        0 <= basename_start(location) <= location.len(),
        forall|i: int| basename_start(location) <= i < location.len() ==> location[i] != '/',
        basename_start(location) > 0 ==> location[basename_start(location) - 1] == '/',
    decreases location.len(),
{
    if location.len() > 0 && location.last() != '/' {
        let shorter = location.drop_last();
        lemma_basename_start(shorter);
        assert forall|i: int| basename_start(location) <= i < location.len() implies location[i]
            != '/' by {
            if i < shorter.len() {
                assert(location[i] == shorter[i]);
            }
        }
        if basename_start(location) > 0 {
            assert(location[basename_start(location) - 1] == shorter[basename_start(shorter) - 1]);
        }
    }
}

/// The basename is the final segment, and the only one.
pub proof fn lemma_basename_is_final_segment(location: Seq<char>)
    ensures
        is_final_segment(spec_basename(location), location),
        forall|name: Seq<char>| is_final_segment(name, location) ==> name == spec_basename(location),
{
    lemma_basename_start(location);
    let start = basename_start(location);
    assert forall|name: Seq<char>| is_final_segment(name, location) implies name == spec_basename(
        location,
    ) by {
        let from = location.len() - name.len();
        if from < start {
            assert(name[start - 1 - from] == location[start - 1]);
        } else if from > start {
            assert(location[from - 1] == '/');
        }
    }
}

/// Extending a location by one character moves the start of the final
/// segment past it when it is a `/` and leaves it where it was otherwise.
proof fn lemma_basename_start_step(location: Seq<char>, upto: int)
    requires
        0 <= upto < location.len(),
    ensures
        basename_start(location.take(upto + 1)) == if location[upto] == '/' {
            upto + 1
        } else {
            basename_start(location.take(upto))
        },
{
    let longer = location.take(upto + 1);
    assert(longer.last() == location[upto]);
    assert(longer.drop_last() =~= location.take(upto));
}

/// The final path segment of `location`: the text after its last `/`, or
/// all of it when it holds none. A location that ends in `/`, and the empty
/// location, have the empty basename.
pub fn basename(location: &str) -> (name: &str)
    ensures
        name@ == spec_basename(location@),
        is_final_segment(name@, location@),
{
    broadcast use vstd::string::group_string_axioms;

    let length: usize = location.unicode_len();
    let mut start: usize = 0;
    let mut count: usize = 0;
    let ghost text = location@;
    for c in it: location.chars()
        invariant
            it.seq() == text,
            text.len() == length,
            count == it.index(),
            start == basename_start(text.take(it.index())),
            start <= count,
    {
        proof {
            lemma_basename_start_step(text, count as int);
        }
        count = count + 1;
        if c == '/' {
            start = count;
        }
    }
    proof {
        assert(text.take(count as int) =~= text);
        lemma_basename_is_final_segment(text);
    }
    location.substring_char(start, count)
}

} // verus!
