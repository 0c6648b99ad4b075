//! The events that a binder receives, and the configuration it reads.

use vstd::prelude::*;
use crate::name::NameView;
use crate::text::same_text;

verus! {

/// How forgiving one parse is.
#[derive(Clone, Copy, Debug, PartialEq, Eq, Structural)]
pub struct Options {
    /// Unknown and repeated fields are errors when set; they are tolerated
    /// otherwise.
    pub strict: bool,
}

/// An inline field: a name and its decoded text.
#[derive(Debug)]
pub struct ValueField {
    pub name: NameView,
    pub value: String,
}

/// The declared content type of a data field, with the file extension that
/// is registered for it, if any.
#[derive(Debug)]
pub struct ContentType {
    pub media_type: String,
    pub extension: Option<String>,
}

impl ContentType {
    /// This same content type, held anew.
    pub fn duplicate(&self) -> (r: ContentType)
        ensures
            r == *self,
    {
        ContentType { media_type: self.media_type.clone(), extension: copy_text(&self.extension) }
    }
}

/// `o`, held anew.
pub fn copy_text(o: &Option<String>) -> (r: Option<String>)
    ensures
        r == *o,
{
    match o {
        Some(s) => Some(s.clone()),
        None => None,
    }
}

/// Size limits by name (`"string"`, `"file"`, `"file/pdf"`, ...). Where a name
/// appears more than once the first entry counts.
#[derive(Debug)]
pub struct Limits {
    pub entries: Vec<(String, u64)>,
}

/// Limit for text read from a data field when none is configured.
pub const STRING_LIMIT: u64 = 8192;

/// Limit for a file read from a data field when none is configured.
pub const FILE_LIMIT: u64 = 1048576;

/// The limit configured under `name` among `entries` from `i` on.
pub open spec fn limit_from(entries: Seq<(String, u64)>, name: Seq<char>, i: int) -> Option<u64>
    decreases entries.len() - i,
{
    if i < 0 || i >= entries.len() {
        None
    } else if entries[i].0@ == name {
        Some(entries[i].1)
    } else {
        limit_from(entries, name, i + 1)
    }
}

/// `o`, or `d` where `o` is `None`.
pub open spec fn or_default(o: Option<u64>, d: u64) -> u64 {
    match o {
        Some(v) => v,
        None => d,
    }
}

impl Limits {
    /// The limit configured under `name`.
    pub open spec fn get_spec(&self, name: Seq<char>) -> Option<u64> {
        limit_from(self.entries@, name, 0)
    }

    /// The limit for a file whose content type has extension `ext`: the one
    /// configured under `file/<ext>`, else under `file`, else [`FILE_LIMIT`].
    pub open spec fn file_limit_spec(&self, ext: Option<Seq<char>>) -> u64 {
        let generic = or_default(self.get_spec("file"@), FILE_LIMIT);
        match ext {
            Some(e) => match self.get_spec("file/"@ + e) {
                Some(v) => v,
                None => generic,
            },
            None => generic,
        }
    }

    /// The limit for text read from a data field.
    pub open spec fn string_limit_spec(&self) -> u64 {
        or_default(self.get_spec("string"@), STRING_LIMIT)
    }

    /// No limit configured.
    pub fn new() -> (r: Limits)
        ensures
            forall|name: Seq<char>| r.get_spec(name) is None,
    {
        Limits { entries: Vec::new() }
    }

    /// These limits, with `value` under `name` in place of what was there.
    pub fn limit(self, name: &str, value: u64) -> (r: Limits)
        ensures
            r.get_spec(name@) == Some(value),
            forall|other: Seq<char>| other != name@ ==> r.get_spec(other) == self.get_spec(other),
    {
        let mut entries = self.entries;
        let ghost before = entries@;
        entries.insert(0, (name.to_owned(), value));
        let r = Limits { entries };
        assert forall|other: Seq<char>| other != name@ implies r.get_spec(other) == self.get_spec(other) by {
            lemma_limit_from_shift(before, r.entries@, other, 0);
        }
        r
    }

    /// The limit configured under `name`, if any.
    pub fn get(&self, name: &str) -> (r: Option<u64>)
        ensures
            r == self.get_spec(name@),
    {
        let n = self.entries.len();
        let mut i: usize = 0;
        while i < n
            invariant
                n == self.entries@.len(),
                i <= n,
                self.get_spec(name@) == limit_from(self.entries@, name@, i as int),
            decreases n - i,
        {
            let entry = &self.entries[i];
            if same_text(entry.0.as_str(), name) {
                return Some(entry.1);
            }
            i = i + 1;
        }
        None
    }

    /// The limit for a file whose content type has extension `ext`.
    pub fn file_limit(&self, ext: Option<&String>) -> (r: u64)
        ensures
            r == self.file_limit_spec(
                match ext {
                    Some(e) => Some(e@),
                    None => None,
                },
            ),
    {
        let specific = match ext {
            Some(e) => {
                let key = String::from_str("file/").concat(e.as_str());
                self.get(key.as_str())
            },
            None => None,
        };
        match specific {
            Some(v) => v,
            None => match self.get("file") {
                Some(v) => v,
                None => FILE_LIMIT,
            },
        }
    }

    /// The largest of the first `k` configured limits and the defaults.
    pub open spec fn max_limit(&self, k: int) -> u64
        decreases k,
    {
        if k <= 0 || k > self.entries@.len() {
            FILE_LIMIT
        } else {
            let rest = self.max_limit(k - 1);
            let v = self.entries@[k - 1].1;
            if v > rest {
                v
            } else {
                rest
            }
        }
    }

    /// How many bytes a transport reads of a data field before it stops:
    /// one more than the largest limit configured or by default, so that a
    /// field that runs past its limit is seen to, and no more.
    pub open spec fn read_bound_spec(&self) -> u64 {
        let most = self.max_limit(self.entries@.len() as int);
        if most < u64::MAX {
            (most + 1) as u64
        } else {
            most
        }
    }

    /// How many bytes a transport reads of a data field before it stops.
    pub fn read_bound(&self) -> (r: u64)
        ensures
            r == self.read_bound_spec(),
            forall|i: int| 0 <= i < self.entries@.len() ==> (#[trigger] self.entries@[i]).1 < r
                || r == u64::MAX,
            FILE_LIMIT < r,
            STRING_LIMIT < r,
    {
        let mut most: u64 = FILE_LIMIT;
        let n = self.entries.len();
        let mut i: usize = 0;
        while i < n
            invariant
                n == self.entries@.len(),
                i <= n,
                FILE_LIMIT <= most,
                most == self.max_limit(i as int),
                forall|j: int| 0 <= j < i ==> (#[trigger] self.entries@[j]).1 <= most,
            decreases n - i,
        {
            if self.entries[i].1 > most {
                most = self.entries[i].1;
            }
            i = i + 1;
        }
        if most < u64::MAX {
            most + 1
        } else {
            most
        }
    }

    /// The limit for text read from a data field.
    pub fn string_limit(&self) -> (r: u64)
        ensures
            r == self.string_limit_spec(),
    {
        match self.get("string") {
            Some(v) => v,
            None => STRING_LIMIT,
        }
    }
}

proof fn lemma_limit_from_shift(
    before: Seq<(String, u64)>,
    after: Seq<(String, u64)>,
    name: Seq<char>,
    i: int,
)
    requires
        after.len() == before.len() + 1,
        0 <= i <= before.len(),
        after[0].0@ != name,
        forall|j: int| 0 <= j < before.len() ==> after[j + 1] == #[trigger] before[j],
    ensures
        limit_from(after, name, i + 1) == limit_from(before, name, i),
        i == 0 ==> limit_from(after, name, 0) == limit_from(before, name, 0),
    decreases before.len() - i,
{
    if i < before.len() {
        assert(after[i + 1] == before[i]);
        lemma_limit_from_shift(before, after, name, i + 1);
    }
}

/// A streamed field: its name, what the client declared of it, the bytes that
/// the transport read of it, and the limits that apply to it. The transport
/// reads at most one byte past the largest limit that applies, so that the
/// binder can tell a stream that fits from one that overflows.
#[derive(Debug)]
pub struct DataField {
    pub name: NameView,
    pub content_type: ContentType,
    pub file_name: Option<String>,
    pub data: Vec<u8>,
    pub limits: Limits,
}

} // verus!
