//! Field names such as `user.tags[0].value`, and views of them that walk the
//! name one key at a time.

use vstd::prelude::*;

verus! {

/// Whether `c` opens a new key: `.` before a field key, `[` before an index.
pub open spec fn is_key_start(c: char) -> bool {
    c == '.' || c == '['
}

/// The first position at or after `from` that holds `.` or `[`, or the length.
pub open spec fn find_key_start(s: Seq<char>, from: int) -> int
    decreases s.len() - from,
{
    if from >= s.len() {
        s.len() as int
    } else if is_key_start(s[from]) {
        from
    } else {
        find_key_start(s, from + 1)
    }
}

/// The first position at or after `from` that holds `]`, or the length.
pub open spec fn find_close(s: Seq<char>, from: int) -> int
    decreases s.len() - from,
{
    if from >= s.len() {
        s.len() as int
    } else if s[from] == ']' {
        from
    } else {
        find_close(s, from + 1)
    }
}

/// Where the key that begins at `start` ends: a bracketed index runs to its
/// `]`, any other key to the next `.` or `[`. A name never fails to split:
/// text without delimiters is one key.
pub open spec fn segment_end(s: Seq<char>, start: int) -> int {
    if start >= s.len() {
        s.len() as int
    } else if s[start] == '[' {
        let j = find_close(s, start);
        if j < s.len() {
            j + 1
        } else {
            s.len() as int
        }
    } else if s[start] == '.' {
        find_key_start(s, start + 1)
    } else {
        find_key_start(s, start)
    }
}

/// The key that a segment spells, with its delimiters removed.
pub open spec fn key_of(seg: Seq<char>) -> Seq<char> {
    if seg.len() == 0 {
        seg
    } else if seg[0] == '.' {
        seg.skip(1)
    } else if seg[0] == '[' {
        if seg.len() >= 2 && seg.last() == ']' {
            seg.subrange(1, seg.len() - 1)
        } else {
            seg.skip(1)
        }
    } else {
        seg
    }
}

proof fn lemma_find_key_start_bounds(s: Seq<char>, from: int)
    requires
        0 <= from <= s.len(),
    ensures
        from <= find_key_start(s, from) <= s.len(),
        find_key_start(s, from) < s.len() ==> is_key_start(s[find_key_start(s, from)]),
        forall|i: int| from <= i < find_key_start(s, from) ==> !is_key_start(#[trigger] s[i]),
    decreases s.len() - from,
{
    if from < s.len() && !is_key_start(s[from]) {
        lemma_find_key_start_bounds(s, from + 1);
    }
}

proof fn lemma_find_close_bounds(s: Seq<char>, from: int)
    requires
        0 <= from <= s.len(),
    ensures
        from <= find_close(s, from) <= s.len(),
        find_close(s, from) < s.len() ==> s[find_close(s, from)] == ']',
        forall|i: int| from <= i < find_close(s, from) ==> #[trigger] s[i] != ']',
    decreases s.len() - from,
{
    if from < s.len() && s[from] != ']' {
        lemma_find_close_bounds(s, from + 1);
    }
}

/// The segment that begins at `start` is not empty unless the name is used up.
pub proof fn lemma_segment_end_bounds(s: Seq<char>, start: int)
    requires
        0 <= start <= s.len(),
    ensures
        start <= segment_end(s, start) <= s.len(),
        start < s.len() ==> start < segment_end(s, start),
{
    if start < s.len() {
        if s[start] == '[' {
            lemma_find_close_bounds(s, start);
        } else if s[start] == '.' {
            lemma_find_key_start_bounds(s, start + 1);
        } else {
            lemma_find_key_start_bounds(s, start);
        }
    }
}

fn find_key_start_exec(s: &str, from: usize) -> (r: usize)
    requires
        from <= s@.len(),
    ensures
        r == find_key_start(s@, from as int),
{
    let len = s.unicode_len();
    let mut i = from;
    while i < len
        invariant
            len == s@.len(),
            from <= i <= len,
            find_key_start(s@, from as int) == find_key_start(s@, i as int),
        decreases len - i,
    {
        let c = s.get_char(i);
        if c == '.' || c == '[' {
            return i;
        }
        i = i + 1;
    }
    i
}

fn find_close_exec(s: &str, from: usize) -> (r: usize)
    requires
        from <= s@.len(),
    ensures
        r == find_close(s@, from as int),
{
    let len = s.unicode_len();
    let mut i = from;
    while i < len
        invariant
            len == s@.len(),
            from <= i <= len,
            find_close(s@, from as int) == find_close(s@, i as int),
        decreases len - i,
    {
        if s.get_char(i) == ']' {
            return i;
        }
        i = i + 1;
    }
    i
}

fn segment_end_exec(s: &str, start: usize) -> (r: usize)
    requires
        start <= s@.len(),
    ensures
        r == segment_end(s@, start as int),
{
    let len = s.unicode_len();
    if start >= len {
        len
    } else {
        let c = s.get_char(start);
        if c == '[' {
            let j = find_close_exec(s, start);
            if j < len {
                j + 1
            } else {
                len
            }
        } else if c == '.' {
            find_key_start_exec(s, start + 1)
        } else {
            find_key_start_exec(s, start)
        }
    }
}

/// A field name together with the key that a binder is looking at: the
/// characters `start..end` of `name`. Shifting moves on to the next key; what
/// lies before `end` is the path that has been walked so far.
#[derive(Debug)]
pub struct NameView {
    pub name: String,
    pub start: usize,
    pub end: usize,
}

impl NameView {
    /// `start..end` is exactly one segment of the name.
    pub open spec fn wf(&self) -> bool {
        &&& self.name@.len() <= usize::MAX
        &&& self.start <= self.end <= self.name@.len()
        &&& self.end == segment_end(self.name@, self.start as int)
    }

    /// The current key, delimiters removed.
    pub open spec fn key_spec(&self) -> Seq<char> {
        key_of(self.name@.subrange(self.start as int, self.end as int))
    }

    /// The path walked so far, up to and including the current key.
    pub open spec fn as_name_spec(&self) -> Seq<char> {
        self.name@.subrange(0, self.end as int)
    }

    /// The view of the key that follows the current one.
    pub open spec fn shifted(&self) -> NameView {
        NameView {
            name: self.name,
            start: self.end,
            end: segment_end(self.name@, self.end as int) as usize,
        }
    }

    /// A view of the first key of `name`.
    pub fn new(name: String) -> (r: NameView)
        ensures
            r.wf(),
            r.name == name,
            r.start == 0,
    {
        let end = segment_end_exec(name.as_str(), 0);
        let _ = name.as_str().unicode_len();
        proof {
            lemma_segment_end_bounds(name@, 0);
        }
        NameView { name, start: 0, end }
    }

    /// This same view, held anew.
    pub fn duplicate(&self) -> (r: NameView)
        ensures
            r == *self,
    {
        NameView { name: self.name.clone(), start: self.start, end: self.end }
    }

    /// The view of the key that follows the current one.
    pub fn shift(&self) -> (r: NameView)
        requires
            self.wf(),
        ensures
            r.wf(),
            r == self.shifted(),
    {
        let end = segment_end_exec(self.name.as_str(), self.end);
        proof {
            lemma_segment_end_bounds(self.name@, self.end as int);
        }
        NameView { name: self.name.clone(), start: self.end, end }
    }

    /// Whether every key of the name has been walked.
    pub fn is_exhausted(&self) -> (r: bool)
        requires
            self.wf(),
        ensures
            r == (self.start == self.name@.len()),
    {
        proof {
            lemma_segment_end_bounds(self.name@, self.start as int);
        }
        self.start == self.name.as_str().unicode_len()
    }

    /// The current key as written, or `None` once the name is used up.
    pub fn key(&self) -> (r: Option<String>)
        requires
            self.wf(),
        ensures
            r is Some <==> self.start < self.end,
            r matches Some(k) ==> k@ == self.key_spec(),
    {
        if self.start < self.end {
            Some(self.key_lossy())
        } else {
            None
        }
    }

    /// The current key, delimiters removed; empty once the name is used up.
    /// Declared field names are matched against this.
    pub fn key_lossy(&self) -> (r: String)
        requires
            self.wf(),
        ensures
            r@ == self.key_spec(),
    {
        let s = self.name.as_str();
        let (from, to) = if self.start == self.end {
            (self.start, self.end)
        } else {
            let c = s.get_char(self.start);
            if c == '.' {
                (self.start + 1, self.end)
            } else if c == '[' {
                if self.end - self.start >= 2 && s.get_char(self.end - 1) == ']' {
                    (self.start + 1, self.end - 1)
                } else {
                    (self.start + 1, self.end)
                }
            } else {
                (self.start, self.end)
            }
        };
        let r = s.substring_char(from, to).to_owned();
        proof {
            let seg = self.name@.subrange(self.start as int, self.end as int);
            assert(r@ =~= key_of(seg));
        }
        r
    }

    /// The whole path up to and including the current key: the location that
    /// errors of the field at this view are reported under.
    pub fn as_name(&self) -> (r: String)
        requires
            self.wf(),
        ensures
            r@ == self.as_name_spec(),
    {
        self.name.as_str().substring_char(0, self.end).to_owned()
    }

    /// The path before the current key, if there is one.
    pub fn parent(&self) -> (r: Option<String>)
        requires
            self.wf(),
        ensures
            r is Some <==> self.start > 0,
            r matches Some(p) ==> p@ == self.name@.subrange(0, self.start as int),
    {
        if self.start > 0 {
            Some(self.name.as_str().substring_char(0, self.start).to_owned())
        } else {
            None
        }
    }
}

} // verus!
