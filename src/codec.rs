use vstd::prelude::*;
use vstd::string::*;

use crate::error::EnvError;

verus! {

/// One entry, seen as its key and its value.
pub open spec fn pair_view(p: (String, String)) -> (Seq<char>, Seq<char>) {
    (p.0@, p.1@)
}

/// A sequence of entries, seen as keys and values.
pub open spec fn entries_view(v: Seq<(String, String)>) -> Seq<(Seq<char>, Seq<char>)> {
    v.map_values(|p: (String, String)| pair_view(p))
}

/// No key occurs twice.
pub open spec fn keys_unique(s: Seq<(Seq<char>, Seq<char>)>) -> bool {
    forall|i: int, j: int|
        0 <= i < s.len() && 0 <= j < s.len() && i != j ==> #[trigger] s[i].0 != #[trigger] s[j].0
}

/// The key occurs among the entries.
pub open spec fn has_key(s: Seq<(Seq<char>, Seq<char>)>, k: Seq<char>) -> bool {
    exists|i: int| 0 <= i < s.len() && #[trigger] s[i].0 == k
}

/// The value of the first entry with key `k`.
pub open spec fn lookup(s: Seq<(Seq<char>, Seq<char>)>, k: Seq<char>) -> Option<Seq<char>>
    decreases s.len(),
{
    if s.len() == 0 {
        None
    } else if s[0].0 == k {
        Some(s[0].1)
    } else {
        lookup(s.skip(1), k)
    }
}

/// `lookup` finds the entry at `i` when no earlier entry has its key, and
/// nothing when no entry has the key.
proof fn lemma_lookup(s: Seq<(Seq<char>, Seq<char>)>, k: Seq<char>, i: int)
    requires
        0 <= i <= s.len(),
        forall|j: int| 0 <= j < i ==> #[trigger] s[j].0 != k,
        i < s.len() ==> s[i].0 == k,
    ensures
        i < s.len() ==> lookup(s, k) == Some(s[i].1),
        i == s.len() ==> lookup(s, k) is None,
    decreases i,
{
    if s.len() > 0 && i > 0 {
        assert(s[0].0 != k);
        let t = s.skip(1);
        assert forall|j: int| 0 <= j < i - 1 implies #[trigger] t[j].0 != k by {
            assert(t[j] == s[j + 1]);
        }
        lemma_lookup(t, k, i - 1);
    }
}

/// `KEY="VALUE"`: the line that serialization writes for one entry.
pub open spec fn quoted_line(p: (Seq<char>, Seq<char>)) -> Seq<char> {
    p.0 + seq!['=', '"'] + p.1 + seq!['"']
}

/// `KEY=VALUE`: an entry as it is shown to the user.
pub open spec fn plain_line(p: (Seq<char>, Seq<char>)) -> Seq<char> {
    p.0 + seq!['='] + p.1
}

/// The lines joined by newlines, with none after the last.
pub open spec fn join_lines(lines: Seq<Seq<char>>) -> Seq<char>
    decreases lines.len(),
{
    if lines.len() == 0 {
        Seq::empty()
    } else if lines.len() == 1 {
        lines[0]
    } else {
        join_lines(lines.drop_last()) + seq!['\n'] + lines.last()
    }
}

/// The text that serialization writes for these entries.
pub open spec fn serialized(s: Seq<(Seq<char>, Seq<char>)>) -> Seq<char> {
    join_lines(s.map_values(|p: (Seq<char>, Seq<char>)| quoted_line(p)))
}

/// What the `dotenv` parser makes of a text: its entries in key order, or
/// nothing where the text is malformed.
pub uninterp spec fn dotenv_entries(text: Seq<char>) -> Option<Seq<(Seq<char>, Seq<char>)>>;

/// Relies on `dotenv_parser::parse_dotenv`: the `BTreeMap` it returns is
/// walked in key order, so its keys are unique; its error becomes `None`.
#[verifier::external_body]
fn parse_dotenv_entries(text: &str) -> (r: Option<Vec<(String, String)>>)
    ensures
        r is None ==> dotenv_entries(text@) is None,
        r is Some ==> dotenv_entries(text@) == Some(entries_view(r->0@)),
        r is Some ==> keys_unique(entries_view(r->0@)),
{
    dotenv_parser::parse_dotenv(text).ok().map(|m| m.into_iter().collect())
}

/// A mapping from keys to values with unique keys, in a fixed order.
pub struct EnvMap {
    entries: Vec<(String, String)>,
}

impl View for EnvMap {
    type V = Seq<(Seq<char>, Seq<char>)>;

    closed spec fn view(&self) -> Seq<(Seq<char>, Seq<char>)> {
        entries_view(self.entries@)
    }
}

impl EnvMap {
    pub open spec fn wf(&self) -> bool {
        keys_unique(self@)
    }

    /// The empty mapping.
    pub fn new() -> (r: EnvMap)
        ensures
            r.wf(),
            r@ == Seq::<(Seq<char>, Seq<char>)>::empty(),
    {
        EnvMap { entries: Vec::new() }
    }

    /// The number of entries.
    pub fn len(&self) -> (r: usize)
        ensures
            r == self@.len(),
    {
        self.entries.len()
    }

    /// The key of the entry at `i`.
    pub fn key_at(&self, i: usize) -> (r: String)
        requires
            i < self@.len(),
        ensures
            r@ == self@[i as int].0,
    {
        self.entries[i].0.clone()
    }

    /// The value of the entry at `i`.
    pub fn value_at(&self, i: usize) -> (r: String)
        requires
            i < self@.len(),
        ensures
            r@ == self@[i as int].1,
    {
        self.entries[i].1.clone()
    }

    /// The position of `key` among the entries, if it is there.
    pub fn find(&self, key: &str) -> (r: Option<usize>)
        requires
            self.wf(),
        ensures
            r is None ==> !has_key(self@, key@),
            r is Some ==> r->0 < self@.len() && self@[r->0 as int].0 == key@,
    {
        let mut i: usize = 0;
        while i < self.entries.len()
            invariant
                i <= self@.len(),
                self@.len() == self.entries@.len(),
                forall|j: int| 0 <= j < i ==> #[trigger] self@[j].0 != key@,
            decreases self.entries.len() - i,
        {
            if str_eq(self.entries[i].0.as_str(), key) {
                return Some(i);
            }
            i = i + 1;
        }
        None
    }

    /// The value of `key`, if the key is there.
    pub fn get(&self, key: &str) -> (r: Option<String>)
        requires
            self.wf(),
        ensures
            r is None <==> !has_key(self@, key@),
            r is None <==> lookup(self@, key@) is None,
            r is Some ==> lookup(self@, key@) == Some(r->0@),
    {
        match self.find(key) {
            Some(i) => {
                proof {
                    lemma_lookup(self@, key@, i as int);
                }
                Some(self.value_at(i))
            },
            None => {
                proof {
                    lemma_lookup(self@, key@, self@.len() as int);
                }
                None
            },
        }
    }

    /// Sets the value of `key`: in place where the key is there, else as a
    /// new last entry.
    pub fn insert(&mut self, key: String, value: String)
        requires
            old(self).wf(),
        ensures
            final(self).wf(),
            has_key(old(self)@, key@) ==> exists|i: int|
                0 <= i < old(self)@.len() && #[trigger] old(self)@[i].0 == key@
                    && final(self)@ == old(self)@.update(i, (key@, value@)),
            !has_key(old(self)@, key@) ==> final(self)@ == old(self)@.push((key@, value@)),
    {
        match self.find(key.as_str()) {
            Some(i) => {
                let ghost k = key@;
                let ghost v = value@;
                self.entries.set(i, (key, value));
                assert(self@ =~= old(self)@.update(i as int, (k, v)));
            },
            None => {
                let ghost k = key@;
                let ghost v = value@;
                self.entries.push((key, value));
                assert(self@ =~= old(self)@.push((k, v)));
            },
        }
    }

    /// The entries in order, as pairs.
    pub fn to_pairs(&self) -> (r: Vec<(String, String)>)
        ensures
            entries_view(r@) == self@,
    {
        let mut out: Vec<(String, String)> = Vec::new();
        let mut i: usize = 0;
        while i < self.entries.len()
            invariant
                i <= self@.len(),
                self@.len() == self.entries@.len(),
                out@.len() == i,
                entries_view(out@) == self@.take(i as int),
            decreases self.entries.len() - i,
        {
            let k = self.key_at(i);
            let v = self.value_at(i);
            let ghost prev = out@;
            out.push((k, v));
            assert(out@ == prev.push((k, v)));
            assert(entries_view(out@)[i as int] == self@[i as int]);
            assert(entries_view(out@) =~= self@.take(i + 1));
            i = i + 1;
        }
        assert(self@.take(i as int) =~= self@);
        out
    }
}

/// Two strings hold the same characters.
pub fn str_eq(a: &str, b: &str) -> (r: bool)
    ensures
        r == (a@ == b@),
{
    let n = a.unicode_len();
    let m = b.unicode_len();
    if n != m {
        return false;
    }
    let mut i: usize = 0;
    while i < n
        invariant
            n == a@.len(),
            m == b@.len(),
            n == m,
            i <= n,
            forall|j: int| 0 <= j < i ==> a@[j] == b@[j],
        decreases n - i,
    {
        if a.get_char(i) != b.get_char(i) {
            return false;
        }
        i = i + 1;
    }
    assert(a@ =~= b@);
    true
}

/// Writes each entry as `KEY="VALUE"`, one line per entry, in the order of
/// the mapping.
pub fn serialize(m: &EnvMap) -> (r: String)
    ensures
        r@ == serialized(m@),
{
    let ghost lines = m@.map_values(|p: (Seq<char>, Seq<char>)| quoted_line(p));
    let mut out = String::new();
    let mut i: usize = 0;
    proof {
        reveal_strlit("\n");
        reveal_strlit("=\"");
        reveal_strlit("\"");
    }
    while i < m.len()
        invariant
            i <= m@.len(),
            lines.len() == m@.len(),
            lines == m@.map_values(|p: (Seq<char>, Seq<char>)| quoted_line(p)),
            out@ == join_lines(lines.take(i as int)),
            "\n"@ == seq!['\n'],
            "=\""@ == seq!['=', '"'],
            "\""@ == seq!['"'],
        decreases m@.len() - i,
    {
        let k = m.key_at(i);
        let v = m.value_at(i);
        if i > 0 {
            out.append("\n");
        }
        out.append(k.as_str());
        out.append("=\"");
        out.append(v.as_str());
        out.append("\"");
        proof {
            let t = lines.take(i + 1);
            assert(t.drop_last() =~= lines.take(i as int));
            assert(t.last() == quoted_line(m@[i as int]));
            if i == 0 {
                assert(t.len() == 1);
                assert(out@ =~= join_lines(t));
            } else {
                assert(out@ =~= join_lines(t));
            }
        }
        i = i + 1;
    }
    assert(lines.take(i as int) =~= lines);
    out
}

/// Reads `KEY=VALUE` text with the `dotenv` line rules: unquoted, single-
/// and double-quoted values, `export` prefixes, comments and blank lines.
pub fn parse(text: &str) -> (r: Result<EnvMap, EnvError>)
    ensures
        r is Ok ==> dotenv_entries(text@) == Some(r->Ok_0@) && r->Ok_0.wf(),
        r is Err ==> dotenv_entries(text@) is None && r->Err_0 == EnvError::Format,
{
    match parse_dotenv_entries(text) {
        Some(v) => Ok(EnvMap { entries: v }),
        None => Err(EnvError::Format),
    }
}

} // verus!
