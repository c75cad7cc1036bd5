use vstd::prelude::*;
use vstd::string::*;

use crate::codec::{serialize, serialized, EnvMap};

verus! {

/// The ambient variable that carries the preload cache.
pub const PRELOAD_VAR: &'static str = "AGE_ENV_PRELOAD_B64";

/// The prefix of every passthrough marker variable.
pub const PASSTHROUGH_ENV_PREFIX: &'static str = "__passthrough_age_env_";

/// The pieces of `s` between the separators, as `str::split` gives them:
/// an empty text is one empty piece.
pub open spec fn split_on(s: Seq<char>, sep: char) -> Seq<Seq<char>>
    decreases s.len(),
{
    if s.len() == 0 {
        seq![Seq::empty()]
    } else {
        let prev = split_on(s.drop_last(), sep);
        if s.last() == sep {
            prev.push(Seq::empty())
        } else {
            prev.drop_last().push(prev.last().push(s.last()))
        }
    }
}

/// The position of the first `c` in `s`, or -1.
pub open spec fn index_of(s: Seq<char>, c: char) -> int
    decreases s.len(),
{
    if s.len() == 0 {
        -1
    } else if s[0] == c {
        0
    } else {
        let k = index_of(s.skip(1), c);
        if k < 0 {
            -1
        } else {
            k + 1
        }
    }
}

/// A record `name:token` is named `name`: it holds a colon, and the text
/// before the first one is `name`.
pub open spec fn record_named(r: Seq<char>, name: Seq<char>) -> bool {
    index_of(r, ':') >= 0 && r.take(index_of(r, ':')) == name
}

/// The text after the first colon of a record.
pub open spec fn record_token(r: Seq<char>) -> Seq<char> {
    r.skip(index_of(r, ':') + 1)
}

/// The token of the first record named `name`.
pub open spec fn first_token(records: Seq<Seq<char>>, name: Seq<char>) -> Option<Seq<char>>
    decreases records.len(),
{
    if records.len() == 0 {
        None
    } else if record_named(records[0], name) {
        Some(record_token(records[0]))
    } else {
        first_token(records.skip(1), name)
    }
}

/// The token that the carrier holds for `name`, if a record of that name is
/// in it.
pub open spec fn preload_token(carrier: Seq<char>, name: Seq<char>) -> Option<Seq<char>> {
    first_token(split_on(carrier, ';'), name)
}

/// A character of the standard base64 alphabet, or its padding.
pub open spec fn is_base64_char(c: char) -> bool {
    ('A' <= c <= 'Z') || ('a' <= c <= 'z') || ('0' <= c <= '9') || c == '+' || c == '/' || c
        == '='
}

/// The standard, padded base64 encoding of the UTF-8 bytes of a text.
pub uninterp spec fn base64_of(text: Seq<char>) -> Seq<char>;

/// The bytes that a standard, padded base64 text stands for, or nothing
/// where it is not such a text.
pub uninterp spec fn base64_decoded(token: Seq<char>) -> Option<Seq<u8>>;

/// The text that bytes encode in UTF-8, or nothing where they are not UTF-8.
pub uninterp spec fn utf8_text(bytes: Seq<u8>) -> Option<Seq<char>>;

/// Relies on `base64::engine::general_purpose::STANDARD.encode`: the
/// standard alphabet `A-Z a-z 0-9 + /` with `=` padding.
#[verifier::external_body]
fn encode_base64(text: &str) -> (r: String)
    ensures
        r@ == base64_of(text@),
        forall|i: int| 0 <= i < r@.len() ==> is_base64_char(#[trigger] r@[i]),
{
    base64::Engine::encode(&base64::engine::general_purpose::STANDARD, text.as_bytes())
}

/// Relies on `base64::engine::general_purpose::STANDARD.decode`; its error
/// becomes `None`.
#[verifier::external_body]
fn decode_base64(token: &str) -> (r: Option<Vec<u8>>)
    ensures
        r is None ==> base64_decoded(token@) is None,
        r is Some ==> base64_decoded(token@) == Some(r->0@),
{
    base64::Engine::decode(&base64::engine::general_purpose::STANDARD, token.as_bytes()).ok()
}

/// Relies on `String::from_utf8`; its error becomes `None`.
#[verifier::external_body]
pub(crate) fn text_from_utf8(bytes: Vec<u8>) -> (r: Option<String>)
    ensures
        r is None ==> utf8_text(bytes@) is None,
        r is Some ==> utf8_text(bytes@) == Some(r->0@),
{
    String::from_utf8(bytes).ok()
}

/// `index_of` is the first position of `c`, or -1 where `c` is absent.
proof fn lemma_index_of(s: Seq<char>, c: char)
    ensures
        index_of(s, c) == -1 ==> forall|j: int| 0 <= j < s.len() ==> s[j] != c,
        index_of(s, c) != -1 ==> 0 <= index_of(s, c) < s.len() && s[index_of(s, c)] == c
            && forall|j: int| 0 <= j < index_of(s, c) ==> s[j] != c,
    decreases s.len(),
{
    if s.len() > 0 && s[0] != c {
        lemma_index_of(s.skip(1), c);
        assert forall|j: int| 0 < j < s.len() implies s[j] == s.skip(1)[j - 1] by {}
    }
}

/// The position of the first `c` in `s`.
fn find_char(s: &str, c: char) -> (r: Option<usize>)
    ensures
        r is None <==> index_of(s@, c) == -1,
        r is Some ==> r->0 as int == index_of(s@, c),
{
    proof {
        lemma_index_of(s@, c);
    }
    let n = s.unicode_len();
    let mut i: usize = 0;
    while i < n
        invariant
            n == s@.len(),
            i <= n,
            forall|j: int| 0 <= j < i ==> s@[j] != c,
            index_of(s@, c) == -1 ==> forall|j: int| 0 <= j < s@.len() ==> s@[j] != c,
            index_of(s@, c) != -1 ==> 0 <= index_of(s@, c) < s@.len() && s@[index_of(s@, c)]
                == c && forall|j: int| 0 <= j < index_of(s@, c) ==> s@[j] != c,
        decreases n - i,
    {
        if s.get_char(i) == c {
            return Some(i);
        }
        i = i + 1;
    }
    None
}

/// The strings seen as character sequences.
pub open spec fn texts_view(v: Seq<String>) -> Seq<Seq<char>> {
    v.map_values(|s: String| s@)
}

/// The pieces of `s` between the separators `sep`.
fn split_text(s: &str, sep: char) -> (r: Vec<String>)
    ensures
        texts_view(r@) == split_on(s@, sep),
{
    let n = s.unicode_len();
    let mut pieces: Vec<String> = Vec::new();
    let mut current = String::new();
    let mut i: usize = 0;
    assert(s@.take(0) =~= Seq::<char>::empty());
    assert(texts_view(pieces@).push(current@) =~= split_on(s@.take(0), sep));
    while i < n
        invariant
            n == s@.len(),
            i <= n,
            texts_view(pieces@).push(current@) == split_on(s@.take(i as int), sep),
        decreases n - i,
    {
        let ghost t = s@.take(i + 1);
        let ghost before = texts_view(pieces@).push(current@);
        assert(t.drop_last() =~= s@.take(i as int));
        assert(t.last() == s@[i as int]);
        if s.get_char(i) == sep {
            let done = current;
            pieces.push(done);
            current = String::new();
            assert(texts_view(pieces@).push(current@) =~= before.push(Seq::empty()));
        } else {
            let ghost cur = current@;
            assert(before.drop_last() =~= texts_view(pieces@));
            assert(before.last() == cur);
            current.append(s.substring_char(i, i + 1));
            assert(current@ =~= cur.push(s@[i as int]));
            assert(texts_view(pieces@).push(current@) =~= before.drop_last().push(
                before.last().push(s@[i as int]),
            ));
        }
        i = i + 1;
    }
    assert(s@.take(n as int) =~= s@);
    pieces.push(current);
    assert(texts_view(pieces@) =~= split_on(s@, sep));
    pieces
}

/// The token of the first record of `carrier` that is named `name`.
pub fn find_record(carrier: &str, name: &str) -> (r: Option<String>)
    ensures
        r is None <==> preload_token(carrier@, name@) is None,
        r is Some ==> preload_token(carrier@, name@) == Some(r->0@),
{
    let records = split_text(carrier, ';');
    let ghost rs = texts_view(records@);
    let mut i: usize = 0;
    assert(rs.skip(0) =~= rs);
    while i < records.len()
        invariant
            rs == texts_view(records@),
            i <= records@.len(),
            first_token(rs, name@) == first_token(rs.skip(i as int), name@),
            rs == split_on(carrier@, ';'),
        decreases records.len() - i,
    {
        let r = records[i].as_str();
        assert(rs.skip(i as int)[0] == r@);
        assert(rs.skip(i as int).skip(1) =~= rs.skip(i + 1));
        proof {
            lemma_index_of(r@, ':');
        }
        match find_char(r, ':') {
            Some(k) => {
                if crate::codec::str_eq(r.substring_char(0, k), name) {
                    let n = r.unicode_len();
                    let token = String::from_str(r.substring_char(k + 1, n));
                    assert(token@ =~= record_token(r@));
                    return Some(token);
                }
            },
            None => {},
        }
        i = i + 1;
    }
    None
}

/// The carrier after adding a record `name:token`: unchanged where a record
/// of that name is already in it, else the record joined on with `;`.
pub open spec fn appended(carrier: Seq<char>, name: Seq<char>, token: Seq<char>) -> Seq<char> {
    if preload_token(carrier, name) is Some {
        carrier
    } else if carrier.len() == 0 {
        name + seq![':'] + token
    } else {
        carrier + seq![';'] + name + seq![':'] + token
    }
}

/// The text that the carrier caches for `name`: the token of its first
/// record of that name, base64-decoded and read as UTF-8; nothing where the
/// record is absent or malformed.
pub open spec fn cached_text(carrier: Seq<char>, name: Seq<char>) -> Option<Seq<char>> {
    match preload_token(carrier, name) {
        None => None,
        Some(t) => match base64_decoded(t) {
            None => None,
            Some(b) => utf8_text(b),
        },
    }
}

/// Adds the serialized `filtered_env_contents` under `name` to the carrier
/// `current_preload`, unless a record of that name is already there.
pub fn add_contents_to_preload_data(
    current_preload: &str,
    filtered_env_contents: &EnvMap,
    name: &str,
) -> (r: String)
    ensures
        r@ == appended(current_preload@, name@, base64_of(serialized(filtered_env_contents@))),
{
    if find_record(current_preload, name).is_some() {
        return String::from_str(current_preload);
    }
    let text = serialize(filtered_env_contents);
    let encoded = encode_base64(text.as_str());
    let mut out = String::from_str(current_preload);
    proof {
        reveal_strlit(";");
        reveal_strlit(":");
    }
    if current_preload.unicode_len() > 0 {
        out.append(";");
    }
    out.append(name);
    out.append(":");
    out.append(encoded.as_str());
    out
}

/// The text that the carrier `full_preload_data` caches for `name`; a
/// missing or malformed record is no entry.
pub fn decode_name_from_preload_data(full_preload_data: &str, name: &str) -> (r: Option<String>)
    ensures
        r is None <==> cached_text(full_preload_data@, name@) is None,
        r is Some ==> cached_text(full_preload_data@, name@) == Some(r->0@),
{
    match find_record(full_preload_data, name) {
        None => None,
        Some(token) => match decode_base64(token.as_str()) {
            None => None,
            Some(bytes) => text_from_utf8(bytes),
        },
    }
}

/// A character kept in a marker name: ASCII letters and digits stay, every
/// other character becomes `_`.
pub open spec fn marker_char(c: char) -> char {
    if ('A' <= c <= 'Z') || ('a' <= c <= 'z') || ('0' <= c <= '9') {
        c
    } else {
        '_'
    }
}

/// The passthrough marker variable of an environment.
pub open spec fn marker_name(name: Seq<char>) -> Seq<char> {
    PASSTHROUGH_ENV_PREFIX@ + name.map_values(|c: char| marker_char(c))
}

/// The name of the passthrough marker variable of environment `name`.
pub fn passthrough_key(name: &str) -> (r: String)
    ensures
        r@ == marker_name(name@),
{
    let ghost target = name@.map_values(|c: char| marker_char(c));
    let n = name.unicode_len();
    let mut out = String::from_str(PASSTHROUGH_ENV_PREFIX);
    let mut i: usize = 0;
    proof {
        reveal_strlit("_");
    }
    while i < n
        invariant
            n == name@.len(),
            i <= n,
            target == name@.map_values(|c: char| marker_char(c)),
            out@ == PASSTHROUGH_ENV_PREFIX@ + target.take(i as int),
            "_"@ == seq!['_'],
        decreases n - i,
    {
        let c = name.get_char(i);
        let ghost prev = out@;
        if ('A' <= c && c <= 'Z') || ('a' <= c && c <= 'z') || ('0' <= c && c <= '9') {
            out.append(name.substring_char(i, i + 1));
        } else {
            out.append("_");
        }
        assert(out@ =~= prev.push(marker_char(c)));
        assert(target.take(i + 1) =~= target.take(i as int).push(marker_char(c)));
        i = i + 1;
    }
    assert(target.take(n as int) =~= target);
    out
}

/// Splitting never yields zero pieces.
proof fn lemma_split_nonempty(s: Seq<char>, sep: char)
    ensures
        split_on(s, sep).len() >= 1,
    decreases s.len(),
{
    if s.len() > 0 {
        lemma_split_nonempty(s.drop_last(), sep);
    }
}

/// A text without the separator is one piece.
proof fn lemma_split_single(s: Seq<char>, sep: char)
    requires
        !s.contains(sep),
    ensures
        split_on(s, sep) == seq![s],
    decreases s.len(),
{
    if s.len() > 0 {
        let d = s.drop_last();
        assert(!d.contains(sep)) by {
            if d.contains(sep) {
                let j = choose|j: int| 0 <= j < d.len() && d[j] == sep;
                assert(s[j] == sep);
            }
        }
        lemma_split_single(d, sep);
        assert(s[s.len() - 1] == s.last());
        assert(d.push(s.last()) =~= s);
    } else {
        assert(s =~= Seq::<char>::empty());
    }
}

/// The pieces of `a`, a separator, then `b` are those of `a` and then those
/// of `b`.
proof fn lemma_split_join(a: Seq<char>, b: Seq<char>, sep: char)
    ensures
        split_on(a + seq![sep] + b, sep) == split_on(a, sep) + split_on(b, sep),
    decreases b.len(),
{
    let s = a + seq![sep] + b;
    if b.len() == 0 {
        assert(s.drop_last() =~= a);
        assert(split_on(b, sep) == seq![Seq::<char>::empty()]);
        assert(split_on(a, sep).push(Seq::empty()) =~= split_on(a, sep) + split_on(b, sep));
    } else {
        let bd = b.drop_last();
        assert(s.drop_last() =~= a + seq![sep] + bd);
        assert(s.last() == b.last());
        lemma_split_join(a, bd, sep);
        lemma_split_nonempty(bd, sep);
        let pa = split_on(a, sep);
        let pb = split_on(bd, sep);
        let prev = pa + pb;
        if b.last() == sep {
            assert(prev.push(Seq::empty()) =~= pa + pb.push(Seq::empty()));
        } else {
            assert(prev.last() == pb.last());
            assert(prev.drop_last().push(prev.last().push(b.last())) =~= pa + pb.drop_last().push(
                pb.last().push(b.last()),
            ));
        }
    }
}

/// Looking up a name in records with one more at the end.
proof fn lemma_first_token_push(rs: Seq<Seq<char>>, r: Seq<char>, name: Seq<char>)
    ensures
        first_token(rs.push(r), name) == (if first_token(rs, name) is Some {
            first_token(rs, name)
        } else if record_named(r, name) {
            Some(record_token(r))
        } else {
            None
        }),
    decreases rs.len(),
{
    if rs.len() == 0 {
        assert(rs.push(r).skip(1) =~= Seq::<Seq<char>>::empty());
        assert(first_token(Seq::<Seq<char>>::empty(), name) is None);
        assert(rs.push(r)[0] == r);
    } else {
        assert(rs.push(r)[0] == rs[0]);
        assert(rs.push(r).skip(1) =~= rs.skip(1).push(r));
        lemma_first_token_push(rs.skip(1), r, name);
    }
}

/// A record written as `name:token`, with no colon in `name`, is named
/// `name` and holds `token`.
proof fn lemma_record_parts(name: Seq<char>, token: Seq<char>)
    requires
        !name.contains(':'),
    ensures
        index_of(name + seq![':'] + token, ':') == name.len(),
        record_named(name + seq![':'] + token, name),
        record_token(name + seq![':'] + token) == token,
    decreases name.len(),
{
    let r = name + seq![':'] + token;
    if name.len() > 0 {
        let tail = name.skip(1);
        assert(!tail.contains(':')) by {
            if tail.contains(':') {
                let j = choose|j: int| 0 <= j < tail.len() && tail[j] == ':';
                assert(name[j + 1] == ':');
            }
        }
        assert(r.skip(1) =~= tail + seq![':'] + token);
        assert(r[0] == name[0]);
        lemma_record_parts(tail, token);
    } else {
        assert(r[0] == ':');
    }
    assert(r.take(name.len() as int) =~= name);
    assert(r.skip(name.len() as int + 1) =~= token);
}

/// First writer wins: once a record for `name` has been added, adding one
/// again leaves the carrier as it was, and the token that a lookup of
/// `name` retrieves is still the first one added to a carrier that held
/// none for it.
pub proof fn lemma_first_writer_wins(
    carrier: Seq<char>,
    name: Seq<char>,
    first: Seq<char>,
    second: Seq<char>,
)
    requires
        !name.contains(';'),
        !name.contains(':'),
        forall|i: int| 0 <= i < first.len() ==> is_base64_char(#[trigger] first[i]),
    ensures
        appended(appended(carrier, name, first), name, second) == appended(carrier, name, first),
        preload_token(carrier, name) is None ==> preload_token(
            appended(appended(carrier, name, first), name, second),
            name,
        ) == Some(first),
        preload_token(carrier, name) is Some ==> preload_token(
            appended(appended(carrier, name, first), name, second),
            name,
        ) == preload_token(carrier, name),
{
    if preload_token(carrier, name) is None {
        let r = name + seq![':'] + first;
        assert(!r.contains(';')) by {
            if r.contains(';') {
                let j = choose|j: int| 0 <= j < r.len() && r[j] == ';';
                if j < name.len() {
                    assert(name[j] == ';');
                } else if j > name.len() {
                    assert(first[j - name.len() - 1] == ';');
                }
            }
        }
        lemma_record_parts(name, first);
        lemma_split_single(r, ';');
        if carrier.len() == 0 {
            assert(appended(carrier, name, first) == r);
            lemma_first_token_push(Seq::empty(), r, name);
            assert(seq![r] =~= Seq::<Seq<char>>::empty().push(r));
        } else {
            assert(appended(carrier, name, first) == carrier + seq![';'] + r);
            assert(carrier + seq![';'] + name + seq![':'] + first =~= carrier + seq![';'] + r);
            lemma_split_join(carrier, r, ';');
            assert(split_on(carrier, ';') + seq![r] =~= split_on(carrier, ';').push(r));
            lemma_first_token_push(split_on(carrier, ';'), r, name);
        }
    }
}

} // verus!
