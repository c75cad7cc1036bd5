use vstd::prelude::*;
use vstd::string::*;

use crate::cipher::{decrypt_args, encrypt_args, encrypt_arg_list, opt_text};
use crate::codec::{dotenv_entries, lookup, parse, plain_line, serialize, serialized, EnvMap};
use crate::error::EnvError;
use crate::filter::{applied, apply_only_exclude, opt_strings_view, strings_view};
use crate::session::{
    add_contents_to_preload_data, appended, base64_of, cached_text,
    decode_name_from_preload_data, marker_name, passthrough_key, texts_view, utf8_text,
    PRELOAD_VAR,
};

verus! {

/// Where a read gets an environment's contents from.
pub enum ReadStep {
    /// The single key asked for is already ambient, with this value.
    AmbientValue(String),
    /// Every listed key is already ambient: the keys with their values, in
    /// the order of the list.
    AmbientKeys(Vec<(String, String)>),
    /// The whole environment was already materialized in this session.
    Materialized,
    /// The session cache holds its text.
    Cached(String),
    /// Its ciphertext has to be decrypted.
    Decrypt,
}

/// A `ReadStep` seen as plain values.
pub ghost enum ReadPlan {
    AmbientValue(Seq<char>),
    AmbientKeys(Seq<(Seq<char>, Seq<char>)>),
    Materialized,
    Cached(Seq<char>),
    Decrypt,
}

impl View for ReadStep {
    type V = ReadPlan;

    open spec fn view(&self) -> ReadPlan {
        match self {
            ReadStep::AmbientValue(v) => ReadPlan::AmbientValue(v@),
            ReadStep::AmbientKeys(ps) => ReadPlan::AmbientKeys(crate::codec::entries_view(ps@)),
            ReadStep::Materialized => ReadPlan::Materialized,
            ReadStep::Cached(t) => ReadPlan::Cached(t@),
            ReadStep::Decrypt => ReadPlan::Decrypt,
        }
    }
}

/// Every listed key is an ambient variable.
pub open spec fn all_ambient(ambient: Seq<(Seq<char>, Seq<char>)>, keys: Seq<Seq<char>>) -> bool {
    forall|i: int| 0 <= i < keys.len() ==> #[trigger] lookup(ambient, keys[i]) is Some
}

/// The listed keys with their ambient values, in the order of the list.
pub open spec fn ambient_values(
    ambient: Seq<(Seq<char>, Seq<char>)>,
    keys: Seq<Seq<char>>,
) -> Seq<(Seq<char>, Seq<char>)> {
    keys.map_values(|k: Seq<char>| (k, lookup(ambient, k)->0))
}

/// How a read of environment `name` gets its contents. With passthrough
/// asked for, ambient variables answer where they can: the single key asked
/// for; else every key of the inclusion list; else, with no inclusion
/// list, the environment's marker says that it is already materialized.
/// Otherwise the session cache answers, and failing that a decryption.
pub open spec fn read_plan(
    name: Seq<char>,
    only: Option<Seq<Seq<char>>>,
    value: Option<Seq<char>>,
    passthrough: bool,
    ambient: Seq<(Seq<char>, Seq<char>)>,
    carrier: Seq<char>,
) -> ReadPlan {
    if passthrough && value is Some && lookup(ambient, value->0) is Some {
        ReadPlan::AmbientValue(lookup(ambient, value->0)->0)
    } else if passthrough && value is None && only is Some && all_ambient(ambient, only->0) {
        ReadPlan::AmbientKeys(ambient_values(ambient, only->0))
    } else if passthrough && value is None && only is None && lookup(
        ambient,
        marker_name(name),
    ) is Some {
        ReadPlan::Materialized
    } else {
        match cached_text(carrier, name) {
            Some(t) => ReadPlan::Cached(t),
            None => ReadPlan::Decrypt,
        }
    }
}

/// The listed keys with their ambient values, where every one is ambient.
fn ambient_keys(ambient: &EnvMap, keys: &Vec<String>) -> (r: Option<Vec<(String, String)>>)
    requires
        ambient.wf(),
    ensures
        r is None <==> !all_ambient(ambient@, strings_view(keys@)),
        r is Some ==> crate::codec::entries_view(r->0@) == ambient_values(
            ambient@,
            strings_view(keys@),
        ),
{
    let ghost ks = strings_view(keys@);
    let mut out: Vec<(String, String)> = Vec::new();
    let mut i: usize = 0;
    while i < keys.len()
        invariant
            ambient.wf(),
            ks == strings_view(keys@),
            i <= keys@.len(),
            out@.len() == i,
            crate::codec::entries_view(out@) == ambient_values(ambient@, ks.take(i as int)),
            forall|j: int| 0 <= j < i ==> #[trigger] lookup(ambient@, ks[j]) is Some,
        decreases keys.len() - i,
    {
        assert(ks[i as int] == keys@[i as int]@);
        match ambient.get(keys[i].as_str()) {
            Some(v) => {
                let ghost prev = out@;
                out.push((keys[i].clone(), v));
                assert(out@ == prev.push((keys@[i as int], v)));
                assert(crate::codec::entries_view(out@)[i as int] == (
                    ks[i as int],
                    lookup(ambient@, ks[i as int])->0,
                ));
                assert forall|j: int| 0 <= j < i implies crate::codec::entries_view(out@)[j]
                    == #[trigger] ambient_values(ambient@, ks.take(i + 1))[j] by {
                    assert(out@[j] == prev[j]);
                    assert(crate::codec::entries_view(prev)[j] == ambient_values(
                        ambient@,
                        ks.take(i as int),
                    )[j]);
                }
                assert(crate::codec::entries_view(out@) =~= ambient_values(
                    ambient@,
                    ks.take(i + 1),
                ));
            },
            None => {
                return None;
            },
        }
        i = i + 1;
    }
    assert(ks.take(i as int) =~= ks);
    Some(out)
}

/// Decides where a read of environment `name` gets its contents, from the
/// ambient variables and the session cache carrier.
pub fn plan_read(
    name: &str,
    only: &Option<Vec<String>>,
    value: &Option<String>,
    passthrough: bool,
    ambient: &EnvMap,
    carrier: &str,
) -> (r: ReadStep)
    requires
        ambient.wf(),
    ensures
        r@ == read_plan(
            name@,
            opt_strings_view(*only),
            crate::cipher::opt_text(*value),
            passthrough,
            ambient@,
            carrier@,
        ),
{
    if passthrough {
        match value {
            Some(key) => {
                if let Some(v) = ambient.get(key.as_str()) {
                    return ReadStep::AmbientValue(v);
                }
            },
            None => match only {
                Some(keys) => {
                    if let Some(ps) = ambient_keys(ambient, keys) {
                        return ReadStep::AmbientKeys(ps);
                    }
                },
                None => {
                    let marker = passthrough_key(name);
                    if ambient.get(marker.as_str()).is_some() {
                        return ReadStep::Materialized;
                    }
                },
            },
        }
    }
    match decode_name_from_preload_data(carrier, name) {
        Some(t) => ReadStep::Cached(t),
        None => ReadStep::Decrypt,
    }
}

/// What starts a line: `export ` for shell evaluation, else nothing.
pub open spec fn line_prefix(export: bool) -> Seq<char> {
    if export {
        "export "@
    } else {
        Seq::empty()
    }
}

/// The marker entry that records a materialized environment.
pub open spec fn marker_entry(name: Seq<char>) -> (Seq<char>, Seq<char>) {
    (marker_name(name), "1"@)
}

/// Neither an inclusion nor an exclusion list is given.
pub open spec fn is_unfiltered<A, B>(only: Option<A>, exclude: Option<B>) -> bool {
    only is None && exclude is None
}

/// The lines that list the entries, and then the marker of `name` where
/// the read was unfiltered.
pub open spec fn listing(
    export: bool,
    name: Seq<char>,
    s: Seq<(Seq<char>, Seq<char>)>,
    unfiltered: bool,
) -> Seq<Seq<char>> {
    let marked = if unfiltered {
        s.push(marker_entry(name))
    } else {
        s
    };
    marked.map_values(|p: (Seq<char>, Seq<char>)| line_prefix(export) + plain_line(p))
}

/// One `KEY=VALUE` line, prefixed for shell evaluation where asked.
fn entry_line(export: bool, key: &str, value: &str) -> (r: String)
    ensures
        r@ == line_prefix(export) + plain_line((key@, value@)),
{
    let mut out = String::new();
    if export {
        out.append("export ");
    }
    proof {
        reveal_strlit("=");
    }
    out.append(key);
    out.append("=");
    out.append(value);
    assert(out@ =~= line_prefix(export) + plain_line((key@, value@)));
    out
}

/// The lines that list `m`, and then the marker of `name` where `marked`.
fn listing_lines(export: bool, name: &str, m: &EnvMap, marked: bool) -> (r: Vec<String>)
    ensures
        texts_view(r@) == listing(export, name@, m@, marked),
{
    let ghost f = |p: (Seq<char>, Seq<char>)| line_prefix(export) + plain_line(p);
    let mut out: Vec<String> = Vec::new();
    let mut i: usize = 0;
    while i < m.len()
        invariant
            i <= m@.len(),
            out@.len() == i,
            f == (|p: (Seq<char>, Seq<char>)| line_prefix(export) + plain_line(p)),
            texts_view(out@) == m@.take(i as int).map_values(f),
        decreases m@.len() - i,
    {
        let k = m.key_at(i);
        let v = m.value_at(i);
        let line = entry_line(export, k.as_str(), v.as_str());
        let ghost prev = out@;
        out.push(line);
        assert(texts_view(out@) =~= texts_view(prev).push(line@));
        assert(m@[i as int] == (k@, v@));
        assert(m@.take(i + 1).map_values(f) =~= m@.take(i as int).map_values(f).push(
            f(m@[i as int]),
        ));
        i = i + 1;
    }
    assert(m@.take(i as int) =~= m@);
    if marked {
        let key = passthrough_key(name);
        let line = entry_line(export, key.as_str(), "1");
        let ghost prev = out@;
        out.push(line);
        assert(texts_view(out@) =~= texts_view(prev).push(line@));
        assert(m@.push(marker_entry(name@)).map_values(f) =~= m@.map_values(f).push(
            f(marker_entry(name@)),
        ));
    }
    out
}

/// The contents of an environment as read: its text parsed, then filtered.
pub open spec fn filtered_entries(
    text: Seq<char>,
    only: Option<Seq<Seq<char>>>,
    exclude: Option<Seq<Seq<char>>>,
) -> Seq<(Seq<char>, Seq<char>)> {
    applied(dotenv_entries(text)->0, only, exclude)
}

/// Parses and filters the text of an environment.
fn read_entries(text: &str, only: &Option<Vec<String>>, exclude: &Option<Vec<String>>) -> (r:
    Result<EnvMap, EnvError>)
    ensures
        r is Err <==> dotenv_entries(text@) is None,
        r is Err ==> r->Err_0 == EnvError::Format,
        r is Ok ==> r->Ok_0.wf() && r->Ok_0@ == filtered_entries(
            text@,
            opt_strings_view(*only),
            opt_strings_view(*exclude),
        ),
{
    let parsed = parse(text)?;
    Ok(apply_only_exclude(parsed, only, exclude))
}

/// The output of `show` for environment `name` whose text is `text`: the
/// value of the single key asked for; or a `KEY=VALUE` line per entry,
/// followed by the marker line where no filter was given.
pub fn show_lines(
    name: &str,
    text: &str,
    only: &Option<Vec<String>>,
    exclude: &Option<Vec<String>>,
    value: &Option<String>,
) -> (r: Result<Vec<String>, EnvError>)
    ensures
        dotenv_entries(text@) is None ==> r is Err && r->Err_0 == EnvError::Format,
        dotenv_entries(text@) is Some ==> ({
            let f = filtered_entries(text@, opt_strings_view(*only), opt_strings_view(*exclude));
            &&& value is None ==> r is Ok && texts_view(r->Ok_0@) == listing(
                false,
                name@,
                f,
                is_unfiltered(*only, *exclude),
            )
            &&& value is Some && lookup(f, value->0@) is Some ==> r is Ok && texts_view(
                r->Ok_0@,
            ) == seq![lookup(f, value->0@)->0]
            &&& value is Some && lookup(f, value->0@) is None ==> r is Err && r->Err_0
                == EnvError::KeyNotFound(value->0)
        }),
{
    let m = read_entries(text, only, exclude)?;
    match value {
        Some(key) => match m.get(key.as_str()) {
            Some(v) => {
                let mut out: Vec<String> = Vec::new();
                out.push(v);
                assert(texts_view(out@) =~= seq![lookup(m@, key@)->0]);
                Ok(out)
            },
            None => Err(EnvError::KeyNotFound(key.clone())),
        },
        None => Ok(listing_lines(false, name, &m, only.is_none() && exclude.is_none())),
    }
}

/// The statement that exports the carrier of the session cache.
pub open spec fn preload_export(carrier: Seq<char>) -> Seq<char> {
    "export "@ + PRELOAD_VAR@ + "=\""@ + carrier + "\""@
}

/// The output of `show_for_eval` for environment `name` whose text is
/// `text`. With `preload`, one statement that exports the carrier
/// `current_preload` with the filtered entries added under `name`; else an
/// `export KEY=VALUE` line per entry, followed by the marker's where no
/// filter was given.
pub fn show_for_eval_lines(
    name: &str,
    text: &str,
    only: &Option<Vec<String>>,
    exclude: &Option<Vec<String>>,
    preload: bool,
    current_preload: &str,
) -> (r: Result<Vec<String>, EnvError>)
    ensures
        dotenv_entries(text@) is None ==> r is Err && r->Err_0 == EnvError::Format,
        dotenv_entries(text@) is Some ==> r is Ok && ({
            let f = filtered_entries(text@, opt_strings_view(*only), opt_strings_view(*exclude));
            &&& preload ==> texts_view(r->Ok_0@) == seq![
                preload_export(appended(current_preload@, name@, base64_of(serialized(f)))),
            ]
            &&& !preload ==> texts_view(r->Ok_0@) == listing(
                true,
                name@,
                f,
                is_unfiltered(*only, *exclude),
            )
        }),
{
    let m = read_entries(text, only, exclude)?;
    if preload {
        let carrier = add_contents_to_preload_data(current_preload, &m, name);
        let mut line = String::from_str("export ");
        line.append(PRELOAD_VAR);
        line.append("=\"");
        line.append(carrier.as_str());
        line.append("\"");
        let mut out: Vec<String> = Vec::new();
        out.push(line);
        assert(texts_view(out@) =~= seq![
            preload_export(appended(current_preload@, name@, base64_of(serialized(m@)))),
        ]);
        Ok(out)
    } else {
        Ok(listing_lines(true, name, &m, only.is_none() && exclude.is_none()))
    }
}

/// The name that stands for environment text read from standard input.
pub const INLINE_NAME: &'static str = "-";

/// The variables that `run_with_env` sets for its command: the filtered
/// entries, and then the marker of `name` where no filter was given and the
/// text came from the store.
pub open spec fn run_entries(
    name: Seq<char>,
    f: Seq<(Seq<char>, Seq<char>)>,
    unfiltered: bool,
) -> Seq<(Seq<char>, Seq<char>)> {
    if unfiltered && name != INLINE_NAME@ {
        f.push(marker_entry(name))
    } else {
        f
    }
}

/// The variables to set for the command of `run_with_env`, for environment
/// `name` whose text is `text`.
pub fn run_env_pairs(
    name: &str,
    text: &str,
    only: &Option<Vec<String>>,
    exclude: &Option<Vec<String>>,
) -> (r: Result<Vec<(String, String)>, EnvError>)
    ensures
        dotenv_entries(text@) is None ==> r is Err && r->Err_0 == EnvError::Format,
        dotenv_entries(text@) is Some ==> r is Ok && crate::codec::entries_view(r->Ok_0@)
            == run_entries(
            name@,
            filtered_entries(text@, opt_strings_view(*only), opt_strings_view(*exclude)),
            is_unfiltered(*only, *exclude),
        ),
{
    let m = read_entries(text, only, exclude)?;
    let mut pairs = m.to_pairs();
    if only.is_none() && exclude.is_none() && !crate::codec::str_eq(name, INLINE_NAME) {
        let ghost prev = pairs@;
        let key = passthrough_key(name);
        pairs.push((key, String::from_str("1")));
        assert(crate::codec::entries_view(pairs@) =~= crate::codec::entries_view(prev).push(
            marker_entry(name@),
        ));
    }
    Ok(pairs)
}

/// The text of decrypted bytes; bytes that are not UTF-8 are not an
/// environment's text.
pub fn plaintext_of(bytes: Vec<u8>) -> (r: Result<String, EnvError>)
    ensures
        r is Err <==> utf8_text(bytes@) is None,
        r is Err ==> r->Err_0 == EnvError::Format,
        r is Ok ==> utf8_text(bytes@) == Some(r->Ok_0@),
{
    match crate::session::text_from_utf8(bytes) {
        Some(t) => Ok(t),
        None => Err(EnvError::Format),
    }
}

/// One run of the cipher tool that encrypts: its arguments and the text
/// written to its standard input.
pub struct EncryptJob {
    pub args: Vec<String>,
    pub plaintext: String,
}

/// Plans `create`: where environment `name` exists, overwriting it needs a
/// confirmation unless skipped (`confirmed` is `None` where none was
/// given); then some recipient source is needed; then the source text is
/// parsed, filtered and serialized, and encrypted into `file_path`.
pub fn plan_create(
    name: &str,
    exists: bool,
    skip_upsert_confirmation: bool,
    confirmed: Option<bool>,
    recipient: &Option<String>,
    recipients_file: &Option<String>,
    global_recipients_file: &Option<String>,
    file_path: &str,
    source_text: &str,
    only: &Option<Vec<String>>,
    exclude: &Option<Vec<String>>,
) -> (r: Result<EncryptJob, EnvError>)
    ensures
        ({
            let asked = exists && !skip_upsert_confirmation;
            let cleared = !asked || confirmed == Some(true);
            let no_recipient = recipient is None && recipients_file is None
                && global_recipients_file is None;
            &&& asked && confirmed is None ==> r is Err && r->Err_0 is EnvironmentAlreadyExists
                && r->Err_0->EnvironmentAlreadyExists_0@ == name@
            &&& asked && confirmed == Some(false) ==> r is Err && r->Err_0
                == EnvError::AbortedByUser
            &&& cleared && no_recipient ==> r is Err && r->Err_0 == EnvError::MissingRecipients
            &&& cleared && !no_recipient && dotenv_entries(source_text@) is None ==> r is Err
                && r->Err_0 == EnvError::Format
            &&& cleared && !no_recipient && dotenv_entries(source_text@) is Some ==> r is Ok
                && texts_view(r->Ok_0.args@) == encrypt_arg_list(
                opt_text(*recipient),
                opt_text(*recipients_file),
                opt_text(*global_recipients_file),
                file_path@,
            ) && r->Ok_0.plaintext@ == serialized(
                filtered_entries(source_text@, opt_strings_view(*only), opt_strings_view(*exclude)),
            )
        }),
{
    if exists && !skip_upsert_confirmation {
        match confirmed {
            None => {
                return Err(EnvError::EnvironmentAlreadyExists(String::from_str(name)));
            },
            Some(false) => {
                return Err(EnvError::AbortedByUser);
            },
            Some(true) => {},
        }
    }
    let args = encrypt_args(recipient, recipients_file, global_recipients_file, file_path)?;
    let m = read_entries(source_text, only, exclude)?;
    Ok(EncryptJob { args, plaintext: serialize(&m) })
}

/// The two runs of the cipher tool that re-encrypt an environment: the
/// decryption of its file with the identity, then the encryption of the
/// same text for the new recipients into the same file.
pub struct ReencryptJob {
    pub decrypt_args: Vec<String>,
    pub encrypt_args: Vec<String>,
}

/// Plans `reencrypt` of the environment stored at `file_path`; some
/// recipient source is needed.
pub fn plan_reencrypt(
    recipient: &Option<String>,
    recipients_file: &Option<String>,
    global_recipients_file: &Option<String>,
    identities_file: &str,
    file_path: &str,
) -> (r: Result<ReencryptJob, EnvError>)
    ensures
        r is Err <==> (recipient is None && recipients_file is None
            && global_recipients_file is None),
        r is Err ==> r->Err_0 == EnvError::MissingRecipients,
        r is Ok ==> texts_view(r->Ok_0.decrypt_args@) == crate::cipher::decrypt_arg_list(
            identities_file@,
        ) && texts_view(r->Ok_0.encrypt_args@) == encrypt_arg_list(
            opt_text(*recipient),
            opt_text(*recipients_file),
            opt_text(*global_recipients_file),
            file_path@,
        ),
{
    let enc = encrypt_args(recipient, recipients_file, global_recipients_file, file_path)?;
    Ok(ReencryptJob { decrypt_args: decrypt_args(identities_file), encrypt_args: enc })
}

/// An operation on environment `name` needs it to exist.
pub fn require_environment(name: &str, exists: bool) -> (r: Result<(), EnvError>)
    ensures
        r is Ok <==> exists,
        r is Err ==> r->Err_0 is EnvironmentNotFound && r->Err_0->EnvironmentNotFound_0@ == name@,
{
    if exists {
        Ok(())
    } else {
        Err(EnvError::EnvironmentNotFound(String::from_str(name)))
    }
}

/// An operation that decrypts needs the identity file.
pub fn require_identity(identity_exists: bool) -> (r: Result<(), EnvError>)
    ensures
        r is Ok <==> identity_exists,
        r is Err ==> r->Err_0 == EnvError::StoreNotInitialized,
{
    if identity_exists {
        Ok(())
    } else {
        Err(EnvError::StoreNotInitialized)
    }
}

/// What `delete_all` does next.
#[derive(Debug, PartialEq, Eq, Structural)]
pub enum DeleteAllStep {
    /// The store holds no environment: nothing is asked and nothing removed.
    NothingToDelete,
    /// The files are to be listed and a confirmation asked for.
    AskConfirmation,
    /// The removal was confirmed.
    DeleteFiles,
}

/// Decides `delete_all` over a store of `n_files` files, with the answer to
/// the confirmation where one was given.
pub fn delete_all_step(n_files: usize, confirmed: Option<bool>) -> (r: Result<
    DeleteAllStep,
    EnvError,
>)
    ensures
        n_files == 0 ==> r == Ok::<DeleteAllStep, EnvError>(DeleteAllStep::NothingToDelete),
        n_files > 0 && confirmed is None ==> r == Ok::<DeleteAllStep, EnvError>(
            DeleteAllStep::AskConfirmation,
        ),
        n_files > 0 && confirmed == Some(true) ==> r == Ok::<DeleteAllStep, EnvError>(
            DeleteAllStep::DeleteFiles,
        ),
        n_files > 0 && confirmed == Some(false) ==> r == Err::<DeleteAllStep, EnvError>(
            EnvError::AbortedByUser,
        ),
{
    if n_files == 0 {
        Ok(DeleteAllStep::NothingToDelete)
    } else {
        match confirmed {
            None => Ok(DeleteAllStep::AskConfirmation),
            Some(true) => Ok(DeleteAllStep::DeleteFiles),
            Some(false) => Err(EnvError::AbortedByUser),
        }
    }
}

/// An unfiltered read materializes the environment: the last line that
/// `show_for_eval` prints exports its marker, and `run_with_env` sets the
/// marker for its command. Once the marker is an ambient variable, an
/// unfiltered read with passthrough is answered from it: neither the
/// session cache nor a decryption is needed.
pub proof fn lemma_materialized_skips_decrypt(
    name: Seq<char>,
    entries: Seq<(Seq<char>, Seq<char>)>,
    ambient: Seq<(Seq<char>, Seq<char>)>,
    carrier: Seq<char>,
)
    ensures
        listing(true, name, entries, true).last() == "export "@ + marker_name(name) + seq!['=']
            + "1"@,
        name != INLINE_NAME@ ==> run_entries(name, entries, true).last() == (
            marker_name(name),
            "1"@,
        ),
        lookup(ambient, marker_name(name)) is Some ==> read_plan(
            name,
            None,
            None,
            true,
            ambient,
            carrier,
        ) == ReadPlan::Materialized,
{
    let marked = entries.push(marker_entry(name));
    assert(marked.last() == marker_entry(name));
    assert(listing(true, name, entries, true).last() == line_prefix(true) + plain_line(
        marker_entry(name),
    ));
    assert("export "@ + marker_name(name) + seq!['='] + "1"@ =~= line_prefix(true) + plain_line(
        marker_entry(name),
    ));
}

} // verus!
