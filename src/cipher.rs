use vstd::prelude::*;
use vstd::string::*;

use crate::error::EnvError;
use crate::session::texts_view;

verus! {

/// The name of the external encryption tool.
pub const CIPHER_TOOL: &'static str = "age";

/// The arguments that make the tool decrypt its standard input with the
/// keys of the identity file.
pub open spec fn decrypt_arg_list(identities_file: Seq<char>) -> Seq<Seq<char>> {
    seq!["-d"@, "--identity"@, identities_file]
}

/// A flag followed by its value, where the value is given.
pub open spec fn flag_pair(flag: Seq<char>, value: Option<Seq<char>>) -> Seq<Seq<char>> {
    match value {
        Some(v) => seq![flag, v],
        None => Seq::empty(),
    }
}

/// The arguments that make the tool encrypt its standard input for the
/// given recipients into `file_path`.
pub open spec fn encrypt_arg_list(
    recipient: Option<Seq<char>>,
    recipients_file: Option<Seq<char>>,
    global_recipients_file: Option<Seq<char>>,
    file_path: Seq<char>,
) -> Seq<Seq<char>> {
    flag_pair("-r"@, recipient) + flag_pair("-R"@, recipients_file) + flag_pair(
        "-R"@,
        global_recipients_file,
    ) + seq!["-o"@, file_path]
}

/// A string that may be absent, seen as characters.
pub open spec fn opt_text(o: Option<String>) -> Option<Seq<char>> {
    match o {
        Some(s) => Some(s@),
        None => None,
    }
}

/// Pushes `flag` and `value` onto `args` where a value is given.
fn push_flag(args: &mut Vec<String>, flag: &str, value: &Option<String>)
    ensures
        texts_view(final(args)@) == texts_view(old(args)@) + flag_pair(flag@, opt_text(*value)),
{
    match value {
        Some(v) => {
            args.push(String::from_str(flag));
            args.push(v.clone());
            assert(texts_view(final(args)@) =~= texts_view(old(args)@) + flag_pair(
                flag@,
                opt_text(*value),
            ));
        },
        None => {
            assert(texts_view(final(args)@) =~= texts_view(old(args)@) + flag_pair(
                flag@,
                opt_text(*value),
            ));
        },
    }
}

/// The arguments for decrypting with `identities_file`.
pub fn decrypt_args(identities_file: &str) -> (r: Vec<String>)
    ensures
        texts_view(r@) == decrypt_arg_list(identities_file@),
{
    let mut args: Vec<String> = Vec::new();
    args.push(String::from_str("-d"));
    args.push(String::from_str("--identity"));
    args.push(String::from_str(identities_file));
    assert(texts_view(args@) =~= decrypt_arg_list(identities_file@));
    args
}

/// The arguments for encrypting into `file_path` for every recipient source
/// given: an inline recipient, a recipients file and the global recipients
/// file, in that order. With none of them there is no one to encrypt for.
pub fn encrypt_args(
    recipient: &Option<String>,
    recipients_file: &Option<String>,
    global_recipients_file: &Option<String>,
    file_path: &str,
) -> (r: Result<Vec<String>, EnvError>)
    ensures
        r is Err <==> (recipient is None && recipients_file is None
            && global_recipients_file is None),
        r is Err ==> r->Err_0 == EnvError::MissingRecipients,
        r is Ok ==> texts_view(r->Ok_0@) == encrypt_arg_list(
            opt_text(*recipient),
            opt_text(*recipients_file),
            opt_text(*global_recipients_file),
            file_path@,
        ),
{
    if recipient.is_none() && recipients_file.is_none() && global_recipients_file.is_none() {
        return Err(EnvError::MissingRecipients);
    }
    let mut args: Vec<String> = Vec::new();
    assert(texts_view(args@) =~= Seq::<Seq<char>>::empty());
    push_flag(&mut args, "-r", recipient);
    push_flag(&mut args, "-R", recipients_file);
    push_flag(&mut args, "-R", global_recipients_file);
    let ghost before = texts_view(args@);
    args.push(String::from_str("-o"));
    args.push(String::from_str(file_path));
    assert(texts_view(args@) =~= before + seq!["-o"@, file_path@]);
    Ok(args)
}

/// Classifies how the tool ended: its output where it succeeded, its
/// diagnostic text where it failed.
pub fn cipher_outcome(success: bool, stdout: Vec<u8>, stderr: String) -> (r: Result<
    Vec<u8>,
    EnvError,
>)
    ensures
        success ==> r == Ok::<Vec<u8>, EnvError>(stdout),
        !success ==> r == Err::<Vec<u8>, EnvError>(EnvError::CipherProcess(stderr)),
{
    if success {
        Ok(stdout)
    } else {
        Err(EnvError::CipherProcess(stderr))
    }
}

} // verus!
