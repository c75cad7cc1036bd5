use std::collections::HashMap;

use age_env::cipher::{cipher_outcome, decrypt_args, encrypt_args, CIPHER_TOOL};
use age_env::codec::EnvMap;
use age_env::error::EnvError;
use age_env::store::{
    delete_all_step, plaintext_of, plan_create, plan_read, plan_reencrypt, require_environment,
    require_identity, run_env_pairs, show_for_eval_lines, show_lines, DeleteAllStep, ReadStep,
};

fn keys(ks: &[&str]) -> Vec<String> {
    ks.iter().map(|k| k.to_string()).collect()
}

fn strings(ss: &[&str]) -> Vec<String> {
    keys(ss)
}

fn ambient_of(pairs: &[(&str, &str)]) -> EnvMap {
    let mut m = EnvMap::new();
    for (k, v) in pairs {
        m.insert(k.to_string(), v.to_string());
    }
    m
}

/// A stand-in for the cipher tool and the store directory: "encryption"
/// files the plaintext under the recipients, "decryption" needs an identity
/// that matches them. Every run is counted.
struct FakeCipher {
    files: HashMap<String, (Vec<String>, String)>,
    encrypts: usize,
    decrypts: usize,
}

impl FakeCipher {
    fn new() -> FakeCipher {
        FakeCipher { files: HashMap::new(), encrypts: 0, decrypts: 0 }
    }

    fn encrypt(&mut self, args: &[String], plaintext: &str) {
        self.encrypts += 1;
        let mut recipients = Vec::new();
        let mut out = String::new();
        let mut i = 0;
        while i < args.len() {
            match args[i].as_str() {
                "-r" | "-R" => recipients.push(args[i + 1].clone()),
                "-o" => out = args[i + 1].clone(),
                _ => panic!("unexpected argument {}", args[i]),
            }
            i += 2;
        }
        self.files.insert(out, (recipients, plaintext.to_string()));
    }

    fn decrypt(&mut self, path: &str, identity: &str) -> Result<Vec<u8>, EnvError> {
        self.decrypts += 1;
        let (recipients, text) = self.files.get(path).unwrap().clone();
        let matches = recipients.iter().any(|r| r == identity);
        let (stdout, stderr) = if matches {
            (text.into_bytes(), String::new())
        } else {
            (Vec::new(), "no identity matched".to_string())
        };
        cipher_outcome(matches, stdout, stderr)
    }

    /// Runs one read the way the command line does: plan, then cache or
    /// decryption, then the output.
    fn show(
        &mut self,
        name: &str,
        only: &Option<Vec<String>>,
        exclude: &Option<Vec<String>>,
        passthrough: bool,
        ambient: &EnvMap,
        carrier: &str,
        identity: &str,
    ) -> Result<Vec<String>, EnvError> {
        match plan_read(name, only, &None, passthrough, ambient, carrier) {
            ReadStep::Cached(text) => show_lines(name, &text, only, exclude, &None),
            ReadStep::Decrypt => {
                let bytes = self.decrypt(&format!("envs/{}", name), identity)?;
                let text = plaintext_of(bytes)?;
                show_lines(name, &text, only, exclude, &None)
            }
            ReadStep::AmbientKeys(ps) => Ok(ps.iter().map(|(k, v)| format!("{}={}", k, v)).collect()),
            ReadStep::AmbientValue(v) => Ok(vec![v]),
            ReadStep::Materialized => Ok(vec![]),
        }
    }
}

fn create_svc(cipher: &mut FakeCipher, recipient: &str) {
    let job = plan_create(
        "svc",
        false,
        false,
        None,
        &Some(recipient.to_string()),
        &None,
        &None,
        "envs/svc",
        "A=1\nB=2",
        &None,
        &None,
    )
    .unwrap();
    cipher.encrypt(&job.args, &job.plaintext);
}

#[test]
fn create_then_show_uses_one_encrypt_and_one_decrypt() {
    let mut cipher = FakeCipher::new();
    create_svc(&mut cipher, "R1");
    let lines = cipher
        .show("svc", &None, &None, false, &EnvMap::new(), "", "R1")
        .unwrap();
    assert_eq!(lines, strings(&["A=1", "B=2", "__passthrough_age_env_svc=1"]));
    assert_eq!(cipher.encrypts, 1);
    assert_eq!(cipher.decrypts, 1);
}

#[test]
fn show_with_only_and_with_exclude() {
    let mut cipher = FakeCipher::new();
    create_svc(&mut cipher, "R1");
    let only = cipher
        .show("svc", &Some(keys(&["A"])), &None, false, &EnvMap::new(), "", "R1")
        .unwrap();
    assert_eq!(only, strings(&["A=1"]));
    let rest = cipher
        .show("svc", &None, &Some(keys(&["A"])), false, &EnvMap::new(), "", "R1")
        .unwrap();
    assert_eq!(rest, strings(&["B=2"]));
}

#[test]
fn materialized_environment_skips_the_cipher() {
    let mut cipher = FakeCipher::new();
    create_svc(&mut cipher, "R1");
    let lines = show_for_eval_lines("db", "A=1", &None, &None, false, "").unwrap();
    assert_eq!(lines, strings(&["export A=1", "export __passthrough_age_env_db=1"]));
    let ambient = ambient_of(&[("A", "1"), ("__passthrough_age_env_db", "1")]);
    let before = cipher.decrypts;
    let step = plan_read("db", &None, &None, true, &ambient, "");
    assert!(matches!(step, ReadStep::Materialized));
    assert_eq!(cipher.decrypts, before);
}

#[test]
fn reencrypt_keeps_the_plaintext_for_the_new_identity() {
    let mut cipher = FakeCipher::new();
    create_svc(&mut cipher, "R1");
    let before = plaintext_of(cipher.decrypt("envs/svc", "R1").unwrap()).unwrap();
    let job = plan_reencrypt(&Some("R2".to_string()), &None, &None, "R1", "envs/svc").unwrap();
    assert_eq!(job.decrypt_args, strings(&["-d", "--identity", "R1"]));
    let text = plaintext_of(cipher.decrypt("envs/svc", "R1").unwrap()).unwrap();
    cipher.encrypt(&job.encrypt_args, &text);
    let after = plaintext_of(cipher.decrypt("envs/svc", "R2").unwrap()).unwrap();
    assert_eq!(after, before);
    assert_eq!(after, "A=\"1\"\nB=\"2\"");
    assert!(matches!(cipher.decrypt("envs/svc", "R1"), Err(EnvError::CipherProcess(_))));
}

#[test]
fn delete_all_with_no_environments_does_nothing() {
    assert_eq!(delete_all_step(0, None), Ok(DeleteAllStep::NothingToDelete));
    assert_eq!(delete_all_step(0, Some(false)), Ok(DeleteAllStep::NothingToDelete));
}

#[test]
fn delete_all_asks_then_deletes_or_aborts() {
    assert_eq!(delete_all_step(2, None), Ok(DeleteAllStep::AskConfirmation));
    assert_eq!(delete_all_step(2, Some(true)), Ok(DeleteAllStep::DeleteFiles));
    assert_eq!(delete_all_step(2, Some(false)), Err(EnvError::AbortedByUser));
}

#[test]
fn plan_read_prefers_ambient_value_then_keys_then_marker() {
    let ambient = ambient_of(&[("A", "1"), ("__passthrough_age_env_svc", "1")]);
    match plan_read("svc", &None, &Some("A".to_string()), true, &ambient, "") {
        ReadStep::AmbientValue(v) => assert_eq!(v, "1"),
        _ => panic!("expected the ambient value"),
    }
    match plan_read("svc", &Some(keys(&["A"])), &None, true, &ambient, "") {
        ReadStep::AmbientKeys(ps) => assert_eq!(ps, vec![("A".to_string(), "1".to_string())]),
        _ => panic!("expected the ambient keys"),
    }
    assert!(matches!(
        plan_read("svc", &Some(keys(&["A", "B"])), &None, true, &ambient, ""),
        ReadStep::Decrypt
    ));
    assert!(matches!(
        plan_read("svc", &None, &None, false, &ambient, ""),
        ReadStep::Decrypt
    ));
}

#[test]
fn plan_read_uses_the_session_cache() {
    match plan_read("svc", &None, &None, false, &EnvMap::new(), "svc:QT0iMSI=") {
        ReadStep::Cached(t) => assert_eq!(t, "A=\"1\""),
        _ => panic!("expected the cached text"),
    }
}

#[test]
fn show_single_value_and_missing_key() {
    assert_eq!(
        show_lines("svc", "A=1\nB=2", &None, &None, &Some("B".to_string())),
        Ok(strings(&["2"]))
    );
    assert_eq!(
        show_lines("svc", "A=1\nB=2", &Some(keys(&["A"])), &None, &Some("B".to_string())),
        Err(EnvError::KeyNotFound("B".to_string()))
    );
    assert_eq!(show_lines("svc", "A='x' y", &None, &None, &None), Err(EnvError::Format));
}

#[test]
fn show_for_eval_with_preload_exports_the_carrier() {
    let lines = show_for_eval_lines("svc", "B=2\nA=1", &None, &None, true, "").unwrap();
    assert_eq!(lines, strings(&["export AGE_ENV_PRELOAD_B64=\"svc:QT0iMSIKQj0iMiI=\""]));
    let again = show_for_eval_lines("svc", "X=9", &None, &None, true, "svc:QT0iMSI=").unwrap();
    assert_eq!(again, strings(&["export AGE_ENV_PRELOAD_B64=\"svc:QT0iMSI=\""]));
}

#[test]
fn filtered_eval_sets_no_marker() {
    let lines = show_for_eval_lines("svc", "A=1\nB=2", &Some(keys(&["B"])), &None, false, "").unwrap();
    assert_eq!(lines, strings(&["export B=2"]));
}

#[test]
fn run_env_pairs_adds_marker_only_for_unfiltered_stored_environments() {
    let stored = run_env_pairs("my-svc", "A=1", &None, &None).unwrap();
    assert_eq!(
        stored,
        vec![
            ("A".to_string(), "1".to_string()),
            ("__passthrough_age_env_my_svc".to_string(), "1".to_string())
        ]
    );
    let inline = run_env_pairs("-", "A=1", &None, &None).unwrap();
    assert_eq!(inline, vec![("A".to_string(), "1".to_string())]);
    let filtered = run_env_pairs("svc", "A=1", &None, &Some(keys(&["B"]))).unwrap();
    assert_eq!(filtered, vec![("A".to_string(), "1".to_string())]);
}

#[test]
fn create_needs_confirmation_and_recipients() {
    let r = plan_create("svc", true, false, None, &Some("R1".into()), &None, &None, "f", "A=1", &None, &None);
    assert_eq!(r.err(), Some(EnvError::EnvironmentAlreadyExists("svc".to_string())));
    let r = plan_create("svc", true, false, Some(false), &Some("R1".into()), &None, &None, "f", "A=1", &None, &None);
    assert_eq!(r.err(), Some(EnvError::AbortedByUser));
    let r = plan_create("svc", false, false, None, &None, &None, &None, "f", "A=1", &None, &None);
    assert_eq!(r.err(), Some(EnvError::MissingRecipients));
    let r = plan_create("svc", false, false, None, &None, &None, &Some("g".into()), "f", "1A=x", &None, &None);
    assert_eq!(r.err(), Some(EnvError::Format));
    let job = plan_create("svc", true, true, None, &None, &Some("rf".into()), &None, "f", "B=2\nA=1", &None, &Some(keys(&["B"]))).unwrap();
    assert_eq!(job.args, strings(&["-R", "rf", "-o", "f"]));
    assert_eq!(job.plaintext, "A=\"1\"");
}

#[test]
fn cipher_arguments() {
    assert_eq!(CIPHER_TOOL, "age");
    assert_eq!(decrypt_args("id.txt"), strings(&["-d", "--identity", "id.txt"]));
    assert_eq!(
        encrypt_args(&Some("age1x".into()), &Some("r.txt".into()), &Some("g.txt".into()), "out").unwrap(),
        strings(&["-r", "age1x", "-R", "r.txt", "-R", "g.txt", "-o", "out"])
    );
    assert_eq!(encrypt_args(&None, &None, &None, "out").err(), Some(EnvError::MissingRecipients));
}

#[test]
fn cipher_failure_carries_diagnostics() {
    assert_eq!(cipher_outcome(true, vec![1, 2], String::new()), Ok(vec![1, 2]));
    assert_eq!(
        cipher_outcome(false, vec![], "bad".to_string()),
        Err(EnvError::CipherProcess("bad".to_string()))
    );
}

#[test]
fn store_checks() {
    assert_eq!(require_environment("x", true), Ok(()));
    assert_eq!(require_environment("x", false), Err(EnvError::EnvironmentNotFound("x".to_string())));
    assert_eq!(require_identity(true), Ok(()));
    assert_eq!(require_identity(false), Err(EnvError::StoreNotInitialized));
    assert_eq!(plaintext_of(vec![0xff]), Err(EnvError::Format));
    assert_eq!(plaintext_of(b"A=1".to_vec()), Ok("A=1".to_string()));
}
