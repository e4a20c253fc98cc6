use cyber_note::args::{arg_present, positional_args};
use cyber_note::cli::{
    append_note_text, compose_note, decrypted_output_name, download_local_name,
    encrypted_output_name, main_command, removal_target, remove_lines, strip_gpg,
    year_file_name, LineRemoval, LineRemovalError, MainCommand,
};
use cyber_note::commands::{
    batch_flag, download_target_path, names_without, parse_decrypt_args, parse_download_args,
    parse_encrypt_args, parse_new_file_args, parse_remote_encrypt_args, path_like,
    rename_in_list, resolve_remote_target, sorted_unique, sync_custom_path, sync_is_raw,
};

fn v(list: &[&str]) -> Vec<String> {
    list.iter().map(|s| s.to_string()).collect()
}

#[test]
fn main_command_routes() {
    assert_eq!(main_command(&v(&["a", "-i"]), false), MainCommand::Init);
    assert_eq!(main_command(&v(&["a", "-i", "-s"]), false), MainCommand::InitConflict);
    assert_eq!(main_command(&v(&["a", "-si"]), false), MainCommand::InitConflict);
    assert_eq!(main_command(&v(&["a", "help"]), false), MainCommand::Help);
    assert_eq!(main_command(&v(&["a"]), false), MainCommand::Overview);
    assert_eq!(main_command(&v(&["a"]), true), MainCommand::AppendNote);
    assert_eq!(main_command(&v(&["a", "--show", "x"]), false), MainCommand::DeprecatedLongFlag(1));
    assert_eq!(main_command(&v(&["a", "--list"]), false), MainCommand::List);
    assert_eq!(main_command(&v(&["a", "--all"]), false), MainCommand::ShowYear);
    assert_eq!(main_command(&v(&["a", "--sync"]), false), MainCommand::Sync);
    assert_eq!(main_command(&v(&["a", "-s", "f.txt", "--raw"]), false), MainCommand::Sync);
    assert_eq!(main_command(&v(&["a", "--web"]), false), MainCommand::Web(None));
    assert_eq!(main_command(&v(&["a", "-w", "8080"]), false), MainCommand::Web(Some(2)));
    assert_eq!(main_command(&v(&["a", "-r3"]), false), MainCommand::RemoveLines);
    assert_eq!(main_command(&v(&["a", "-m", "x", "y"]), false), MainCommand::Rename);
    assert_eq!(main_command(&v(&["a", "-f", "1"]), false), MainCommand::Delete);
    assert_eq!(main_command(&v(&["a", "-t", "-f", "1"]), false), MainCommand::Totp);
    assert_eq!(main_command(&v(&["a", "-n", "f"]), false), MainCommand::New);
    assert_eq!(main_command(&v(&["a", "-bs"]), false), MainCommand::SyncAll { raw: false });
    assert_eq!(main_command(&v(&["a", "-bsu"]), false), MainCommand::SyncAll { raw: true });
    assert_eq!(main_command(&v(&["a", "-bd", "-x"]), false), MainCommand::DownloadAll { decrypt: true });
    assert_eq!(main_command(&v(&["a", "-b"]), false), MainCommand::BatchHelp);
    assert_eq!(main_command(&v(&["a", "-as"]), false), MainCommand::YearSync { raw: false });
    assert_eq!(main_command(&v(&["a", "-a"]), false), MainCommand::ShowYear);
    assert_eq!(main_command(&v(&["a", "-a", "-v"]), false), MainCommand::ShowYear);
    assert_eq!(main_command(&v(&["a", "-a", "2024"]), false), MainCommand::ShowTarget(2));
    assert_eq!(main_command(&v(&["a", "-p", "pw", "f"]), false), MainCommand::Encrypt);
    assert_eq!(main_command(&v(&["a", "-d", "2024"]), false), MainCommand::Download);
    assert_eq!(main_command(&v(&["a", "-x", "f.gpg"]), false), MainCommand::Decrypt);
    assert_eq!(main_command(&v(&["a", "-k"]), false), MainCommand::Ledger);
    assert_eq!(main_command(&v(&["a", "-sl"]), false), MainCommand::SyncThenList);
    assert_eq!(main_command(&v(&["a", "-s"]), false), MainCommand::Sync);
    assert_eq!(main_command(&v(&["a", "-l"]), false), MainCommand::List);
    assert_eq!(main_command(&v(&["a", "hello", "world"]), false), MainCommand::AppendNote);
    assert_eq!(main_command(&v(&["a", "-z"]), false), MainCommand::Unknown);
}

#[test]
fn removal_targets() {
    assert_eq!(removal_target(&v(&["a", "-r", "3"])), Some("3".to_string()));
    assert_eq!(removal_target(&v(&["a", "-r"])), None);
    assert_eq!(removal_target(&v(&["a", "-r1-5"])), Some("1-5".to_string()));
    assert_eq!(removal_target(&v(&["a", "-v", "-rmemo"])), Some("memo".to_string()));
}

#[test]
fn remove_lines_from_the_end() {
    let doc = v(&["l1", "l2", "l3", "l4"]);
    match remove_lines(doc.clone(), "1") {
        Ok((kept, LineRemoval::Single { k, text })) => {
            assert_eq!(k, 1);
            assert_eq!(text, "l4");
            assert_eq!(kept, v(&["l1", "l2", "l3"]));
        }
        _ => panic!("single removal expected"),
    }
    match remove_lines(doc.clone(), "3-2") {
        Ok((kept, LineRemoval::Range { min, max, removed })) => {
            assert_eq!((min, max, removed), (2, 3, 2));
            assert_eq!(kept, v(&["l1", "l4"]));
        }
        _ => panic!("range removal expected"),
    }
    match remove_lines(doc.clone(), "2-10") {
        Ok((kept, LineRemoval::Range { removed, .. })) => {
            assert_eq!(removed, 3);
            assert_eq!(kept, v(&["l4"]));
        }
        _ => panic!("clamped range expected"),
    }
}

#[test]
fn remove_lines_by_keyword() {
    let doc = v(&["buy milk", "memo: call", "milk again"]);
    match remove_lines(doc.clone(), "milk") {
        Ok((kept, LineRemoval::Keyword { removed })) => {
            assert_eq!(removed, 2);
            assert_eq!(kept, v(&["memo: call"]));
            assert!(kept.iter().all(|l| !l.contains("milk")));
        }
        _ => panic!("keyword removal expected"),
    }
    assert!(matches!(remove_lines(doc, "absent"), Err(LineRemovalError::KeywordNotFound)));
}

#[test]
fn remove_lines_errors() {
    assert!(matches!(remove_lines(Vec::new(), "1"), Err(LineRemovalError::EmptyDocument)));
    assert!(matches!(remove_lines(v(&["x"]), "0"), Err(LineRemovalError::ZeroIndex)));
    assert!(matches!(remove_lines(v(&["x"]), "0-2"), Err(LineRemovalError::ZeroIndex)));
    assert!(matches!(
        remove_lines(v(&["x", "y"]), "5"),
        Err(LineRemovalError::BeyondEnd { total: 2, k: 5 })
    ));
}

#[test]
fn note_composition() {
    assert_eq!(compose_note(&v(&["a", "hello", "world"]), false, ""), "hello world");
    assert_eq!(compose_note(&v(&["a", "title"]), true, "body\n\n"), "title\nbody");
    assert_eq!(compose_note(&v(&["a", "-v"]), true, "piped \n"), "piped");
    assert_eq!(compose_note(&v(&["a"]), true, "only piped\n"), "only piped");
    assert_eq!(append_note_text("", "x"), "x");
    assert_eq!(append_note_text("old", "x"), "old\nx");
    assert_eq!(append_note_text("old\n", "x"), "old\nx");
}

#[test]
fn file_name_rules() {
    assert_eq!(year_file_name("2026"), "2026.note.gpg");
    assert_eq!(year_file_name("20x6"), "20x6");
    assert_eq!(year_file_name("notes.txt"), "notes.txt");
    assert_eq!(strip_gpg("a.txt.gpg"), "a.txt");
    assert_eq!(strip_gpg("a.txt"), "a.txt");
    assert_eq!(download_local_name("2026.note.gpg", true), "2026.note");
    assert_eq!(download_local_name("2026.note.gpg", false), "2026.note.gpg");
    assert_eq!(decrypted_output_name("x.gpg"), "x");
    assert_eq!(decrypted_output_name("x.asc"), "x.asc.decrypted");
    assert_eq!(encrypted_output_name("x"), "x.gpg");
    assert_eq!(decrypted_output_name(&encrypted_output_name("report.pdf")), "report.pdf");
}

#[test]
fn argument_helpers() {
    let a = v(&["a", "-f", "one", "-v", "two"]);
    assert_eq!(positional_args(&a, 1), v(&["one", "two"]));
    assert!(arg_present(&a, 0, "-v"));
    assert!(!arg_present(&a, 0, "-x"));
}

#[test]
fn encrypt_arguments() {
    let o = parse_encrypt_args(&v(&["a", "-p", "pw", "f1", "-s", "f2"])).unwrap();
    assert_eq!(o.passphrase, Some("pw".to_string()));
    assert_eq!(o.files, v(&["f1", "f2"]));
    assert!(o.upload);
    assert!(parse_encrypt_args(&v(&["a", "-p", "pw"])).is_none());
    let o = parse_encrypt_args(&v(&[
        "a", "-e", "--key", "K", "--iter", "1000", "-o", "out.gpg", "f", "-a",
    ]))
    .unwrap();
    assert_eq!(o.key_id, Some("K".to_string()));
    assert_eq!(o.iterations, Some(1000));
    assert_eq!(o.out_path, Some("out.gpg".to_string()));
    assert_eq!(o.files, v(&["f"]));
    assert!(o.all);
    assert!(!o.upload);
    let o = parse_encrypt_args(&v(&["a", "-e", "--iter", "many", "f"])).unwrap();
    assert_eq!(o.iterations, None);
}

#[test]
fn decrypt_and_remote_arguments() {
    let o = parse_decrypt_args(&v(&["a", "-x", "--pass", "pw", "f.gpg", "-o", "out"]));
    assert_eq!(o.passphrase, Some("pw".to_string()));
    assert_eq!(o.out_path, Some("out".to_string()));
    assert_eq!(o.files, v(&["f.gpg"]));
    assert!(!o.all);
    let r = parse_remote_encrypt_args(&v(&["a", "--remote-encrypt", "config.dae", "--keep-raw"]));
    assert_eq!(r.file, Some("config.dae".to_string()));
    assert!(!r.delete_original);
    let r = parse_remote_encrypt_args(&v(&["a", "-e", "f", "--pass", "p", "--iter", "9"]));
    assert_eq!(r.passphrase, Some("p".to_string()));
    assert_eq!(r.iterations, Some(9));
    assert!(r.delete_original);
}

#[test]
fn new_file_arguments() {
    let o = parse_new_file_args(&v(&["a", "-n", "123", "3", "2", "1"]));
    assert_eq!(o.file_name, Some("123".to_string()));
    assert_eq!(o.content, "3 2 1");
    assert_eq!(o.out_dir, None);
    assert!(!o.sync);
    let o = parse_new_file_args(&v(&["a", "-n", "f", "-o", "-s"]));
    assert_eq!(o.out_dir, Some(".".to_string()));
    assert_eq!(o.content, "\n");
    assert!(o.sync);
}

#[test]
fn download_arguments() {
    let o = parse_download_args(&v(&["a", "-d", "2024", "-x", "-o", "./out/"]));
    assert!(o.decrypt);
    assert!(!o.all);
    assert_eq!(o.out_path, Some("./out/".to_string()));
    assert_eq!(o.target, Some("2024".to_string()));
    let o = parse_download_args(&v(&["a", "-bd"]));
    assert!(o.all);
    assert_eq!(o.target, None);
    assert!(batch_flag(&v(&["a", "-s", "all"]), "-bs", "-sb"));
    assert!(!batch_flag(&v(&["a", "-s"]), "-bs", "-sb"));
}

#[test]
fn download_target_paths() {
    assert_eq!(download_target_path(Some("out/"), false, "2024", "2024.note", "/n"), "out/2024.note");
    assert_eq!(download_target_path(Some("x.txt"), false, "2024", "2024.note", "/n"), "x.txt");
    assert_eq!(download_target_path(None, false, "./f.gpg", "f.gpg", "/n"), "./f.gpg");
    assert_eq!(download_target_path(None, false, "f.gpg", "f.gpg", "/n"), "/n/f.gpg");
    assert!(path_like("../x"));
    assert!(!path_like("x"));
}

#[test]
fn sync_arguments() {
    assert!(sync_is_raw(&v(&["a", "-s", "f", "--raw"])));
    assert!(!sync_is_raw(&v(&["a", "-s", "f"])));
    assert_eq!(sync_custom_path(&v(&["a", "-s", "sync", "./doc.txt"])), Some("./doc.txt".to_string()));
    assert_eq!(sync_custom_path(&v(&["a", "-s"])), None);
}

#[test]
fn name_lists() {
    let names = v(&["b", "a", "c", "a"]);
    assert_eq!(sorted_unique(&names), v(&["a", "b", "c"]));
    assert_eq!(names_without(&names, &v(&["a"])), v(&["b", "c"]));
    assert_eq!(rename_in_list(&names, "a", "z"), v(&["b", "z", "c", "z"]));
    let files = v(&["x.gpg", "y.txt"]);
    assert_eq!(resolve_remote_target("2", &files), "y.txt");
    assert_eq!(resolve_remote_target("x.gpg", &files), "x.gpg");
    assert_eq!(resolve_remote_target("9", &files), "9");
    assert_eq!(resolve_remote_target("other", &files), "other");
}
